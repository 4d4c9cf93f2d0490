use update_check::aggregate::sort_by_name;
use update_check::package_info::PackageInfo;
use update_check::utils::order::{str_eq, str_less};
use update_check::versions::dist_tags::DistTags;
use update_check::versions::parse::{normalize_version, parse_range};
use update_check::versions::version::{Identifier, VersionSpec};

const VERSIONS: [&str; 26] = [
    "0.0.0",
    "0.0.1",
    "0.1.0",
    "0.9.0",
    "1.0.0-0",
    "1.0.0-1",
    "1.0.0-01",
    "1.0.0-2.a",
    "1.0.0-10",
    "1.0.0-a",
    "1.0.0-a.1",
    "1.0.0-a.b",
    "1.0.0-alpha",
    "1.0.0-alpha.1",
    "1.0.0-alpha.beta",
    "1.0.0-beta",
    "1.0.0-beta.2",
    "1.0.0-beta.11",
    "1.0.0-rc.1",
    "1.0.0-rc.1+build.1",
    "1.0.0-x-y",
    "1.0.0",
    "1.0.0+20240101",
    "v1.2.3",
    "2.0.0-canary.8",
    "10.20.30",
];

const RANGES: [&str; 12] = [
    "*",
    "",
    "1.0.0",
    "^1.0.0",
    "~1.0.0",
    "^0.1.0",
    ">=1.0.0-alpha <1.0.0",
    "1.x",
    ">0.9.0 <=1.0.0",
    "^1.0.0-beta.2",
    "0.0.1 || 10.x",
    "<1.0.0-a.b",
];

fn outside(id: &nodejs_semver::Identifier) -> Identifier {
    match id {
        nodejs_semver::Identifier::Numeric(n) => Identifier::Numeric(*n),
        nodejs_semver::Identifier::AlphaNumeric(s) => Identifier::AlphaNumeric(s.clone()),
    }
}

#[test]
fn parts_are_those_of_the_semver_crate() {
    for text in VERSIONS {
        let theirs = nodejs_semver::Version::parse(text).unwrap();
        let ours = VersionSpec::parse(text).unwrap();
        assert_eq!(ours.major, theirs.major(), "{text}");
        assert_eq!(ours.minor, theirs.minor(), "{text}");
        assert_eq!(ours.patch, theirs.patch(), "{text}");
        let pre: Vec<Identifier> = theirs.pre_release().iter().map(outside).collect();
        let build: Vec<Identifier> = theirs.build().iter().map(outside).collect();
        assert_eq!(ours.pre_release, pre, "{text}");
        assert_eq!(ours.build, build, "{text}");
    }
}

#[test]
fn acceptance_is_that_of_the_semver_crate() {
    for text in [
        "", "1", "1.2", "1.2.3", "1.2.3.4", "a.b.c", "1.2.3-", "1.2.3+", "01.2.3", " 1.2.3 ",
        "=1.2.3", "1.2.3 beta", "1.2.3beta", "900719925474100.0.0", "1.0.0-ä", "V1.0.0",
    ] {
        assert_eq!(
            VersionSpec::parse(text).is_ok(),
            nodejs_semver::Version::parse(text).is_ok(),
            "{text:?}"
        );
        assert_eq!(
            parse_range(text).is_ok(),
            nodejs_semver::Range::parse(text).is_ok(),
            "{text:?}"
        );
    }
}

#[test]
fn precedence_is_that_of_the_semver_crate() {
    for a in VERSIONS {
        for b in VERSIONS {
            let (x, y) = (VersionSpec::parse(a).unwrap(), VersionSpec::parse(b).unwrap());
            let (p, q) =
                (nodejs_semver::Version::parse(a).unwrap(), nodejs_semver::Version::parse(b).unwrap());
            assert_eq!(x.less_than(&y), p < q, "{a} < {b}");
            assert_eq!(x.same_precedence(&y), p == q, "{a} == {b}");
        }
    }
}

#[test]
fn prerelease_and_text_are_those_of_the_semver_crate() {
    for text in VERSIONS {
        let theirs = nodejs_semver::Version::parse(text).unwrap();
        let ours = VersionSpec::parse(text).unwrap();
        assert_eq!(ours.is_prerelease(), theirs.is_prerelease(), "{text}");
        assert_eq!(ours.to_text(), theirs.to_string(), "{text}");
    }
}

#[test]
fn satisfaction_is_that_of_the_semver_crate() {
    for range in RANGES {
        let theirs = nodejs_semver::Range::parse(range).unwrap();
        let ours = parse_range(range).unwrap();
        for text in VERSIONS {
            let version = nodejs_semver::Version::parse(text).unwrap();
            assert_eq!(
                ours.satisfies(&VersionSpec::parse(text).unwrap()),
                theirs.satisfies(&version),
                "{text} in {range:?}"
            );
        }
    }
}

#[test]
fn highest_prerelease_is_the_last_of_the_sorted_channels() {
    let picks = ["1.0.0-rc.1", "1.0.0-beta.11", "nonsense", "1.0.0-rc.1+build.1", "2.0.0-canary.8"];
    for next in picks {
        for canary in picks {
            for beta in picks {
                let tags = DistTags {
                    latest: "1.0.0".to_string(),
                    next: Some(next.to_string()),
                    canary: Some(canary.to_string()),
                    rc: None,
                    beta: Some(beta.to_string()),
                    alpha: Some("0.0.1".to_string()),
                };
                let mut parsed: Vec<nodejs_semver::Version> = [next, canary, beta, "0.0.1"]
                    .iter()
                    .filter_map(|s| nodejs_semver::Version::parse(s).ok())
                    .collect();
                parsed.sort();
                assert_eq!(
                    tags.highest_prerelease_version(),
                    parsed.pop().map(|v| v.to_string()),
                    "{next} {canary} {beta}"
                );
            }
        }
    }
}

#[test]
fn text_order_is_that_of_str() {
    let samples = ["", "a", "A", "ab", "abc", "abd", "b", "Z", "_", "@types/node", "é", "e", "zod", "日本"];
    for a in samples {
        for b in samples {
            assert_eq!(str_less(a, b), a < b, "{a:?} < {b:?}");
            assert_eq!(str_eq(a, b), a == b, "{a:?} == {b:?}");
        }
    }
}

#[test]
fn stripping_is_trimming_up_to_the_first_digit() {
    for text in ["^1.2.3", "~1", ">=1.0.0 <2", "v1.0.0", "latest", "", "→7", "a1b2", "0", "^^"] {
        assert_eq!(
            normalize_version(text),
            text.trim_start_matches(|c: char| !c.is_ascii_digit()),
            "{text:?}"
        );
        assert_eq!(
            update_check::package_info::normalize_version(text),
            text.trim_start_matches(&['^', '~'][..]),
            "{text:?}"
        );
    }
}

#[test]
fn sorting_is_a_stable_sort_by_name() {
    let names = ["vite", "react", "Zod", "zod", "react", "@babel/core", "axios", "vite", "a", ""];
    let updates: Vec<PackageInfo> = names
        .iter()
        .enumerate()
        .map(|(i, name)| PackageInfo {
            pkg_name: name.to_string(),
            current_version: format!("{i}.0.0"),
            latest_version: format!("{i}.1.0"),
        })
        .collect();
    let mut expected = updates.clone();
    expected.sort_by(|a, b| a.pkg_name.cmp(&b.pkg_name));
    assert_eq!(sort_by_name(updates), expected);
}
