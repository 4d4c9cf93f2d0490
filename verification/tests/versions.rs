use update_check::utils::order::{bytes_equal, bytes_less, str_eq, str_less};
use update_check::versions::parse::{
    normalize_version, parse_range, parse_version, VersionError,
};
use update_check::versions::version::{classify_diff, Identifier, VersionDiff, VersionSpec};
use update_check::versions::version_target::VersionTarget;

fn version(text: &str) -> VersionSpec {
    VersionSpec::parse(text).unwrap()
}

#[test]
fn byte_order_of_text() {
    assert!(str_less("Zeta", "alpha"));
    assert!(!str_less("alpha", "Zeta"));
    assert!(str_less("abc", "abd"));
    assert!(str_less("ab", "abc"));
    assert!(!str_less("abc", "ab"));
    assert!(!str_less("abc", "abc"));
    assert!(str_less("", "a"));
    assert!(!str_less("", ""));
    assert!(str_less("a", "é"));
    assert!(str_eq("left-pad", "left-pad"));
    assert!(!str_eq("left-pad", "left-pad "));
    assert!(!str_eq("a", "b"));
    assert!(bytes_less(&[1, 2], &[1, 3]));
    assert!(!bytes_less(&[1, 3], &[1, 2]));
    assert!(bytes_equal(&[], &[]));
    assert!(!bytes_equal(&[1], &[1, 1]));
}

#[test]
fn normalize_strips_up_to_first_digit() {
    assert_eq!(normalize_version("^1.2.3"), "1.2.3");
    assert_eq!(normalize_version("~0.4.0"), "0.4.0");
    assert_eq!(normalize_version(">=2.0.0"), "2.0.0");
    assert_eq!(normalize_version("v1.0.0"), "1.0.0");
    assert_eq!(normalize_version("1.0.0"), "1.0.0");
    assert_eq!(normalize_version("latest"), "");
    assert_eq!(normalize_version(""), "");
    assert_eq!(normalize_version("^~^7"), "7");
    assert_eq!(normalize_version("é→1.0.0-β"), "1.0.0-β");
}

#[test]
fn normalize_is_idempotent() {
    for text in ["^1.2.3", "~0.4.0", "workspace:*", "", "x1y2", ">=1.0.0 <2.0.0"] {
        let once = normalize_version(text);
        assert_eq!(normalize_version(once), once);
    }
}

#[test]
fn parse_reads_all_parts() {
    let v = version("1.2.3-alpha.1+build.5");
    assert_eq!(v.major, 1);
    assert_eq!(v.minor, 2);
    assert_eq!(v.patch, 3);
    assert_eq!(
        v.pre_release,
        vec![Identifier::AlphaNumeric("alpha".to_string()), Identifier::Numeric(1)]
    );
    assert_eq!(
        v.build,
        vec![Identifier::AlphaNumeric("build".to_string()), Identifier::Numeric(5)]
    );
}

#[test]
fn parse_plain_version() {
    let v = version("10.20.30");
    assert_eq!(
        v,
        VersionSpec { major: 10, minor: 20, patch: 30, pre_release: vec![], build: vec![] }
    );
}

#[test]
fn parse_version_strips_the_prefix() {
    assert_eq!(parse_version("^1.2.3").unwrap(), version("1.2.3"));
    assert_eq!(parse_version("~1.2.3-rc.1").unwrap(), version("1.2.3-rc.1"));
    assert_eq!(parse_version(">=4.5.6").unwrap(), version("4.5.6"));
    assert_eq!(parse_version("1.2.3").unwrap(), version("1.2.3"));
}

#[test]
fn parse_version_rejects_what_is_no_version() {
    assert_eq!(parse_version("not a version"), Err(VersionError::InvalidVersion));
    assert_eq!(parse_version(""), Err(VersionError::InvalidVersion));
    assert_eq!(parse_version("^1.2"), Err(VersionError::InvalidVersion));
    assert_eq!(parse_version("workspace:*"), Err(VersionError::InvalidVersion));
    assert_eq!(VersionSpec::parse("not-a-version"), Err(VersionError::InvalidVersion));
    assert_eq!(VersionSpec::parse("^1.2.3"), Err(VersionError::InvalidVersion));
}

#[test]
fn version_error_messages() {
    assert_eq!(VersionError::InvalidVersion.message(), "invalid semantic version");
    assert_eq!(VersionError::InvalidRange.message(), "invalid version range");
}

#[test]
fn precedence_follows_the_semver_chain() {
    let chain = [
        "1.0.0-alpha",
        "1.0.0-alpha.1",
        "1.0.0-alpha.beta",
        "1.0.0-beta",
        "1.0.0-beta.2",
        "1.0.0-beta.11",
        "1.0.0-rc.1",
        "1.0.0",
        "1.0.1",
        "1.1.0",
        "2.0.0-0",
        "2.0.0",
    ];
    for i in 0..chain.len() {
        for j in 0..chain.len() {
            let a = version(chain[i]);
            let b = version(chain[j]);
            assert_eq!(a.less_than(&b), i < j, "{} < {}", chain[i], chain[j]);
            assert_eq!(a.same_precedence(&b), i == j, "{} = {}", chain[i], chain[j]);
        }
    }
}

#[test]
fn precedence_is_total_and_transitive_on_samples() {
    let samples = ["0.0.1", "0.1.0", "1.0.0-a", "1.0.0-a.1", "1.0.0-1", "1.0.0", "1.0.0+b", "3.2.1"];
    for a in samples {
        for b in samples {
            let (x, y) = (version(a), version(b));
            let outcomes =
                [x.less_than(&y), x.same_precedence(&y), y.less_than(&x)].iter().filter(|t| **t).count();
            assert_eq!(outcomes, 1, "{a} against {b}");
            for c in samples {
                let z = version(c);
                if x.less_than(&y) && y.less_than(&z) {
                    assert!(x.less_than(&z), "{a} < {b} < {c}");
                }
            }
        }
    }
}

#[test]
fn build_metadata_plays_no_part_in_precedence() {
    let a = version("1.0.0+one");
    let b = version("1.0.0+two");
    assert!(a.same_precedence(&b));
    assert!(!a.less_than(&b));
    assert!(!b.less_than(&a));
    assert_ne!(a, b);
}

#[test]
fn numeric_identifiers_order_by_value_and_below_others() {
    assert!(Identifier::Numeric(2).less_than(&Identifier::Numeric(11)));
    assert!(!Identifier::Numeric(11).less_than(&Identifier::Numeric(2)));
    assert!(Identifier::Numeric(99).less_than(&Identifier::AlphaNumeric("a".to_string())));
    assert!(!Identifier::AlphaNumeric("a".to_string()).less_than(&Identifier::Numeric(99)));
    assert!(Identifier::AlphaNumeric("alpha".to_string())
        .less_than(&Identifier::AlphaNumeric("beta".to_string())));
    assert!(Identifier::AlphaNumeric("rc".to_string()).same(&Identifier::AlphaNumeric("rc".to_string())));
    assert!(!Identifier::AlphaNumeric("1".to_string()).same(&Identifier::Numeric(1)));
}

#[test]
fn is_prerelease_follows_the_text() {
    for (text, expected) in [
        ("1.0.0", false),
        ("1.0.0-alpha", true),
        ("1.0.0-0", true),
        ("1.0.0+build", false),
        ("1.0.0-rc.1+build.2", true),
    ] {
        let v = version(text);
        assert_eq!(v.is_prerelease(), expected, "{text}");
        let core = format!("{}.{}.{}", v.major, v.minor, v.patch);
        let shown = v.to_text();
        assert!(shown.starts_with(&core));
        assert_eq!(shown[core.len()..].starts_with('-'), expected, "{shown}");
    }
}

#[test]
fn classify_diff_names_the_most_significant_change() {
    let diff = |a: &str, b: &str| classify_diff(&version(a), &version(b));
    assert_eq!(diff("1.2.0", "2.0.0"), Some(VersionDiff::Major));
    assert_eq!(diff("1.2.0", "2.3.4"), Some(VersionDiff::Major));
    assert_eq!(diff("1.2.0", "1.3.0"), Some(VersionDiff::Minor));
    assert_eq!(diff("1.2.0", "1.3.9"), Some(VersionDiff::Minor));
    assert_eq!(diff("1.2.0", "1.2.1"), Some(VersionDiff::Patch));
    assert_eq!(diff("1.0.0-1", "1.1.1"), Some(VersionDiff::Minor));
    assert_eq!(diff("1.2.3", "2.0.0-beta.1"), Some(VersionDiff::Major));
}

#[test]
fn classify_diff_is_none_unless_strictly_newer() {
    let diff = |a: &str, b: &str| classify_diff(&version(a), &version(b));
    assert_eq!(diff("1.2.0", "1.2.0"), None);
    assert_eq!(diff("2.0.0", "1.0.0"), None);
    assert_eq!(diff("1.3.0", "1.2.9"), None);
    assert_eq!(diff("1.0.0", "1.0.0-rc.1"), None);
    assert_eq!(diff("1.0.0+a", "1.0.0+b"), None);
}

#[test]
fn classify_diff_is_none_where_only_the_prerelease_differs() {
    let diff = |a: &str, b: &str| classify_diff(&version(a), &version(b));
    assert_eq!(diff("1.0.0-alpha.1", "1.0.0-alpha.2"), None);
    assert_eq!(diff("1.0.0-rc.1", "1.0.0"), None);
}

#[test]
fn classify_diff_implies_newer_on_samples() {
    let samples = ["0.9.0", "1.0.0-alpha.1", "1.0.0", "1.0.1", "1.1.0", "2.0.0-rc.1", "2.0.0"];
    for a in samples {
        for b in samples {
            let (x, y) = (version(a), version(b));
            if classify_diff(&x, &y).is_some() {
                assert!(x.less_than(&y), "{a} -> {b}");
            }
        }
        assert_eq!(classify_diff(&version(a), &version(a)), None);
    }
}

#[test]
fn to_text_is_canonical() {
    assert_eq!(version("1.2.3").to_text(), "1.2.3");
    assert_eq!(version("v1.2.3").to_text(), "1.2.3");
    assert_eq!(version("0.0.0").to_text(), "0.0.0");
    assert_eq!(version("10.200.3000").to_text(), "10.200.3000");
    assert_eq!(version("1.0.0-alpha.2").to_text(), "1.0.0-alpha.2");
    assert_eq!(version("1.0.0-rc.1+build.7").to_text(), "1.0.0-rc.1+build.7");
    assert_eq!(version("1.0.0+exp.sha.5114f85").to_text(), "1.0.0+exp.sha.5114f85");
    let big = VersionSpec {
        major: u64::MAX,
        minor: 0,
        patch: 9,
        pre_release: vec![Identifier::Numeric(0), Identifier::AlphaNumeric("x-y".to_string())],
        build: vec![],
    };
    assert_eq!(big.to_text(), "18446744073709551615.0.9-0.x-y");
}

#[test]
fn round_trip_through_text() {
    for text in [
        "1.2.3",
        "^1.2.3",
        "~0.0.1-alpha",
        "v2.0.0-rc.1+build.5",
        "1.0.0-alpha.beta.1",
        ">=3.4.5-0",
        "1.0.0-01",
        "7.8.9+meta",
    ] {
        let first = parse_version(text).unwrap();
        let second = parse_version(&first.to_text()).unwrap();
        assert_eq!(second, first, "{text}");
    }
}

#[test]
fn ranges_are_checked_when_parsed() {
    assert!(parse_range("^1.2.0").is_ok());
    assert!(parse_range(">=1.0.0 <2.0.0").is_ok());
    assert!(parse_range("1.2.3").is_ok());
    assert!(parse_range("*").is_ok());
    assert_eq!(parse_range("workspace:*"), Err(VersionError::InvalidRange));
    assert_eq!(parse_range("foo"), Err(VersionError::InvalidRange));
    assert_eq!(parse_range("^1.2.0").unwrap().source(), "^1.2.0");
}

#[test]
fn ranges_admit_what_node_semver_admits() {
    let caret = parse_range("^1.2.0").unwrap();
    assert!(caret.satisfies(&version("1.2.0")));
    assert!(caret.satisfies(&version("1.3.0")));
    assert!(caret.satisfies(&version("1.99.99")));
    assert!(!caret.satisfies(&version("2.0.0")));
    assert!(!caret.satisfies(&version("1.1.9")));
    assert!(!caret.satisfies(&version("1.3.0-beta.1")));
    let tilde = parse_range("~1.2.0").unwrap();
    assert!(tilde.satisfies(&version("1.2.9")));
    assert!(!tilde.satisfies(&version("1.3.0")));
    let exact = parse_range("1.2.3").unwrap();
    assert!(exact.satisfies(&version("1.2.3")));
    assert!(!exact.satisfies(&version("1.2.4")));
    let pre = parse_range("^1.2.3-rc.4").unwrap();
    assert!(pre.satisfies(&version("1.2.3-rc.5")));
    assert!(!pre.satisfies(&version("1.2.3-rc.3")));
}

#[test]
fn target_names() {
    let all = [
        (VersionTarget::Latest, "latest"),
        (VersionTarget::Semver, "semver"),
        (VersionTarget::Major, "major"),
        (VersionTarget::Minor, "minor"),
        (VersionTarget::Patch, "patch"),
        (VersionTarget::Pre, "pre"),
        (VersionTarget::Next, "next"),
        (VersionTarget::Canary, "canary"),
        (VersionTarget::Rc, "rc"),
        (VersionTarget::Beta, "beta"),
        (VersionTarget::Alpha, "alpha"),
    ];
    for (target, name) in all {
        assert_eq!(target.to_str(), name);
        assert_eq!(VersionTarget::from_str(name), Ok(target));
        assert_eq!(VersionTarget::from_str(target.to_str()), Ok(target));
    }
}

#[test]
fn unknown_target_is_refused_with_its_name() {
    assert_eq!(
        VersionTarget::from_str("newest"),
        Err("Invalid version target: newest".to_string())
    );
    assert_eq!(VersionTarget::from_str(""), Err("Invalid version target: ".to_string()));
    assert_eq!(
        VersionTarget::from_str("Latest"),
        Err("Invalid version target: Latest".to_string())
    );
}

#[test]
fn default_target_is_latest() {
    assert_eq!(VersionTarget::default(), VersionTarget::Latest);
    assert!(!VersionTarget::Latest.selects_prerelease());
    assert!(!VersionTarget::Semver.selects_prerelease());
    assert!(!VersionTarget::Major.selects_prerelease());
    assert!(VersionTarget::Pre.selects_prerelease());
    assert!(VersionTarget::Next.selects_prerelease());
    assert!(VersionTarget::Alpha.selects_prerelease());
}

#[test]
fn canonical_text_can_outgrow_what_is_read() {
    let text = format!("1.0.0{}", "a".repeat(251));
    assert_eq!(text.len(), 256);
    let read = parse_version(&text).unwrap();
    assert_eq!(read.pre_release, vec![Identifier::AlphaNumeric("a".repeat(251))]);
    let shown = read.to_text();
    assert_eq!(shown, format!("1.0.0-{}", "a".repeat(251)));
    assert_eq!(parse_version(&shown), Err(VersionError::InvalidVersion));
}
