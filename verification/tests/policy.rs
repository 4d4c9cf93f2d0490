use update_check::flags::Flags;
use update_check::versions::dist_tags::DistTags;
use update_check::versions::matching::{
    decide_update, is_version_satisfying, match_dist_tag_with_target, should_update,
};
use update_check::versions::parse::VersionError;
use update_check::versions::version::VersionSpec;
use update_check::versions::version_target::VersionTarget;

const ALL_TARGETS: [VersionTarget; 11] = [
    VersionTarget::Latest,
    VersionTarget::Semver,
    VersionTarget::Major,
    VersionTarget::Minor,
    VersionTarget::Patch,
    VersionTarget::Pre,
    VersionTarget::Next,
    VersionTarget::Canary,
    VersionTarget::Rc,
    VersionTarget::Beta,
    VersionTarget::Alpha,
];

fn tags(latest: &str) -> DistTags {
    DistTags {
        latest: latest.to_string(),
        next: None,
        canary: None,
        rc: None,
        beta: None,
        alpha: None,
    }
}

fn flags(target: VersionTarget) -> Flags {
    Flags { development: false, production: false, global: false, target }
}

#[test]
fn minor_target_takes_a_minor_bump() {
    assert_eq!(should_update("1.2.0", "1.2.0", "1.3.0", &VersionTarget::Minor), Ok(true));
    assert_eq!(
        match_dist_tag_with_target(tags("1.3.0"), &VersionTarget::Minor),
        Some("1.3.0".to_string())
    );
}

#[test]
fn semver_target_respects_the_range() {
    assert_eq!(should_update("^1.2.0", "^1.2.0", "2.0.0", &VersionTarget::Semver), Ok(false));
    assert_eq!(should_update("^1.2.0", "^1.2.0", "1.3.0", &VersionTarget::Semver), Ok(true));
    assert_eq!(should_update("~1.2.0", "~1.2.0", "1.3.0", &VersionTarget::Semver), Ok(false));
    assert_eq!(should_update("~1.2.0", "~1.2.0", "1.2.7", &VersionTarget::Semver), Ok(true));
}

#[test]
fn same_version_is_never_an_update() {
    for target in ALL_TARGETS {
        assert_eq!(should_update("1.0.0", "1.0.0", "1.0.0", &target), Ok(false), "{target:?}");
        assert_eq!(
            should_update("1.0.0-rc.1", "1.0.0-rc.1", "1.0.0-rc.1", &target),
            Ok(false),
            "{target:?}"
        );
        assert_eq!(is_version_satisfying("^1.0.0", "1.0.0", &flags(target)), Ok(false));
    }
}

#[test]
fn lower_version_is_never_an_update() {
    for target in ALL_TARGETS {
        assert_eq!(should_update("^2.0.0", "^2.0.0", "1.9.9", &target), Ok(false), "{target:?}");
        assert_eq!(
            should_update("1.0.0", "1.0.0", "1.0.0-beta.1", &target),
            Ok(false),
            "{target:?}"
        );
    }
}

#[test]
fn pre_target_takes_the_highest_channel() {
    let mut dist_tags = tags("0.9.0");
    dist_tags.next = Some("1.0.0-alpha.2".to_string());
    let candidate = match_dist_tag_with_target(dist_tags, &VersionTarget::Pre);
    assert_eq!(candidate, Some("1.0.0-alpha.2".to_string()));
    assert_eq!(
        should_update("1.0.0-alpha.1", "1.0.0-alpha.1", "1.0.0-alpha.2", &VersionTarget::Pre),
        Ok(true)
    );
}

#[test]
fn pre_target_needs_a_prerelease_candidate() {
    assert_eq!(should_update("1.0.0", "1.0.0", "1.1.0", &VersionTarget::Pre), Ok(false));
    assert_eq!(should_update("1.0.0", "1.0.0", "1.1.0-beta.1", &VersionTarget::Pre), Ok(true));
    assert_eq!(should_update("1.0.0", "1.0.0", "1.1.0-beta.1", &VersionTarget::Beta), Ok(true));
    assert_eq!(should_update("1.0.0", "1.0.0", "1.1.0", &VersionTarget::Next), Ok(false));
    assert_eq!(should_update("1.0.0", "1.0.0", "0.9.0-beta.1", &VersionTarget::Canary), Ok(false));
}

#[test]
fn latest_target_does_not_leave_a_prerelease() {
    assert_eq!(should_update("1.0.0", "1.0.0", "2.0.0", &VersionTarget::Latest), Ok(true));
    assert_eq!(should_update("^1.0.0", "^1.0.0", "1.0.1", &VersionTarget::Latest), Ok(true));
    assert_eq!(
        should_update("1.0.0-beta.1", "1.0.0-beta.1", "1.0.0", &VersionTarget::Latest),
        Ok(false)
    );
}

#[test]
fn tiers_exclude_each_other() {
    let cases = [
        ("1.2.0", "2.0.0", VersionTarget::Major),
        ("1.2.0", "1.3.0", VersionTarget::Minor),
        ("1.2.0", "1.2.1", VersionTarget::Patch),
    ];
    for (current, candidate, tier) in cases {
        for target in [VersionTarget::Major, VersionTarget::Minor, VersionTarget::Patch] {
            assert_eq!(
                should_update(current, current, candidate, &target),
                Ok(target == tier),
                "{current} -> {candidate} under {target:?}"
            );
        }
    }
}

#[test]
fn only_semver_needs_the_constraint_to_be_a_range() {
    assert_eq!(
        should_update("workspace:*", "1.0.0", "1.1.0", &VersionTarget::Semver),
        Err(VersionError::InvalidRange)
    );
    assert_eq!(should_update("workspace:*", "1.0.0", "1.1.0", &VersionTarget::Latest), Ok(true));
    assert_eq!(should_update("workspace:*", "1.0.0", "1.1.0", &VersionTarget::Minor), Ok(true));
    assert_eq!(should_update("workspace:*", "1.0.0", "1.1.0", &VersionTarget::Major), Ok(false));
    assert_eq!(should_update("workspace:*", "1.0.0", "1.0.1", &VersionTarget::Patch), Ok(true));
    assert_eq!(
        should_update("workspace:*", "1.0.0", "1.1.0-rc.1", &VersionTarget::Pre),
        Ok(true)
    );
}

#[test]
fn not_newer_is_decided_before_the_range_is_read() {
    assert_eq!(should_update("workspace:*", "1.0.0", "1.0.0", &VersionTarget::Semver), Ok(false));
    assert_eq!(should_update("workspace:*", "1.0.0", "0.9.0", &VersionTarget::Semver), Ok(false));
}

#[test]
fn unreadable_versions_are_errors() {
    for target in ALL_TARGETS {
        assert_eq!(
            should_update("latest", "latest", "1.0.0", &target),
            Err(VersionError::InvalidVersion)
        );
        assert_eq!(
            should_update("^1.0.0", "^1.0.0", "not-a-version", &target),
            Err(VersionError::InvalidVersion)
        );
        assert_eq!(
            should_update("", "", "", &target),
            Err(VersionError::InvalidVersion)
        );
    }
}

#[test]
fn should_update_is_deterministic() {
    let inputs = [
        ("^1.2.0", "^1.2.0", "1.3.0"),
        ("workspace:*", "1.0.0", "1.1.0"),
        ("x", "y", "z"),
        ("1.0.0-alpha.1", "1.0.0-alpha.1", "1.0.0-alpha.2"),
    ];
    for (constraint, current, candidate) in inputs {
        for target in ALL_TARGETS {
            let first = should_update(constraint, current, candidate, &target);
            let second = should_update(constraint, current, candidate, &target);
            assert_eq!(first, second);
        }
    }
}

#[test]
fn decide_update_on_read_versions() {
    let current = VersionSpec::parse("1.2.0").unwrap();
    let minor = VersionSpec::parse("1.3.0").unwrap();
    let major = VersionSpec::parse("2.0.0").unwrap();
    assert_eq!(decide_update("^1.2.0", &current, &minor, &VersionTarget::Semver), Ok(true));
    assert_eq!(decide_update("^1.2.0", &current, &major, &VersionTarget::Semver), Ok(false));
    assert_eq!(decide_update("^1.2.0", &current, &major, &VersionTarget::Major), Ok(true));
    assert_eq!(decide_update("^1.2.0", &major, &current, &VersionTarget::Latest), Ok(false));
    assert_eq!(
        decide_update("||| nonsense", &current, &minor, &VersionTarget::Minor),
        Ok(true)
    );
}

#[test]
fn candidate_is_latest_for_the_plain_targets() {
    for target in [
        VersionTarget::Latest,
        VersionTarget::Semver,
        VersionTarget::Major,
        VersionTarget::Minor,
        VersionTarget::Patch,
    ] {
        let mut dist_tags = tags("3.1.4");
        dist_tags.next = Some("4.0.0-next.1".to_string());
        dist_tags.beta = Some("4.0.0-beta.9".to_string());
        assert_eq!(match_dist_tag_with_target(dist_tags, &target), Some("3.1.4".to_string()));
    }
}

#[test]
fn pre_target_falls_back_to_latest() {
    assert_eq!(
        match_dist_tag_with_target(tags("3.1.4"), &VersionTarget::Pre),
        Some("3.1.4".to_string())
    );
    let mut unreadable = tags("3.1.4");
    unreadable.next = Some("soon".to_string());
    unreadable.rc = Some("".to_string());
    assert_eq!(
        match_dist_tag_with_target(unreadable, &VersionTarget::Pre),
        Some("3.1.4".to_string())
    );
}

#[test]
fn channel_targets_take_their_channel() {
    let dist_tags = DistTags {
        latest: "1.0.0".to_string(),
        next: Some("2.0.0-next.3".to_string()),
        canary: Some("2.0.0-canary.8".to_string()),
        rc: Some("2.0.0-rc.1".to_string()),
        beta: Some("2.0.0-beta.5".to_string()),
        alpha: None,
    };
    let pick = |target: VersionTarget| match_dist_tag_with_target(dist_tags.clone(), &target);
    assert_eq!(pick(VersionTarget::Next), Some("2.0.0-next.3".to_string()));
    assert_eq!(pick(VersionTarget::Canary), Some("2.0.0-canary.8".to_string()));
    assert_eq!(pick(VersionTarget::Rc), Some("2.0.0-rc.1".to_string()));
    assert_eq!(pick(VersionTarget::Beta), Some("2.0.0-beta.5".to_string()));
    assert_eq!(pick(VersionTarget::Alpha), None);
    assert_eq!(pick(VersionTarget::Pre), Some("2.0.0-rc.1".to_string()));
}

#[test]
fn highest_prerelease_is_the_maximum_of_what_reads() {
    let dist_tags = DistTags {
        latest: "9.9.9".to_string(),
        next: Some("1.0.0-alpha.2".to_string()),
        canary: Some("not a version".to_string()),
        rc: None,
        beta: Some("1.0.0-beta.1".to_string()),
        alpha: Some("1.0.0-alpha.9".to_string()),
    };
    assert_eq!(dist_tags.highest_prerelease_version(), Some("1.0.0-beta.1".to_string()));
    assert_eq!(tags("1.0.0").highest_prerelease_version(), None);
}

#[test]
fn highest_prerelease_is_given_in_canonical_text() {
    let mut dist_tags = tags("1.0.0");
    dist_tags.canary = Some("v2.0.0-canary.01".to_string());
    assert_eq!(dist_tags.highest_prerelease_version(), Some("2.0.0-canary.1".to_string()));
}

#[test]
fn of_equal_channels_the_later_stays() {
    let mut dist_tags = tags("1.0.0");
    dist_tags.next = Some("2.0.0-rc.1+from.next".to_string());
    dist_tags.beta = Some("2.0.0-rc.1+from.beta".to_string());
    assert_eq!(
        dist_tags.highest_prerelease_version(),
        Some("2.0.0-rc.1+from.beta".to_string())
    );
}
