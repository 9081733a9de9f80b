use paks::version::{filter_semver_tags, next_tag, parse_version, BumpKind, Version, VersionError};

#[test]
fn parse_version_accepts_plain_and_v_prefixed() {
    assert_eq!(parse_version("1.2.3"), Ok((1, 2, 3)));
    assert_eq!(parse_version("v1.2.3"), Ok((1, 2, 3)));
    assert_eq!(parse_version("v0.0.0"), Ok((0, 0, 0)));
    assert_eq!(parse_version("4294967295.0.+7"), Ok((4294967295, 0, 7)));
}

#[test]
fn parse_version_reports_the_failing_part() {
    assert_eq!(parse_version("1.2"), Err(VersionError::WrongPartCount));
    assert_eq!(parse_version("1.2.3.4"), Err(VersionError::WrongPartCount));
    assert_eq!(parse_version("v1.x.3"), Err(VersionError::InvalidMinor));
    assert_eq!(parse_version("x.1.3"), Err(VersionError::InvalidMajor));
    assert_eq!(parse_version("1.2.-3"), Err(VersionError::InvalidPatch));
    assert_eq!(parse_version("1.2.4294967296"), Err(VersionError::InvalidPatch));
    assert_eq!(parse_version("vv1.2.3"), Err(VersionError::InvalidMajor));
    assert_eq!(parse_version("1..3"), Err(VersionError::InvalidMinor));
    assert_eq!(parse_version(""), Err(VersionError::WrongPartCount));
}

#[test]
fn bumps_of_one_two_three() {
    let v = Version { major: 1, minor: 2, patch: 3 };
    assert_eq!(v.bumped(BumpKind::Patch).unwrap().tag(), "v1.2.4");
    assert_eq!(v.bumped(BumpKind::Minor).unwrap().tag(), "v1.3.0");
    assert_eq!(v.bumped(BumpKind::Major).unwrap().tag(), "v2.0.0");
}

#[test]
fn next_tag_from_version_text() {
    assert_eq!(next_tag("1.2.3", BumpKind::Patch), Ok("v1.2.4".to_string()));
    assert_eq!(next_tag("v9.99.109", BumpKind::Minor), Ok("v9.100.0".to_string()));
    assert_eq!(next_tag("0.1", BumpKind::Patch), Err(VersionError::WrongPartCount));
    assert_eq!(next_tag("1.2.4294967295", BumpKind::Patch), Err(VersionError::TooLarge));
    assert_eq!(next_tag("4294967295.0.0", BumpKind::Major), Err(VersionError::TooLarge));
}

#[test]
fn tags_render_in_decimal() {
    let v = Version { major: 10, minor: 0, patch: 4294967295 };
    assert_eq!(v.tag(), "v10.0.4294967295");
}

#[test]
fn semver_tags_are_kept_in_order() {
    let tags: Vec<String> = ["v2.0.0", "latest", "v1.10.0", "release-1", "1.0.0", "v1.0"]
        .iter()
        .map(|s| s.to_string())
        .collect();
    assert_eq!(filter_semver_tags(&tags), vec!["v2.0.0", "v1.10.0", "1.0.0"]);
    assert!(filter_semver_tags(&Vec::new()).is_empty());
}
