use paks::publish::{
    dirty_action, normalize_tag, publish_request, release_message, resolve_choice,
    resolve_custom_version, select_tag, tag_choices, DirtyAction, PublishError, TagChoice,
    TagSelection,
};
use paks::version::{BumpKind, VersionError};

fn tags(list: &[&str]) -> Vec<String> {
    list.iter().map(|s| s.to_string()).collect()
}

#[test]
fn explicit_tag_must_exist() {
    let existing = tags(&["v1.0.0", "v1.1.0"]);
    match select_tag(Some("1.1.0"), false, "1.1.0", &existing) {
        Ok(TagSelection::Use { tag, create }) => {
            assert_eq!(tag, "v1.1.0");
            assert!(!create);
        }
        _ => panic!("expected the given tag"),
    }
    assert!(matches!(
        select_tag(Some("v2.0.0"), false, "1.1.0", &existing),
        Err(PublishError::TagMissing(t)) if t == "v2.0.0"
    ));
    assert!(matches!(
        select_tag(Some("latest"), true, "1.1.0", &existing),
        Err(PublishError::InvalidTag(VersionError::WrongPartCount))
    ));
}

#[test]
fn non_interactive_publish_bumps_the_patch() {
    let existing = tags(&["v1.2.3"]);
    match select_tag(None, true, "1.2.3", &existing) {
        Ok(TagSelection::Use { tag, create }) => {
            assert_eq!(tag, "v1.2.4");
            assert!(create);
        }
        _ => panic!("expected a new tag"),
    }
    let existing = tags(&["v1.2.4"]);
    assert!(matches!(
        select_tag(None, true, "1.2.3", &existing),
        Err(PublishError::TagExists(t)) if t == "v1.2.4"
    ));
    assert!(matches!(
        select_tag(None, true, "one", &existing),
        Err(PublishError::InvalidVersion(VersionError::WrongPartCount))
    ));
}

#[test]
fn interactive_choices() {
    let existing = tags(&["v1.0.0", "nightly", "v0.9.0"]);
    let choices = match select_tag(None, false, "1.2.3", &existing) {
        Ok(TagSelection::Ask(c)) => c,
        _ => panic!("expected choices"),
    };
    assert_eq!(choices.len(), 6);
    assert!(matches!(&choices[0], TagChoice::Bump { kind: BumpKind::Patch, tag } if tag == "v1.2.4"));
    assert!(matches!(&choices[1], TagChoice::Bump { kind: BumpKind::Minor, tag } if tag == "v1.3.0"));
    assert!(matches!(&choices[2], TagChoice::Bump { kind: BumpKind::Major, tag } if tag == "v2.0.0"));
    assert!(matches!(&choices[3], TagChoice::Existing(t) if t == "v1.0.0"));
    assert!(matches!(&choices[4], TagChoice::Existing(t) if t == "v0.9.0"));
    assert!(matches!(&choices[5], TagChoice::Custom));

    let without_version = tag_choices(&existing, "draft");
    assert_eq!(without_version.len(), 3);
    assert!(matches!(&without_version[0], TagChoice::Existing(_)));
}

#[test]
fn resolving_choices() {
    let existing = tags(&["v1.0.0"]);
    let bump = TagChoice::Bump { kind: BumpKind::Patch, tag: "v1.0.1".to_string() };
    assert_eq!(resolve_choice(&bump, "", &existing).ok(), Some(("v1.0.1".to_string(), true)));
    let taken = TagChoice::Bump { kind: BumpKind::Patch, tag: "v1.0.0".to_string() };
    assert!(matches!(resolve_choice(&taken, "", &existing), Err(PublishError::TagExists(_))));
    let old = TagChoice::Existing("v1.0.0".to_string());
    assert_eq!(resolve_choice(&old, "ignored", &existing).ok(), Some(("v1.0.0".to_string(), false)));
    assert_eq!(resolve_custom_version("2.0.0", &existing).ok(), Some("v2.0.0".to_string()));
    assert_eq!(
        resolve_choice(&TagChoice::Custom, "3.1.4", &existing).ok(),
        Some(("v3.1.4".to_string(), true))
    );
    assert!(matches!(resolve_custom_version("v1.0.0", &existing), Err(PublishError::TagExists(_))));
    assert!(matches!(
        resolve_custom_version("2.0", &existing),
        Err(PublishError::InvalidTag(VersionError::WrongPartCount))
    ));
}

#[test]
fn custom_versions_gain_a_v() {
    assert_eq!(normalize_tag("1.0.0"), Ok("v1.0.0".to_string()));
    assert_eq!(normalize_tag("v1.0.0"), Ok("v1.0.0".to_string()));
    assert_eq!(normalize_tag("1.a.0"), Err(VersionError::InvalidMinor));
}

#[test]
fn uncommitted_changes_policy() {
    assert_eq!(dirty_action(0, false), DirtyAction::Clean);
    assert_eq!(dirty_action(2, false), DirtyAction::Confirm);
    assert_eq!(dirty_action(2, true), DirtyAction::ProceedNoted);
}

#[test]
fn request_and_tag_message() {
    assert_eq!(release_message("v1.2.4"), "Release v1.2.4");
    let r = publish_request("https://g/r".to_string(), "main".to_string(), ".".to_string(), "v1".to_string());
    assert_eq!(r.path, None);
    assert_eq!(r.branch, "main");
    let r = publish_request("https://g/r".to_string(), "main".to_string(), "skills/a".to_string(), "v1".to_string());
    assert_eq!(r.path, Some("skills/a".to_string()));
    assert_eq!(r.tag, "v1");
    assert_eq!(r.repository, "https://g/r");
}
