use paks::api::{ContentItemType, PakSortBy, PakStatus, PakTimeWindow, PakVersionStatus, PakVisibility};
use paks::commands::{
    confirms_removal, default_description, review_skill, EMPTY_ASSETS_WARNING,
    EMPTY_SCRIPTS_WARNING, NO_LICENSE_WARNING, NO_VERSION_WARNING,
};
use paks::manifest::{ManifestError, Skill, SHORT_DESCRIPTION_WARNING};

#[test]
fn descriptions_by_template() {
    assert_eq!(default_description("basic", "k8s"), "A skill that provides k8s functionality");
    assert_eq!(default_description("devops", "k8s"), "DevOps automation skill for k8s");
    assert_eq!(default_description("coding", "k8s"), "Coding assistance skill for k8s");
    assert_eq!(default_description("other", "k8s"), "A skill for k8s");
}

#[test]
fn validation_report_collects_warnings() {
    let mut skill = Skill::new("/s".to_string(), "s", "short");
    skill.frontmatter.license = None;
    skill.frontmatter.metadata = None;
    let assets = vec![".gitkeep".to_string()];
    let report = review_skill(&skill, Some(0), Some(2), Some(&assets), false);
    assert_eq!(report.error, None);
    assert_eq!(
        report.warnings,
        vec![
            SHORT_DESCRIPTION_WARNING,
            NO_VERSION_WARNING,
            NO_LICENSE_WARNING,
            EMPTY_SCRIPTS_WARNING,
            EMPTY_ASSETS_WARNING
        ]
    );
    assert!(!report.failed);
    let strict = review_skill(&skill, Some(0), Some(2), Some(&assets), true);
    assert!(strict.failed);
}

#[test]
fn validation_report_failures() {
    let skill = Skill::new("/s".to_string(), "Bad", "A description of enough length");
    let report = review_skill(&skill, None, None, None, false);
    assert!(matches!(report.error, Some(ManifestError::Name(_))));
    assert!(report.warnings.is_empty());
    assert!(report.failed);
    let good = Skill::new("/s".to_string(), "good", "A description of enough length");
    let report = review_skill(&good, None, None, None, true);
    assert!(report.warnings.is_empty());
    assert!(!report.failed);
}

#[test]
fn removal_answers() {
    assert!(confirms_removal("y\n"));
    assert!(confirms_removal("  YeS "));
    assert!(!confirms_removal("no"));
    assert!(!confirms_removal(""));
    assert!(!confirms_removal("yess"));
}

#[test]
fn wire_names() {
    assert_eq!(PakVisibility::Unlisted.as_str(), "UNLISTED");
    assert_eq!(PakStatus::Deprecated.as_str(), "DEPRECATED");
    assert_eq!(PakVersionStatus::Approved.as_str(), "APPROVED");
    assert_eq!(PakSortBy::MostPopular.as_str(), "MOST_POPULAR");
    assert_eq!(PakTimeWindow::AllTime.as_str(), "ALL_TIME");
    assert_eq!(ContentItemType::Dir.as_str(), "dir");
}
