use paks::manifest::{ManifestError, Skill, SkillFrontmatter, SHORT_DESCRIPTION_WARNING};
use paks::names::NameProblem;

fn frontmatter(name: &str, description: &str) -> SkillFrontmatter {
    SkillFrontmatter {
        name: name.to_string(),
        description: description.to_string(),
        license: None,
        compatibility: None,
        metadata: None,
        allowed_tools: None,
        authors: Vec::new(),
        repository: None,
        homepage: None,
        keywords: Vec::new(),
        categories: Vec::new(),
        dependencies: Vec::new(),
    }
}

#[test]
fn test_frontmatter_validation() {
    let valid = SkillFrontmatter {
        name: "my-skill".to_string(),
        description: "A skill that does something useful for users".to_string(),
        license: None,
        compatibility: None,
        metadata: None,
        allowed_tools: None,
        authors: Vec::new(),
        repository: None,
        homepage: None,
        keywords: Vec::new(),
        categories: Vec::new(),
        dependencies: Vec::new(),
    };
    assert!(valid.validate().is_ok());

    let invalid_name = SkillFrontmatter {
        name: "My-Skill".to_string(), // uppercase not allowed
        description: "A skill".to_string(),
        license: None,
        compatibility: None,
        metadata: None,
        allowed_tools: None,
        authors: Vec::new(),
        repository: None,
        homepage: None,
        keywords: Vec::new(),
        categories: Vec::new(),
        dependencies: Vec::new(),
    };
    assert!(invalid_name.validate().is_err());
}

#[test]
fn name_rules_fail_validation() {
    let d = "A description long enough to pass";
    assert_eq!(
        frontmatter("My-Skill", d).validate(),
        Err(ManifestError::Name(NameProblem::Characters))
    );
    assert_eq!(
        frontmatter("my--skill", d).validate(),
        Err(ManifestError::Name(NameProblem::DoubleHyphen))
    );
    assert_eq!(
        frontmatter("-my-skill", d).validate(),
        Err(ManifestError::Name(NameProblem::EdgeHyphen))
    );
    assert_eq!(frontmatter("", d).validate(), Err(ManifestError::Name(NameProblem::Length)));
    assert_eq!(
        frontmatter(&"a".repeat(65), d).validate(),
        Err(ManifestError::Name(NameProblem::Length))
    );
    assert!(frontmatter(&"a".repeat(64), d).validate().is_ok());
}

#[test]
fn description_length_rules() {
    assert_eq!(frontmatter("s", "").validate(), Err(ManifestError::DescriptionLength));
    assert_eq!(
        frontmatter("s", &"d".repeat(1025)).validate(),
        Err(ManifestError::DescriptionLength)
    );
    assert_eq!(frontmatter("s", &"d".repeat(1024)).validate(), Ok(vec![]));
    assert_eq!(
        frontmatter("s", "ten chars!").validate(),
        Ok(vec![SHORT_DESCRIPTION_WARNING.to_string()])
    );
    assert_eq!(frontmatter("s", &"d".repeat(20)).validate(), Ok(vec![]));
}

#[test]
fn compatibility_is_capped() {
    let mut fm = frontmatter("s", &"d".repeat(30));
    fm.compatibility = Some("c".repeat(501));
    assert_eq!(fm.validate(), Err(ManifestError::CompatibilityTooLong));
    fm.compatibility = Some("c".repeat(500));
    assert_eq!(fm.validate(), Ok(vec![]));
}

#[test]
fn new_skill_defaults() {
    let skill = Skill::new("/tmp/x".to_string(), "my-skill", "Does things");
    assert_eq!(skill.name(), "my-skill");
    assert_eq!(skill.version(), "0.1.0");
    assert_eq!(skill.version_opt(), Some("0.1.0"));
    assert_eq!(skill.frontmatter.license, Some("MIT".to_string()));
    assert!(skill.instructions.starts_with("# my-skill\n\n## When to use this skill\n"));
    assert!(skill.instructions.ends_with("Add your instructions here.\n"));
}

#[test]
fn version_comes_from_metadata() {
    let mut skill = Skill::new("d".to_string(), "s", "d");
    skill.frontmatter.metadata = None;
    assert_eq!(skill.version(), "0.1.0");
    assert_eq!(skill.version_opt(), None);
    skill.frontmatter.metadata = Some(vec![
        ("author".to_string(), "me".to_string()),
        ("version".to_string(), "2.5.0".to_string()),
    ]);
    assert_eq!(skill.version(), "2.5.0");
    assert_eq!(skill.version_opt(), Some("2.5.0"));
}

#[test]
fn optional_directories_are_probed() {
    let skill = Skill::new("/nonexistent/skill/dir".to_string(), "s", "d");
    assert!(!skill.has_scripts());
    assert!(!skill.has_references());
    assert!(!skill.has_assets());
}
