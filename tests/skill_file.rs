use paks::skill_file::{compose_skill_md, find_text, split_skill_md, trim_text, SkillFileError};

#[test]
fn test_parse_skill_md() {
    let content = r#"---
name: test-skill
description: A test skill for unit testing
---

# Test Skill

Instructions go here.
"#;
    let (front, body) = split_skill_md(content).unwrap();
    let fm: serde_yaml_ng::Value = serde_yaml_ng::from_str(&front).unwrap();
    assert_eq!(fm["name"].as_str(), Some("test-skill"));
    assert!(body.contains("# Test Skill"));
}

#[test]
fn framing_errors() {
    assert_eq!(split_skill_md("name: x\n---\n"), Err(SkillFileError::NoFrontmatter));
    assert_eq!(split_skill_md("---\nname: x\n"), Err(SkillFileError::Unclosed));
    assert_eq!(split_skill_md("  \n---\n---"), Ok((String::new(), String::new())));
}

#[test]
fn composed_files_split_back() {
    let file = compose_skill_md("name: s\ndescription: d\n", "# S\n");
    assert_eq!(file, "---\nname: s\ndescription: d\n---\n\n# S\n");
    assert_eq!(
        split_skill_md(&file),
        Ok(("name: s\ndescription: d".to_string(), "# S".to_string()))
    );
}

#[test]
fn trim_matches_std() {
    for s in ["  a b \t", "\u{3000}x\u{85}", "", " \n ", "x"] {
        assert_eq!(trim_text(s), s.trim());
    }
}

#[test]
fn substring_search() {
    assert_eq!(find_text("ab\n---c", "\n---"), Some(2));
    assert_eq!(find_text("abc", "\n---"), None);
    assert_eq!(find_text("abc", ""), Some(0));
}
