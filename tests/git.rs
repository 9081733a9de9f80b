use paks::git::{
    get_current_branch, get_pak_path_in_repo, get_uncommitted_changes, lines, list_tags,
    tag_exists, GitError,
};

#[test]
fn branch_or_detached_head() {
    assert_eq!(get_current_branch("main"), Ok("main".to_string()));
    assert_eq!(get_current_branch("HEAD"), Err(GitError::DetachedHead));
    assert_eq!(get_current_branch("HEADS"), Ok("HEADS".to_string()));
}

#[test]
fn tag_lookup_output() {
    assert!(tag_exists("v1.0.0"));
    assert!(!tag_exists(""));
}

#[test]
fn tag_list_is_one_tag_per_line() {
    assert_eq!(list_tags("v2.0.0\nv1.1.0\r\nv1.0.0"), vec!["v2.0.0", "v1.1.0", "v1.0.0"]);
    assert!(list_tags("").is_empty());
}

#[test]
fn status_lines() {
    assert_eq!(
        get_uncommitted_changes("M SKILL.md\n?? notes.txt"),
        vec!["M SKILL.md", "?? notes.txt"]
    );
    assert!(get_uncommitted_changes("").is_empty());
}

#[test]
fn lines_match_std() {
    for s in ["a\nb", "a\n", "\n", "a\r\nb\r\n", "a\rb", "\n\nx", "x\n\n"] {
        let ours = lines(s);
        let std_lines: Vec<String> = s.lines().map(|l| l.to_string()).collect();
        assert_eq!(ours, std_lines, "input {:?}", s);
    }
}

#[test]
fn path_relative_to_repository_root() {
    assert_eq!(get_pak_path_in_repo("/repo", "/repo"), Ok(".".to_string()));
    assert_eq!(get_pak_path_in_repo("/repo", "/repo/skills/x"), Ok("skills/x".to_string()));
    assert_eq!(get_pak_path_in_repo("/", "/skills/x"), Ok("skills/x".to_string()));
    assert_eq!(get_pak_path_in_repo("/repo", "/repository/x"), Err(GitError::OutsideRepository));
    assert_eq!(get_pak_path_in_repo("/repo", "/other"), Err(GitError::OutsideRepository));
}
