use paks::materialize::{plan_dir_copy, CopyStep, DirEntryInfo, EntryKind};

fn entry(name: &str, kind: EntryKind) -> DirEntryInfo {
    DirEntryInfo { name: name.to_string(), kind }
}

#[test]
fn git_directory_is_skipped_and_links_are_kept() {
    let listing = vec![
        entry(".git", EntryKind::Dir),
        entry("SKILL.md", EntryKind::File),
        entry("scripts", EntryKind::Dir),
        entry("shared", EntryKind::Symlink("../common".to_string())),
        entry("sock", EntryKind::Other),
        entry(".gitignore", EntryKind::File),
    ];
    let plan = plan_dir_copy(&listing);
    assert_eq!(plan.len(), 4);
    assert!(matches!(&plan[0], CopyStep::CopyFile(n) if n == "SKILL.md"));
    assert!(matches!(&plan[1], CopyStep::Descend(n) if n == "scripts"));
    assert!(matches!(&plan[2], CopyStep::Link { name, target } if name == "shared" && target == "../common"));
    assert!(matches!(&plan[3], CopyStep::CopyFile(n) if n == ".gitignore"));
}

#[test]
fn a_git_file_or_link_is_still_copied() {
    let plan = plan_dir_copy(&vec![entry(".git", EntryKind::File)]);
    assert!(matches!(&plan[0], CopyStep::CopyFile(n) if n == ".git"));
    let plan = plan_dir_copy(&vec![entry(".git", EntryKind::Symlink("x".to_string()))]);
    assert!(matches!(&plan[0], CopyStep::Link { .. }));
    assert!(plan_dir_copy(&Vec::new()).is_empty());
}
