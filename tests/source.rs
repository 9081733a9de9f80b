use paks::source::{classify_source, detect_source_type, parse_git_url, SourceType};

#[test]
fn test_detect_source_type() {
    // Registry references
    assert!(matches!(
        detect_source_type("stakpak/kubernetes-deploy"),
        SourceType::Registry(_)
    ));
    assert!(matches!(
        detect_source_type("stakpak/kubernetes-deploy@1.0.0"),
        SourceType::Registry(_)
    ));

    // Git URLs
    assert!(matches!(
        detect_source_type("https://github.com/user/repo.git"),
        SourceType::Git { .. }
    ));
    assert!(matches!(
        detect_source_type("git@github.com:user/repo.git"),
        SourceType::Git { .. }
    ));

    // Local paths
    assert!(matches!(detect_source_type("./my-skill"), SourceType::Local(_)));
    assert!(matches!(detect_source_type("../other-skill"), SourceType::Local(_)));
    assert!(matches!(detect_source_type("/absolute/path"), SourceType::Local(_)));
}

#[test]
fn test_parse_git_url() {
    let (url, git_ref, path) =
        parse_git_url("https://github.com/user/repo.git#ref=v1.0.0&path=skills/my-skill");
    assert_eq!(url, "https://github.com/user/repo.git");
    assert_eq!(git_ref, Some("v1.0.0".to_string()));
    assert_eq!(path, Some("skills/my-skill".to_string()));

    let (url2, git_ref2, path2) = parse_git_url("https://github.com/user/repo.git");
    assert_eq!(url2, "https://github.com/user/repo.git");
    assert!(git_ref2.is_none());
    assert!(path2.is_none());
}

#[test]
fn registry_reference_keeps_its_version() {
    match detect_source_type("stakpak/kubernetes-deploy@1.0.0") {
        SourceType::Registry(r) => {
            assert_eq!(r.account, "stakpak");
            assert_eq!(r.name, "kubernetes-deploy");
            assert_eq!(r.version, Some("1.0.0".to_string()));
        }
        _ => panic!("expected a registry reference"),
    }
}

#[test]
fn git_fragment_sets_ref_and_path() {
    match detect_source_type("https://github.com/u/r.git#ref=v1.0.0&path=skills/x") {
        SourceType::Git { url, git_ref, path } => {
            assert_eq!(url, "https://github.com/u/r.git");
            assert_eq!(git_ref, Some("v1.0.0".to_string()));
            assert_eq!(path, Some("skills/x".to_string()));
        }
        _ => panic!("expected a git source"),
    }
}

#[test]
fn git_fragment_last_key_wins_and_unknown_keys_are_ignored() {
    let (url, git_ref, path) =
        parse_git_url("ssh://host/r.git#tag=v1&path=a&branch=main&x=1&path=b#c");
    assert_eq!(url, "ssh://host/r.git");
    assert_eq!(git_ref, Some("main".to_string()));
    assert_eq!(path, Some("b#c".to_string()));
    let (_, git_ref, path) = parse_git_url("http://h/r#");
    assert!(git_ref.is_none());
    assert!(path.is_none());
}

#[test]
fn classification_order() {
    assert!(matches!(classify_source("C:skills", false), SourceType::Local(_)));
    assert!(matches!(classify_source("owner/skill", true), SourceType::Local(_)));
    assert!(matches!(classify_source("owner/skill", false), SourceType::Registry(_)));
    match classify_source("not a reference", false) {
        SourceType::Local(p) => assert_eq!(p, "not a reference"),
        _ => panic!("expected the local fallback"),
    }
    assert!(matches!(classify_source("https://x/y", true), SourceType::Git { .. }));
}
