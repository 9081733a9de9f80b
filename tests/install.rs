use paks::install::{
    absolute_source, classify_lookup_failure, named_target, plan_local_install, plan_placement,
    plan_registry_install, registry_target, resolve_install_dir, InstallPathInfo, InstallPlan,
    InstallRepositoryInfo, InstallStep, LookupFailure,
};

fn repo() -> InstallRepositoryInfo {
    InstallRepositoryInfo {
        url: "https://github.com/o/r".to_string(),
        clone_url: "https://github.com/o/r.git".to_string(),
        ssh_url: "git@github.com:o/r.git".to_string(),
        default_branch: "main".to_string(),
    }
}

fn at(path: &str) -> InstallPathInfo {
    InstallPathInfo { path: path.to_string(), files: vec!["SKILL.md".to_string()] }
}

fn steps(plan: InstallPlan) -> Vec<InstallStep> {
    match plan {
        InstallPlan::Steps(s) => s,
        _ => panic!("expected steps"),
    }
}

#[test]
fn reinstalling_the_same_version_is_a_no_op() {
    let t = "/skills/o--s";
    let first = plan_registry_install(t, false, None, "1.0.0", "v1.0.0", &repo(), &at("."), false);
    assert_eq!(steps(first.unwrap()).len(), 2);
    let again =
        plan_registry_install(t, true, Some("1.0.0"), "1.0.0", "v1.0.0", &repo(), &at("."), false);
    assert!(matches!(again, Ok(InstallPlan::AlreadyInstalled)));
}

#[test]
fn another_version_needs_force() {
    let t = "/skills/o--s";
    let r = plan_registry_install(t, true, Some("0.9.0"), "1.0.0", "v1.0.0", &repo(), &at("."), false);
    let e = r.unwrap_err();
    assert_eq!(e.target, t);
    assert_eq!(e.installed_version, Some("0.9.0".to_string()));
    let r = plan_registry_install(t, true, None, "1.0.0", "v1.0.0", &repo(), &at("."), false);
    assert_eq!(r.unwrap_err().installed_version, None);
}

#[test]
fn forced_install_removes_then_fetches_then_copies() {
    let t = "/skills/o--s";
    let plan = plan_registry_install(t, true, Some("1.0.0"), "1.0.0", "v1.0.0", &repo(), &at("skills/s"), true);
    let s = steps(plan.unwrap());
    assert_eq!(s.len(), 3);
    assert!(matches!(&s[0], InstallStep::RemoveTree(p) if p == t));
    match &s[1] {
        InstallStep::Clone { url, git_ref, subpath } => {
            assert_eq!(url, "https://github.com/o/r.git");
            assert_eq!(git_ref.as_deref(), Some("v1.0.0"));
            assert_eq!(subpath.as_deref(), Some("skills/s"));
        }
        _ => panic!("expected a clone"),
    }
    assert!(matches!(&s[2], InstallStep::CopyInto(p) if p == t));
}

#[test]
fn repository_root_release_clones_without_subpath() {
    let plan = plan_registry_install("/d/o--s", false, None, "1", "v1", &repo(), &at("."), false);
    let s = steps(plan.unwrap());
    assert!(matches!(&s[0], InstallStep::Clone { subpath: None, .. }));
}

#[test]
fn placement_of_fetched_skills() {
    assert!(plan_placement("/d/s", true, false).is_err());
    let s = plan_placement("/d/s", true, true).unwrap();
    assert!(matches!(&s[0], InstallStep::RemoveTree(p) if p == "/d/s"));
    assert!(matches!(&s[1], InstallStep::CopyInto(p) if p == "/d/s"));
    let s = plan_placement("/d/s", false, false).unwrap();
    assert_eq!(s.len(), 1);
}

#[test]
fn local_install_onto_itself_does_nothing() {
    assert!(matches!(plan_local_install("/d/s", true, true, false), Ok(InstallPlan::AlreadyInPlace)));
    assert!(plan_local_install("/d/s", false, true, false).is_err());
    assert!(matches!(plan_local_install("/d/s", false, false, false), Ok(InstallPlan::Steps(_))));
}

#[test]
fn target_directories() {
    assert_eq!(registry_target("/home/u/.agents/skills", "stakpak", "k8s"), "/home/u/.agents/skills/stakpak--k8s");
    assert_eq!(registry_target("/skills/", "o", "n"), "/skills/o--n");
    assert_eq!(named_target("/skills", "my-skill"), "/skills/my-skill");
    assert_eq!(absolute_source("/work", "./s"), "/work/./s");
    assert_eq!(absolute_source("/work", "/abs/s"), "/abs/s");
}

#[test]
fn install_directory_choice() {
    assert_eq!(resolve_install_dir(Some("/x"), Some("/agent".to_string()), "/def".to_string()), "/x");
    assert_eq!(resolve_install_dir(None, Some("/agent".to_string()), "/def".to_string()), "/agent");
    assert_eq!(resolve_install_dir(None, None, "/def".to_string()), "/def");
    let expanded = resolve_install_dir(Some("~/skills"), None, "/def".to_string());
    assert!(expanded.ends_with("/skills"));
    assert!(!expanded.starts_with('~'));
    assert_eq!(resolve_install_dir(Some("~other/skills"), None, "/def".to_string()), "~other/skills");
}

#[test]
fn lookup_failures() {
    assert_eq!(classify_lookup_failure(Some(404)), LookupFailure::NotFound);
    assert_eq!(classify_lookup_failure(Some(403)), LookupFailure::AccessDenied);
    assert_eq!(classify_lookup_failure(Some(500)), LookupFailure::Other);
    assert_eq!(classify_lookup_failure(None), LookupFailure::Other);
}
