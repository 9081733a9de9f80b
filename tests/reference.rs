use paks::names::{AccountProblem, NameProblem};
use paks::reference::{RefError, SkillRef};

#[test]
fn test_skill_ref_parse() {
    let ref1 = SkillRef::parse("stakpak/kubernetes-deploy").unwrap();
    assert_eq!(ref1.account, "stakpak");
    assert_eq!(ref1.name, "kubernetes-deploy");
    assert!(ref1.version.is_none());

    let ref2 = SkillRef::parse("stakpak/kubernetes-deploy@1.2.3").unwrap();
    assert_eq!(ref2.account, "stakpak");
    assert_eq!(ref2.name, "kubernetes-deploy");
    assert_eq!(ref2.version, Some("1.2.3".to_string()));
}

#[test]
fn test_skill_ref_parse_invalid() {
    assert!(SkillRef::parse("invalid").is_err());
    assert!(SkillRef::parse("too/many/slashes").is_err());
    assert!(SkillRef::parse("UPPERCASE/skill").is_err());
}

#[test]
fn parse_then_to_uri_gives_the_input_back() {
    for input in ["stakpak/kubernetes-deploy", "a1/b-2", "x/y@1.0.0", "team-7/tool@v2.3.4-rc.1"] {
        assert_eq!(SkillRef::parse(input).unwrap().to_uri(), input);
    }
}

#[test]
fn version_is_split_at_the_last_at_sign() {
    assert_eq!(
        SkillRef::parse("owner/skill@a@b").unwrap_err(),
        RefError::Name(NameProblem::Characters)
    );
    assert_eq!(SkillRef::parse("owner@x/skill@1").unwrap_err(), RefError::Account(AccountProblem::Characters));
    let r = SkillRef::parse("owner/skill@1@").unwrap_err();
    assert_eq!(r, RefError::EmptyVersion);
}

#[test]
fn each_reference_error_names_its_rule() {
    assert_eq!(SkillRef::parse("owner/skill@").unwrap_err(), RefError::EmptyVersion);
    assert_eq!(SkillRef::parse("invalid").unwrap_err(), RefError::InvalidFormat);
    assert_eq!(SkillRef::parse("too/many/slashes").unwrap_err(), RefError::InvalidFormat);
    assert_eq!(
        SkillRef::parse("UPPERCASE/skill").unwrap_err(),
        RefError::Account(AccountProblem::Characters)
    );
    assert_eq!(SkillRef::parse("/skill").unwrap_err(), RefError::Account(AccountProblem::Length));
    let long_account = format!("{}/skill", "a".repeat(40));
    assert_eq!(
        SkillRef::parse(&long_account).unwrap_err(),
        RefError::Account(AccountProblem::Length)
    );
    assert_eq!(SkillRef::parse("owner/").unwrap_err(), RefError::Name(NameProblem::Length));
    let long_name = format!("owner/{}", "b".repeat(65));
    assert_eq!(SkillRef::parse(&long_name).unwrap_err(), RefError::Name(NameProblem::Length));
    assert_eq!(
        SkillRef::parse("owner/Skill").unwrap_err(),
        RefError::Name(NameProblem::Characters)
    );
    assert_eq!(
        SkillRef::parse("owner/-skill").unwrap_err(),
        RefError::Name(NameProblem::EdgeHyphen)
    );
    assert_eq!(
        SkillRef::parse("owner/skill-").unwrap_err(),
        RefError::Name(NameProblem::EdgeHyphen)
    );
    assert_eq!(
        SkillRef::parse("owner/my--skill").unwrap_err(),
        RefError::Name(NameProblem::DoubleHyphen)
    );
}

#[test]
fn account_allows_edge_and_double_hyphens() {
    let r = SkillRef::parse("-a--b-/skill").unwrap();
    assert_eq!(r.account, "-a--b-");
    let max = format!("{}/{}", "a".repeat(39), "b".repeat(64));
    assert!(SkillRef::parse(&max).is_ok());
}
