//! Decisions of the smaller commands: what a new skill is described as, what
//! a validation reports, and what answer confirms a removal.

use vstd::prelude::*;
use vstd::string::*;

use crate::manifest::{manifest_problem, manifest_warnings, recorded_version, ManifestError, Skill};
use crate::skill_file::{trim, trim_text};
use crate::text::{opt_str, chars_of, same_text, views};

verus! {

/// What the command line asks of `create`.
#[derive(Clone, Debug)]
pub struct CreateArgs {
    pub name: String,
    /// Directory to create; the name by default.
    pub output: Option<String>,
    /// Template: `basic`, `devops`, `coding`, or any other word.
    pub template: String,
    pub with_scripts: bool,
    pub with_references: bool,
    pub with_assets: bool,
}

/// The description a new skill starts with, by template.
pub open spec fn description_for(template: Seq<char>, name: Seq<char>) -> Seq<char> {
    if template == "basic"@ {
        "A skill that provides "@ + name + " functionality"@
    } else if template == "devops"@ {
        "DevOps automation skill for "@ + name
    } else if template == "coding"@ {
        "Coding assistance skill for "@ + name
    } else {
        "A skill for "@ + name
    }
}

/// The description a new skill starts with, by template.
pub fn default_description(template: &str, name: &str) -> (r: String)
    ensures
        r@ == description_for(template@, name@),
{
    if same_text(template, "basic") {
        let mut d = "A skill that provides ".to_owned();
        d.append(name);
        d.append(" functionality");
        d
    } else if same_text(template, "devops") {
        let mut d = "DevOps automation skill for ".to_owned();
        d.append(name);
        d
    } else if same_text(template, "coding") {
        let mut d = "Coding assistance skill for ".to_owned();
        d.append(name);
        d
    } else {
        let mut d = "A skill for ".to_owned();
        d.append(name);
        d
    }
}

/// What the command line asks of `validate`.
#[derive(Clone, Debug)]
pub struct ValidateArgs {
    pub path: String,
    /// Treat warnings as failures.
    pub strict: bool,
}

/// The warning for a manifest without a version.
pub const NO_VERSION_WARNING: &'static str = "No version specified - required for publishing";

/// The warning for a manifest without a license.
pub const NO_LICENSE_WARNING: &'static str = "No license specified - recommended for sharing";

pub const EMPTY_SCRIPTS_WARNING: &'static str = "scripts/ directory is empty";

pub const EMPTY_REFERENCES_WARNING: &'static str = "references/ directory is empty";

pub const EMPTY_ASSETS_WARNING: &'static str = "assets/ directory is empty";

/// What a validation found.
#[derive(Clone, Debug)]
pub struct ValidationReport {
    /// The rule the manifest breaks, if any.
    pub error: Option<ManifestError>,
    pub warnings: Vec<String>,
    /// Whether validation fails: a broken rule, or any warning under strict mode.
    pub failed: bool,
}

/// The names that count as content of `assets/`: all but `.gitkeep`.
pub open spec fn asset_count(names: Seq<Seq<char>>) -> nat
    decreases names.len(),
{
    if names.len() == 0 {
        0
    } else if names.last() == ".gitkeep"@ {
        asset_count(names.drop_last())
    } else {
        asset_count(names.drop_last()) + 1
    }
}

pub open spec fn warn_if(cond: bool, w: Seq<char>) -> Seq<Seq<char>> {
    if cond {
        seq![w]
    } else {
        Seq::empty()
    }
}

/// The warnings of a validation, in order: the manifest's own where it is
/// valid, a missing version, a missing license, then each optional directory
/// that exists but is empty.
pub open spec fn validation_warnings(
    skill: Skill,
    scripts: Option<nat>,
    references: Option<nat>,
    assets: Option<Seq<Seq<char>>>,
) -> Seq<Seq<char>> {
    let fm = skill.frontmatter;
    let own = if manifest_problem(fm.name@, fm.description@, opt_str(fm.compatibility)) is None {
        manifest_warnings(fm.description@)
    } else {
        Seq::empty()
    };
    own + warn_if(recorded_version(fm.metadata) is None, NO_VERSION_WARNING@) + warn_if(
        fm.license is None,
        NO_LICENSE_WARNING@,
    ) + warn_if(scripts == Some(0nat), EMPTY_SCRIPTS_WARNING@) + warn_if(
        references == Some(0nat),
        EMPTY_REFERENCES_WARNING@,
    ) + warn_if(assets is Some && asset_count(assets->0) == 0, EMPTY_ASSETS_WARNING@)
}

fn count_assets(names: &Vec<String>) -> (r: usize)
    ensures
        r == asset_count(views(names@)),
{
    let mut count: usize = 0;
    let mut i: usize = 0;
    assert(views(names@).subrange(0, 0) =~= Seq::<Seq<char>>::empty());
    while i < names.len()
        invariant
            i <= names@.len(),
            count == asset_count(views(names@).subrange(0, i as int)),
            count <= i,
        decreases names@.len() - i,
    {
        let ghost pre = views(names@).subrange(0, i + 1);
        assert(pre.drop_last() =~= views(names@).subrange(0, i as int));
        assert(pre.last() == names@[i as int]@);
        if !same_text(names[i].as_str(), ".gitkeep") {
            count = count + 1;
        }
        i = i + 1;
    }
    assert(views(names@).subrange(0, i as int) =~= views(names@));
    count
}

fn push_if(out: &mut Vec<String>, cond: bool, w: &str)
    ensures
        views(final(out)@) == views(old(out)@) + warn_if(cond, w@),
{
    let ghost before = out@;
    if cond {
        out.push(w.to_owned());
    }
    assert(views(out@) =~= views(before) + warn_if(cond, w@));
}

/// Validates a loaded skill. `scripts` and `references` are the entry counts
/// of those directories, and `assets` the entry names of that one, each where
/// the directory exists and could be read.
pub fn review_skill(
    skill: &Skill,
    scripts: Option<usize>,
    references: Option<usize>,
    assets: Option<&Vec<String>>,
    strict: bool,
) -> (r: ValidationReport)
    ensures
        r.error == manifest_problem(
            skill.frontmatter.name@,
            skill.frontmatter.description@,
            opt_str(skill.frontmatter.compatibility),
        ),
        views(r.warnings@) == validation_warnings(
            *skill,
            match scripts {
                Some(n) => Some(n as nat),
                None => None,
            },
            match references {
                Some(n) => Some(n as nat),
                None => None,
            },
            match assets {
                Some(a) => Some(views(a@)),
                None => None,
            },
        ),
        r.failed == (r.error is Some || (strict && r.warnings@.len() > 0)),
{
    let mut warnings: Vec<String> = Vec::new();
    let error = match skill.frontmatter.validate() {
        Ok(w) => {
            warnings = w;
            None
        },
        Err(e) => Some(e),
    };
    assert(views(warnings@) =~= if error is None {
        manifest_warnings(skill.frontmatter.description@)
    } else {
        Seq::empty()
    });
    push_if(&mut warnings, skill.version_opt().is_none(), NO_VERSION_WARNING);
    push_if(&mut warnings, skill.frontmatter.license.is_none(), NO_LICENSE_WARNING);
    push_if(&mut warnings, scripts == Some(0usize), EMPTY_SCRIPTS_WARNING);
    push_if(&mut warnings, references == Some(0usize), EMPTY_REFERENCES_WARNING);
    let assets_empty = match assets {
        Some(a) => count_assets(a) == 0,
        None => false,
    };
    push_if(&mut warnings, assets_empty, EMPTY_ASSETS_WARNING);
    let failed = error.is_some() || (strict && warnings.len() > 0);
    ValidationReport { error, warnings, failed }
}

/// What the command line asks of `remove`.
#[derive(Clone, Debug)]
pub struct RemoveArgs {
    pub name: String,
    pub agent: Option<String>,
    /// Remove from every configured agent.
    pub all: bool,
    /// Do not ask before removing.
    pub yes: bool,
}

/// `c` with ASCII capitals made small.
pub open spec fn ascii_lower(c: char) -> char {
    if 'A' <= c && c <= 'Z' {
        ((c as u8) + 32) as char
    } else {
        c
    }
}

/// Whether `s` equals the lower-case word `w` ignoring ASCII case.
pub open spec fn equals_ignoring_case(s: Seq<char>, w: Seq<char>) -> bool {
    s.len() == w.len() && forall|i: int| 0 <= i < s.len() ==> ascii_lower(#[trigger] s[i]) == w[i]
}

fn equals_word_ignoring_case(s: &Vec<char>, w: &str) -> (r: bool)
    ensures
        r == equals_ignoring_case(s@, w@),
{
    let wv = chars_of(w);
    if s.len() != wv.len() {
        return false;
    }
    let mut i: usize = 0;
    while i < s.len()
        invariant
            i <= s@.len() == wv@.len(),
            wv@ == w@,
            forall|j: int| 0 <= j < i ==> ascii_lower(#[trigger] s@[j]) == wv@[j],
        decreases s@.len() - i,
    {
        let c = s[i];
        let lower = if 'A' <= c && c <= 'Z' {
            ((c as u8) + 32) as char
        } else {
            c
        };
        if lower != wv[i] {
            return false;
        }
        i = i + 1;
    }
    true
}

/// Whether an answer confirms a removal: `y` or `yes` in any case, around
/// whitespace.
pub fn confirms_removal(answer: &str) -> (r: bool)
    ensures
        r == (equals_ignoring_case(trim(answer@), "y"@) || equals_ignoring_case(
            trim(answer@),
            "yes"@,
        )),
{
    let t = trim_text(answer);
    let cs = chars_of(t.as_str());
    equals_word_ignoring_case(&cs, "y") || equals_word_ignoring_case(&cs, "yes")
}

} // verus!
