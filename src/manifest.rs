//! The skill manifest: the front matter of a skill file, its checks, and the
//! framing of the file around it.

use vstd::prelude::*;
use vstd::string::*;

use crate::disk::path_is_dir;
use crate::names::{check_skill_name, name_problem, NameProblem};
use crate::text::{opt_str, join_path, same_text, views};

verus! {

/// A dependency on another skill. It is descriptive only.
#[derive(Clone, Debug)]
pub struct SkillDependency {
    pub name: String,
    pub version: Option<String>,
    pub git: Option<String>,
    pub git_ref: Option<String>,
    pub path: Option<String>,
}

/// The front matter of a skill file.
#[derive(Clone, Debug)]
pub struct SkillFrontmatter {
    /// Skill identifier: 1 to 64 of `a-z`, `0-9` and single inner hyphens.
    pub name: String,
    /// What the skill does: 1 to 1024 characters.
    pub description: String,
    pub license: Option<String>,
    /// Environment requirements: at most 500 characters.
    pub compatibility: Option<String>,
    /// Free key-value pairs; the key `version` holds the skill's version.
    pub metadata: Option<Vec<(String, String)>>,
    pub allowed_tools: Option<String>,
    pub authors: Vec<String>,
    pub repository: Option<String>,
    pub homepage: Option<String>,
    pub keywords: Vec<String>,
    pub categories: Vec<String>,
    pub dependencies: Vec<SkillDependency>,
}

/// Why a manifest was refused.
#[derive(Clone, Copy, Debug, PartialEq, Eq, Structural)]
pub enum ManifestError {
    /// The name breaks a naming rule.
    Name(NameProblem),
    /// The description is empty or longer than 1024 characters.
    DescriptionLength,
    /// The compatibility note is longer than 500 characters.
    CompatibilityTooLong,
}

/// The warning given for a description under 20 characters.
pub const SHORT_DESCRIPTION_WARNING: &'static str =
    "description is very short; consider adding more detail";

/// The version a skill has when its metadata names none.
pub const DEFAULT_VERSION: &'static str = "0.1.0";

/// The first rule that a manifest with these fields breaks.
pub open spec fn manifest_problem(
    name: Seq<char>,
    description: Seq<char>,
    compatibility: Option<Seq<char>>,
) -> Option<ManifestError> {
    if name_problem(name) is Some {
        Some(ManifestError::Name(name_problem(name)->0))
    } else if !(1 <= description.len() <= 1024) {
        Some(ManifestError::DescriptionLength)
    } else if compatibility is Some && compatibility->0.len() > 500 {
        Some(ManifestError::CompatibilityTooLong)
    } else {
        None
    }
}

/// The warnings for a valid manifest with this description.
pub open spec fn manifest_warnings(description: Seq<char>) -> Seq<Seq<char>> {
    if description.len() < 20 {
        seq![SHORT_DESCRIPTION_WARNING@]
    } else {
        Seq::empty()
    }
}

/// The value of the first entry whose key is `key`.
pub open spec fn lookup(entries: Seq<(String, String)>, key: Seq<char>) -> Option<Seq<char>>
    decreases entries.len(),
{
    if entries.len() == 0 {
        None
    } else if entries[0].0@ == key {
        Some(entries[0].1@)
    } else {
        lookup(entries.drop_first(), key)
    }
}

/// The version that the metadata records, if it records one.
pub open spec fn recorded_version(metadata: Option<Vec<(String, String)>>) -> Option<Seq<char>> {
    match metadata {
        Some(m) => lookup(m@, "version"@),
        None => None,
    }
}

/// The value of the first entry of `entries` whose key is `key`.
fn find_entry<'a>(entries: &'a Vec<(String, String)>, key: &str) -> (r: Option<&'a String>)
    ensures
        opt_str(match r {
            Some(v) => Some(*v),
            None => None,
        }) == lookup(entries@, key@),
{
    let mut i: usize = 0;
    assert(entries@.subrange(0, entries@.len() as int) =~= entries@);
    while i < entries.len()
        invariant
            i <= entries@.len(),
            lookup(entries@, key@) == lookup(entries@.subrange(i as int, entries@.len() as int), key@),
        decreases entries@.len() - i,
    {
        let ghost rest = entries@.subrange(i as int, entries@.len() as int);
        assert(rest.drop_first() =~= entries@.subrange(i + 1, entries@.len() as int));
        assert(rest[0] == entries@[i as int]);
        if same_text(entries[i].0.as_str(), key) {
            return Some(&entries[i].1);
        }
        i = i + 1;
    }
    None
}

impl SkillFrontmatter {
    /// Checks the naming and length rules. On success returns the warnings:
    /// one for a description under 20 characters.
    pub fn validate(&self) -> (r: Result<Vec<String>, ManifestError>)
        ensures
            match r {
                Ok(w) => manifest_problem(
                    self.name@,
                    self.description@,
                    opt_str(self.compatibility),
                ) is None && views(w@) == manifest_warnings(self.description@),
                Err(e) => manifest_problem(
                    self.name@,
                    self.description@,
                    opt_str(self.compatibility),
                ) == Some(e),
            },
    {
        if let Some(p) = check_skill_name(self.name.as_str()) {
            return Err(ManifestError::Name(p));
        }
        let dl = self.description.as_str().unicode_len();
        if dl == 0 || dl > 1024 {
            return Err(ManifestError::DescriptionLength);
        }
        if let Some(c) = &self.compatibility {
            if c.as_str().unicode_len() > 500 {
                return Err(ManifestError::CompatibilityTooLong);
            }
        }
        let mut warnings: Vec<String> = Vec::new();
        if dl < 20 {
            warnings.push(SHORT_DESCRIPTION_WARNING.to_owned());
        }
        assert(views(warnings@) =~= manifest_warnings(self.description@));
        Ok(warnings)
    }
}

/// A skill: its directory, its front matter and its instructions.
#[derive(Clone, Debug)]
pub struct Skill {
    /// Root directory of the skill.
    pub path: String,
    pub frontmatter: SkillFrontmatter,
    /// The body of the skill file.
    pub instructions: String,
}

/// The instructions that a new skill starts with.
pub open spec fn starter_instructions(name: Seq<char>) -> Seq<char> {
    "# "@ + name
        + "\n\n## When to use this skill\n\nDescribe when this skill should be activated.\n\n## Instructions\n\nAdd your instructions here.\n"@
}

impl Skill {
    /// A new skill at `path` with the MIT license, version `0.1.0`, and
    /// starter instructions headed by its name.
    pub fn new(path: String, name: &str, description: &str) -> (r: Skill)
        ensures
            r.path == path,
            r.frontmatter.name@ == name@,
            r.frontmatter.description@ == description@,
            opt_str(r.frontmatter.license) == Some("MIT"@),
            r.frontmatter.compatibility is None,
            r.frontmatter.metadata matches Some(m) && m@.len() == 1 && m@[0].0@ == "version"@
                && m@[0].1@ == DEFAULT_VERSION@,
            r.frontmatter.allowed_tools is None,
            r.frontmatter.authors@.len() == 0,
            r.frontmatter.repository is None,
            r.frontmatter.homepage is None,
            r.frontmatter.keywords@.len() == 0,
            r.frontmatter.categories@.len() == 0,
            r.frontmatter.dependencies@.len() == 0,
            r.instructions@ == starter_instructions(name@),
    {
        let mut metadata: Vec<(String, String)> = Vec::new();
        metadata.push(("version".to_owned(), DEFAULT_VERSION.to_owned()));
        let mut instructions = "# ".to_owned();
        instructions.append(name);
        instructions.append(
            "\n\n## When to use this skill\n\nDescribe when this skill should be activated.\n\n## Instructions\n\nAdd your instructions here.\n",
        );
        Skill {
            path,
            frontmatter: SkillFrontmatter {
                name: name.to_owned(),
                description: description.to_owned(),
                license: Some("MIT".to_owned()),
                compatibility: None,
                metadata: Some(metadata),
                allowed_tools: None,
                authors: Vec::new(),
                repository: None,
                homepage: None,
                keywords: Vec::new(),
                categories: Vec::new(),
                dependencies: Vec::new(),
            },
            instructions,
        }
    }

    /// Whether the skill has a `scripts` directory.
    pub fn has_scripts(&self) -> bool {
        path_is_dir(join_path(self.path.as_str(), "scripts").as_str())
    }

    /// Whether the skill has a `references` directory.
    pub fn has_references(&self) -> bool {
        path_is_dir(join_path(self.path.as_str(), "references").as_str())
    }

    /// Whether the skill has an `assets` directory.
    pub fn has_assets(&self) -> bool {
        path_is_dir(join_path(self.path.as_str(), "assets").as_str())
    }

    /// The skill's name.
    pub fn name(&self) -> (r: &str)
        ensures
            r@ == self.frontmatter.name@,
    {
        self.frontmatter.name.as_str()
    }

    /// The version recorded in the metadata, if any.
    pub fn version_opt(&self) -> (r: Option<&str>)
        ensures
            match r {
                Some(v) => recorded_version(self.frontmatter.metadata) == Some(v@),
                None => recorded_version(self.frontmatter.metadata) is None,
            },
    {
        match &self.frontmatter.metadata {
            Some(m) => match find_entry(m, "version") {
                Some(v) => Some(v.as_str()),
                None => None,
            },
            None => None,
        }
    }

    /// The version recorded in the metadata, or `0.1.0` where none is.
    pub fn version(&self) -> (r: &str)
        ensures
            r@ == match recorded_version(self.frontmatter.metadata) {
                Some(v) => v,
                None => DEFAULT_VERSION@,
            },
    {
        match self.version_opt() {
            Some(v) => v,
            None => DEFAULT_VERSION,
        }
    }
}

} // verus!
