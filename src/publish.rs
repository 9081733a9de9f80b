//! The decisions of the publish pipeline: which tag to release, what to do
//! about uncommitted changes, and what to send to the registry.

use vstd::prelude::*;
use vstd::string::*;

use crate::text::{opt_str, contains_text, same_text, views};
use crate::version::{
    bump_of, filter_semver_tags, next_tag, next_tag_of, parse_version, semver_only, tag_of,
    version_of, BumpKind, Version, VersionError,
};

verus! {

/// What the command line asks of a publish.
#[derive(Clone, Debug)]
pub struct PublishArgs {
    /// The skill directory.
    pub path: String,
    /// Do not check the manifest first.
    pub skip_validation: bool,
    /// Show the plan and change nothing.
    pub dry_run: bool,
    /// Ask nothing: publish a patch bump, even with uncommitted changes.
    pub yes: bool,
    /// Publish this existing tag.
    pub tag: Option<String>,
}

/// What is sent to the registry's publish endpoint.
#[derive(Clone, Debug)]
pub struct PublishPakRequest {
    pub repository: String,
    /// Path of the skill inside the repository; absent for the root.
    pub path: Option<String>,
    pub branch: String,
    pub tag: String,
}

/// Why no tag could be chosen.
#[derive(Clone, Debug)]
pub enum PublishError {
    /// The given tag is not a version.
    InvalidTag(VersionError),
    /// The given tag does not exist.
    TagMissing(String),
    /// The new tag exists already.
    TagExists(String),
    /// The manifest's version cannot be bumped.
    InvalidVersion(VersionError),
}

pub enum PublishErrorView {
    InvalidTag(VersionError),
    TagMissing(Seq<char>),
    TagExists(Seq<char>),
    InvalidVersion(VersionError),
}

impl View for PublishError {
    type V = PublishErrorView;

    open spec fn view(&self) -> PublishErrorView {
        match self {
            PublishError::InvalidTag(e) => PublishErrorView::InvalidTag(*e),
            PublishError::TagMissing(t) => PublishErrorView::TagMissing(t@),
            PublishError::TagExists(t) => PublishErrorView::TagExists(t@),
            PublishError::InvalidVersion(e) => PublishErrorView::InvalidVersion(*e),
        }
    }
}

/// One option offered when the user picks the tag.
#[derive(Clone, Debug)]
pub enum TagChoice {
    /// A new tag one `kind` step above the manifest's version.
    Bump { kind: BumpKind, tag: String },
    /// A tag that exists already.
    Existing(String),
    /// A version that the user types.
    Custom,
}

pub enum ChoiceView {
    Bump(BumpKind, Seq<char>),
    Existing(Seq<char>),
    Custom,
}

impl View for TagChoice {
    type V = ChoiceView;

    open spec fn view(&self) -> ChoiceView {
        match self {
            TagChoice::Bump { kind, tag } => ChoiceView::Bump(*kind, tag@),
            TagChoice::Existing(t) => ChoiceView::Existing(t@),
            TagChoice::Custom => ChoiceView::Custom,
        }
    }
}

pub open spec fn choice_views(s: Seq<TagChoice>) -> Seq<ChoiceView> {
    s.map_values(|c: TagChoice| c@)
}

/// The bump option of `kind` for `v`, where the bump fits.
pub open spec fn bump_choice(v: Version, kind: BumpKind) -> Seq<ChoiceView> {
    match bump_of(v, kind) {
        Some(b) => seq![ChoiceView::Bump(kind, tag_of(b))],
        None => Seq::empty(),
    }
}

/// Patch, minor and major bumps of `current`, offered only where it reads as a version.
pub open spec fn bump_choices(current: Seq<char>) -> Seq<ChoiceView> {
    match version_of(current) {
        Ok((major, minor, patch)) => {
            let v = Version { major, minor, patch };
            bump_choice(v, BumpKind::Patch) + bump_choice(v, BumpKind::Minor) + bump_choice(
                v,
                BumpKind::Major,
            )
        },
        Err(_) => Seq::empty(),
    }
}

/// The options offered: the bumps, then each existing version tag, then a
/// typed version.
pub open spec fn choices_of(existing: Seq<Seq<char>>, current: Seq<char>) -> Seq<ChoiceView> {
    bump_choices(current) + semver_only(existing).map_values(|t: Seq<char>| ChoiceView::Existing(t))
        + seq![ChoiceView::Custom]
}

fn push_bump(out: &mut Vec<TagChoice>, v: &Version, kind: BumpKind)
    ensures
        choice_views(final(out)@) == choice_views(old(out)@) + bump_choice(*v, kind),
{
    let ghost before = out@;
    match v.bumped(kind) {
        Some(b) => {
            out.push(TagChoice::Bump { kind, tag: b.tag() });
            assert(choice_views(out@) =~= choice_views(before) + bump_choice(*v, kind));
        },
        None => {
            assert(choice_views(out@) =~= choice_views(before) + bump_choice(*v, kind));
        },
    }
}

/// The options offered when the user picks the tag, in order.
pub fn tag_choices(existing_tags: &Vec<String>, current_version: &str) -> (r: Vec<TagChoice>)
    ensures
        choice_views(r@) == choices_of(views(existing_tags@), current_version@),
{
    let mut out: Vec<TagChoice> = Vec::new();
    assert(choice_views(out@) =~= Seq::<ChoiceView>::empty());
    match parse_version(current_version) {
        Ok((major, minor, patch)) => {
            let v = Version { major, minor, patch };
            push_bump(&mut out, &v, BumpKind::Patch);
            push_bump(&mut out, &v, BumpKind::Minor);
            push_bump(&mut out, &v, BumpKind::Major);
            assert(choice_views(out@) =~= bump_choices(current_version@));
        },
        Err(_) => {},
    }
    let ghost bumps = choice_views(out@);
    let semver = filter_semver_tags(existing_tags);
    let ghost tags = views(semver@);
    let mut i: usize = 0;
    while i < semver.len()
        invariant
            i <= semver@.len(),
            tags == views(semver@),
            choice_views(out@) == bumps + tags.subrange(0, i as int).map_values(
                |t: Seq<char>| ChoiceView::Existing(t),
            ),
        decreases semver@.len() - i,
    {
        let ghost before = out@;
        out.push(TagChoice::Existing(semver[i].clone()));
        assert(choice_views(out@) =~= choice_views(before).push(ChoiceView::Existing(tags[i as int])));
        i = i + 1;
        assert(tags.subrange(0, i as int).map_values(|t: Seq<char>| ChoiceView::Existing(t))
            =~= tags.subrange(0, i - 1).map_values(|t: Seq<char>| ChoiceView::Existing(t)).push(
            ChoiceView::Existing(tags[i - 1]),
        ));
    }
    assert(tags.subrange(0, i as int) =~= tags);
    let ghost before = out@;
    out.push(TagChoice::Custom);
    assert(choice_views(out@) =~= choice_views(before).push(ChoiceView::Custom));
    assert(choice_views(out@) =~= choices_of(views(existing_tags@), current_version@));
    out
}

/// `s` with a leading `v`, added where it has none.
pub open spec fn with_v(s: Seq<char>) -> Seq<char> {
    if s.len() > 0 && s[0] == 'v' {
        s
    } else {
        seq!['v'] + s
    }
}

/// A version the user gave, as a tag: `v` added where missing, and required
/// to read as a version.
pub fn normalize_tag(input: &str) -> (r: Result<String, VersionError>)
    ensures
        match r {
            Ok(t) => t@ == with_v(input@) && version_of(with_v(input@)) is Ok,
            Err(e) => version_of(with_v(input@)) == Err::<(u32, u32, u32), VersionError>(e),
        },
{
    let n = input.unicode_len();
    let tag = if n > 0 && input.get_char(0) == 'v' {
        input.to_owned()
    } else {
        proof {
            reveal_strlit("v");
        }
        let mut t = "v".to_owned();
        t.append(input);
        t
    };
    assert(tag@ =~= with_v(input@));
    match parse_version(tag.as_str()) {
        Ok(_) => Ok(tag),
        Err(e) => Err(e),
    }
}

/// The tag chosen without asking, or the options to ask with.
#[derive(Clone, Debug)]
pub enum TagSelection {
    /// This tag; `create` tells whether it must be created and pushed.
    Use { tag: String, create: bool },
    /// Let the user pick one of these.
    Ask(Vec<TagChoice>),
}

pub enum SelectionView {
    Use(Seq<char>, bool),
    Ask(Seq<ChoiceView>),
}

/// How the tag is chosen: a given tag must read as a version once `v` is
/// added, and must exist; without asking, the manifest's version is bumped by
/// a patch and the tag must be new; else the user is asked.
pub open spec fn selection_of(
    explicit: Option<Seq<char>>,
    yes: bool,
    current: Seq<char>,
    existing: Seq<Seq<char>>,
) -> Result<SelectionView, PublishErrorView> {
    match explicit {
        Some(t) => if version_of(with_v(t)) is Err {
            Err(PublishErrorView::InvalidTag(version_of(with_v(t))->Err_0))
        } else if !existing.contains(with_v(t)) {
            Err(PublishErrorView::TagMissing(with_v(t)))
        } else {
            Ok(SelectionView::Use(with_v(t), false))
        },
        None => if yes {
            match next_tag_of(current, BumpKind::Patch) {
                Err(e) => Err(PublishErrorView::InvalidVersion(e)),
                Ok(t) => if existing.contains(t) {
                    Err(PublishErrorView::TagExists(t))
                } else {
                    Ok(SelectionView::Use(t, true))
                },
            }
        } else {
            Ok(SelectionView::Ask(choices_of(existing, current)))
        },
    }
}

/// Chooses the tag to publish. `existing_tags` are the repository's tags; a
/// version tag exists exactly when it is among them.
pub fn select_tag(
    explicit: Option<&str>,
    yes: bool,
    current_version: &str,
    existing_tags: &Vec<String>,
) -> (r: Result<TagSelection, PublishError>)
    ensures
        selection_of(
            match explicit {
                Some(t) => Some(t@),
                None => None,
            },
            yes,
            current_version@,
            views(existing_tags@),
        ) == match r {
            Ok(TagSelection::Use { tag, create }) => Ok(SelectionView::Use(tag@, create)),
            Ok(TagSelection::Ask(c)) => Ok(SelectionView::Ask(choice_views(c@))),
            Err(e) => Err(e@),
        },
{
    match explicit {
        Some(t) => {
            let tag = match normalize_tag(t) {
                Ok(tag) => tag,
                Err(e) => {
                    return Err(PublishError::InvalidTag(e));
                },
            };
            if !contains_text(existing_tags, tag.as_str()) {
                return Err(PublishError::TagMissing(tag));
            }
            Ok(TagSelection::Use { tag, create: false })
        },
        None => {
            if yes {
                let tag = match next_tag(current_version, BumpKind::Patch) {
                    Ok(tag) => tag,
                    Err(e) => {
                        return Err(PublishError::InvalidVersion(e));
                    },
                };
                if contains_text(existing_tags, tag.as_str()) {
                    return Err(PublishError::TagExists(tag));
                }
                Ok(TagSelection::Use { tag, create: true })
            } else {
                Ok(TagSelection::Ask(tag_choices(existing_tags, current_version)))
            }
        },
    }
}

/// The tag for a version the user typed, and that it must be created: `v` is
/// added where missing, it must read as a version, and it must be new.
pub open spec fn custom_resolution(input: Seq<char>, existing: Seq<Seq<char>>) -> Result<
    (Seq<char>, bool),
    PublishErrorView,
> {
    if version_of(with_v(input)) is Err {
        Err(PublishErrorView::InvalidTag(version_of(with_v(input))->Err_0))
    } else if existing.contains(with_v(input)) {
        Err(PublishErrorView::TagExists(with_v(input)))
    } else {
        Ok((with_v(input), true))
    }
}

/// The tag that a picked option stands for, and whether it must be created;
/// `typed` is what the user entered for a typed version.
pub open spec fn resolution_of(
    choice: ChoiceView,
    typed: Seq<char>,
    existing: Seq<Seq<char>>,
) -> Result<(Seq<char>, bool), PublishErrorView> {
    match choice {
        ChoiceView::Bump(_, t) => if existing.contains(t) {
            Err(PublishErrorView::TagExists(t))
        } else {
            Ok((t, true))
        },
        ChoiceView::Existing(t) => Ok((t, false)),
        ChoiceView::Custom => custom_resolution(typed, existing),
    }
}

/// The tag for a version the user typed.
pub fn resolve_custom_version(
    input: &str,
    existing_tags: &Vec<String>,
) -> (r: Result<String, PublishError>)
    ensures
        custom_resolution(input@, views(existing_tags@)) == match r {
            Ok(t) => Ok((t@, true)),
            Err(e) => Err(e@),
        },
{
    let tag = match normalize_tag(input) {
        Ok(t) => t,
        Err(e) => {
            return Err(PublishError::InvalidTag(e));
        },
    };
    if contains_text(existing_tags, tag.as_str()) {
        return Err(PublishError::TagExists(tag));
    }
    Ok(tag)
}

/// The tag that a picked option stands for, and whether it must be created.
/// `typed` is what the user entered where the option is a typed version; it
/// is not read for the other options.
pub fn resolve_choice(
    choice: &TagChoice,
    typed: &str,
    existing_tags: &Vec<String>,
) -> (r: Result<(String, bool), PublishError>)
    ensures
        resolution_of(choice@, typed@, views(existing_tags@)) == match r {
            Ok((t, c)) => Ok((t@, c)),
            Err(e) => Err(e@),
        },
{
    match choice {
        TagChoice::Bump { tag, .. } => {
            if contains_text(existing_tags, tag.as_str()) {
                Err(PublishError::TagExists(tag.clone()))
            } else {
                Ok((tag.clone(), true))
            }
        },
        TagChoice::Existing(t) => Ok((t.clone(), false)),
        TagChoice::Custom => match resolve_custom_version(typed, existing_tags) {
            Ok(t) => Ok((t, true)),
            Err(e) => Err(e),
        },
    }
}

/// What to do about uncommitted changes in the skill directory.
#[derive(Clone, Copy, Debug, PartialEq, Eq, Structural)]
pub enum DirtyAction {
    /// There are none.
    Clean,
    /// Ask the user whether to go on.
    Confirm,
    /// Go on, and say so.
    ProceedNoted,
}

/// With changes, ask unless `yes` was given; going on is never silent.
pub fn dirty_action(change_count: usize, yes: bool) -> (r: DirtyAction)
    ensures
        r == if change_count == 0 {
            DirtyAction::Clean
        } else if yes {
            DirtyAction::ProceedNoted
        } else {
            DirtyAction::Confirm
        },
{
    if change_count == 0 {
        DirtyAction::Clean
    } else if yes {
        DirtyAction::ProceedNoted
    } else {
        DirtyAction::Confirm
    }
}

/// The message of a release tag: `Release <tag>`.
pub fn release_message(tag: &str) -> (r: String)
    ensures
        r@ == "Release "@ + tag@,
{
    let mut m = "Release ".to_owned();
    m.append(tag);
    m
}

/// The publish request: the path inside the repository is left out for the root.
pub fn publish_request(
    repository: String,
    branch: String,
    path_in_repo: String,
    tag: String,
) -> (r: PublishPakRequest)
    ensures
        r.repository == repository,
        r.branch == branch,
        r.tag == tag,
        opt_str(r.path) == if path_in_repo@ == "."@ {
            None
        } else {
            Some(path_in_repo@)
        },
{
    let path = if same_text(path_in_repo.as_str(), ".") {
        None
    } else {
        Some(path_in_repo)
    };
    PublishPakRequest { repository, path, branch, tag }
}

} // verus!
