//! The decisions of the install pipeline. The caller probes the disk, talks
//! to the registry and runs git; these functions say where a skill goes and
//! which steps place it there.

use vstd::prelude::*;
use vstd::string::*;

use crate::text::{opt_str, has_prefix, join_path, join_path_of, same_text};

verus! {

/// What the command line asks of an install.
#[derive(Clone, Debug)]
pub struct InstallArgs {
    /// Registry reference, git URL or local path.
    pub source: String,
    /// Agent whose skills directory receives the skill.
    pub agent: Option<String>,
    /// Directory that receives the skill, before the agent's.
    pub dir: Option<String>,
    /// Replace a skill that is already installed.
    pub force: bool,
}

/// Where the registry says a release's repository lives.
#[derive(Clone, Debug)]
pub struct InstallRepositoryInfo {
    pub url: String,
    pub clone_url: String,
    pub ssh_url: String,
    pub default_branch: String,
}

/// Where inside the repository a release's skill lives.
#[derive(Clone, Debug)]
pub struct InstallPathInfo {
    /// Path inside the repository, `.` for its root.
    pub path: String,
    pub files: Vec<String>,
}

/// Relies on `shellexpand::tilde`: a path that does not start with `~` comes
/// back unchanged; otherwise the leading `~` is replaced by the home
/// directory where there is one, and the text is kept where there is not.
#[verifier::external_body]
fn expand_tilde(path: &str) -> (r: String)
    ensures
        !has_prefix(path@, "~"@) ==> r@ == path@,
        has_prefix(path@, "~"@) ==> exists|home: Seq<char>| r@ == home + path@.drop_first(),
{
    shellexpand::tilde(path).into_owned()
}

/// The directory that receives skills: the one given on the command line, else
/// the chosen agent's, else the default one.
pub open spec fn install_dir_of(
    dir: Option<Seq<char>>,
    agent_dir: Option<Seq<char>>,
    default_dir: Seq<char>,
) -> Seq<char> {
    match dir {
        Some(d) => d,
        None => match agent_dir {
            Some(a) => a,
            None => default_dir,
        },
    }
}

/// The directory that receives skills. `agent_dir` is the configured
/// directory of the named or default agent, if there is one; a `dir` given on
/// the command line has a leading `~` expanded.
pub fn resolve_install_dir(
    dir: Option<&str>,
    agent_dir: Option<String>,
    default_dir: String,
) -> (r: String)
    ensures
        match dir {
            Some(d) => (!has_prefix(d@, "~"@) ==> r@ == d@) && (has_prefix(d@, "~"@) ==> exists|
                home: Seq<char>,
            | r@ == home + d@.drop_first()),
            None => r@ == install_dir_of(None, opt_str(agent_dir), default_dir@),
        },
{
    match dir {
        Some(d) => expand_tilde(d),
        None => match agent_dir {
            Some(a) => a,
            None => default_dir,
        },
    }
}

/// The directory name of a registry install: `owner--name`, which keeps the
/// namespace flat.
pub open spec fn registry_dir_name(owner: Seq<char>, name: Seq<char>) -> Seq<char> {
    owner + "--"@ + name
}

/// Where a registry install goes.
pub fn registry_target(install_dir: &str, owner: &str, name: &str) -> (r: String)
    ensures
        r@ == join_path_of(install_dir@, registry_dir_name(owner@, name@)),
{
    let mut dir_name = owner.to_owned();
    dir_name.append("--");
    dir_name.append(name);
    join_path(install_dir, dir_name.as_str())
}

/// Where a git or local install goes: the skill's own name, as no owner is known.
pub fn named_target(install_dir: &str, skill_name: &str) -> (r: String)
    ensures
        r@ == join_path_of(install_dir@, skill_name@),
{
    join_path(install_dir, skill_name)
}

/// The absolute form of a local source path, against the working directory `cwd`.
pub fn absolute_source(cwd: &str, source: &str) -> (r: String)
    ensures
        r@ == join_path_of(cwd@, source@),
{
    join_path(cwd, source)
}

/// What a registry lookup failure means to the user.
#[derive(Clone, Copy, Debug, PartialEq, Eq, Structural)]
pub enum LookupFailure {
    /// No such skill: check the name.
    NotFound,
    /// The skill may be private: authenticate first.
    AccessDenied,
    /// Any other failure, reported as it came.
    Other,
}

/// The meaning of a failed lookup, by HTTP status where one came back.
pub fn classify_lookup_failure(status: Option<u16>) -> (r: LookupFailure)
    ensures
        r == match status {
            Some(404) => LookupFailure::NotFound,
            Some(403) => LookupFailure::AccessDenied,
            _ => LookupFailure::Other,
        },
{
    match status {
        Some(404) => LookupFailure::NotFound,
        Some(403) => LookupFailure::AccessDenied,
        _ => LookupFailure::Other,
    }
}

/// One change an install makes.
#[derive(Clone, Debug)]
pub enum InstallStep {
    /// Delete the directory tree at this path.
    RemoveTree(String),
    /// Clone `url` at `git_ref` into a fresh workspace; the skill is at
    /// `subpath` inside it.
    Clone { url: String, git_ref: Option<String>, subpath: Option<String> },
    /// Copy the fetched skill into this directory, creating its parents.
    CopyInto(String),
}

pub enum StepView {
    RemoveTree(Seq<char>),
    Clone(Seq<char>, Option<Seq<char>>, Option<Seq<char>>),
    CopyInto(Seq<char>),
}

impl View for InstallStep {
    type V = StepView;

    open spec fn view(&self) -> StepView {
        match self {
            InstallStep::RemoveTree(p) => StepView::RemoveTree(p@),
            InstallStep::Clone { url, git_ref, subpath } => StepView::Clone(
                url@,
                opt_str(*git_ref),
                opt_str(*subpath),
            ),
            InstallStep::CopyInto(p) => StepView::CopyInto(p@),
        }
    }
}

pub open spec fn step_views(s: Seq<InstallStep>) -> Seq<StepView> {
    s.map_values(|x: InstallStep| x@)
}

/// How an install ends when it is allowed.
#[derive(Clone, Debug)]
pub enum InstallPlan {
    /// The same version is installed already; nothing is done.
    AlreadyInstalled,
    /// The source is the target itself; nothing is done.
    AlreadyInPlace,
    /// These steps, in order.
    Steps(Vec<InstallStep>),
}

pub enum PlanView {
    AlreadyInstalled,
    AlreadyInPlace,
    Steps(Seq<StepView>),
}

impl View for InstallPlan {
    type V = PlanView;

    open spec fn view(&self) -> PlanView {
        match self {
            InstallPlan::AlreadyInstalled => PlanView::AlreadyInstalled,
            InstallPlan::AlreadyInPlace => PlanView::AlreadyInPlace,
            InstallPlan::Steps(s) => PlanView::Steps(step_views(s@)),
        }
    }
}

/// An install refused because its target is taken and `force` was not given.
#[derive(Clone, Debug)]
pub struct TargetExists {
    pub target: String,
    /// The version installed there, where it could be read.
    pub installed_version: Option<String>,
}

/// The steps that place a fetched skill at `target`: remove what is there when
/// it exists (only reached under `force`), then copy.
pub open spec fn placement(target: Seq<char>, target_exists: bool) -> Seq<StepView> {
    if target_exists {
        seq![StepView::RemoveTree(target), StepView::CopyInto(target)]
    } else {
        seq![StepView::CopyInto(target)]
    }
}

/// The subpath to clone for a release path: none for the repository root.
pub open spec fn release_subpath(path: Seq<char>) -> Option<Seq<char>> {
    if path == "."@ {
        None
    } else {
        Some(path)
    }
}

/// The plan of a registry install into `target`: nothing when the installed
/// version equals the release's and `force` is not given; a refusal for any
/// other taken target without `force`; else remove what is there, clone at the
/// release's tag, and copy.
pub open spec fn registry_plan(
    target: Seq<char>,
    target_exists: bool,
    installed_version: Option<Seq<char>>,
    version: Seq<char>,
    clone_url: Seq<char>,
    tag: Seq<char>,
    path: Seq<char>,
    force: bool,
) -> Option<PlanView> {
    if target_exists && !force {
        if installed_version == Some(version) {
            Some(PlanView::AlreadyInstalled)
        } else {
            None
        }
    } else {
        let fetch = StepView::Clone(clone_url, Some(tag), release_subpath(path));
        if target_exists {
            Some(
                PlanView::Steps(
                    seq![StepView::RemoveTree(target), fetch, StepView::CopyInto(target)],
                ),
            )
        } else {
            Some(PlanView::Steps(seq![fetch, StepView::CopyInto(target)]))
        }
    }
}

/// Plans a registry install of release `version` (tagged `tag`) into `target`.
/// `installed_version` is the version of the skill found at `target`, where one
/// was found and could be read.
pub fn plan_registry_install(
    target: &str,
    target_exists: bool,
    installed_version: Option<&str>,
    version: &str,
    tag: &str,
    repository: &InstallRepositoryInfo,
    install: &InstallPathInfo,
    force: bool,
) -> (r: Result<InstallPlan, TargetExists>)
    ensures
        match r {
            Ok(p) => registry_plan(
                target@,
                target_exists,
                match installed_version {
                    Some(v) => Some(v@),
                    None => None,
                },
                version@,
                repository.clone_url@,
                tag@,
                install.path@,
                force,
            ) == Some(p@),
            Err(e) => registry_plan(
                target@,
                target_exists,
                match installed_version {
                    Some(v) => Some(v@),
                    None => None,
                },
                version@,
                repository.clone_url@,
                tag@,
                install.path@,
                force,
            ) is None && e.target@ == target@ && opt_str(e.installed_version) == match installed_version {
                Some(v) => Some(v@),
                None => None,
            },
        },
{
    if target_exists && !force {
        match installed_version {
            Some(v) => {
                if same_text(v, version) {
                    return Ok(InstallPlan::AlreadyInstalled);
                }
                return Err(
                    TargetExists { target: target.to_owned(), installed_version: Some(v.to_owned()) },
                );
            },
            None => {
                return Err(TargetExists { target: target.to_owned(), installed_version: None });
            },
        }
    }
    proof {
        reveal_strlit(".");
    }
    let subpath = if same_text(install.path.as_str(), ".") {
        None
    } else {
        Some(install.path.clone())
    };
    let fetch = InstallStep::Clone {
        url: repository.clone_url.clone(),
        git_ref: Some(tag.to_owned()),
        subpath,
    };
    let mut steps: Vec<InstallStep> = Vec::new();
    if target_exists {
        steps.push(InstallStep::RemoveTree(target.to_owned()));
    }
    steps.push(fetch);
    steps.push(InstallStep::CopyInto(target.to_owned()));
    proof {
        if target_exists {
            assert(step_views(steps@) =~= seq![
                StepView::RemoveTree(target@),
                StepView::Clone(repository.clone_url@, Some(tag@), release_subpath(install.path@)),
                StepView::CopyInto(target@),
            ]);
        } else {
            assert(step_views(steps@) =~= seq![
                StepView::Clone(repository.clone_url@, Some(tag@), release_subpath(install.path@)),
                StepView::CopyInto(target@),
            ]);
        }
    }
    Ok(InstallPlan::Steps(steps))
}

/// The steps that place an already fetched skill at `target`. A taken target
/// is refused without `force` and replaced with it.
pub fn plan_placement(
    target: &str,
    target_exists: bool,
    force: bool,
) -> (r: Result<Vec<InstallStep>, TargetExists>)
    ensures
        match r {
            Ok(s) => !(target_exists && !force) && step_views(s@) == placement(
                target@,
                target_exists,
            ),
            Err(e) => target_exists && !force && e.target@ == target@ && e.installed_version is None,
        },
{
    if target_exists && !force {
        return Err(TargetExists { target: target.to_owned(), installed_version: None });
    }
    let mut steps: Vec<InstallStep> = Vec::new();
    if target_exists {
        steps.push(InstallStep::RemoveTree(target.to_owned()));
    }
    steps.push(InstallStep::CopyInto(target.to_owned()));
    assert(step_views(steps@) =~= placement(target@, target_exists));
    Ok(steps)
}

/// Plans a local install from `source` into `target`: nothing when both are
/// the same directory, else as `plan_placement`.
pub fn plan_local_install(
    target: &str,
    same_location: bool,
    target_exists: bool,
    force: bool,
) -> (r: Result<InstallPlan, TargetExists>)
    ensures
        same_location ==> r matches Ok(InstallPlan::AlreadyInPlace),
        !same_location ==> match r {
            Ok(p) => !(target_exists && !force) && p@ == PlanView::Steps(
                placement(target@, target_exists),
            ),
            Err(e) => target_exists && !force && e.target@ == target@,
        },
{
    if same_location {
        return Ok(InstallPlan::AlreadyInPlace);
    }
    match plan_placement(target, target_exists, force) {
        Ok(steps) => Ok(InstallPlan::Steps(steps)),
        Err(e) => Err(e),
    }
}

/// Whether path `p` is the directory `dir` or lies inside it.
pub open spec fn under(dir: Seq<char>, p: Seq<char>) -> bool {
    p == dir || has_prefix(p, dir + seq!['/'])
}

/// The paths on disk after one step, where `fetched` holds the relative paths
/// of the fetched skill's entries.
pub open spec fn apply_step(
    disk: Set<Seq<char>>,
    step: StepView,
    fetched: Set<Seq<char>>,
) -> Set<Seq<char>> {
    match step {
        StepView::RemoveTree(d) => disk.filter(|p: Seq<char>| !under(d, p)),
        StepView::Clone(_, _, _) => disk,
        StepView::CopyInto(d) => disk.insert(d).union(fetched.map(|q: Seq<char>| d + seq!['/'] + q)),
    }
}

/// The paths on disk after the steps, in order.
pub open spec fn apply_steps(
    disk: Set<Seq<char>>,
    steps: Seq<StepView>,
    fetched: Set<Seq<char>>,
) -> Set<Seq<char>>
    decreases steps.len(),
{
    if steps.len() == 0 {
        disk
    } else {
        apply_steps(apply_step(disk, steps[0], fetched), steps.drop_first(), fetched)
    }
}

/// What lies at or under `dir`.
pub open spec fn contents_at(disk: Set<Seq<char>>, dir: Seq<char>) -> Set<Seq<char>> {
    disk.filter(|p: Seq<char>| under(dir, p))
}

/// What a fresh copy of `fetched` into `dir` leaves there.
pub open spec fn fresh_copy(dir: Seq<char>, fetched: Set<Seq<char>>) -> Set<Seq<char>> {
    set![dir].union(fetched.map(|q: Seq<char>| dir + seq!['/'] + q))
}

proof fn lemma_removed_then_copied(disk: Set<Seq<char>>, target: Seq<char>, fetched: Set<Seq<char>>)
    ensures
        contents_at(
            apply_step(
                apply_step(disk, StepView::RemoveTree(target), fetched),
                StepView::CopyInto(target),
                fetched,
            ),
            target,
        ) == fresh_copy(target, fetched),
{
    let after = apply_step(
        apply_step(disk, StepView::RemoveTree(target), fetched),
        StepView::CopyInto(target),
        fetched,
    );
    let copied = fetched.map(|q: Seq<char>| target + seq!['/'] + q);
    assert forall|p: Seq<char>| #[trigger] copied.contains(p) implies under(target, p) by {
        let q = choose|q: Seq<char>| fetched.contains(q) && p == target + seq!['/'] + q;
        assert(p.subrange(0, (target + seq!['/']).len() as int) =~= target + seq!['/']);
    }
    assert(contents_at(after, target) =~= fresh_copy(target, fetched));
}

/// Installing with `force` over an existing target replaces it whole: after
/// the planned steps, what lies under the target is exactly the fetched skill,
/// whatever the disk held before.
pub proof fn lemma_forced_install_replaces(
    disk: Set<Seq<char>>,
    fetched: Set<Seq<char>>,
    target: Seq<char>,
    version: Seq<char>,
    installed_version: Option<Seq<char>>,
    clone_url: Seq<char>,
    tag: Seq<char>,
    path: Seq<char>,
)
    ensures
        registry_plan(target, true, installed_version, version, clone_url, tag, path, true) matches Some(
            PlanView::Steps(steps),
        ) && contents_at(apply_steps(disk, steps, fetched), target) == fresh_copy(target, fetched),
        contents_at(apply_steps(disk, placement(target, true), fetched), target) == fresh_copy(
            target,
            fetched,
        ),
{
    let fetch = StepView::Clone(clone_url, Some(tag), release_subpath(path));
    let steps = seq![StepView::RemoveTree(target), fetch, StepView::CopyInto(target)];
    let d1 = apply_step(disk, StepView::RemoveTree(target), fetched);
    reveal_with_fuel(apply_steps, 4);
    assert(steps.drop_first() =~= seq![fetch, StepView::CopyInto(target)]);
    assert(steps.drop_first().drop_first() =~= seq![StepView::CopyInto(target)]);
    assert(seq![StepView::CopyInto(target)].drop_first() =~= Seq::<StepView>::empty());
    assert(apply_steps(disk, steps, fetched) == apply_step(d1, StepView::CopyInto(target), fetched));
    lemma_removed_then_copied(disk, target, fetched);
    let placed = placement(target, true);
    assert(placed.drop_first() =~= seq![StepView::CopyInto(target)]);
    assert(apply_steps(disk, placed, fetched) == apply_step(d1, StepView::CopyInto(target), fetched));
}

/// Installing a registry release again, without `force`, when the version
/// installed at the target is the release's, changes nothing and succeeds.
pub proof fn lemma_reinstall_same_version_is_noop(
    target: Seq<char>,
    version: Seq<char>,
    clone_url: Seq<char>,
    tag: Seq<char>,
    path: Seq<char>,
)
    ensures
        registry_plan(target, true, Some(version), version, clone_url, tag, path, false) == Some(
            PlanView::AlreadyInstalled,
        ),
{
}

} // verus!
