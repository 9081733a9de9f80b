//! Copying a skill directory: which entries of a directory are copied, and how.
//! The caller lists each directory, performs the steps, and descends where told.

use vstd::prelude::*;
use vstd::string::*;

use crate::text::same_text;

verus! {

/// What kind of thing a directory entry is, without following symbolic links.
#[derive(Clone, Debug)]
pub enum EntryKind {
    Dir,
    File,
    /// A symbolic link, with the path it points at.
    Symlink(String),
    /// Anything else, such as a socket.
    Other,
}

/// One entry of a directory listing.
#[derive(Clone, Debug)]
pub struct DirEntryInfo {
    pub name: String,
    pub kind: EntryKind,
}

/// How one entry is copied into the destination directory.
#[derive(Clone, Debug)]
pub enum CopyStep {
    /// Create the directory `name` and copy the source's `name` into it.
    Descend(String),
    /// Copy the bytes of the regular file `name`.
    CopyFile(String),
    /// Create a symbolic link `name` pointing at `target`.
    Link { name: String, target: String },
}

pub enum KindView {
    Dir,
    File,
    Symlink(Seq<char>),
    Other,
}

pub struct EntryView {
    pub name: Seq<char>,
    pub kind: KindView,
}

pub enum CopyView {
    Descend(Seq<char>),
    CopyFile(Seq<char>),
    Link(Seq<char>, Seq<char>),
}

impl View for DirEntryInfo {
    type V = EntryView;

    open spec fn view(&self) -> EntryView {
        EntryView {
            name: self.name@,
            kind: match self.kind {
                EntryKind::Dir => KindView::Dir,
                EntryKind::File => KindView::File,
                EntryKind::Symlink(t) => KindView::Symlink(t@),
                EntryKind::Other => KindView::Other,
            },
        }
    }
}

impl View for CopyStep {
    type V = CopyView;

    open spec fn view(&self) -> CopyView {
        match self {
            CopyStep::Descend(n) => CopyView::Descend(n@),
            CopyStep::CopyFile(n) => CopyView::CopyFile(n@),
            CopyStep::Link { name, target } => CopyView::Link(name@, target@),
        }
    }
}

pub open spec fn entry_views(s: Seq<DirEntryInfo>) -> Seq<EntryView> {
    s.map_values(|e: DirEntryInfo| e@)
}

pub open spec fn copy_views(s: Seq<CopyStep>) -> Seq<CopyView> {
    s.map_values(|c: CopyStep| c@)
}

/// How one entry is copied: a `.git` directory not at all, other directories
/// by descending, files byte for byte, symbolic links as links to the same
/// target, anything else not at all.
pub open spec fn copy_step_of(e: EntryView) -> Option<CopyView> {
    match e.kind {
        KindView::Dir => if e.name == ".git"@ {
            None
        } else {
            Some(CopyView::Descend(e.name))
        },
        KindView::File => Some(CopyView::CopyFile(e.name)),
        KindView::Symlink(t) => Some(CopyView::Link(e.name, t)),
        KindView::Other => None,
    }
}

/// The copy steps for a listing, in its order.
pub open spec fn copy_plan_of(entries: Seq<EntryView>) -> Seq<CopyView>
    decreases entries.len(),
{
    if entries.len() == 0 {
        Seq::empty()
    } else {
        let prev = copy_plan_of(entries.drop_last());
        match copy_step_of(entries.last()) {
            Some(s) => prev.push(s),
            None => prev,
        }
    }
}

/// How one entry is copied.
pub fn copy_step(entry: &DirEntryInfo) -> (r: Option<CopyStep>)
    ensures
        match r {
            Some(s) => copy_step_of(entry@) == Some(s@),
            None => copy_step_of(entry@) is None,
        },
{
    match &entry.kind {
        EntryKind::Dir => if same_text(entry.name.as_str(), ".git") {
            None
        } else {
            Some(CopyStep::Descend(entry.name.clone()))
        },
        EntryKind::File => Some(CopyStep::CopyFile(entry.name.clone())),
        EntryKind::Symlink(t) => Some(CopyStep::Link { name: entry.name.clone(), target: t.clone() }),
        EntryKind::Other => None,
    }
}

/// The copy steps for one directory listing, in its order.
pub fn plan_dir_copy(entries: &Vec<DirEntryInfo>) -> (r: Vec<CopyStep>)
    ensures
        copy_views(r@) == copy_plan_of(entry_views(entries@)),
{
    let mut out: Vec<CopyStep> = Vec::new();
    let mut i: usize = 0;
    assert(entry_views(entries@.subrange(0, 0)) =~= Seq::<EntryView>::empty());
    assert(copy_views(out@) =~= Seq::<CopyView>::empty());
    while i < entries.len()
        invariant
            i <= entries@.len(),
            copy_views(out@) == copy_plan_of(entry_views(entries@.subrange(0, i as int))),
        decreases entries@.len() - i,
    {
        let ghost pre = entry_views(entries@.subrange(0, i + 1));
        assert(pre.drop_last() =~= entry_views(entries@.subrange(0, i as int)));
        assert(pre.last() == entries@[i as int]@);
        let ghost old_out = out@;
        match copy_step(&entries[i]) {
            Some(s) => {
                out.push(s);
                assert(copy_views(out@) =~= copy_views(old_out).push(out@.last()@));
            },
            None => {},
        }
        i = i + 1;
    }
    assert(entries@.subrange(0, i as int) =~= entries@);
    out
}

/// Copying a listing never descends into a `.git` directory and recreates every
/// symbolic link as a link to the same target: each step comes from an entry
/// by the rule of `copy_step_of`, and every entry that the rule copies is copied.
pub proof fn lemma_copy_plan(entries: Seq<EntryView>)
    ensures
        forall|k: int|
            #![trigger copy_plan_of(entries)[k]]
            0 <= k < copy_plan_of(entries).len() ==> exists|i: int|
                0 <= i < entries.len() && copy_step_of(#[trigger] entries[i]) == Some(
                    copy_plan_of(entries)[k],
                ),
        forall|i: int|
            0 <= i < entries.len() && (#[trigger] copy_step_of(entries[i])) is Some
                ==> copy_plan_of(entries).contains(copy_step_of(entries[i])->0),
        forall|k: int|
            0 <= k < copy_plan_of(entries).len() ==> copy_plan_of(entries)[k] != CopyView::Descend(
                ".git"@,
            ),
        forall|i: int|
            0 <= i < entries.len() ==> ((#[trigger] entries[i]).kind matches KindView::Symlink(t)
                ==> copy_plan_of(entries).contains(CopyView::Link(entries[i].name, t))),
    decreases entries.len(),
{
    if entries.len() > 0 {
        let init = entries.drop_last();
        lemma_copy_plan(init);
        let prev = copy_plan_of(init);
        let plan = copy_plan_of(entries);
        assert forall|k: int| #![trigger plan[k]] 0 <= k < plan.len() implies exists|i: int|
            0 <= i < entries.len() && copy_step_of(#[trigger] entries[i]) == Some(plan[k]) by {
            if k < prev.len() {
                let i = choose|i: int| 0 <= i < init.len() && copy_step_of(init[i]) == Some(prev[k]);
                assert(init[i] == entries[i]);
            } else {
                assert(copy_step_of(entries[entries.len() - 1]) == Some(plan[k]));
            }
        }
        assert forall|i: int|
            0 <= i < entries.len() && (#[trigger] copy_step_of(entries[i])) is Some implies plan.contains(
            copy_step_of(entries[i])->0,
        ) by {
            if i < init.len() {
                assert(init[i] == entries[i]);
                let k = choose|k: int| 0 <= k < prev.len() && prev[k] == copy_step_of(init[i])->0;
                assert(plan[k] == prev[k]);
            } else {
                assert(plan[plan.len() - 1] == copy_step_of(entries[i])->0);
            }
        }
        assert forall|k: int| 0 <= k < plan.len() implies plan[k] != CopyView::Descend(".git"@) by {
            if k < prev.len() {
                assert(plan[k] == prev[k]);
            }
        }
        assert forall|i: int| 0 <= i < entries.len() implies ((#[trigger] entries[i]).kind matches KindView::Symlink(t)
            ==> plan.contains(CopyView::Link(entries[i].name, t))) by {
            if entries[i].kind is Symlink {
                assert(copy_step_of(entries[i]) is Some);
            }
        }
    }
}

} // verus!
