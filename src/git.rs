//! Reading what git prints. Running git is the caller's part: each function
//! here takes git's standard output, with surrounding whitespace trimmed.

use vstd::prelude::*;
use vstd::string::*;

use crate::text::{has_prefix, same_text, split_by, split_on, substring, views};

verus! {

/// Why git's answer cannot be used.
#[derive(Clone, Copy, Debug, PartialEq, Eq, Structural)]
pub enum GitError {
    /// HEAD is detached, so there is no current branch.
    DetachedHead,
    /// The directory is not inside the repository's top-level directory.
    OutsideRepository,
}

/// `s` without one trailing carriage return.
pub open spec fn strip_cr(s: Seq<char>) -> Seq<char> {
    if s.len() > 0 && s.last() == '\r' {
        s.drop_last()
    } else {
        s
    }
}

/// The lines of `s` as `str::lines` gives them: cut at `\n`, a `\r` before a
/// `\n` dropped, and no empty line after a final `\n`.
pub open spec fn lines_of(s: Seq<char>) -> Seq<Seq<char>> {
    let pieces = split_on(s, '\n');
    let body = pieces.drop_last().map_values(|p: Seq<char>| strip_cr(p));
    if pieces.last().len() == 0 {
        body
    } else {
        body.push(pieces.last())
    }
}

/// The lines of `s`.
pub fn lines(s: &str) -> (r: Vec<String>)
    ensures
        views(r@) == lines_of(s@),
{
    let pieces = split_by(s, '\n');
    let ghost ps = split_on(s@, '\n');
    proof {
        crate::text::lemma_split_on_len(s@, '\n');
    }
    let n = pieces.len();
    let mut out: Vec<String> = Vec::new();
    let mut i: usize = 0;
    while i + 1 < n
        invariant
            1 <= n == pieces@.len() == ps.len(),
            views(pieces@) == ps,
            i + 1 <= n,
            views(out@) == ps.subrange(0, i as int).map_values(|p: Seq<char>| strip_cr(p)),
        decreases n - i,
    {
        let p = pieces[i].as_str();
        assert(p@ == ps[i as int]);
        let k = p.unicode_len();
        let line = if k > 0 && p.get_char(k - 1) == '\r' {
            substring(p, 0, k - 1)
        } else {
            p.to_owned()
        };
        assert(line@ =~= strip_cr(ps[i as int]));
        let ghost old_out = out@;
        out.push(line);
        assert(views(out@) =~= views(old_out).push(line@));
        i = i + 1;
        assert(ps.subrange(0, i as int).map_values(|p: Seq<char>| strip_cr(p)) =~= ps.subrange(
            0,
            i - 1,
        ).map_values(|p: Seq<char>| strip_cr(p)).push(strip_cr(ps[i - 1])));
    }
    assert(ps.subrange(0, i as int) =~= ps.drop_last());
    let last = pieces[n - 1].as_str();
    assert(last@ == ps.last());
    if last.unicode_len() > 0 {
        let ghost old_out = out@;
        out.push(last.to_owned());
        assert(views(out@) =~= views(old_out).push(last@));
    }
    out
}

/// The current branch, from the output of `git rev-parse --abbrev-ref HEAD`.
pub fn get_current_branch(rev_parse_output: &str) -> (r: Result<String, GitError>)
    ensures
        match r {
            Ok(b) => rev_parse_output@ != "HEAD"@ && b@ == rev_parse_output@,
            Err(e) => rev_parse_output@ == "HEAD"@ && e == GitError::DetachedHead,
        },
{
    if same_text(rev_parse_output, "HEAD") {
        Err(GitError::DetachedHead)
    } else {
        Ok(rev_parse_output.to_owned())
    }
}

/// Whether `git tag -l <tag>` found the tag: it printed anything at all.
pub fn tag_exists(tag_list_output: &str) -> (r: bool)
    ensures
        r == (tag_list_output@.len() > 0),
{
    tag_list_output.unicode_len() > 0
}

/// The tags, from the output of `git tag -l --sort=-v:refname`, newest first.
pub fn list_tags(tag_list_output: &str) -> (r: Vec<String>)
    ensures
        views(r@) == lines_of(tag_list_output@),
{
    lines(tag_list_output)
}

/// The changed files, one line each, from `git status --porcelain .`.
pub fn get_uncommitted_changes(status_output: &str) -> (r: Vec<String>)
    ensures
        views(r@) == lines_of(status_output@),
{
    lines(status_output)
}

/// Where the canonical path `pak` lies inside the repository whose top-level
/// directory is `root`: `.` for the root itself.
pub open spec fn repo_relative(root: Seq<char>, pak: Seq<char>) -> Option<Seq<char>> {
    if !has_prefix(pak, root) {
        None
    } else {
        let after = pak.subrange(root.len() as int, pak.len() as int);
        if after.len() == 0 {
            Some("."@)
        } else if root.len() > 0 && root.last() == '/' {
            Some(after)
        } else if after[0] != '/' {
            None
        } else if after.len() == 1 {
            Some("."@)
        } else {
            Some(after.drop_first())
        }
    }
}

/// The path of a skill directory relative to its repository's top level,
/// given the output of `git rev-parse --show-toplevel` and the directory's
/// canonical path.
pub fn get_pak_path_in_repo(repo_root: &str, pak_path: &str) -> (r: Result<String, GitError>)
    ensures
        match r {
            Ok(p) => repo_relative(repo_root@, pak_path@) == Some(p@),
            Err(e) => repo_relative(repo_root@, pak_path@) is None && e
                == GitError::OutsideRepository,
        },
{
    if !crate::text::starts_with(pak_path, repo_root) {
        return Err(GitError::OutsideRepository);
    }
    let nr = repo_root.unicode_len();
    let np = pak_path.unicode_len();
    let after = substring(pak_path, nr, np);
    let na = np - nr;
    proof {
        reveal_strlit(".");
    }
    if na == 0 {
        Ok(".".to_owned())
    } else if nr > 0 && repo_root.get_char(nr - 1) == '/' {
        Ok(after)
    } else if after.as_str().get_char(0) != '/' {
        Err(GitError::OutsideRepository)
    } else if na == 1 {
        Ok(".".to_owned())
    } else {
        let rest = substring(after.as_str(), 1, na);
        assert(rest@ =~= after@.drop_first());
        Ok(rest)
    }
}

} // verus!
