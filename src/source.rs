//! Classifying what the user names as the source of an install.

use vstd::prelude::*;
use vstd::string::*;

use crate::disk::path_exists;
use crate::reference::{parse_ref, SkillRef, SkillRefView};
use crate::text::{
    find_char, chars_of, first_index_of, opt_str, has_prefix, join_path, lemma_first_index_of, split_by,
    split_on, strip_prefix, starts_with, substring, views,
};

verus! {

/// The name of the file that marks a directory as a skill.
pub const SKILL_FILE: &'static str = "SKILL.md";

/// Where a skill is to be installed from.
#[derive(Clone, Debug)]
pub enum SourceType {
    /// A registry reference `account/name[@version]`.
    Registry(SkillRef),
    /// A git repository, with an optional ref and path inside it.
    Git { url: String, git_ref: Option<String>, path: Option<String> },
    /// A directory on this machine.
    Local(String),
}

/// The contents of a `SourceType`.
pub enum SourceView {
    Registry(SkillRefView),
    Git(Seq<char>, Option<Seq<char>>, Option<Seq<char>>),
    Local(Seq<char>),
}

impl View for SourceType {
    type V = SourceView;

    open spec fn view(&self) -> SourceView {
        match self {
            SourceType::Registry(r) => SourceView::Registry(r@),
            SourceType::Git { url, git_ref, path } => SourceView::Git(
                url@,
                opt_str(*git_ref),
                opt_str(*path),
            ),
            SourceType::Local(p) => SourceView::Local(p@),
        }
    }
}

/// The ref that one `key=value` fragment part names, if it names one.
pub open spec fn ref_value(part: Seq<char>) -> Option<Seq<char>> {
    if has_prefix(part, "ref="@) {
        Some(part.subrange(4, part.len() as int))
    } else if has_prefix(part, "tag="@) {
        Some(part.subrange(4, part.len() as int))
    } else if has_prefix(part, "branch="@) {
        Some(part.subrange(7, part.len() as int))
    } else {
        None
    }
}

/// The path that one `key=value` fragment part names, if it names one.
pub open spec fn path_value(part: Seq<char>) -> Option<Seq<char>> {
    if has_prefix(part, "path="@) {
        Some(part.subrange(5, part.len() as int))
    } else {
        None
    }
}

/// The ref named by the last part that names one.
pub open spec fn last_ref(parts: Seq<Seq<char>>) -> Option<Seq<char>>
    decreases parts.len(),
{
    if parts.len() == 0 {
        None
    } else if ref_value(parts.last()) is Some {
        ref_value(parts.last())
    } else {
        last_ref(parts.drop_last())
    }
}

/// The path named by the last part that names one.
pub open spec fn last_path(parts: Seq<Seq<char>>) -> Option<Seq<char>>
    decreases parts.len(),
{
    if parts.len() == 0 {
        None
    } else if path_value(parts.last()) is Some {
        path_value(parts.last())
    } else {
        last_path(parts.drop_last())
    }
}

/// A git URL split into base URL, ref and path: the fragment after the first
/// `#` holds `&`-separated `ref=`, `tag=`, `branch=` and `path=` parts.
pub open spec fn git_url_parts(s: Seq<char>) -> (Seq<char>, Option<Seq<char>>, Option<Seq<char>>) {
    let h = first_index_of(s, '#');
    if h < 0 {
        (s, None, None)
    } else {
        let parts = split_on(s.subrange(h + 1, s.len() as int), '&');
        (s.subrange(0, h), last_ref(parts), last_path(parts))
    }
}

/// Splits a git URL into base URL, ref and path.
pub fn parse_git_url(url: &str) -> (r: (String, Option<String>, Option<String>))
    ensures
        (r.0@, opt_str(r.1), opt_str(r.2)) == git_url_parts(url@),
{
    let cs = chars_of(url);
    proof {
        lemma_first_index_of(url@, '#');
    }
    let h = match find_char(&cs, '#') {
        Some(h) => h,
        None => {
            return (url.to_owned(), None, None);
        },
    };
    let n = cs.len();
    assert(h < n);
    let base = substring(url, 0, h);
    let fragment = substring(url, h + 1, n);
    let parts = split_by(fragment.as_str(), '&');
    let ghost ps = views(parts@);
    let mut git_ref: Option<String> = None;
    let mut path: Option<String> = None;
    let mut i: usize = 0;
    assert(ps.subrange(0, 0) =~= Seq::<Seq<char>>::empty());
    while i < parts.len()
        invariant
            i <= parts@.len(),
            ps == views(parts@),
            opt_str(git_ref) == last_ref(ps.subrange(0, i as int)),
            opt_str(path) == last_path(ps.subrange(0, i as int)),
        decreases parts@.len() - i,
    {
        let part = parts[i].as_str();
        let ghost pre = ps.subrange(0, i + 1);
        assert(pre.drop_last() =~= ps.subrange(0, i as int));
        assert(pre.last() == part@);
        proof {
            reveal_strlit("ref=");
            reveal_strlit("tag=");
            reveal_strlit("branch=");
            reveal_strlit("path=");
            if has_prefix(part@, "path="@) {
                assert(part@.subrange(0, 5)[0] == part@[0]);
            }
            if has_prefix(part@, "ref="@) {
                assert(part@.subrange(0, 4)[0] == part@[0]);
            }
            if has_prefix(part@, "tag="@) {
                assert(part@.subrange(0, 4)[0] == part@[0]);
            }
            if has_prefix(part@, "branch="@) {
                assert(part@.subrange(0, 7)[0] == part@[0]);
            }
        }
        if let Some(v) = strip_prefix(part, "ref=") {
            git_ref = Some(v);
        } else if let Some(v) = strip_prefix(part, "tag=") {
            git_ref = Some(v);
        } else if let Some(v) = strip_prefix(part, "branch=") {
            git_ref = Some(v);
        } else if let Some(v) = strip_prefix(part, "path=") {
            path = Some(v);
        }
        i = i + 1;
    }
    assert(ps.subrange(0, i as int) =~= ps);
    (base, git_ref, path)
}

/// Whether `s` names a git remote: it starts with `https://`, `http://`,
/// `git@` or `ssh://`.
pub open spec fn is_git_like(s: Seq<char>) -> bool {
    has_prefix(s, "https://"@) || has_prefix(s, "http://"@) || has_prefix(s, "git@"@)
        || has_prefix(s, "ssh://"@)
}

/// Whether `s` is written as a path: it starts with `./`, `../` or `/`, or its
/// second character is `:` as in a drive letter.
pub open spec fn is_path_like(s: Seq<char>) -> bool {
    has_prefix(s, "./"@) || has_prefix(s, "../"@) || has_prefix(s, "/"@) || (s.len() >= 2 && s[1]
        == ':')
}

/// The source that `s` names, where `local_skill` tells whether `s` is a
/// directory on disk that holds a skill file.
pub open spec fn classify(s: Seq<char>, local_skill: bool) -> SourceView {
    if is_git_like(s) {
        SourceView::Git(git_url_parts(s).0, git_url_parts(s).1, git_url_parts(s).2)
    } else if is_path_like(s) || local_skill {
        SourceView::Local(s)
    } else if parse_ref(s) is Ok {
        SourceView::Registry(parse_ref(s)->Ok_0)
    } else {
        SourceView::Local(s)
    }
}

/// Classifies `source`, given whether it is a directory on disk that holds a
/// skill file.
pub fn classify_source(source: &str, local_skill: bool) -> (r: SourceType)
    ensures
        r@ == classify(source@, local_skill),
{
    if starts_with(source, "https://") || starts_with(source, "http://") || starts_with(
        source,
        "git@",
    ) || starts_with(source, "ssh://") {
        let (url, git_ref, path) = parse_git_url(source);
        return SourceType::Git { url, git_ref, path };
    }
    let n = source.unicode_len();
    if starts_with(source, "./") || starts_with(source, "../") || starts_with(source, "/") || (n
        >= 2 && source.get_char(1) == ':') || local_skill {
        return SourceType::Local(source.to_owned());
    }
    match SkillRef::parse(source) {
        Ok(r) => SourceType::Registry(r),
        Err(_) => SourceType::Local(source.to_owned()),
    }
}

/// Classifies `source`, looking on disk for a skill directory of that name
/// where the text alone does not decide.
pub fn detect_source_type(source: &str) -> (r: SourceType)
    ensures
        exists|local_skill: bool| r@ == classify(source@, local_skill),
{
    let local_skill = path_exists(source) && path_exists(join_path(source, SKILL_FILE).as_str());
    classify_source(source, local_skill)
}

} // verus!
