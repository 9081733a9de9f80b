//! The framing of a skill file: a front-matter block between `---` markers,
//! then free-form instructions. Reading the block's fields is the caller's part.

use vstd::prelude::*;
use vstd::string::*;

use crate::text::{chars_of, has_prefix, starts_with, substring};

verus! {

/// The characters that `char::is_whitespace` accepts: Unicode `White_Space`.
pub open spec fn is_ws(c: char) -> bool {
    c == '\t' || c == '\n' || c == '\u{0B}' || c == '\u{0C}' || c == '\r' || c == ' ' || c
        == '\u{85}' || c == '\u{A0}' || c == '\u{1680}' || ('\u{2000}' <= c && c <= '\u{200A}')
        || c == '\u{2028}' || c == '\u{2029}' || c == '\u{202F}' || c == '\u{205F}' || c
        == '\u{3000}'
}

pub fn is_ws_exec(c: char) -> (r: bool)
    ensures
        r == is_ws(c),
{
    c == '\t' || c == '\n' || c == '\u{0B}' || c == '\u{0C}' || c == '\r' || c == ' ' || c
        == '\u{85}' || c == '\u{A0}' || c == '\u{1680}' || ('\u{2000}' <= c && c <= '\u{200A}')
        || c == '\u{2028}' || c == '\u{2029}' || c == '\u{202F}' || c == '\u{205F}' || c
        == '\u{3000}'
}

pub open spec fn trim_start(s: Seq<char>) -> Seq<char>
    decreases s.len(),
{
    if s.len() > 0 && is_ws(s[0]) {
        trim_start(s.drop_first())
    } else {
        s
    }
}

pub open spec fn trim_end(s: Seq<char>) -> Seq<char>
    decreases s.len(),
{
    if s.len() > 0 && is_ws(s.last()) {
        trim_end(s.drop_last())
    } else {
        s
    }
}

/// `s` without leading and trailing whitespace, as `str::trim` gives it.
pub open spec fn trim(s: Seq<char>) -> Seq<char> {
    trim_end(trim_start(s))
}

/// `s` without leading and trailing whitespace.
pub fn trim_text(s: &str) -> (r: String)
    ensures
        r@ == trim(s@),
{
    let cs = chars_of(s);
    let n = cs.len();
    let mut i: usize = 0;
    assert(s@.subrange(0, n as int) =~= s@);
    while i < n && is_ws_exec(cs[i])
        invariant
            i <= n == cs@.len(),
            cs@ == s@,
            trim_start(s@) == trim_start(s@.subrange(i as int, n as int)),
        decreases n - i,
    {
        assert(s@.subrange(i as int, n as int).drop_first() =~= s@.subrange(i + 1, n as int));
        i = i + 1;
    }
    let mut j: usize = n;
    assert(trim_start(s@) == s@.subrange(i as int, n as int));
    while j > i && is_ws_exec(cs[j - 1])
        invariant
            i <= j <= n == cs@.len(),
            cs@ == s@,
            trim(s@) == trim_end(s@.subrange(i as int, j as int)),
        decreases j,
    {
        assert(s@.subrange(i as int, j as int).drop_last() =~= s@.subrange(i as int, j - 1));
        j = j - 1;
    }
    substring(s, i, j)
}

/// Index of the first occurrence of `p` in `s`, or -1 when there is none.
pub open spec fn find_sub(s: Seq<char>, p: Seq<char>) -> int
    decreases s.len(),
{
    if s.len() < p.len() {
        -1
    } else if p.len() == 0 || s.subrange(0, p.len() as int) == p {
        0
    } else if find_sub(s.drop_first(), p) < 0 {
        -1
    } else {
        find_sub(s.drop_first(), p) + 1
    }
}

/// A found occurrence of `p` lies wholly inside `s`.
pub proof fn lemma_find_sub_bound(s: Seq<char>, p: Seq<char>)
    ensures
        find_sub(s, p) >= 0 ==> find_sub(s, p) + p.len()
            <= s.len(),
        find_sub(s, p) >= -1,
    decreases s.len(),
{
    if s.len() >= p.len() && !(p.len() == 0 || s.subrange(0, p.len() as int) == p) {
        lemma_find_sub_bound(s.drop_first(), p);
    }
}

/// Whether `p` occurs in `s` at position `at`.
fn occurs_at(s: &Vec<char>, p: &Vec<char>, at: usize) -> (r: bool)
    requires
        at + p@.len() <= s@.len(),
    ensures
        r == (s@.subrange(at as int, at + p@.len()) == p@),
{
    let sl = s.len();
    let mut k: usize = 0;
    while k < p.len()
        invariant
            sl == s@.len(),
            k <= p@.len(),
            at + p@.len() <= s@.len(),
            forall|j: int| 0 <= j < k ==> s@[at + j] == p@[j],
        decreases p@.len() - k,
    {
        if s[at + k] != p[k] {
            assert(s@.subrange(at as int, at + p@.len())[k as int] != p@[k as int]);
            return false;
        }
        k = k + 1;
    }
    assert(s@.subrange(at as int, at + p@.len()) =~= p@);
    true
}

/// The first position of `p` in `s`.
pub fn find_text(s: &str, p: &str) -> (r: Option<usize>)
    ensures
        match r {
            Some(i) => i == find_sub(s@, p@),
            None => find_sub(s@, p@) == -1,
        },
{
    let cs = chars_of(s);
    let ps = chars_of(p);
    let n = cs.len();
    let m = ps.len();
    let mut i: usize = 0;
    assert(s@.subrange(0, n as int) =~= s@);
    while i <= n
        invariant
            n == cs@.len(),
            m == ps@.len(),
            cs@ == s@,
            ps@ == p@,
            i <= n,
            find_sub(s@, p@) == if find_sub(s@.subrange(i as int, n as int), p@) < 0 {
                -1
            } else {
                find_sub(s@.subrange(i as int, n as int), p@) + i
            },
        decreases n - i,
    {
        let ghost rest = s@.subrange(i as int, n as int);
        if n - i < m {
            return None;
        }
        assert(rest.subrange(0, m as int) =~= s@.subrange(i as int, i + m));
        if m == 0 || occurs_at(&cs, &ps, i) {
            return Some(i);
        }
        assert(rest.drop_first() =~= s@.subrange(i + 1, n as int));
        if i == n {
            return None;
        }
        i = i + 1;
    }
    None
}

/// Why a skill file's framing was refused.
#[derive(Clone, Copy, Debug, PartialEq, Eq, Structural)]
pub enum SkillFileError {
    /// The trimmed text does not start with `---`.
    NoFrontmatter,
    /// No `\n---` closes the front matter.
    Unclosed,
}

/// The front matter and the instructions of a skill file, each trimmed: the
/// trimmed text starts with `---`, and the first `\n---` after it ends the
/// front matter.
pub open spec fn skill_md_parts(content: Seq<char>) -> Result<(Seq<char>, Seq<char>), SkillFileError> {
    let t = trim(content);
    if !has_prefix(t, "---"@) {
        Err(SkillFileError::NoFrontmatter)
    } else {
        let rest = t.subrange(3, t.len() as int);
        let e = find_sub(rest, "\n---"@);
        if e < 0 {
            Err(SkillFileError::Unclosed)
        } else {
            Ok((trim(rest.subrange(0, e)), trim(rest.subrange(e + 4, rest.len() as int))))
        }
    }
}

/// Splits a skill file into its front matter and its instructions.
pub fn split_skill_md(content: &str) -> (r: Result<(String, String), SkillFileError>)
    ensures
        match r {
            Ok((front, body)) => skill_md_parts(content@) == Ok::<
                (Seq<char>, Seq<char>),
                SkillFileError,
            >((front@, body@)),
            Err(e) => skill_md_parts(content@) == Err::<(Seq<char>, Seq<char>), SkillFileError>(e),
        },
{
    let t = trim_text(content);
    if !starts_with(t.as_str(), "---") {
        return Err(SkillFileError::NoFrontmatter);
    }
    proof {
        reveal_strlit("---");
        reveal_strlit("\n---");
    }
    let n = t.as_str().unicode_len();
    let rest = substring(t.as_str(), 3, n);
    let e = match find_text(rest.as_str(), "\n---") {
        Some(e) => e,
        None => {
            return Err(SkillFileError::Unclosed);
        },
    };
    proof {
        lemma_find_sub_bound(rest@, "\n---"@);
    }
    let m = rest.as_str().unicode_len();
    let front = substring(rest.as_str(), 0, e);
    let tail = substring(rest.as_str(), e + 4, m);
    Ok((trim_text(front.as_str()), trim_text(tail.as_str())))
}

/// A skill file from serialized front matter and instructions.
pub fn compose_skill_md(front_matter: &str, body: &str) -> (r: String)
    ensures
        r@ == "---\n"@ + front_matter@ + "---\n\n"@ + body@,
{
    let mut s = "---\n".to_owned();
    s.append(front_matter);
    s.append("---\n\n");
    s.append(body);
    s
}

} // verus!
