//! The naming rules shared by registry references and skill manifests.

use vstd::prelude::*;

use crate::text::chars_of;

verus! {

/// A lowercase ASCII letter, an ASCII digit, or a hyphen.
pub open spec fn is_name_char(c: char) -> bool {
    ('a' <= c && c <= 'z') || ('0' <= c && c <= '9') || c == '-'
}

pub open spec fn all_name_chars(s: Seq<char>) -> bool {
    forall|i: int| 0 <= i < s.len() ==> #[trigger] is_name_char(s[i])
}

pub open spec fn has_double_hyphen(s: Seq<char>) -> bool {
    exists|i: int| 0 <= i && i + 1 < s.len() && #[trigger] s[i] == '-' && s[i + 1] == '-'
}

/// The rule that a skill name breaks.
#[derive(Clone, Copy, Debug, PartialEq, Eq, Structural)]
pub enum NameProblem {
    /// Not 1 to 64 characters long.
    Length,
    /// A character other than `a-z`, `0-9` or `-`.
    Characters,
    /// Starts or ends with a hyphen.
    EdgeHyphen,
    /// Holds two hyphens in a row.
    DoubleHyphen,
}

/// The rule that an account name breaks.
#[derive(Clone, Copy, Debug, PartialEq, Eq, Structural)]
pub enum AccountProblem {
    /// Not 1 to 39 characters long.
    Length,
    /// A character other than `a-z`, `0-9` or `-`.
    Characters,
}

/// The first skill-name rule that `s` breaks, checked in a fixed order.
pub open spec fn name_problem(s: Seq<char>) -> Option<NameProblem> {
    if !(1 <= s.len() <= 64) {
        Some(NameProblem::Length)
    } else if !all_name_chars(s) {
        Some(NameProblem::Characters)
    } else if s[0] == '-' || s.last() == '-' {
        Some(NameProblem::EdgeHyphen)
    } else if has_double_hyphen(s) {
        Some(NameProblem::DoubleHyphen)
    } else {
        None
    }
}

/// The first account-name rule that `s` breaks.
pub open spec fn account_problem(s: Seq<char>) -> Option<AccountProblem> {
    if !(1 <= s.len() <= 39) {
        Some(AccountProblem::Length)
    } else if !all_name_chars(s) {
        Some(AccountProblem::Characters)
    } else {
        None
    }
}

pub fn is_name_char_exec(c: char) -> (r: bool)
    ensures
        r == is_name_char(c),
{
    ('a' <= c && c <= 'z') || ('0' <= c && c <= '9') || c == '-'
}

/// Whether every character of `v[from..to]` is allowed in a name.
pub fn all_name_chars_in(v: &Vec<char>, from: usize, to: usize) -> (r: bool)
    requires
        from <= to <= v@.len(),
    ensures
        r == all_name_chars(v@.subrange(from as int, to as int)),
{
    let mut i: usize = from;
    while i < to
        invariant
            from <= i <= to <= v@.len(),
            forall|j: int| from <= j < i ==> is_name_char(v@[j]),
        decreases to - i,
    {
        if !is_name_char_exec(v[i]) {
            assert(!is_name_char(v@.subrange(from as int, to as int)[i - from]));
            return false;
        }
        i = i + 1;
    }
    assert forall|j: int| 0 <= j < to - from implies is_name_char(
        #[trigger] v@.subrange(from as int, to as int)[j],
    ) by {
        assert(v@.subrange(from as int, to as int)[j] == v@[from + j]);
    }
    true
}

/// Whether `v[from..to]` holds two hyphens in a row.
pub fn has_double_hyphen_in(v: &Vec<char>, from: usize, to: usize) -> (r: bool)
    requires
        from <= to <= v@.len(),
    ensures
        r == has_double_hyphen(v@.subrange(from as int, to as int)),
{
    let ghost s = v@.subrange(from as int, to as int);
    let mut i: usize = from;
    while i < to && i + 1 < to
        invariant
            from <= i <= to <= v@.len(),
            s == v@.subrange(from as int, to as int),
            forall|j: int| from <= j < i && j + 1 < to ==> !(#[trigger] v@[j] == '-' && v@[j + 1] == '-'),
        decreases to - i,
    {
        if v[i] == '-' && v[i + 1] == '-' {
            assert(s[i - from] == '-' && s[i - from + 1] == '-');
            return true;
        }
        i = i + 1;
    }
    assert forall|k: int| 0 <= k && k + 1 < s.len() implies !(#[trigger] s[k] == '-' && s[k + 1]
        == '-') by {
        assert(s[k] == v@[from + k] && s[k + 1] == v@[from + k + 1]);
    }
    false
}

/// The first skill-name rule that `v[from..to]` breaks.
pub fn name_problem_in(v: &Vec<char>, from: usize, to: usize) -> (r: Option<NameProblem>)
    requires
        from <= to <= v@.len(),
    ensures
        r == name_problem(v@.subrange(from as int, to as int)),
{
    let ghost s = v@.subrange(from as int, to as int);
    let n = to - from;
    if n == 0 || n > 64 {
        Some(NameProblem::Length)
    } else if !all_name_chars_in(v, from, to) {
        Some(NameProblem::Characters)
    } else if v[from] == '-' || v[to - 1] == '-' {
        assert(s[0] == v@[from as int] && s.last() == v@[to - 1]);
        Some(NameProblem::EdgeHyphen)
    } else if has_double_hyphen_in(v, from, to) {
        Some(NameProblem::DoubleHyphen)
    } else {
        assert(s[0] == v@[from as int] && s.last() == v@[to - 1]);
        None
    }
}

/// The first account-name rule that `v[from..to]` breaks.
pub fn account_problem_in(v: &Vec<char>, from: usize, to: usize) -> (r: Option<AccountProblem>)
    requires
        from <= to <= v@.len(),
    ensures
        r == account_problem(v@.subrange(from as int, to as int)),
{
    let n = to - from;
    if n == 0 || n > 39 {
        Some(AccountProblem::Length)
    } else if !all_name_chars_in(v, from, to) {
        Some(AccountProblem::Characters)
    } else {
        None
    }
}

/// The first skill-name rule that `s` breaks, if any.
pub fn check_skill_name(s: &str) -> (r: Option<NameProblem>)
    ensures
        r == name_problem(s@),
{
    let v = chars_of(s);
    assert(v@.subrange(0, v@.len() as int) =~= s@);
    name_problem_in(&v, 0, v.len())
}

} // verus!
