//! Semantic versions `MAJOR.MINOR.PATCH`, their bumps, and `v`-prefixed tags.

use vstd::prelude::*;
use vstd::string::*;

use crate::text::{
    chars_of, lemma_split_on_join, lemma_split_on_whole, split_by, split_on, substring, views,
};

verus! {

pub open spec fn is_digit(c: char) -> bool {
    '0' <= c && c <= '9'
}

pub open spec fn all_digits(s: Seq<char>) -> bool {
    forall|i: int| 0 <= i < s.len() ==> #[trigger] is_digit(s[i])
}

pub open spec fn digit_value(c: char) -> nat {
    (c as u32 - '0' as u32) as nat
}

/// The number that the decimal digits `s` spell.
pub open spec fn digits_value(s: Seq<char>) -> nat
    decreases s.len(),
{
    if s.len() == 0 {
        0
    } else {
        digits_value(s.drop_last()) * 10 + digit_value(s.last())
    }
}

/// `s` without one leading `+`.
pub open spec fn unsigned_digits(s: Seq<char>) -> Seq<char> {
    if s.len() > 0 && s[0] == '+' {
        s.drop_first()
    } else {
        s
    }
}

/// Reading `s` as a `u32`: an optional `+`, then one or more decimal digits
/// whose value fits in 32 bits.
pub open spec fn parse_u32(s: Seq<char>) -> Option<u32> {
    let d = unsigned_digits(s);
    if d.len() > 0 && all_digits(d) && digits_value(d) <= u32::MAX {
        Some(digits_value(d) as u32)
    } else {
        None
    }
}

pub proof fn lemma_digits_value_prefix(s: Seq<char>, k: int)
    requires
        0 <= k <= s.len(),
    ensures
        digits_value(s.subrange(0, k)) <= digits_value(s),
    decreases s.len(),
{
    if k < s.len() {
        assert(s.drop_last().subrange(0, k) =~= s.subrange(0, k));
        lemma_digits_value_prefix(s.drop_last(), k);
    } else {
        assert(s.subrange(0, k) =~= s);
    }
}

/// Reads `s` as a `u32` the way `str::parse::<u32>` does.
pub fn parse_u32_str(s: &str) -> (r: Option<u32>)
    ensures
        r == parse_u32(s@),
{
    let cs = chars_of(s);
    let n = cs.len();
    let start: usize = if n > 0 && cs[0] == '+' {
        1
    } else {
        0
    };
    let ghost d = cs@.subrange(start as int, n as int);
    assert(d =~= unsigned_digits(s@));
    if start == n {
        return None;
    }
    let mut acc: u64 = 0;
    let mut i: usize = start;
    while i < n
        invariant
            start <= i <= n,
            n == cs@.len(),
            d == cs@.subrange(start as int, n as int),
            d == unsigned_digits(s@),
            all_digits(cs@.subrange(start as int, i as int)),
            acc as nat == digits_value(cs@.subrange(start as int, i as int)),
            acc <= u32::MAX,
        decreases n - i,
    {
        let c = cs[i];
        let ghost before = cs@.subrange(start as int, i as int);
        let ghost after = cs@.subrange(start as int, i + 1);
        assert(after.drop_last() =~= before);
        assert(d[i - start] == c);
        if !('0' <= c && c <= '9') {
            assert(!is_digit(d[i - start]));
            return None;
        }
        acc = acc * 10 + (c as u64 - '0' as u64);
        assert(acc as nat == digits_value(after));
        i = i + 1;
        if acc > u32::MAX as u64 {
            proof {
                assert(d.subrange(0, i - start) =~= after);
                lemma_digits_value_prefix(d, i - start);
            }
            return None;
        }
    }
    assert(cs@.subrange(start as int, i as int) =~= d);
    Some(acc as u32)
}

/// The decimal digit `d`, for `d < 10`.
pub open spec fn digit_char(d: nat) -> char {
    seq!['0', '1', '2', '3', '4', '5', '6', '7', '8', '9'][d as int]
}

/// `n` written in decimal, without leading zeros.
pub open spec fn decimal(n: nat) -> Seq<char>
    decreases n,
{
    if n < 10 {
        seq![digit_char(n)]
    } else {
        decimal(n / 10).push(digit_char(n % 10))
    }
}

/// Appends `n` in decimal to `out`.
pub fn push_decimal(out: &mut String, n: u32)
    ensures
        final(out)@ == old(out)@ + decimal(n as nat),
    decreases n,
{
    if n >= 10 {
        push_decimal(out, n / 10);
    }
    let digits = "0123456789";
    proof {
        reveal_strlit("0123456789");
    }
    let d = (n % 10) as usize;
    let one = digits.substring_char(d, d + 1);
    assert(one@ =~= seq![digit_char((n % 10) as nat)]);
    out.append(one);
    assert(final(out)@ =~= old(out)@ + decimal(n as nat));
}

/// Why a version string was refused.
#[derive(Clone, Copy, Debug, PartialEq, Eq, Structural)]
pub enum VersionError {
    /// Not exactly three `.`-separated parts.
    WrongPartCount,
    /// The first part is not a number.
    InvalidMajor,
    /// The second part is not a number.
    InvalidMinor,
    /// The third part is not a number.
    InvalidPatch,
    /// The bumped part would not fit in 32 bits.
    TooLarge,
}

/// `s` without one leading `v`.
pub open spec fn strip_v(s: Seq<char>) -> Seq<char> {
    if s.len() > 0 && s[0] == 'v' {
        s.drop_first()
    } else {
        s
    }
}

/// What `parse_version` gives for `s`.
pub open spec fn version_of(s: Seq<char>) -> Result<(u32, u32, u32), VersionError> {
    let parts = split_on(strip_v(s), '.');
    if parts.len() != 3 {
        Err(VersionError::WrongPartCount)
    } else if parse_u32(parts[0]) is None {
        Err(VersionError::InvalidMajor)
    } else if parse_u32(parts[1]) is None {
        Err(VersionError::InvalidMinor)
    } else if parse_u32(parts[2]) is None {
        Err(VersionError::InvalidPatch)
    } else {
        Ok((parse_u32(parts[0])->0, parse_u32(parts[1])->0, parse_u32(parts[2])->0))
    }
}

/// Whether `s` reads as a version.
pub open spec fn is_semver(s: Seq<char>) -> bool {
    version_of(s) is Ok
}

/// Parses `MAJOR.MINOR.PATCH`, with an optional leading `v`.
pub fn parse_version(version: &str) -> (r: Result<(u32, u32, u32), VersionError>)
    ensures
        r == version_of(version@),
{
    let n = version.unicode_len();
    let body = if n > 0 && version.get_char(0) == 'v' {
        substring(version, 1, n)
    } else {
        version.to_owned()
    };
    assert(body@ =~= strip_v(version@));
    let parts = split_by(body.as_str(), '.');
    assert(views(parts@) == split_on(body@, '.'));
    if parts.len() != 3 {
        return Err(VersionError::WrongPartCount);
    }
    assert(parts@[0]@ == split_on(body@, '.')[0]);
    assert(parts@[1]@ == split_on(body@, '.')[1]);
    assert(parts@[2]@ == split_on(body@, '.')[2]);
    let major = match parse_u32_str(parts[0].as_str()) {
        Some(v) => v,
        None => {
            return Err(VersionError::InvalidMajor);
        },
    };
    let minor = match parse_u32_str(parts[1].as_str()) {
        Some(v) => v,
        None => {
            return Err(VersionError::InvalidMinor);
        },
    };
    let patch = match parse_u32_str(parts[2].as_str()) {
        Some(v) => v,
        None => {
            return Err(VersionError::InvalidPatch);
        },
    };
    Ok((major, minor, patch))
}

/// Which part of a version to raise.
#[derive(Clone, Copy, Debug, PartialEq, Eq, Structural)]
pub enum BumpKind {
    Patch,
    Minor,
    Major,
}

/// A release version.
#[derive(Clone, Copy, Debug, PartialEq, Eq, Structural)]
pub struct Version {
    pub major: u32,
    pub minor: u32,
    pub patch: u32,
}

/// `v` raised by one step of `kind`, the lower parts reset to zero; `None`
/// where the raised part would not fit in 32 bits.
pub open spec fn bump_of(v: Version, kind: BumpKind) -> Option<Version> {
    match kind {
        BumpKind::Patch => if v.patch == u32::MAX {
            None
        } else {
            Some(Version { major: v.major, minor: v.minor, patch: (v.patch + 1) as u32 })
        },
        BumpKind::Minor => if v.minor == u32::MAX {
            None
        } else {
            Some(Version { major: v.major, minor: (v.minor + 1) as u32, patch: 0 })
        },
        BumpKind::Major => if v.major == u32::MAX {
            None
        } else {
            Some(Version { major: (v.major + 1) as u32, minor: 0, patch: 0 })
        },
    }
}

/// The tag of a version: `v` then the three parts joined by `.`.
pub open spec fn tag_of(v: Version) -> Seq<char> {
    seq!['v'] + decimal(v.major as nat) + seq!['.'] + decimal(v.minor as nat) + seq!['.']
        + decimal(v.patch as nat)
}

impl Version {
    /// Parses `MAJOR.MINOR.PATCH`, with an optional leading `v`.
    pub fn parse(s: &str) -> (r: Result<Version, VersionError>)
        ensures
            match r {
                Ok(v) => version_of(s@) == Ok::<(u32, u32, u32), VersionError>(
                    (v.major, v.minor, v.patch),
                ),
                Err(e) => version_of(s@) == Err::<(u32, u32, u32), VersionError>(e),
            },
    {
        match parse_version(s) {
            Ok((major, minor, patch)) => Ok(Version { major, minor, patch }),
            Err(e) => Err(e),
        }
    }

    /// This version raised by one step of `kind`.
    pub fn bumped(&self, kind: BumpKind) -> (r: Option<Version>)
        ensures
            r == bump_of(*self, kind),
    {
        match kind {
            BumpKind::Patch => if self.patch == u32::MAX {
                None
            } else {
                Some(Version { major: self.major, minor: self.minor, patch: self.patch + 1 })
            },
            BumpKind::Minor => if self.minor == u32::MAX {
                None
            } else {
                Some(Version { major: self.major, minor: self.minor + 1, patch: 0 })
            },
            BumpKind::Major => if self.major == u32::MAX {
                None
            } else {
                Some(Version { major: self.major + 1, minor: 0, patch: 0 })
            },
        }
    }

    /// The tag of this version, such as `v1.2.3`.
    pub fn tag(&self) -> (r: String)
        ensures
            r@ == tag_of(*self),
    {
        let mut s = String::new();
        proof {
            reveal_strlit("v");
            reveal_strlit(".");
        }
        s.append("v");
        push_decimal(&mut s, self.major);
        s.append(".");
        push_decimal(&mut s, self.minor);
        s.append(".");
        push_decimal(&mut s, self.patch);
        assert(s@ =~= tag_of(*self));
        s
    }
}

/// The tag one `kind` step above the version `s` spells.
pub open spec fn next_tag_of(s: Seq<char>, kind: BumpKind) -> Result<Seq<char>, VersionError> {
    match version_of(s) {
        Err(e) => Err(e),
        Ok((major, minor, patch)) => match bump_of(Version { major, minor, patch }, kind) {
            None => Err(VersionError::TooLarge),
            Some(b) => Ok(tag_of(b)),
        },
    }
}

/// The tag one `kind` step above the version `current`.
pub fn next_tag(current: &str, kind: BumpKind) -> (r: Result<String, VersionError>)
    ensures
        match r {
            Ok(t) => next_tag_of(current@, kind) == Ok::<Seq<char>, VersionError>(t@),
            Err(e) => next_tag_of(current@, kind) == Err::<Seq<char>, VersionError>(e),
        },
{
    let v = match Version::parse(current) {
        Ok(v) => v,
        Err(e) => {
            return Err(e);
        },
    };
    match v.bumped(kind) {
        Some(b) => Ok(b.tag()),
        None => Err(VersionError::TooLarge),
    }
}

/// The tags among `tags` that read as versions, in their order.
pub open spec fn semver_only(tags: Seq<Seq<char>>) -> Seq<Seq<char>>
    decreases tags.len(),
{
    if tags.len() == 0 {
        Seq::empty()
    } else if is_semver(tags.last()) {
        semver_only(tags.drop_last()).push(tags.last())
    } else {
        semver_only(tags.drop_last())
    }
}

/// The tags among `tags` that read as versions, in their order.
pub fn filter_semver_tags(tags: &Vec<String>) -> (r: Vec<String>)
    ensures
        views(r@) == semver_only(views(tags@)),
{
    let mut out: Vec<String> = Vec::new();
    let mut i: usize = 0;
    assert(views(tags@.subrange(0, 0)) =~= Seq::<Seq<char>>::empty());
    assert(views(out@) =~= Seq::<Seq<char>>::empty());
    while i < tags.len()
        invariant
            i <= tags@.len(),
            views(out@) == semver_only(views(tags@.subrange(0, i as int))),
        decreases tags@.len() - i,
    {
        let ghost prefix = views(tags@.subrange(0, i + 1));
        assert(prefix.drop_last() =~= views(tags@.subrange(0, i as int)));
        assert(prefix.last() == tags@[i as int]@);
        let ghost old_out = out@;
        if parse_version(tags[i].as_str()).is_ok() {
            out.push(tags[i].clone());
            assert(views(out@) =~= views(old_out).push(tags@[i as int]@));
        }
        i = i + 1;
    }
    assert(tags@.subrange(0, i as int) =~= tags@);
    out
}

proof fn lemma_digit_char(d: nat)
    requires
        d < 10,
    ensures
        is_digit(digit_char(d)),
        digit_value(digit_char(d)) == d,
{
    let ds = seq!['0', '1', '2', '3', '4', '5', '6', '7', '8', '9'];
    assert(digit_char(d) == ds[d as int]);
    if d == 0 {
    } else if d == 1 {
    } else if d == 2 {
    } else if d == 3 {
    } else if d == 4 {
    } else if d == 5 {
    } else if d == 6 {
    } else if d == 7 {
    } else if d == 8 {
    } else {
        assert(d == 9);
    }
}

/// `decimal(n)` is a non-empty run of digits that spells `n`.
proof fn lemma_decimal(n: nat)
    ensures
        decimal(n).len() > 0,
        all_digits(decimal(n)),
        digits_value(decimal(n)) == n,
    decreases n,
{
    if n < 10 {
        lemma_digit_char(n);
        let s = decimal(n);
        assert(s.drop_last() =~= Seq::<char>::empty());
        assert(digits_value(s.drop_last()) == 0);
        assert(s.last() == digit_char(n));
        assert(digits_value(s) == digits_value(s.drop_last()) * 10 + digit_value(s.last()));
    } else {
        lemma_decimal(n / 10);
        lemma_digit_char(n % 10);
        let s = decimal(n);
        assert(s.drop_last() =~= decimal(n / 10));
        assert(s.last() == digit_char(n % 10));
        assert((n / 10) * 10 + n % 10 == n) by (nonlinear_arith);
        assert(digits_value(s) == digits_value(s.drop_last()) * 10 + digit_value(s.last()));
        assert forall|i: int| 0 <= i < s.len() implies #[trigger] is_digit(s[i]) by {
            if i < s.len() - 1 {
                assert(s[i] == decimal(n / 10)[i]);
            }
        }
    }
}

proof fn lemma_decimal_parses(n: u32)
    ensures
        parse_u32(decimal(n as nat)) == Some(n),
        !decimal(n as nat).contains('.'),
{
    let s = decimal(n as nat);
    lemma_decimal(n as nat);
    assert(is_digit(s[0]));
    assert(unsigned_digits(s) == s);
    if s.contains('.') {
        let k = choose|k: int| 0 <= k < s.len() && s[k] == '.';
        assert(is_digit(s[k]));
    }
}

/// Every tag reads back as the version it was made from, so a bumped tag is
/// always recognised as a version tag.
pub proof fn lemma_tag_round_trip(v: Version)
    ensures
        version_of(tag_of(v)) == Ok::<(u32, u32, u32), VersionError>((v.major, v.minor, v.patch)),
{
    let a = decimal(v.major as nat);
    let b = decimal(v.minor as nat);
    let c = decimal(v.patch as nat);
    lemma_decimal_parses(v.major);
    lemma_decimal_parses(v.minor);
    lemma_decimal_parses(v.patch);
    let t = tag_of(v);
    assert(strip_v(t) =~= (a + seq!['.'] + b) + seq!['.'] + c);
    lemma_split_on_join(a + seq!['.'] + b, '.', c);
    lemma_split_on_join(a, '.', b);
    lemma_split_on_whole(a, '.');
    lemma_split_on_whole(b, '.');
    lemma_split_on_whole(c, '.');
    assert(split_on(strip_v(t), '.') =~= seq![a, b, c]);
}

} // verus!
