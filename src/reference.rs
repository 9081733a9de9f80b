//! Registry references of the form `account/name[@version]`.

use vstd::prelude::*;
use vstd::string::*;

use crate::names::{
    account_problem, account_problem_in, is_name_char, name_problem,
    name_problem_in, AccountProblem, NameProblem,
};
use crate::text::{chars_of, opt_str, last_index_of, lemma_last_index_of, lemma_last_index_of_split, rfind_char, substring};

verus! {

/// Why a registry reference was refused.
#[derive(Clone, Copy, Debug, PartialEq, Eq, Structural)]
pub enum RefError {
    /// Nothing follows the last `@`.
    EmptyVersion,
    /// The part before the version is not two `/`-separated parts.
    InvalidFormat,
    /// The account part breaks a rule.
    Account(AccountProblem),
    /// The skill-name part breaks a rule.
    Name(NameProblem),
}

/// A parsed registry reference.
#[derive(Clone, Debug)]
pub struct SkillRef {
    /// Owner of the skill, such as `stakpak`.
    pub account: String,
    /// Name of the skill, such as `kubernetes-deploy`.
    pub name: String,
    /// Requested version, such as `1.2.3`.
    pub version: Option<String>,
}

/// The contents of a `SkillRef`.
pub struct SkillRefView {
    pub account: Seq<char>,
    pub name: Seq<char>,
    pub version: Option<Seq<char>>,
}

impl View for SkillRef {
    type V = SkillRefView;

    open spec fn view(&self) -> SkillRefView {
        SkillRefView { account: self.account@, name: self.name@, version: opt_str(self.version) }
    }
}

/// `s` split at its last `@` into identifier and version.
pub open spec fn split_version(s: Seq<char>) -> (Seq<char>, Option<Seq<char>>) {
    let at = last_index_of(s, '@');
    if at < 0 {
        (s, None)
    } else {
        (s.subrange(0, at), Some(s.subrange(at + 1, s.len() as int)))
    }
}

/// What parsing `s` as a registry reference gives.
pub open spec fn parse_ref(s: Seq<char>) -> Result<SkillRefView, RefError> {
    let (id, version) = split_version(s);
    let slash = last_index_of(id, '/');
    if version is Some && version->0.len() == 0 {
        Err(RefError::EmptyVersion)
    } else if slash < 0 || last_index_of(id.subrange(0, slash), '/') >= 0 {
        Err(RefError::InvalidFormat)
    } else {
        let account = id.subrange(0, slash);
        let name = id.subrange(slash + 1, id.len() as int);
        if account_problem(account) is Some {
            Err(RefError::Account(account_problem(account)->0))
        } else if name_problem(name) is Some {
            Err(RefError::Name(name_problem(name)->0))
        } else {
            Ok(SkillRefView { account, name, version })
        }
    }
}

/// The text form of a reference: `account/name` or `account/name@version`.
pub open spec fn uri_of(r: SkillRefView) -> Seq<char> {
    let base = r.account + seq!['/'] + r.name;
    match r.version {
        Some(v) => base + seq!['@'] + v,
        None => base,
    }
}

impl SkillRef {
    /// Parses `account/name[@version]`, splitting the version off at the last `@`.
    pub fn parse(input: &str) -> (r: Result<SkillRef, RefError>)
        ensures
            match r {
                Ok(v) => parse_ref(input@) == Ok::<SkillRefView, RefError>(v@),
                Err(e) => parse_ref(input@) == Err::<SkillRefView, RefError>(e),
            },
    {
        let cs = chars_of(input);
        let n = cs.len();
        let ghost s = input@;
        assert(cs@.subrange(0, n as int) =~= s);
        proof {
            lemma_last_index_of(s, '@');
        }
        let at = rfind_char(&cs, '@', n);
        let id_end: usize;
        let version: Option<String>;
        match at {
            Some(a) => {
                if a + 1 == n {
                    return Err(RefError::EmptyVersion);
                }
                id_end = a;
                version = Some(substring(input, a + 1, n));
            },
            None => {
                id_end = n;
                version = None;
            },
        }
        let ghost id = split_version(s).0;
        assert(id =~= cs@.subrange(0, id_end as int));
        proof {
            lemma_last_index_of(id, '/');
        }
        let slash = match rfind_char(&cs, '/', id_end) {
            Some(p) => p,
            None => {
                return Err(RefError::InvalidFormat);
            },
        };
        assert(id.subrange(0, slash as int) =~= cs@.subrange(0, slash as int));
        if rfind_char(&cs, '/', slash).is_some() {
            return Err(RefError::InvalidFormat);
        }
        assert(id.subrange(slash + 1, id.len() as int) =~= cs@.subrange(
            slash + 1,
            id_end as int,
        ));
        if let Some(p) = account_problem_in(&cs, 0, slash) {
            return Err(RefError::Account(p));
        }
        if let Some(p) = name_problem_in(&cs, slash + 1, id_end) {
            return Err(RefError::Name(p));
        }
        let account = substring(input, 0, slash);
        let name = substring(input, slash + 1, id_end);
        Ok(SkillRef { account, name, version })
    }

    /// The reference as text: `account/name` or `account/name@version`.
    pub fn to_uri(&self) -> (r: String)
        ensures
            r@ == uri_of(self@),
    {
        let mut s = self.account.clone();
        proof {
            reveal_strlit("/");
            reveal_strlit("@");
        }
        s.append("/");
        s.append(self.name.as_str());
        match &self.version {
            Some(v) => {
                s.append("@");
                s.append(v.as_str());
            },
            None => {},
        }
        s
    }
}

/// Every reference that parses renders back to exactly the text it came from.
pub proof fn lemma_parse_then_uri(s: Seq<char>)
    requires
        parse_ref(s) is Ok,
    ensures
        uri_of(parse_ref(s)->Ok_0) == s,
{
    let (id, version) = split_version(s);
    let at = last_index_of(s, '@');
    let slash = last_index_of(id, '/');
    lemma_last_index_of(s, '@');
    lemma_last_index_of(id, '/');
    let r = parse_ref(s)->Ok_0;
    assert(r.account + seq!['/'] + r.name =~= id);
    if at >= 0 {
        assert(id + seq!['@'] + version->0 =~= s);
    }
}

/// A valid account and skill name joined by `/`, with an optional non-empty
/// version free of `@` after an `@`, parse back to exactly those parts.
pub proof fn lemma_valid_parts_parse(
    account: Seq<char>,
    name: Seq<char>,
    version: Option<Seq<char>>,
)
    requires
        account_problem(account) is None,
        name_problem(name) is None,
        version matches Some(v) ==> v.len() > 0 && !v.contains('@'),
    ensures
        parse_ref(uri_of(SkillRefView { account, name, version })) == Ok::<SkillRefView, RefError>(
            SkillRefView { account, name, version },
        ),
{
    let id = account + seq!['/'] + name;
    assert(!name.contains('/')) by {
        if name.contains('/') {
            let k = choose|k: int| 0 <= k < name.len() && name[k] == '/';
            assert(is_name_char(name[k]));
        }
    }
    assert(!account.contains('/')) by {
        if account.contains('/') {
            let k = choose|k: int| 0 <= k < account.len() && account[k] == '/';
            assert(is_name_char(account[k]));
        }
    }
    assert(!id.contains('@')) by {
        if id.contains('@') {
            let k = choose|k: int| 0 <= k < id.len() && id[k] == '@';
            if k < account.len() {
                assert(is_name_char(account[k]));
            } else if k > account.len() {
                assert(is_name_char(name[k - account.len() - 1]));
            }
        }
    }
    lemma_last_index_of_split(account, '/', name);
    lemma_last_index_of(account, '/');
    match version {
        Some(v) => {
            lemma_last_index_of_split(id, '@', v);
        },
        None => {
            lemma_last_index_of(id, '@');
        },
    }
}

} // verus!
