//! Version spec parser: splits a user-supplied `name[@version]` token into
//! the browser name and the requested version, defaulting to `latest`.

use vstd::prelude::*;

use crate::errors::ResolveError;
use crate::strutil::find_char;

verus! {

/// The index of the first `@` in `s`, or -1 when there is none.
pub open spec fn first_at(s: Seq<char>) -> int
    decreases s.len(),
{
    if s.len() == 0 {
        -1
    } else if s[0] == '@' {
        0
    } else {
        let r = first_at(s.skip(1));
        if r < 0 {
            -1
        } else {
            r + 1
        }
    }
}

/// The browser name in a spec string: everything before the first `@`,
/// or the whole string when there is none.
pub open spec fn name_of_spec(s: Seq<char>) -> Seq<char> {
    if first_at(s) >= 0 {
        s.take(first_at(s))
    } else {
        s
    }
}

/// The requested version in a spec string: everything after the first `@`
/// (later `@` characters included), or `latest` when there is none.
pub open spec fn version_of_spec(s: Seq<char>) -> Seq<char> {
    if first_at(s) >= 0 {
        s.skip(first_at(s) + 1)
    } else {
        "latest"@
    }
}

/// `first_at` returns either -1 with no `@` present, or the least index
/// holding an `@`.
pub proof fn lemma_first_at(s: Seq<char>)
    ensures
        first_at(s) >= -1,
        first_at(s) == -1 ==> forall|j: int| 0 <= j < s.len() ==> s[j] != '@',
        first_at(s) >= 0 ==> first_at(s) < s.len() && s[first_at(s)] == '@' && forall|j: int|
            0 <= j < first_at(s) ==> s[j] != '@',
    decreases s.len(),
{
    if s.len() > 0 && s[0] != '@' {
        lemma_first_at(s.skip(1));
        let r = first_at(s.skip(1));
        if r == -1 {
            assert forall|j: int| 0 <= j < s.len() implies s[j] != '@' by {
                if j > 0 {
                    assert(s.skip(1)[j - 1] != '@');
                }
            }
        } else {
            assert(s[r + 1] == s.skip(1)[r]);
            assert forall|j: int| 0 <= j < r + 1 implies s[j] != '@' by {
                if j > 0 {
                    assert(s.skip(1)[j - 1] != '@');
                }
            }
        }
    }
}

/// A string without any `@` is all name: it splits into itself and the
/// `latest` sentinel.
pub proof fn lemma_no_at(s: Seq<char>)
    requires
        forall|j: int| 0 <= j < s.len() ==> s[j] != '@',
    ensures
        first_at(s) == -1,
        name_of_spec(s) == s,
        version_of_spec(s) == "latest"@,
{
    lemma_first_at(s);
}

/// Parsing the name out of a spec string is idempotent: the name holds no
/// `@`, so parsing it again gives it back.
pub proof fn lemma_name_of_idempotent(s: Seq<char>)
    ensures
        name_of_spec(name_of_spec(s)) == name_of_spec(s),
{
    lemma_first_at(s);
    if first_at(s) >= 0 {
        let t = s.take(first_at(s));
        assert forall|j: int| 0 <= j < t.len() implies t[j] != '@' by {
            assert(t[j] == s[j]);
        }
        lemma_no_at(t);
    }
}

/// Splitting is exact: with an `@` present, name, separator and version
/// reassemble the spec string character for character; without one, the
/// name is the whole string and the version is the `latest` sentinel.
pub proof fn lemma_parse_round_trip(s: Seq<char>)
    ensures
        first_at(s) >= 0 ==> name_of_spec(s) + seq!['@'] + version_of_spec(s) == s,
        first_at(s) == -1 ==> name_of_spec(s) == s && version_of_spec(s) == "latest"@,
{
    lemma_first_at(s);
    if first_at(s) >= 0 {
        assert(name_of_spec(s) + seq!['@'] + version_of_spec(s) =~= s);
    }
}

/// An immutable browser request: the parsed name and requested version.
#[derive(Debug)]
pub struct BrowserRequest {
    pub name: String,
    pub version: String,
}

/// Splits `spec` at its first `@` into browser name and requested version;
/// with no `@`, the version is the `latest` sentinel. A spec with an empty
/// name (an empty string, or one that starts with `@`) is rejected.
pub fn parse_spec(spec: &str) -> (r: Result<BrowserRequest, ResolveError>)
    ensures
        r is Ok <==> name_of_spec(spec@).len() > 0,
        r matches Ok(req) ==> req.name@ == name_of_spec(spec@) && req.version@ == version_of_spec(
            spec@,
        ),
        r matches Err(e) ==> e == ResolveError::Parse,
{
    proof {
        lemma_first_at(spec@);
    }
    let n = spec.unicode_len();
    match find_char(spec, '@') {
        Some(i) => {
            proof {
                lemma_first_at_is(spec@, i as int);
            }
            if i == 0 {
                Err(ResolveError::Parse)
            } else {
                let name = spec.substring_char(0, i).to_owned();
                let version = spec.substring_char(i + 1, n).to_owned();
                proof {
                    assert(name@ =~= name_of_spec(spec@));
                    assert(version@ =~= version_of_spec(spec@));
                }
                Ok(BrowserRequest { name, version })
            }
        },
        None => {
            if n == 0 {
                Err(ResolveError::Parse)
            } else {
                let name = spec.to_owned();
                let version = "latest".to_owned();
                Ok(BrowserRequest { name, version })
            }
        },
    }
}

/// With an `@` at index `i` and none before it, `first_at` is exactly `i`.
pub proof fn lemma_first_at_is(s: Seq<char>, i: int)
    requires
        0 <= i < s.len(),
        s[i] == '@',
        forall|j: int| 0 <= j < i ==> s[j] != '@',
    ensures
        first_at(s) == i,
    decreases s.len(),
{
    if i > 0 {
        lemma_first_at_is(s.skip(1), i - 1);
    }
}

} // verus!
