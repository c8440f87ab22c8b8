//! Detached JWS signatures: their compact shape, and the algorithm their
//! protected header declares, read with the `base64` and `serde_json`
//! crates.
use vstd::prelude::*;
use vstd::string::*;
use base64::Engine;
use crate::digest::{count_char, count_char_exec};
use crate::text::{before_first, before_first_exec, chars_of, find, find_char_exec, lemma_find_in_bounds, str_eq, string_from_chars};

verus! {

/// The bytes that the URL-safe, unpadded base64 engine of the `base64`
/// crate decodes a text to; `None` when it refuses the text.
pub uninterp spec fn base64url_decoded(text: Seq<char>) -> Option<Seq<u8>>;

/// The members of the JSON object that `serde_json` reads from the bytes,
/// in its map's order, each key with its value when that value is a
/// string; `None` when the bytes are not JSON or not an object.
pub uninterp spec fn json_object_strings(bytes: Seq<u8>) -> Option<Seq<(Seq<char>, Option<Seq<char>>)>>;

/// Calls `decode` of `base64::engine::general_purpose::URL_SAFE_NO_PAD`.
/// The claim is only that the result is the named decoding of the text,
/// which depends on the text alone.
#[verifier::external_body]
fn base64url_decode(text: &str) -> (r: Option<Vec<u8>>)
    ensures
        match r {
            Some(v) => base64url_decoded(text@) == Some(v@),
            None => base64url_decoded(text@) is None,
        },
{
    base64::engine::general_purpose::URL_SAFE_NO_PAD.decode(text).ok()
}

/// The members, each with its string value if it has one, seen as texts.
pub open spec fn string_members_view(v: Seq<(String, Option<String>)>) -> Seq<(Seq<char>, Option<Seq<char>>)> {
    v.map_values(|p: (String, Option<String>)| (p.0@, opt_string_view(p.1)))
}

/// Calls `serde_json::from_slice` into a `serde_json::Value` and, when that
/// is an object, hands back its members in order, each key with its value
/// when the value is a string. The claim is only that the result is the
/// named reading of the bytes, which depends on the bytes alone.
#[verifier::external_body]
fn json_object_members(bytes: &[u8]) -> (r: Option<Vec<(String, Option<String>)>>)
    ensures
        match r {
            Some(v) => json_object_strings(bytes@) == Some(string_members_view(v@)),
            None => json_object_strings(bytes@) is None,
        },
{
    let Ok(serde_json::Value::Object(members)) = serde_json::from_slice::<serde_json::Value>(bytes) else {
        return None;
    };
    let mut out = Vec::new();
    for (key, value) in members {
        match value {
            serde_json::Value::String(s) => out.push((key, Some(s))),
            _ => out.push((key, None)),
        }
    }
    Some(out)
}

/// The string value of the first member named `key`; `None` when there is
/// no such member or its value is not a string.
pub open spec fn string_member(ms: Seq<(Seq<char>, Option<Seq<char>>)>, key: Seq<char>) -> Option<Seq<char>>
    decreases ms.len(),
{
    if ms.len() == 0 {
        None
    } else if ms[0].0 == key {
        ms[0].1
    } else {
        string_member(ms.drop_first(), key)
    }
}

/// The string value of a header's `alg` member, if it has one.
fn alg_member(members: &Vec<(String, Option<String>)>) -> (r: Option<String>)
    ensures
        opt_string_view(r) == string_member(string_members_view(members@), "alg"@),
{
    let ghost ms = string_members_view(members@);
    let mut i: usize = 0;
    assert(ms.skip(0) =~= ms);
    while i < members.len()
        invariant
            ms == string_members_view(members@),
            i <= members@.len(),
            string_member(ms, "alg"@) == string_member(ms.skip(i as int), "alg"@),
        decreases members.len() - i,
    {
        assert(ms.skip(i as int)[0] == ms[i as int]);
        assert(ms.skip(i as int).drop_first() =~= ms.skip(i + 1));
        if str_eq(members[i].0.as_str(), "alg") {
            return match &members[i].1 {
                Some(a) => Some(a.clone()),
                None => None,
            };
        }
        i = i + 1;
    }
    assert(ms.skip(i as int).len() == 0);
    None
}

/// A detached JWS in compact serialization: three dot-separated parts, a
/// non-empty header, an empty payload and a non-empty signature.
pub open spec fn spec_looks_like_detached_jws(s: Seq<char>) -> bool {
    &&& count_char(s, '.') == 2
    &&& match find(s, seq!['.']) {
        Some(k) => 0 < k && k + 2 < s.len() && s[k + 1] == '.',
        None => false,
    }
}

/// The algorithm the protected header of a JWS declares: the header part is
/// base64url text of a JSON object with a non-empty string `alg`.
pub open spec fn spec_jws_algorithm(signature: Seq<char>) -> Option<Seq<char>> {
    match base64url_decoded(before_first(signature, '.')) {
        None => None,
        Some(bytes) => match json_object_strings(bytes) {
            Some(ms) => match string_member(ms, "alg"@) {
                Some(a) => if a.len() == 0 {
                    None
                } else {
                    Some(a)
                },
                None => None,
            },
            None => None,
        },
    }
}

pub open spec fn ascii_upper(c: char) -> char {
    if 'a' <= c && c <= 'z' {
        ((c as u32) - 32) as char
    } else {
        c
    }
}

pub open spec fn upper(s: Seq<char>) -> Seq<char> {
    s.map_values(|c: char| ascii_upper(c))
}

/// `none` and the HMAC algorithms (`HS*`), in any ASCII case: they cannot
/// establish trust with a third party.
pub open spec fn spec_is_forbidden_jws_algorithm(a: Seq<char>) -> bool {
    let u = upper(a);
    u == seq!['N', 'O', 'N', 'E'] || (u.len() >= 2 && u[0] == 'H' && u[1] == 'S')
}

/// The algorithms the specification allows.
pub open spec fn allowed_jws_algorithms() -> Seq<Seq<char>> {
    seq!["ES256"@, "ES384"@, "EdDSA"@, "PS256"@, "PS384"@, "RS256"@]
}

pub open spec fn allowlist_text() -> Seq<char> {
    "ES256, ES384, EdDSA, PS256, PS384, RS256"@
}

/// Whether a signature has the shape of a detached JWS.
pub fn looks_like_detached_jws(signature: &str) -> (r: bool)
    ensures
        r == spec_looks_like_detached_jws(signature@),
{
    let s = chars_of(signature);
    if count_char_exec(s.as_slice(), '.') != 2 {
        return false;
    }
    match find_char_exec(s.as_slice(), '.') {
        Some(k) => {
            proof {
                lemma_find_in_bounds(s@, seq!['.'], 0);
                assert(crate::text::find_from(s@, seq!['.'], 0) == Some(k as int));
                assert(seq!['.'].len() == 1);
                assert(k + 1 <= s@.len());
            }
            0 < k && s.len() - k > 2 && s[k + 1] == '.'
        },
        None => false,
    }
}

/// The algorithm a JWS protected header declares, if it declares one.
pub fn jws_algorithm(signature: &str) -> (r: Option<String>)
    ensures
        opt_string_view(r) == spec_jws_algorithm(signature@),
{
    let s = chars_of(signature);
    let header = before_first_exec(s.as_slice(), '.');
    let encoded = string_from_chars(header.as_slice());
    let bytes = match base64url_decode(encoded.as_str()) {
        Some(b) => b,
        None => {
            return None;
        },
    };
    let members = match json_object_members(bytes.as_slice()) {
        Some(m) => m,
        None => {
            return None;
        },
    };
    match alg_member(&members) {
        Some(a) => {
            if a.as_str().is_empty() {
                None
            } else {
                Some(a)
            }
        },
        None => None,
    }
}

pub open spec fn opt_string_view(o: Option<String>) -> Option<Seq<char>> {
    match o {
        Some(s) => Some(s@),
        None => None,
    }
}

fn upper_chars(v: &[char]) -> (r: Vec<char>)
    ensures
        r@ == upper(v@),
{
    let mut r: Vec<char> = Vec::new();
    let mut i: usize = 0;
    while i < v.len()
        invariant
            i <= v@.len(),
            r@ =~= upper(v@.take(i as int)),
        decreases v.len() - i,
    {
        let c = v[i];
        let u = if 'a' <= c && c <= 'z' {
            ((c as u8) - 32) as char
        } else {
            c
        };
        r.push(u);
        i = i + 1;
        assert(upper(v@.take(i as int)) =~= upper(v@.take(i - 1)).push(ascii_upper(c)));
    }
    assert(v@.take(v@.len() as int) =~= v@);
    r
}

/// Whether an algorithm is `none` or an HMAC algorithm.
pub fn is_forbidden_jws_algorithm(algorithm: &str) -> (r: bool)
    ensures
        r == spec_is_forbidden_jws_algorithm(algorithm@),
{
    let chars = chars_of(algorithm);
    let u = upper_chars(chars.as_slice());
    let none = u.len() == 4 && u[0] == 'N' && u[1] == 'O' && u[2] == 'N' && u[3] == 'E';
    assert(none ==> u@ =~= seq!['N', 'O', 'N', 'E']);
    none || (u.len() >= 2 && u[0] == 'H' && u[1] == 'S')
}

/// Whether an algorithm is on the specification's allowlist.
pub fn is_allowed_jws_algorithm(algorithm: &str) -> (r: bool)
    ensures
        r == allowed_jws_algorithms().contains(algorithm@),
{
    let allowed = ["ES256", "ES384", "EdDSA", "PS256", "PS384", "RS256"];
    let mut i: usize = 0;
    while i < 6
        invariant
            allowed@ == seq!["ES256", "ES384", "EdDSA", "PS256", "PS384", "RS256"],
            i <= 6,
            forall|j: int| 0 <= j < i ==> allowed_jws_algorithms()[j] != algorithm@,
        decreases 6 - i,
    {
        assert(allowed_jws_algorithms()[i as int] == allowed@[i as int]@);
        if crate::text::str_eq(allowed[i], algorithm) {
            assert(allowed_jws_algorithms()[i as int] == algorithm@);
            return true;
        }
        i = i + 1;
    }
    assert(!allowed_jws_algorithms().contains(algorithm@));
    false
}

} // verus!
