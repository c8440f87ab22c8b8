//! Publisher and trust-identity domains: the domain an entry identifier
//! names, the domain a trust-manifest identity names, and whether the two
//! align.
use vstd::prelude::*;
use crate::text::{
    all_ascii, before_first, before_first_exec, chars_eq, chars_of, find, find_exec, lemma_find_in_bounds,
    lemma_rfind_in_bounds, lower, lower_chars, opt_view, rfind_char, rfind_char_exec, slice_vec, str_eq,
    string_from_chars, trim, trim_exec,
};

verus! {

pub open spec fn urn_air() -> Seq<char> {
    seq!['u', 'r', 'n', ':', 'a', 'i', 'r', ':']
}

pub open spec fn did_web() -> Seq<char> {
    seq!['d', 'i', 'd', ':', 'w', 'e', 'b', ':']
}

pub open spec fn pct_3a() -> Seq<char> {
    seq!['%', '3', 'a']
}

pub open spec fn scheme_sep() -> Seq<char> {
    seq![':', '/', '/']
}

/// `Option<Vec<char>>` seen as an optional character sequence.
pub open spec fn opt_chars(o: Option<Vec<char>>) -> Option<Seq<char>> {
    match o {
        Some(v) => Some(v@),
        None => None,
    }
}

/// `value` with `prefix` removed, when `value` starts with `prefix` up to
/// ASCII case.
pub open spec fn strip_prefix_ci(value: Seq<char>, prefix: Seq<char>) -> Option<Seq<char>> {
    if value.len() >= prefix.len() && lower(value.take(prefix.len() as int)) == lower(prefix) {
        Some(value.skip(prefix.len() as int))
    } else {
        None
    }
}

/// A non-empty segment, lowercased; `None` for an empty one.
pub open spec fn nonempty_lower(s: Seq<char>) -> Option<Seq<char>> {
    if s.len() == 0 {
        None
    } else {
        Some(lower(s))
    }
}

/// The lowercased publisher segment of a `urn:air:{publisher}:...`
/// identifier; `None` for other identifiers or an empty publisher.
pub open spec fn spec_publisher_domain(identifier: Seq<char>) -> Option<Seq<char>> {
    match strip_prefix_ci(identifier, urn_air()) {
        Some(rest) => nonempty_lower(before_first(rest, ':')),
        None => None,
    }
}

/// The domain of the method-specific part of a `did:web` identity: its first
/// `:`-separated segment, cut at an encoded port separator `%3A`.
pub open spec fn spec_did_web_domain(rest: Seq<char>) -> Option<Seq<char>> {
    let segment = before_first(rest, ':');
    let host = match find(lower(segment), pct_3a()) {
        Some(i) => segment.take(i),
        None => segment,
    };
    nonempty_lower(host)
}

/// The host of an authority-based identity (`scheme://[user@]host[:port]/...`).
pub open spec fn spec_authority_domain(id: Seq<char>) -> Option<Seq<char>> {
    match find(id, scheme_sep()) {
        None => None,
        Some(k) => {
            let authority = before_first(id.skip(k + 3), '/');
            let host_port = match rfind_char(authority, '@') {
                Some(j) => authority.skip(j + 1),
                None => authority,
            };
            let host = match rfind_char(host_port, ':') {
                Some(j) => host_port.take(j),
                None => host_port,
            };
            nonempty_lower(host)
        },
    }
}

/// The lowercased domain of a trust-manifest identity (`urn:air`, `did:web`
/// or authority-based), after trimming white space.
pub open spec fn spec_identity_domain(identity: Seq<char>) -> Option<Seq<char>> {
    let id = trim(identity);
    if strip_prefix_ci(id, urn_air()) is Some {
        spec_publisher_domain(id)
    } else {
        match strip_prefix_ci(id, did_web()) {
            Some(rest) => spec_did_web_domain(rest),
            None => spec_authority_domain(id),
        }
    }
}

/// Whether the identity's domain equals the identifier's publisher domain;
/// `None` when either carries no domain.
pub open spec fn spec_identity_binds(identifier: Seq<char>, identity: Seq<char>) -> Option<bool> {
    match (spec_publisher_domain(identifier), spec_identity_domain(identity)) {
        (Some(p), Some(d)) => Some(p == d),
        _ => None,
    }
}

/// ASCII lowercasing is idempotent.
pub proof fn lemma_lower_idempotent(s: Seq<char>)
    ensures
        lower(lower(s)) == lower(s),
{
    assert(lower(lower(s)) =~= lower(s));
}

/// A publisher domain, when there is one, is non-empty and already lowercase.
pub proof fn lemma_publisher_domain_lowercase(identifier: Seq<char>)
    ensures
        spec_publisher_domain(identifier) matches Some(d) ==> d.len() > 0 && lower(d) == d,
{
    if let Some(rest) = strip_prefix_ci(identifier, urn_air()) {
        lemma_lower_idempotent(before_first(rest, ':'));
    }
}

/// An identity domain, when there is one, is non-empty and already lowercase.
pub proof fn law_identity_domain_lowercase(identity: Seq<char>)
    ensures
        spec_identity_domain(identity) matches Some(d) ==> d.len() > 0 && lower(d) == d,
{
    let id = trim(identity);
    if strip_prefix_ci(id, urn_air()) is Some {
        lemma_publisher_domain_lowercase(id);
    } else if let Some(rest) = strip_prefix_ci(id, did_web()) {
        let segment = before_first(rest, ':');
        let host = match find(lower(segment), pct_3a()) {
            Some(i) => segment.take(i),
            None => segment,
        };
        lemma_lower_idempotent(host);
    } else if let Some(k) = find(id, scheme_sep()) {
        let authority = before_first(id.skip(k + 3), '/');
        let host_port = match rfind_char(authority, '@') {
            Some(j) => authority.skip(j + 1),
            None => authority,
        };
        let host = match rfind_char(host_port, ':') {
            Some(j) => host_port.take(j),
            None => host_port,
        };
        lemma_lower_idempotent(host);
    }
}

/// An entry whose `urn:air` identifier names a publisher domain binds to a
/// trust-manifest identity equal to that identifier (the identity is read
/// after trimming, so the identifier is taken without surrounding white space).
pub proof fn law_identifier_binds_to_itself(identifier: Seq<char>)
    requires
        spec_publisher_domain(identifier) is Some,
        trim(identifier) == identifier,
    ensures
        spec_identity_binds(identifier, identifier) == Some(true),
{
}

/// Binding compares domains only: two identities with the same domain bind
/// to an entry identically.
pub proof fn law_binding_depends_on_domain_only(identifier: Seq<char>, a: Seq<char>, b: Seq<char>)
    requires
        spec_identity_domain(a) == spec_identity_domain(b),
    ensures
        spec_identity_binds(identifier, a) == spec_identity_binds(identifier, b),
{
}

fn urn_air_chars() -> (v: Vec<char>)
    ensures
        v@ == urn_air(),
{
    vec!['u', 'r', 'n', ':', 'a', 'i', 'r', ':']
}

fn did_web_chars() -> (v: Vec<char>)
    ensures
        v@ == did_web(),
{
    vec!['d', 'i', 'd', ':', 'w', 'e', 'b', ':']
}

fn strip_prefix_ignore_case(value: &[char], prefix: &[char]) -> (r: Option<Vec<char>>)
    ensures
        opt_chars(r) == strip_prefix_ci(value@, prefix@),
{
    if value.len() < prefix.len() {
        return None;
    }
    let head = slice_vec(value, 0, prefix.len());
    assert(head@ == value@.take(prefix@.len() as int));
    let a = lower_chars(head.as_slice());
    let b = lower_chars(prefix);
    if chars_eq(a.as_slice(), b.as_slice()) {
        let rest = slice_vec(value, prefix.len(), value.len());
        assert(rest@ == value@.skip(prefix@.len() as int));
        Some(rest)
    } else {
        None
    }
}

fn nonempty_lower_exec(s: &[char]) -> (r: Option<String>)
    ensures
        opt_view(r) == nonempty_lower(s@),
{
    if s.len() == 0 {
        None
    } else {
        let l = lower_chars(s);
        Some(string_from_chars(l.as_slice()))
    }
}

fn publisher_domain_chars(identifier: &[char]) -> (r: Option<String>)
    ensures
        opt_view(r) == spec_publisher_domain(identifier@),
{
    let prefix = urn_air_chars();
    match strip_prefix_ignore_case(identifier, prefix.as_slice()) {
        Some(rest) => {
            let publisher = before_first_exec(rest.as_slice(), ':');
            nonempty_lower_exec(publisher.as_slice())
        },
        None => None,
    }
}

/// Returns the lowercased publisher segment of a
/// `urn:air:{publisher}:{namespace}:{name}` identifier, or `None` for
/// non-`urn:air` identifiers.
pub fn publisher_domain(identifier: &str) -> (r: Option<String>)
    ensures
        opt_view(r) == spec_publisher_domain(identifier@),
{
    let chars = chars_of(identifier);
    publisher_domain_chars(chars.as_slice())
}

fn did_web_domain(rest: &[char]) -> (r: Option<String>)
    ensures
        opt_view(r) == spec_did_web_domain(rest@),
{
    let segment = before_first_exec(rest, ':');
    let lowered = lower_chars(segment.as_slice());
    let pct: Vec<char> = vec!['%', '3', 'a'];
    assert(pct@ == pct_3a());
    match find_exec(lowered.as_slice(), pct.as_slice()) {
        Some(i) => {
            proof {
                lemma_find_in_bounds(lowered@, pct_3a(), 0);
            }
            let host = slice_vec(segment.as_slice(), 0, i);
            assert(host@ == segment@.take(i as int));
            nonempty_lower_exec(host.as_slice())
        },
        None => nonempty_lower_exec(segment.as_slice()),
    }
}

fn authority_domain(id: &[char]) -> (r: Option<String>)
    ensures
        opt_view(r) == spec_authority_domain(id@),
{
    let n = id.len();
    let sep: Vec<char> = vec![':', '/', '/'];
    assert(sep@ == scheme_sep());
    let k = match find_exec(id, sep.as_slice()) {
        Some(k) => k,
        None => {
            return None;
        },
    };
    proof {
        lemma_find_in_bounds(id@, scheme_sep(), 0);
    }
    let after = slice_vec(id, k + 3, n);
    assert(after@ == id@.skip(k + 3));
    let authority = before_first_exec(after.as_slice(), '/');
    let host_port = match rfind_char_exec(authority.as_slice(), '@') {
        Some(j) => {
            let m = authority.len();
            proof {
                lemma_rfind_in_bounds(authority@, '@');
            }
            let hp = slice_vec(authority.as_slice(), j + 1, m);
            assert(hp@ == authority@.skip(j + 1));
            hp
        },
        None => authority,
    };
    match rfind_char_exec(host_port.as_slice(), ':') {
        Some(j) => {
            proof {
                lemma_rfind_in_bounds(host_port@, ':');
            }
            let host = slice_vec(host_port.as_slice(), 0, j);
            assert(host@ == host_port@.take(j as int));
            nonempty_lower_exec(host.as_slice())
        },
        None => nonempty_lower_exec(host_port.as_slice()),
    }
}

/// Returns the lowercased domain of a trust-manifest identity, handling
/// `urn:air`, `did:web`, and authority-based schemes (`spiffe://`, `https://`,
/// ...), or `None` when no domain can be determined.
pub fn identity_domain(identity: &str) -> (r: Option<String>)
    ensures
        opt_view(r) == spec_identity_domain(identity@),
{
    let chars = chars_of(identity);
    let id = trim_exec(chars.as_slice());
    let urn = urn_air_chars();
    if strip_prefix_ignore_case(id.as_slice(), urn.as_slice()).is_some() {
        publisher_domain_chars(id.as_slice())
    } else {
        let did = did_web_chars();
        match strip_prefix_ignore_case(id.as_slice(), did.as_slice()) {
            Some(rest) => did_web_domain(rest.as_slice()),
            None => authority_domain(id.as_slice()),
        }
    }
}

/// Reports whether a trust-manifest identity's domain aligns with an entry
/// identifier's publisher domain. Returns `None` when either side carries no
/// domain, in which case callers must not report a violation.
pub fn identity_binds_to_entry(identifier: &str, identity: &str) -> (r: Option<bool>)
    ensures
        r == spec_identity_binds(identifier@, identity@),
{
    let publisher = match publisher_domain(identifier) {
        Some(p) => p,
        None => {
            return None;
        },
    };
    let domain = match identity_domain(identity) {
        Some(d) => d,
        None => {
            return None;
        },
    };
    Some(str_eq(publisher.as_str(), domain.as_str()))
}

} // verus!
