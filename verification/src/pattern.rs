//! Regular expressions, through the `regex` crate, and the two patterns the
//! library uses for extension keys.
use vstd::prelude::*;
use crate::text::{is_white_space};

verus! {

/// Whether `regex::Regex::new` accepts a pattern.
pub uninterp spec fn regex_compiles(pattern: Seq<char>) -> bool;

/// Whether a compiled pattern matches somewhere in a text.
pub uninterp spec fn regex_matches(pattern: Seq<char>, text: Seq<char>) -> bool;

pub open spec fn url_key_pattern() -> Seq<char> {
    "^[A-Za-z][A-Za-z0-9+.\\-]*://[^/?#\\s]+"@
}

pub open spec fn reverse_dns_pattern() -> Seq<char> {
    "^[A-Za-z0-9]([A-Za-z0-9-]*[A-Za-z0-9])?(\\.[A-Za-z0-9]([A-Za-z0-9-]*[A-Za-z0-9])?)+$"@
}

pub open spec fn is_ascii_letter(c: char) -> bool {
    ('A' <= c && c <= 'Z') || ('a' <= c && c <= 'z')
}

pub open spec fn is_ascii_alnum(c: char) -> bool {
    is_ascii_letter(c) || ('0' <= c && c <= '9')
}

pub open spec fn is_scheme_char(c: char) -> bool {
    is_ascii_alnum(c) || c == '+' || c == '.' || c == '-'
}

/// The texts `url_key_pattern` matches: a scheme (a letter, then letters,
/// digits, `+`, `.` or `-`), `://`, and a character that is none of `/`,
/// `?`, `#` or white space.
pub open spec fn spec_url_key(s: Seq<char>) -> bool {
    exists|k: int|
        1 <= k && k + 3 < s.len() && is_ascii_letter(s[0]) && (forall|j: int|
            1 <= j < k ==> is_scheme_char(#[trigger] s[j])) && #[trigger] s[k] == ':' && s[k + 1] == '/' && s[k
            + 2] == '/' && s[k + 3] != '/' && s[k + 3] != '?' && s[k + 3] != '#'
            && !is_white_space(s[k + 3])
}

/// The texts `reverse_dns_pattern` matches: at least two dot-separated
/// labels, each of ASCII letters, digits and `-`, beginning and ending with a
/// letter or digit.
pub open spec fn spec_reverse_dns_key(s: Seq<char>) -> bool {
    &&& s.len() > 0
    &&& forall|i: int| 0 <= i < s.len() ==> is_ascii_alnum(#[trigger] s[i]) || s[i] == '-' || s[i] == '.'
    &&& is_ascii_alnum(s[0])
    &&& is_ascii_alnum(s.last())
    &&& forall|i: int|
        0 <= i < s.len() && #[trigger] s[i] == '.' ==> 0 < i < s.len() - 1 && is_ascii_alnum(s[i - 1])
            && is_ascii_alnum(s[i + 1])
    &&& exists|i: int| 0 <= i < s.len() && #[trigger] s[i] == '.'
}

/// A compiled regular expression together with the pattern it was compiled
/// from.
pub struct CompiledPattern {
    pattern: String,
    re: regex::Regex,
}

#[verifier::external_type_specification]
#[verifier::external_body]
pub struct ExRegex(regex::Regex);

impl CompiledPattern {
    pub closed spec fn pattern_view(&self) -> Seq<char> {
        self.pattern@
    }
}

/// Calls `regex::Regex::new`. The claims: it succeeds exactly when the named
/// condition holds, it succeeds on the two extension-key patterns, and the
/// result remembers the pattern. On failure the error's display text is
/// returned, of which nothing is claimed.
#[verifier::external_body]
pub(crate) fn compile_pattern(pattern: &str) -> (r: Result<CompiledPattern, String>)
    ensures
        r is Ok <==> regex_compiles(pattern@),
        r matches Ok(c) ==> c.pattern_view() == pattern@,
        pattern@ == url_key_pattern() ==> r is Ok,
        pattern@ == reverse_dns_pattern() ==> r is Ok,
{
    match regex::Regex::new(pattern) {
        Ok(re) => Ok(CompiledPattern { pattern: pattern.to_string(), re }),
        Err(e) => Err(e.to_string()),
    }
}

/// Calls `regex::Regex::is_match`. The claims: the result is the named
/// match of the compiled pattern against the text, and for the two
/// extension-key patterns it is the language their syntax describes
/// (`\s` being Unicode white space, as the crate documents).
#[verifier::external_body]
pub(crate) fn pattern_is_match(c: &CompiledPattern, text: &str) -> (r: bool)
    ensures
        r == regex_matches(c.pattern_view(), text@),
        c.pattern_view() == url_key_pattern() ==> r == spec_url_key(text@),
        c.pattern_view() == reverse_dns_pattern() ==> r == spec_reverse_dns_key(text@),
{
    c.re.is_match(text)
}

/// Whether an extension key is a URL or a reverse-DNS string.
pub open spec fn spec_is_extension_key(key: Seq<char>) -> bool {
    spec_url_key(key) || spec_reverse_dns_key(key)
}

/// Whether an extension key is namespaced: a URL (`scheme://host...`) or a
/// reverse-DNS string (`com.example.name`).
pub fn is_extension_key(key: &str) -> (r: bool)
    ensures
        r == spec_is_extension_key(key@),
{
    let url = match compile_pattern("^[A-Za-z][A-Za-z0-9+.\\-]*://[^/?#\\s]+") {
        Ok(c) => c,
        Err(_) => {
            return false;
        },
    };
    if pattern_is_match(&url, key) {
        return true;
    }
    let dns = match compile_pattern(
        "^[A-Za-z0-9]([A-Za-z0-9-]*[A-Za-z0-9])?(\\.[A-Za-z0-9]([A-Za-z0-9-]*[A-Za-z0-9])?)+$",
    ) {
        Ok(c) => c,
        Err(_) => {
            return false;
        },
    };
    pattern_is_match(&dns, key)
}

} // verus!
