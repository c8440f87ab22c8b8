//! Content digests: `algorithm:hex` strings, their parsing and their
//! verification against bytes with SHA-256, SHA-384 and SHA-512.
use vstd::prelude::*;
use vstd::string::*;
use crate::text::{
    chars_eq, chars_of, find, find_char_exec, lemma_find_in_bounds, lower, lower_chars,
    slice_vec, string_from_chars,
};
use sha2::Digest as _;

verus! {

/// SHA-256 of a byte sequence.
pub uninterp spec fn sha256_of(bytes: Seq<u8>) -> Seq<u8>;

/// SHA-384 of a byte sequence.
pub uninterp spec fn sha384_of(bytes: Seq<u8>) -> Seq<u8>;

/// SHA-512 of a byte sequence.
pub uninterp spec fn sha512_of(bytes: Seq<u8>) -> Seq<u8>;

/// Calls `sha2::Sha256::digest`; the claim is that the 32-byte result is
/// the SHA-256 of the argument, a function of the bytes alone.
#[verifier::external_body]
pub(crate) fn sha256_digest(bytes: &[u8]) -> (r: Vec<u8>)
    ensures
        r@ == sha256_of(bytes@),
        r@.len() == 32,
{
    sha2::Sha256::digest(bytes).to_vec()
}

/// Calls `sha2::Sha384::digest`; the claim is that the 48-byte result is
/// the SHA-384 of the argument, a function of the bytes alone.
#[verifier::external_body]
pub(crate) fn sha384_digest(bytes: &[u8]) -> (r: Vec<u8>)
    ensures
        r@ == sha384_of(bytes@),
        r@.len() == 48,
{
    sha2::Sha384::digest(bytes).to_vec()
}

/// Calls `sha2::Sha512::digest`; the claim is that the 64-byte result is
/// the SHA-512 of the argument, a function of the bytes alone.
#[verifier::external_body]
pub(crate) fn sha512_digest(bytes: &[u8]) -> (r: Vec<u8>)
    ensures
        r@ == sha512_of(bytes@),
        r@.len() == 64,
{
    sha2::Sha512::digest(bytes).to_vec()
}

/// The lowercase hexadecimal digit of a value below 16.
pub open spec fn hex_digit(v: u8) -> char {
    if v < 10 {
        ((v as u32) + 48) as char
    } else {
        ((v as u32) + 87) as char
    }
}

/// Lowercase hexadecimal rendering of bytes, two digits per byte.
pub open spec fn hex_lower(bytes: Seq<u8>) -> Seq<char>
    decreases bytes.len(),
{
    if bytes.len() == 0 {
        Seq::empty()
    } else {
        hex_lower(bytes.drop_last()) + seq![
            hex_digit(bytes.last() / 16),
            hex_digit(bytes.last() % 16),
        ]
    }
}

pub open spec fn is_hex_char(c: char) -> bool {
    ('0' <= c && c <= '9') || ('a' <= c && c <= 'f') || ('A' <= c && c <= 'F')
}

pub open spec fn all_hex(s: Seq<char>) -> bool {
    forall|i: int| 0 <= i < s.len() ==> is_hex_char(#[trigger] s[i])
}

pub proof fn lemma_hex_lower_shape(bytes: Seq<u8>)
    ensures
        hex_lower(bytes).len() == 2 * bytes.len(),
        all_hex(hex_lower(bytes)),
        lower(hex_lower(bytes)) == hex_lower(bytes),
    decreases bytes.len(),
{
    if bytes.len() > 0 {
        lemma_hex_lower_shape(bytes.drop_last());
        let h = hex_lower(bytes);
        let p = hex_lower(bytes.drop_last());
        assert(h == p + seq![hex_digit(bytes.last() / 16), hex_digit(bytes.last() % 16)]);
        assert forall|i: int| 0 <= i < h.len() implies is_hex_char(#[trigger] h[i]) by {
            if i >= p.len() {
                let v = if i == p.len() { bytes.last() / 16 } else { bytes.last() % 16 };
                assert(h[i] == hex_digit(v));
            } else {
                assert(h[i] == p[i]);
            }
        }
        assert(lower(h) =~= h) by {
            assert forall|i: int| 0 <= i < h.len() implies lower(h)[i] == h[i] by {
                if i < p.len() {
                    assert(lower(p)[i] == p[i]);
                    assert(h[i] == p[i]);
                }
            }
        }
    } else {
        assert(lower(hex_lower(bytes)) =~= hex_lower(bytes));
    }
}

fn hex_digit_exec(v: u8) -> (c: char)
    requires
        v < 16,
    ensures
        c == hex_digit(v),
{
    if v < 10 {
        (v + 48) as char
    } else {
        (v + 87) as char
    }
}

/// Lowercase hexadecimal rendering of bytes, as `format!("{byte:02x}")` per
/// byte.
pub fn digest_hex(bytes: &[u8]) -> (r: String)
    ensures
        r@ == hex_lower(bytes@),
{
    let mut out: Vec<char> = Vec::new();
    let mut i: usize = 0;
    while i < bytes.len()
        invariant
            i <= bytes@.len(),
            out@ == hex_lower(bytes@.take(i as int)),
        decreases bytes.len() - i,
    {
        let b = bytes[i];
        out.push(hex_digit_exec(b / 16));
        out.push(hex_digit_exec(b % 16));
        proof {
            assert(bytes@.take(i + 1).drop_last() == bytes@.take(i as int));
        }
        i = i + 1;
    }
    assert(bytes@.take(bytes@.len() as int) == bytes@);
    string_from_chars(out.as_slice())
}

/// Calls `hex::encode`, which renders each byte as two lowercase
/// hexadecimal digits.
#[verifier::external_body]
pub(crate) fn hex_encode(bytes: &[u8]) -> (r: String)
    ensures
        r@ == hex_lower(bytes@),
{
    hex::encode(bytes)
}

/// The SHA-256 hex digest of a byte slice, as a content address.
pub fn content_hash(bytes: &[u8]) -> (r: String)
    ensures
        r@ == hex_lower(sha256_of(bytes@)),
        r@.len() == 64,
        all_hex(r@),
        lower(r@) == r@,
{
    let d = sha256_digest(bytes);
    proof {
        lemma_hex_lower_shape(d@);
    }
    hex_encode(d.as_slice())
}

pub open spec fn sha256_name() -> Seq<char> {
    seq!['s', 'h', 'a', '2', '5', '6']
}

pub open spec fn sha384_name() -> Seq<char> {
    seq!['s', 'h', 'a', '3', '8', '4']
}

pub open spec fn sha512_name() -> Seq<char> {
    seq!['s', 'h', 'a', '5', '1', '2']
}

pub open spec fn md5_name() -> Seq<char> {
    seq!['m', 'd', '5']
}

pub open spec fn sha1_name() -> Seq<char> {
    seq!['s', 'h', 'a', '1']
}

pub open spec fn sha224_name() -> Seq<char> {
    seq!['s', 'h', 'a', '2', '2', '4']
}

/// Errors in parsing a digest string.
#[derive(Debug, Clone, PartialEq, Eq)]
pub enum DigestError {
    /// Not of the form `algorithm:hex-value`; holds the input.
    InvalidDigestFormat(String),
    /// An algorithm this library does not know; holds it lowercased.
    UnsupportedDigestAlgorithm(String),
    /// MD5, SHA-1 or SHA-224; holds it lowercased.
    WeakDigestAlgorithm(String),
    /// The hex value has the wrong length or a non-hex character.
    InvalidDigestHex,
}

pub enum DigestErrorView {
    InvalidDigestFormat(Seq<char>),
    UnsupportedDigestAlgorithm(Seq<char>),
    WeakDigestAlgorithm(Seq<char>),
    InvalidDigestHex,
}

impl View for DigestError {
    type V = DigestErrorView;

    open spec fn view(&self) -> DigestErrorView {
        match self {
            DigestError::InvalidDigestFormat(s) => DigestErrorView::InvalidDigestFormat(s@),
            DigestError::UnsupportedDigestAlgorithm(s) => DigestErrorView::UnsupportedDigestAlgorithm(
                s@,
            ),
            DigestError::WeakDigestAlgorithm(s) => DigestErrorView::WeakDigestAlgorithm(s@),
            DigestError::InvalidDigestHex => DigestErrorView::InvalidDigestHex,
        }
    }
}

/// The text a digest error displays as.
pub open spec fn digest_error_message(e: DigestErrorView) -> Seq<char> {
    match e {
        DigestErrorView::InvalidDigestFormat(v) => "digest must use the format 'algorithm:hex-value', found '"@
            + v + "'"@,
        DigestErrorView::UnsupportedDigestAlgorithm(a) => "unsupported digest algorithm '"@ + a + "'"@,
        DigestErrorView::WeakDigestAlgorithm(a) => "digest algorithm '"@ + a + "' is weaker than SHA-256"@,
        DigestErrorView::InvalidDigestHex => "digest hex value contains non-hex characters"@,
    }
}

impl DigestError {
    /// The text the error displays as.
    pub fn to_string(&self) -> (r: String)
        ensures
            r@ == digest_error_message(self@),
    {
        match self {
            DigestError::InvalidDigestFormat(v) => {
                let mut s = String::from_str("digest must use the format 'algorithm:hex-value', found '");
                s.append(v.as_str());
                s.append("'");
                s
            },
            DigestError::UnsupportedDigestAlgorithm(a) => {
                let mut s = String::from_str("unsupported digest algorithm '");
                s.append(a.as_str());
                s.append("'");
                s
            },
            DigestError::WeakDigestAlgorithm(a) => {
                let mut s = String::from_str("digest algorithm '");
                s.append(a.as_str());
                s.append("' is weaker than SHA-256");
                s
            },
            DigestError::InvalidDigestHex => String::from_str("digest hex value contains non-hex characters"),
        }
    }
}

/// The number of hex digits an accepted algorithm's digest has; `None` for
/// other algorithms.
pub open spec fn expected_hex_len(algorithm: Seq<char>) -> Option<nat> {
    if algorithm == sha256_name() {
        Some(64)
    } else if algorithm == sha384_name() {
        Some(96)
    } else if algorithm == sha512_name() {
        Some(128)
    } else {
        None
    }
}

pub open spec fn is_weak_algorithm(algorithm: Seq<char>) -> bool {
    algorithm == md5_name() || algorithm == sha1_name() || algorithm == sha224_name()
}

pub open spec fn count_char(s: Seq<char>, c: char) -> nat
    decreases s.len(),
{
    if s.len() == 0 {
        0
    } else {
        count_char(s.drop_last(), c) + if s.last() == c {
            1nat
        } else {
            0nat
        }
    }
}

/// The meaning of a digest string: its lowercased algorithm and hex value,
/// or the error that it is refused with.
pub open spec fn spec_parse_digest(value: Seq<char>) -> Result<(Seq<char>, Seq<char>), DigestErrorView> {
    match find(value, seq![':']) {
        None => Err(DigestErrorView::InvalidDigestFormat(value)),
        Some(k) => {
            let algorithm = value.take(k);
            let hex = value.skip(k + 1);
            if algorithm.len() == 0 || hex.len() == 0 || count_char(value, ':') != 1 {
                Err(DigestErrorView::InvalidDigestFormat(value))
            } else {
                let normalized = lower(algorithm);
                match expected_hex_len(normalized) {
                    None => if is_weak_algorithm(normalized) {
                        Err(DigestErrorView::WeakDigestAlgorithm(normalized))
                    } else {
                        Err(DigestErrorView::UnsupportedDigestAlgorithm(normalized))
                    },
                    Some(n) => if hex.len() != n || !all_hex(hex) {
                        Err(DigestErrorView::InvalidDigestHex)
                    } else {
                        Ok((normalized, lower(hex)))
                    },
                }
            }
        },
    }
}

/// A digest that parsed: an accepted algorithm and a lowercase hex value of
/// its length.
#[derive(Debug, Clone, PartialEq, Eq)]
pub struct ParsedDigest {
    algorithm: String,
    hex_value: String,
}

impl ParsedDigest {
    pub closed spec fn algorithm_view(&self) -> Seq<char> {
        self.algorithm@
    }

    pub closed spec fn hex_view(&self) -> Seq<char> {
        self.hex_value@
    }

    /// The digest of `bytes` under this digest's algorithm, in hex.
    pub open spec fn spec_digest_hex_of(&self, bytes: Seq<u8>) -> Option<Seq<char>> {
        if self.algorithm_view() == sha256_name() {
            Some(hex_lower(sha256_of(bytes)))
        } else if self.algorithm_view() == sha384_name() {
            Some(hex_lower(sha384_of(bytes)))
        } else if self.algorithm_view() == sha512_name() {
            Some(hex_lower(sha512_of(bytes)))
        } else {
            None
        }
    }

    /// Whether `bytes` have this digest.
    pub open spec fn spec_verify_bytes(&self, bytes: Seq<u8>) -> bool {
        self.spec_digest_hex_of(bytes) == Some(self.hex_view())
    }

    /// Parses `algorithm:hex-value`, accepting SHA-256, SHA-384 and SHA-512
    /// (case-insensitively) with a hex value of the matching length.
    pub fn parse(value: &str) -> (r: Result<ParsedDigest, DigestError>)
        ensures
            match r {
                Ok(d) => spec_parse_digest(value@) == Ok::<_, DigestErrorView>(
                    (d.algorithm_view(), d.hex_view()),
                ),
                Err(e) => spec_parse_digest(value@) == Err::<(Seq<char>, Seq<char>), _>(e@),
            },
    {
        let chars = chars_of(value);
        let n = chars.len();
        let k = match find_char_exec(chars.as_slice(), ':') {
            Some(k) => k,
            None => {
                return Err(DigestError::InvalidDigestFormat(string_from_chars(chars.as_slice())));
            },
        };
        proof {
            lemma_find_in_bounds(chars@, seq![':'], 0);
        }
        let algorithm = slice_vec(chars.as_slice(), 0, k);
        let hex = slice_vec(chars.as_slice(), k + 1, n);
        assert(algorithm@ == chars@.take(k as int));
        assert(hex@ == chars@.skip(k + 1));
        if algorithm.len() == 0 || hex.len() == 0 || count_char_exec(chars.as_slice(), ':') != 1 {
            return Err(DigestError::InvalidDigestFormat(string_from_chars(chars.as_slice())));
        }
        let normalized = lower_chars(algorithm.as_slice());
        let expected: usize = if chars_eq(normalized.as_slice(), &['s', 'h', 'a', '2', '5', '6']) {
            64
        } else if chars_eq(normalized.as_slice(), &['s', 'h', 'a', '3', '8', '4']) {
            96
        } else if chars_eq(normalized.as_slice(), &['s', 'h', 'a', '5', '1', '2']) {
            128
        } else if chars_eq(normalized.as_slice(), &['m', 'd', '5']) || chars_eq(
            normalized.as_slice(),
            &['s', 'h', 'a', '1'],
        ) || chars_eq(normalized.as_slice(), &['s', 'h', 'a', '2', '2', '4']) {
            return Err(DigestError::WeakDigestAlgorithm(string_from_chars(normalized.as_slice())));
        } else {
            return Err(
                DigestError::UnsupportedDigestAlgorithm(string_from_chars(normalized.as_slice())),
            );
        };
        if hex.len() != expected || !all_hex_exec(hex.as_slice()) {
            return Err(DigestError::InvalidDigestHex);
        }
        let lowered = lower_chars(hex.as_slice());
        Ok(
            ParsedDigest {
                algorithm: string_from_chars(normalized.as_slice()),
                hex_value: string_from_chars(lowered.as_slice()),
            },
        )
    }

    pub fn algorithm(&self) -> (r: &str)
        ensures
            r@ == self.algorithm_view(),
    {
        self.algorithm.as_str()
    }

    pub fn hex_value(&self) -> (r: &str)
        ensures
            r@ == self.hex_view(),
    {
        self.hex_value.as_str()
    }

    /// Whether `bytes` hash to this digest under its algorithm.
    pub fn verify_bytes(&self, bytes: &[u8]) -> (r: bool)
        ensures
            r == self.spec_verify_bytes(bytes@),
    {
        let alg = chars_of(self.algorithm.as_str());
        let expected = chars_of(self.hex_value.as_str());
        let actual = if chars_eq(alg.as_slice(), &['s', 'h', 'a', '2', '5', '6']) {
            digest_hex(sha256_digest(bytes).as_slice())
        } else if chars_eq(alg.as_slice(), &['s', 'h', 'a', '3', '8', '4']) {
            digest_hex(sha384_digest(bytes).as_slice())
        } else if chars_eq(alg.as_slice(), &['s', 'h', 'a', '5', '1', '2']) {
            digest_hex(sha512_digest(bytes).as_slice())
        } else {
            return false;
        };
        let actual_chars = chars_of(actual.as_str());
        chars_eq(expected.as_slice(), actual_chars.as_slice())
    }
}

pub proof fn lemma_count_char_concat(a: Seq<char>, b: Seq<char>, c: char)
    ensures
        count_char(a + b, c) == count_char(a, c) + count_char(b, c),
    decreases b.len(),
{
    if b.len() > 0 {
        assert((a + b).drop_last() == a + b.drop_last());
        lemma_count_char_concat(a, b.drop_last(), c);
    } else {
        assert(a + b == a);
    }
}

pub proof fn lemma_count_char_absent(a: Seq<char>, c: char)
    requires
        forall|i: int| 0 <= i < a.len() ==> a[i] != c,
    ensures
        count_char(a, c) == 0,
    decreases a.len(),
{
    if a.len() > 0 {
        lemma_count_char_absent(a.drop_last(), c);
    }
}

/// A digest rendered as `algorithm:hex` from an accepted algorithm and a
/// digest value of that algorithm's size parses back to the same algorithm
/// and hex value.
pub proof fn law_rendered_digest_parses(algorithm: Seq<char>, digest: Seq<u8>)
    requires
        expected_hex_len(algorithm) == Some(2 * digest.len()),
    ensures
        spec_parse_digest(algorithm + seq![':'] + hex_lower(digest)) == Ok::<_, DigestErrorView>(
            (algorithm, hex_lower(digest)),
        ),
{
    let hex = hex_lower(digest);
    let value = algorithm + seq![':'] + hex;
    lemma_hex_lower_shape(digest);
    let k = algorithm.len() as int;
    assert(forall|j: int| 0 <= j < algorithm.len() ==> algorithm[j] != ':');
    assert(value[k] == ':');
    assert forall|j: int| 0 <= j < k implies value[j] != ':' by {
        assert(value[j] == algorithm[j]);
    }
    crate::text::lemma_find_char_first(value, ':', k);
    assert(value.take(k) == algorithm);
    assert(value.skip(k + 1) == hex);
    assert forall|i: int| 0 <= i < hex.len() implies hex[i] != ':' by {
        assert(is_hex_char(hex[i]));
    }
    lemma_count_char_absent(algorithm, ':');
    lemma_count_char_absent(hex, ':');
    lemma_count_char_concat(algorithm, seq![':'], ':');
    lemma_count_char_concat(algorithm + seq![':'], hex, ':');
    assert(count_char(seq![':'], ':') == 1) by {
        assert(seq![':'].drop_last() =~= Seq::<char>::empty());
        assert(count_char(Seq::<char>::empty(), ':') == 0);
        assert(seq![':'].last() == ':');
    }
    assert(lower(algorithm) =~= algorithm);
}

pub(crate) fn count_char_exec(s: &[char], c: char) -> (r: usize)
    ensures
        r == count_char(s@, c),
{
    let mut n: usize = 0;
    let mut i: usize = 0;
    while i < s.len()
        invariant
            i <= s@.len(),
            n == count_char(s@.take(i as int), c),
            n <= i,
        decreases s.len() - i,
    {
        assert(s@.take(i + 1).drop_last() == s@.take(i as int));
        if s[i] == c {
            n = n + 1;
        }
        i = i + 1;
    }
    assert(s@.take(s@.len() as int) == s@);
    n
}

fn is_hex_char_exec(c: char) -> (r: bool)
    ensures
        r == is_hex_char(c),
{
    ('0' <= c && c <= '9') || ('a' <= c && c <= 'f') || ('A' <= c && c <= 'F')
}

fn all_hex_exec(s: &[char]) -> (r: bool)
    ensures
        r == all_hex(s@),
{
    let mut i: usize = 0;
    while i < s.len()
        invariant
            i <= s@.len(),
            forall|j: int| 0 <= j < i ==> is_hex_char(#[trigger] s@[j]),
        decreases s.len() - i,
    {
        if !is_hex_char_exec(s[i]) {
            return false;
        }
        i = i + 1;
    }
    true
}

/// The meaning of `verify_digest`: parse the expected digest, then compare
/// it with the digest of the bytes.
pub open spec fn spec_verify_digest(expected: Seq<char>, bytes: Seq<u8>) -> Result<bool, DigestErrorView> {
    match spec_parse_digest(expected) {
        Err(e) => Err(e),
        Ok((alg, hex)) => Ok(
            if alg == sha256_name() {
                hex == hex_lower(sha256_of(bytes))
            } else if alg == sha384_name() {
                hex == hex_lower(sha384_of(bytes))
            } else if alg == sha512_name() {
                hex == hex_lower(sha512_of(bytes))
            } else {
                false
            },
        ),
    }
}

/// Parses `expected_digest` and checks `bytes` against it.
pub fn verify_digest(expected_digest: &str, bytes: &[u8]) -> (r: Result<bool, DigestError>)
    ensures
        match r {
            Ok(b) => spec_verify_digest(expected_digest@, bytes@) == Ok::<bool, DigestErrorView>(b),
            Err(e) => spec_verify_digest(expected_digest@, bytes@) == Err::<bool, _>(e@),
        },
{
    let d = ParsedDigest::parse(expected_digest)?;
    Ok(d.verify_bytes(bytes))
}

} // verus!
