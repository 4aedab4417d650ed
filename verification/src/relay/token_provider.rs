//! Shared Access Signature (SAS) tokens: percent-encoding, token
//! construction from a key, and pre-built tokens.

use vstd::prelude::*;
use vstd::utf8::encode_utf8;

use base64::Engine;
use hmac::Mac;

use crate::relay::error::RelayError;
use crate::text::{
    chars_of, decimal, find_char, find_index, has_prefix, lemma_find_index, parse_u64,
    parse_u64_spec, push_chars, push_decimal, push_str, starts_with, string_of,
};

verus! {

// ---------------------------------------------------------------------------
// Percent-encoding
// ---------------------------------------------------------------------------

/// The bytes left as they are: `A-Z a-z 0-9 - . _ ~`.
pub open spec fn is_unreserved(b: u8) -> bool {
    ||| (65 <= b && b <= 90)
    ||| (97 <= b && b <= 122)
    ||| (48 <= b && b <= 57)
    ||| b == 45
    ||| b == 46
    ||| b == 95
    ||| b == 126
}

/// The uppercase hexadecimal digit of a value below 16.
pub open spec fn hex_upper(d: u8) -> char {
    if d < 10 {
        ((48 + d) as u8) as char
    } else {
        ((55 + d) as u8) as char
    }
}

/// One byte as it is encoded: itself when unreserved, else `%` and two
/// uppercase hexadecimal digits.
pub open spec fn encode_byte(b: u8) -> Seq<char> {
    if is_unreserved(b) {
        seq![b as char]
    } else {
        seq!['%', hex_upper(b / 16), hex_upper(b % 16)]
    }
}

/// The percent-encoding of a byte string.
pub open spec fn percent_encode(bytes: Seq<u8>) -> Seq<char>
    decreases bytes.len(),
{
    if bytes.len() == 0 {
        Seq::empty()
    } else {
        percent_encode(bytes.drop_last()) + encode_byte(bytes.last())
    }
}

fn hex_digit(d: u8) -> (c: char)
    requires
        d < 16,
    ensures
        c == hex_upper(d),
{
    if d < 10 {
        (48 + d) as char
    } else {
        (55 + d) as char
    }
}

/// URL-encodes a string for use in SAS tokens (percent-encoding).
///
/// Encodes every UTF-8 byte except the unreserved characters
/// `A-Z a-z 0-9 - . _ ~` (RFC 3986 percent-encoding).
pub fn url_encode(s: &str) -> (r: String)
    ensures
        r@ == percent_encode(encode_utf8(s@)),
{
    let bytes = s.as_bytes();
    let mut out: Vec<char> = Vec::new();
    let mut i: usize = 0;
    assert(bytes@.take(0) =~= Seq::<u8>::empty());
    while i < bytes.len()
        invariant
            i <= bytes@.len(),
            out@ == percent_encode(bytes@.take(i as int)),
        decreases bytes@.len() - i,
    {
        let b = bytes[i];
        let ghost prev = out@;
        let unreserved = (65 <= b && b <= 90) || (97 <= b && b <= 122) || (48 <= b && b <= 57)
            || b == 45 || b == 46 || b == 95 || b == 126;
        if unreserved {
            out.push(b as char);
        } else {
            out.push('%');
            out.push(hex_digit(b / 16));
            out.push(hex_digit(b % 16));
        }
        proof {
            assert(bytes@.take(i + 1).drop_last() =~= bytes@.take(i as int));
            assert(out@ =~= prev + encode_byte(b));
        }
        i = i + 1;
    }
    assert(bytes@.take(bytes@.len() as int) =~= bytes@);
    string_of(out.as_slice())
}

/// The value of a hexadecimal digit (either case).
pub open spec fn hex_value(c: char) -> Option<u8> {
    if '0' <= c && c <= '9' {
        Some((c as u32 - 48) as u8)
    } else if 'A' <= c && c <= 'F' {
        Some((c as u32 - 55) as u8)
    } else if 'a' <= c && c <= 'f' {
        Some((c as u32 - 87) as u8)
    } else {
        None
    }
}

/// Percent-decoding: `%XX` gives the byte `0xXX`, an unreserved character
/// gives its byte, and anything else fails.
pub open spec fn percent_decode(cs: Seq<char>) -> Option<Seq<u8>>
    decreases cs.len(),
{
    if cs.len() == 0 {
        Some(Seq::empty())
    } else if cs[0] == '%' {
        if cs.len() >= 3 && hex_value(cs[1]) is Some && hex_value(cs[2]) is Some {
            match percent_decode(cs.skip(3)) {
                Some(rest) => Some(
                    seq![(hex_value(cs[1]).unwrap() * 16 + hex_value(cs[2]).unwrap()) as u8]
                        + rest,
                ),
                None => None,
            }
        } else {
            None
        }
    } else if (cs[0] as u32) < 256 && is_unreserved(cs[0] as u32 as u8) {
        match percent_decode(cs.skip(1)) {
            Some(rest) => Some(seq![cs[0] as u32 as u8] + rest),
            None => None,
        }
    } else {
        None
    }
}

proof fn lemma_percent_encode_concat(a: Seq<u8>, b: Seq<u8>)
    ensures
        percent_encode(a + b) == percent_encode(a) + percent_encode(b),
    decreases b.len(),
{
    if b.len() == 0 {
        assert(a + b =~= a);
        assert(percent_encode(a) + percent_encode(b) =~= percent_encode(a));
    } else {
        assert((a + b).drop_last() =~= a + b.drop_last());
        lemma_percent_encode_concat(a, b.drop_last());
        assert(percent_encode(a + b) =~= percent_encode(a) + percent_encode(b));
    }
}

proof fn lemma_decode_byte(x: u8, rest: Seq<char>)
    ensures
        percent_decode(encode_byte(x) + rest) == match percent_decode(rest) {
            Some(r) => Some(seq![x] + r),
            None => None::<Seq<u8>>,
        },
{
    let e = encode_byte(x);
    let cs = e + rest;
    if is_unreserved(x) {
        assert(cs[0] == x as char);
        assert((x as char) as u32 == x as u32);
        assert(cs.skip(1) =~= rest);
    } else {
        assert(cs[0] == '%');
        assert(cs[1] == hex_upper(x / 16));
        assert(cs[2] == hex_upper(x % 16));
        assert(cs.skip(3) =~= rest);
        assert(hex_value(hex_upper(x / 16)) == Some((x / 16) as u8));
        assert(hex_value(hex_upper(x % 16)) == Some((x % 16) as u8));
        assert(((x / 16) * 16 + x % 16) as u8 == x);
    }
}

/// Percent-encoding loses nothing: decoding an encoding gives back the
/// bytes that were encoded.
pub proof fn law_percent_encoding_round_trip(bytes: Seq<u8>)
    ensures
        percent_decode(percent_encode(bytes)) == Some(bytes),
    decreases bytes.len(),
{
    if bytes.len() == 0 {
    } else {
        let x = bytes[0];
        let rest = bytes.drop_first();
        assert(bytes =~= seq![x] + rest);
        lemma_percent_encode_concat(seq![x], rest);
        assert(seq![x].drop_last() =~= Seq::<u8>::empty());
        assert(seq![x].drop_last() =~= Seq::<u8>::empty());
        assert(seq![x].last() == x);
        assert(percent_encode(Seq::<u8>::empty()) == Seq::<char>::empty());
        assert(percent_encode(seq![x]) == percent_encode(seq![x].drop_last()) + encode_byte(
            seq![x].last(),
        ));
        assert(percent_encode(seq![x]) =~= encode_byte(x));
        law_percent_encoding_round_trip(rest);
        lemma_decode_byte(x, percent_encode(rest));
        assert(seq![x] + rest =~= bytes);
    }
}

/// Encoding a string made only of unreserved ASCII characters leaves it as
/// it is.
pub proof fn law_percent_encode_unreserved_identity(bytes: Seq<u8>)
    requires
        forall|i: int| 0 <= i < bytes.len() ==> is_unreserved(#[trigger] bytes[i]),
    ensures
        percent_encode(bytes) == bytes.map_values(|b: u8| b as char),
    decreases bytes.len(),
{
    if bytes.len() > 0 {
        let p = bytes.drop_last();
        assert forall|i: int| 0 <= i < p.len() implies is_unreserved(#[trigger] p[i]) by {
            assert(p[i] == bytes[i]);
        }
        law_percent_encode_unreserved_identity(p);
        assert(is_unreserved(bytes[bytes.len() - 1]));
        assert(percent_encode(bytes) =~= bytes.map_values(|b: u8| b as char));
    }
}

/// Percent-encoding works byte by byte: two byte strings one after the
/// other encode as their encodings one after the other.
pub proof fn law_percent_encoding_concatenates(a: Seq<u8>, b: Seq<u8>)
    ensures
        percent_encode(a + b) == percent_encode(a) + percent_encode(b),
{
    lemma_percent_encode_concat(a, b);
}

/// The hexadecimal digit of a value below 16 is its character in
/// `0123456789ABCDEF`.
proof fn lemma_hex_upper_digits(d: u8)
    requires
        d < 16,
    ensures
        hex_upper(d) == "0123456789ABCDEF"@[d as int],
{
    reveal_strlit("0123456789ABCDEF");
    if d == 0 {
    } else if d == 1 {
    } else if d == 2 {
    } else if d == 3 {
    } else if d == 4 {
    } else if d == 5 {
    } else if d == 6 {
    } else if d == 7 {
    } else if d == 8 {
    } else if d == 9 {
    } else if d == 10 {
    } else if d == 11 {
    } else if d == 12 {
    } else if d == 13 {
    } else if d == 14 {
    } else {
        assert(d == 15);
    }
}

/// One byte is written as itself exactly when it is one of
/// `A-Z a-z 0-9 - . _ ~`; every other byte is written as `%` followed by
/// its two uppercase hexadecimal digits (so `+` becomes `%2B`).
pub proof fn law_percent_encode_byte(b: u8)
    ensures
        percent_encode(seq![b]) == (if (65 <= b && b <= 90) || (97 <= b && b <= 122) || (48 <= b
            && b <= 57) || b == 45 || b == 46 || b == 95 || b == 126 {
            seq![b as char]
        } else {
            seq!['%', "0123456789ABCDEF"@[(b / 16) as int], "0123456789ABCDEF"@[(b % 16) as int]]
        }),
{
    let one = seq![b];
    assert(one.drop_last() =~= Seq::<u8>::empty());
    assert(one.last() == b);
    assert(percent_encode(Seq::<u8>::empty()) == Seq::<char>::empty());
    assert(percent_encode(one) == percent_encode(one.drop_last()) + encode_byte(one.last()));
    assert(percent_encode(one) =~= encode_byte(b));
    lemma_hex_upper_digits(b / 16);
    lemma_hex_upper_digits(b % 16);
}

/// The number of bytes that percent-encoding escapes.
pub open spec fn escaped_count(bytes: Seq<u8>) -> nat
    decreases bytes.len(),
{
    if bytes.len() == 0 {
        0
    } else {
        escaped_count(bytes.drop_last()) + if is_unreserved(bytes.last()) {
            0nat
        } else {
            1nat
        }
    }
}

/// Percent-encoding writes ASCII only, three characters for each escaped
/// byte and one for each other byte.
pub proof fn law_percent_encoding_ascii_length(bytes: Seq<u8>)
    ensures
        forall|i: int|
            0 <= i < percent_encode(bytes).len() ==> ((#[trigger] percent_encode(bytes)[i]) as u32)
                < 128,
        percent_encode(bytes).len() == bytes.len() + 2 * escaped_count(bytes),
    decreases bytes.len(),
{
    if bytes.len() > 0 {
        let p = bytes.drop_last();
        let x = bytes.last();
        law_percent_encoding_ascii_length(p);
        let a = percent_encode(p);
        let e = encode_byte(x);
        assert forall|i: int| 0 <= i < e.len() implies ((#[trigger] e[i]) as u32) < 128 by {
            if !is_unreserved(x) {
                assert(x / 16 < 16);
                assert(x % 16 < 16);
            }
        }
        assert forall|i: int|
            0 <= i < percent_encode(bytes).len() implies ((#[trigger] percent_encode(bytes)[i]) as u32)
            < 128 by {
            assert(percent_encode(bytes) == a + e);
            if i < a.len() {
                assert((a + e)[i] == a[i]);
            } else {
                assert((a + e)[i] == e[i - a.len()]);
            }
        }
    }
}

// ---------------------------------------------------------------------------
// Outside cryptography and encoding
// ---------------------------------------------------------------------------

/// The HMAC-SHA256 tag of `msg` under `key` (as computed by the `hmac` crate
/// over `sha2::Sha256`).
pub uninterp spec fn hmac_sha256_spec(key: Seq<u8>, msg: Seq<u8>) -> Seq<u8>;

/// The character of a 6-bit value in the standard Base64 alphabet
/// `A-Z a-z 0-9 + /`.
pub open spec fn base64_char(v: int) -> char {
    if v < 26 {
        ('A' as int + v) as char
    } else if v < 52 {
        ('a' as int + (v - 26)) as char
    } else if v < 62 {
        ('0' as int + (v - 52)) as char
    } else if v == 62 {
        '+'
    } else {
        '/'
    }
}

/// The standard-alphabet, padded Base64 text of `bytes` (RFC 4648): each
/// group of three bytes becomes four characters of six bits each; a last
/// group of one or two bytes is padded with `=`.
pub open spec fn base64_standard_spec(bytes: Seq<u8>) -> Seq<char>
    decreases bytes.len(),
{
    if bytes.len() == 0 {
        Seq::empty()
    } else if bytes.len() == 1 {
        let b0 = bytes[0] as int;
        seq![base64_char(b0 / 4), base64_char((b0 % 4) * 16), '=', '=']
    } else if bytes.len() == 2 {
        let b0 = bytes[0] as int;
        let b1 = bytes[1] as int;
        seq![
            base64_char(b0 / 4),
            base64_char((b0 % 4) * 16 + b1 / 16),
            base64_char((b1 % 16) * 4),
            '=',
        ]
    } else {
        let b0 = bytes[0] as int;
        let b1 = bytes[1] as int;
        let b2 = bytes[2] as int;
        seq![
            base64_char(b0 / 4),
            base64_char((b0 % 4) * 16 + b1 / 16),
            base64_char((b1 % 16) * 4 + b2 / 64),
            base64_char(b2 % 64),
        ] + base64_standard_spec(bytes.skip(3))
    }
}

/// `Hmac::<Sha256>::new_from_slice(key)`, `update(msg)`, `finalize()`: the
/// contract claims the tag is the HMAC-SHA256 of `msg` under `key`, that it
/// is 32 bytes long (SHA-256 output size), and that any key length is
/// accepted (`new_from_slice` of `hmac`'s `HmacCore` returns `Ok` for every
/// key, hashing keys longer than a block).
#[verifier::external_body]
fn hmac_sha256(key: &[u8], msg: &[u8]) -> (r: Option<Vec<u8>>)
    ensures
        r is Some,
        r.unwrap()@ == hmac_sha256_spec(key@, msg@),
        r.unwrap()@.len() == 32,
{
    let mut mac = hmac::Hmac::<sha2::Sha256>::new_from_slice(key).ok()?;
    mac.update(msg);
    Some(mac.finalize().into_bytes().to_vec())
}

/// `STANDARD.encode(bytes)`: the contract claims the result is the standard
/// padded Base64 text of `bytes`.
#[verifier::external_body]
fn base64_encode(bytes: &[u8]) -> (r: String)
    ensures
        r@ == base64_standard_spec(bytes@),
{
    base64::engine::general_purpose::STANDARD.encode(bytes)
}

// ---------------------------------------------------------------------------
// Tokens
// ---------------------------------------------------------------------------

/// A security token with a value and expiry time.
#[derive(Debug, Clone)]
pub struct SecurityToken {
    /// The token string (e.g., SAS token).
    pub token: String,
    /// When the token expires, in seconds since the Unix epoch.
    pub expires_at: u64,
}

/// The SAS token for `audience` signed with `key` under the policy
/// `key_name`, expiring at `expiry`: `SharedAccessSignature
/// sr={audience}&sig={signature}&se={expiry}&skn={key_name}` where the
/// audience and signature are percent-encoded and the signature is the
/// Base64 of the HMAC-SHA256 of `"{audience}\n{expiry}"` under the UTF-8
/// bytes of the key.
pub open spec fn sas_token_text(
    audience: Seq<char>,
    key: Seq<char>,
    key_name: Seq<char>,
    expiry: nat,
) -> Seq<char> {
    let encoded_audience = percent_encode(encode_utf8(audience));
    let signed = encoded_audience + seq!['\n'] + decimal(expiry);
    let signature = hmac_sha256_spec(encode_utf8(key), encode_utf8(signed));
    let encoded_signature = percent_encode(encode_utf8(base64_standard_spec(signature)));
    "SharedAccessSignature sr="@ + encoded_audience + "&sig="@ + encoded_signature + "&se="@
        + decimal(expiry) + "&skn="@ + key_name
}

/// Creates SAS tokens from a shared access key name and key.
#[derive(Debug)]
pub struct SharedAccessSignatureTokenProvider {
    key_name: String,
    key: String,
}

impl View for SharedAccessSignatureTokenProvider {
    /// The key name and the key.
    type V = (Seq<char>, Seq<char>);

    closed spec fn view(&self) -> (Seq<char>, Seq<char>) {
        (self.key_name@, self.key@)
    }
}

/// A key name or key is accepted when it is not empty and has at most 256
/// characters.
pub open spec fn sas_credential_ok(s: Seq<char>) -> bool {
    s.len() != 0 && s.len() <= 256
}

impl SharedAccessSignatureTokenProvider {
    /// Creates a new `SharedAccessSignatureTokenProvider`.
    ///
    /// # Errors
    /// Returns `RelayError::InvalidArgument` if `key_name` or `key` is empty or exceeds 256 chars.
    pub fn new(key_name: &str, key: &str) -> (r: Result<Self, RelayError>)
        ensures
            r is Ok <==> sas_credential_ok(key_name@) && sas_credential_ok(key@),
            r matches Ok(p) ==> p@ == (key_name@, key@),
            r matches Err(e) ==> e matches RelayError::InvalidArgument { name: n, .. } && n@ == (
            if !sas_credential_ok(key_name@) {
                "key_name"@
            } else {
                "key"@
            }),
    {
        if key_name.is_empty() {
            return Err(RelayError::invalid_argument("key_name", "must not be empty"));
        }
        if chars_of(key_name).len() > 256 {
            return Err(RelayError::invalid_argument("key_name", "must not exceed 256 characters"));
        }
        if key.is_empty() {
            return Err(RelayError::invalid_argument("key", "must not be empty"));
        }
        if chars_of(key).len() > 256 {
            return Err(RelayError::invalid_argument("key", "must not exceed 256 characters"));
        }
        Ok(SharedAccessSignatureTokenProvider { key_name: key_name.to_owned(), key: key.to_owned() })
    }

    /// Returns the shared access key name.
    pub fn key_name(&self) -> (r: &str)
        ensures
            r@ == self@.0,
    {
        self.key_name.as_str()
    }

    /// Returns the shared access key.
    pub fn key(&self) -> (r: &str)
        ensures
            r@ == self@.1,
    {
        self.key.as_str()
    }

    /// Creates the SAS token for `audience`, valid for `valid_for_secs` seconds
    /// (plus `valid_for_subsec_nanos`, which count only for the zero check)
    /// from the instant `now_secs` (seconds since the Unix epoch).
    pub fn sign(
        &self,
        audience: &str,
        valid_for_secs: u64,
        valid_for_subsec_nanos: u32,
        now_secs: u64,
    ) -> (r: Result<SecurityToken, RelayError>)
        requires
            now_secs + valid_for_secs <= u64::MAX,
        ensures
            r is Ok <==> audience@.len() != 0 && (valid_for_secs != 0 || valid_for_subsec_nanos
                != 0),
            r matches Ok(t) ==> t.expires_at == now_secs + valid_for_secs && t.token@
                == sas_token_text(
                audience@,
                self@.1,
                self@.0,
                (now_secs + valid_for_secs) as nat,
            ),
            r matches Err(e) ==> e matches RelayError::InvalidArgument { name: n, .. } && n@ == (
            if audience@.len() == 0 {
                "audience"@
            } else {
                "valid_for"@
            }),
    {
        if audience.is_empty() {
            return Err(RelayError::invalid_argument("audience", "must not be empty"));
        }
        if valid_for_secs == 0 && valid_for_subsec_nanos == 0 {
            return Err(RelayError::invalid_argument("valid_for", "must be greater than zero"));
        }
        let expiry = now_secs + valid_for_secs;
        let encoded_audience = url_encode(audience);
        let mut signed: Vec<char> = Vec::new();
        push_str(&mut signed, encoded_audience.as_str());
        signed.push('\n');
        push_decimal(&mut signed, expiry);
        let signed_content = string_of(signed.as_slice());
        let key_bytes = self.key.as_str().as_bytes();
        let signed_bytes = signed_content.as_str().as_bytes();
        assert(key_bytes@ == encode_utf8(self@.1));
        assert(signed_content@ =~= percent_encode(encode_utf8(audience@)) + seq!['\n'] + decimal(
            expiry as nat,
        ));
        let tag = match hmac_sha256(key_bytes, signed_bytes) {
            Some(t) => t,
            None => {
                return Err(RelayError::communication("HMAC key error"));
            },
        };
        let signature = base64_encode(tag.as_slice());
        let encoded_signature = url_encode(signature.as_str());
        let mut token: Vec<char> = Vec::new();
        push_str(&mut token, "SharedAccessSignature sr=");
        push_str(&mut token, encoded_audience.as_str());
        push_str(&mut token, "&sig=");
        push_str(&mut token, encoded_signature.as_str());
        push_str(&mut token, "&se=");
        push_decimal(&mut token, expiry);
        push_str(&mut token, "&skn=");
        push_str(&mut token, self.key_name.as_str());
        let t = SecurityToken { token: string_of(token.as_slice()), expires_at: expiry };
        assert(t.token@ =~= sas_token_text(audience@, self@.1, self@.0, expiry as nat));
        Ok(t)
    }
}

/// The value of the first `&`-separated field of `params` that starts with
/// `se=`, if any.
pub open spec fn expiry_field(params: Seq<char>) -> Option<Seq<char>>
    decreases params.len(),
{
    match find_index(params, '&') {
        Some(i) => if 0 <= i < params.len() {
            if has_prefix(params.take(i), "se="@) {
                Some(params.take(i).skip("se="@.len() as int))
            } else {
                expiry_field(params.skip(i + 1))
            }
        } else {
            None
        },
        None => if has_prefix(params, "se="@) {
            Some(params.skip("se="@.len() as int))
        } else {
            None
        },
    }
}

/// Why a pre-built token is refused, if it is.
pub enum SasTokenProblem {
    /// The token does not start with `SharedAccessSignature `.
    MissingPrefix,
    /// No field `se=` is present.
    MissingExpiry,
    /// The `se=` value is not a `u64`.
    InvalidExpiry,
}

/// What reading a pre-built token gives: its expiry, or why it is refused.
pub open spec fn sas_token_expiry(token: Seq<char>) -> Result<nat, SasTokenProblem> {
    let prefix = "SharedAccessSignature "@;
    if !has_prefix(token, prefix) {
        Err(SasTokenProblem::MissingPrefix)
    } else {
        match expiry_field(token.skip(prefix.len() as int)) {
            None => Err(SasTokenProblem::MissingExpiry),
            Some(e) => match parse_u64_spec(e) {
                Some(v) => Ok(v as nat),
                None => Err(SasTokenProblem::InvalidExpiry),
            },
        }
    }
}

/// Finds the `se=` field of the `&`-separated parameters.
fn find_expiry_field(params: &[char]) -> (r: Option<&[char]>)
    ensures
        match r {
            Some(v) => expiry_field(params@) == Some(v@),
            None => expiry_field(params@) is None,
        },
{
    let se = chars_of("se=");
    let mut rest: &[char] = params;
    loop
        invariant
            se@ == "se="@,
            expiry_field(params@) == expiry_field(rest@),
        decreases rest@.len(),
    {
        proof {
            lemma_find_index(rest@, '&');
        }
        match find_char(rest, '&') {
            Some(i) => {
                let n = rest.len();
                let pair = &rest[0..i];
                assert(pair@ =~= rest@.take(i as int));
                if starts_with(pair, se.as_slice()) {
                    let v = &pair[se.len()..i];
                    assert(v@ =~= pair@.skip("se="@.len() as int));
                    return Some(v);
                }
                let tail = &rest[i + 1..n];
                assert(tail@ =~= rest@.skip(i + 1));
                rest = tail;
            },
            None => {
                if starts_with(rest, se.as_slice()) {
                    let n = rest.len();
                    let v = &rest[se.len()..n];
                    assert(v@ =~= rest@.skip("se="@.len() as int));
                    return Some(v);
                }
                return None;
            },
        }
    }
}

/// Wraps a pre-built SAS token string.
#[derive(Debug)]
pub struct SharedAccessSignatureToken {
    token: String,
    expires_at: u64,
}

impl SharedAccessSignatureToken {
    /// Creates a new `SharedAccessSignatureToken` by parsing an existing SAS token string.
    ///
    /// The token must start with `"SharedAccessSignature "` and contain an `se=` (expiry) field.
    ///
    /// # Errors
    /// Returns `RelayError::InvalidArgument` if the token format is invalid.
    pub fn new(token: &str) -> (r: Result<Self, RelayError>)
        ensures
            match r {
                Ok(t) => sas_token_expiry(token@) == Ok::<nat, SasTokenProblem>(
                    t.expires_at_spec() as nat,
                ) && t.token_view() == token@,
                Err(e) => sas_token_expiry(token@) is Err && (
                e matches RelayError::InvalidArgument { name: n, .. } && n@ == "token"@),
            },
    {
        let all = chars_of(token);
        let prefix = chars_of("SharedAccessSignature ");
        if !starts_with(all.as_slice(), prefix.as_slice()) {
            return Err(
                RelayError::invalid_argument("token", "must start with 'SharedAccessSignature '"),
            );
        }
        let n = all.len();
        let params = &all.as_slice()[prefix.len()..n];
        assert(params@ =~= token@.skip("SharedAccessSignature "@.len() as int));
        let expiry_str = match find_expiry_field(params) {
            Some(v) => v,
            None => {
                return Err(
                    RelayError::invalid_argument("token", "missing 'se' (expiry) field"),
                );
            },
        };
        let expiry_secs = match parse_u64(expiry_str) {
            Some(v) => v,
            None => {
                return Err(
                    RelayError::invalid_argument("token", "invalid 'se' (expiry) value"),
                );
            },
        };
        Ok(SharedAccessSignatureToken { token: token.to_owned(), expires_at: expiry_secs })
    }

    /// The token text.
    pub closed spec fn token_view(&self) -> Seq<char> {
        self.token@
    }

    /// The token string.
    pub fn token(&self) -> (r: &str)
        ensures
            r@ == self.token_view(),
    {
        self.token.as_str()
    }

    /// When the token expires, in seconds since the Unix epoch.
    pub fn expires_at(&self) -> (r: u64)
        ensures
            r == self.expires_at_spec(),
    {
        self.expires_at
    }

    pub closed spec fn expires_at_spec(&self) -> u64 {
        self.expires_at
    }

    /// The stored token, as long as it has not expired at the instant
    /// `now_secs` (seconds since the Unix epoch).
    pub fn token_at(&self, now_secs: u64) -> (r: Result<SecurityToken, RelayError>)
        ensures
            r is Ok <==> now_secs < self.expires_at_spec(),
            r matches Ok(t) ==> t.token@ == self.token_view() && t.expires_at
                == self.expires_at_spec(),
            r matches Err(e) ==> e is AuthorizationFailed,
    {
        if now_secs >= self.expires_at {
            return Err(
                RelayError::AuthorizationFailed(
                    "the shared access signature token has expired".to_owned(),
                ),
            );
        }
        Ok(SecurityToken { token: self.token.clone(), expires_at: self.expires_at })
    }
}

/// Trait for providing security tokens for Azure Relay authentication.
///
/// The clock is read by the caller and handed in, as whole seconds since
/// the Unix epoch.
pub trait TokenProvider {
    /// Whether a token valid for `valid_for_secs` from `now_secs` can be
    /// given (a signing provider must be able to add the two).
    spec fn can_give(&self, valid_for_secs: u64, now_secs: u64) -> bool;

    /// Gets a token for the given audience, valid for the specified duration.
    fn get_token(
        &self,
        audience: &str,
        valid_for_secs: u64,
        valid_for_subsec_nanos: u32,
        now_secs: u64,
    ) -> (r: Result<SecurityToken, RelayError>)
        requires
            self.can_give(valid_for_secs, now_secs),
    ;
}

impl TokenProvider for SharedAccessSignatureTokenProvider {
    /// The expiry, `now_secs + valid_for_secs`, fits in `u64`.
    open spec fn can_give(&self, valid_for_secs: u64, now_secs: u64) -> bool {
        now_secs + valid_for_secs <= u64::MAX
    }

    fn get_token(
        &self,
        audience: &str,
        valid_for_secs: u64,
        valid_for_subsec_nanos: u32,
        now_secs: u64,
    ) -> (r: Result<SecurityToken, RelayError>)
        ensures
            r is Ok <==> audience@.len() != 0 && (valid_for_secs != 0 || valid_for_subsec_nanos
                != 0),
            r matches Ok(t) ==> t.expires_at == now_secs + valid_for_secs && t.token@
                == sas_token_text(
                audience@,
                self@.1,
                self@.0,
                (now_secs + valid_for_secs) as nat,
            ),
            r matches Err(e) ==> e matches RelayError::InvalidArgument { name: n, .. } && n@ == (
            if audience@.len() == 0 {
                "audience"@
            } else {
                "valid_for"@
            }),
    {
        self.sign(audience, valid_for_secs, valid_for_subsec_nanos, now_secs)
    }
}

impl TokenProvider for SharedAccessSignatureToken {
    /// A stored token can always be handed out (or refused as expired).
    open spec fn can_give(&self, valid_for_secs: u64, now_secs: u64) -> bool {
        true
    }

    fn get_token(
        &self,
        audience: &str,
        valid_for_secs: u64,
        valid_for_subsec_nanos: u32,
        now_secs: u64,
    ) -> (r: Result<SecurityToken, RelayError>)
        ensures
            r is Ok <==> now_secs < self.expires_at_spec(),
            r matches Ok(t) ==> t.token@ == self.token_view() && t.expires_at
                == self.expires_at_spec(),
            r matches Err(e) ==> e is AuthorizationFailed,
    {
        self.token_at(now_secs)
    }
}

} // verus!
