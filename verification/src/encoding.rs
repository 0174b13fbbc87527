//! Text encodings used in links: percent-encoding and standard base64.
use vstd::prelude::*;
use vstd::utf8::encode_utf8;
use base64::Engine;

verus! {

/// An uppercase hexadecimal digit.
pub open spec fn hex_digit_upper(d: nat) -> char {
    if d < 10 { ((d + 48) as u8) as char } else { ((d + 55) as u8) as char }
}

/// Bytes left as they are by percent-encoding: ASCII letters and digits, `-`, `.`, `_`, `~`.
pub open spec fn is_unreserved(b: u8) -> bool {
    (48 <= b <= 57) || (65 <= b <= 90) || (97 <= b <= 122) || b == 45 || b == 46 || b == 95 || b == 126
}

/// Percent-encoding of a byte sequence: unreserved bytes stay, others become `%XY`.
pub open spec fn percent_encoded(b: Seq<u8>) -> Seq<char>
    decreases b.len(),
{
    if b.len() == 0 {
        Seq::empty()
    } else {
        let x = b[0];
        let piece = if is_unreserved(x) {
            seq![x as char]
        } else {
            seq!['%', hex_digit_upper((x / 16) as nat), hex_digit_upper((x % 16) as nat)]
        };
        piece + percent_encoded(b.subrange(1, b.len() as int))
    }
}

/// Percent-encoding of the UTF-8 bytes of a text.
pub open spec fn url_encoded(s: Seq<char>) -> Seq<char> {
    percent_encoded(encode_utf8(s))
}

/// A character of the standard base64 alphabet.
pub open spec fn base64_char(v: nat) -> char {
    if v < 26 { ((v + 65) as u8) as char }
    else if v < 52 { ((v + 71) as u8) as char }
    else if v < 62 { ((v - 4) as u8) as char }
    else if v == 62 { '+' }
    else { '/' }
}

/// Standard base64 (RFC 4648 alphabet, `=` padding) of a byte sequence.
pub open spec fn base64_text(b: Seq<u8>) -> Seq<char>
    decreases b.len(),
{
    if b.len() == 0 {
        Seq::empty()
    } else if b.len() == 1 {
        seq![base64_char((b[0] / 4) as nat), base64_char(((b[0] % 4) * 16) as nat), '=', '=']
    } else if b.len() == 2 {
        seq![base64_char((b[0] / 4) as nat), base64_char(((b[0] % 4) * 16 + b[1] / 16) as nat),
            base64_char(((b[1] % 16) * 4) as nat), '=']
    } else {
        seq![base64_char((b[0] / 4) as nat), base64_char(((b[0] % 4) * 16 + b[1] / 16) as nat),
            base64_char(((b[1] % 16) * 4 + b[2] / 64) as nat), base64_char((b[2] % 64) as nat)]
            + base64_text(b.subrange(3, b.len() as int))
    }
}

/// Percent-encodes a text (calls `urlencoding::encode`). Claims what the crate documents:
/// every UTF-8 byte other than ASCII letters, digits, `-`, `_`, `.`, `~` becomes `%` and two
/// uppercase hexadecimal digits.
#[verifier::external_body]
pub(crate) fn url_encode(s: &str) -> (r: String)
    ensures
        r@ == url_encoded(s@),
{
    urlencoding::encode(s).into_owned()
}

/// Base64 of bytes (calls `base64::engine::general_purpose::STANDARD.encode`).
/// Claims the standard alphabet with `=` padding.
#[verifier::external_body]
pub(crate) fn base64_encode_bytes(b: &[u8]) -> (r: String)
    ensures
        r@ == base64_text(b@),
{
    base64::engine::general_purpose::STANDARD.encode(b)
}

/// Base64 of a text's UTF-8 bytes.
pub fn base64_encode(s: &str) -> (r: String)
    ensures
        r@ == base64_text(encode_utf8(s@)),
{
    base64_encode_bytes(s.as_bytes())
}

} // verus!
