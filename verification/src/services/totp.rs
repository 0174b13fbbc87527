//! Time-based one-time passwords for two-factor login: base32 secrets, six-digit codes that
//! change every thirty seconds, provisioning URLs and QR images of them.
use vstd::prelude::*;
use crate::encoding::{base64_encode_bytes, base64_text, url_encode, url_encoded};
use crate::text::{ascii_lowercase, ascii_upper, ascii_uppercase, lemma_ascii_case_fold, nat_text, owned, push_str};
use rand::Rng;
use image::ImageEncoder;

verus! {

/// Number of digits of a code.
pub const TOTP_DIGITS: u32 = 6;

/// Seconds for which one code is valid.
pub const TOTP_PERIOD: u64 = 30;

// ---------------------------------------------------------------------------------------------
// Base32 (RFC 4648 alphabet, no padding on output)
// ---------------------------------------------------------------------------------------------

/// The character of the base32 alphabet `A`..`Z`, `2`..`7` for a 5-bit value.
pub open spec fn base32_char(v: u8) -> char {
    if v < 26 { (v + 65) as char } else { (v + 24) as char }
}

/// The 5-bit value of a base32 character, if it is one (uppercase letters and `2`..`7`).
pub open spec fn symbol_of(c: char) -> Option<u8> {
    if 'A' <= c && c <= 'Z' {
        Some((c as u32 - 65) as u8)
    } else if '2' <= c && c <= '7' {
        Some((c as u32 - 24) as u8)
    } else {
        None
    }
}

/// The byte at `i`, or 0 past the end.
pub open spec fn byte_or_zero(b: Seq<u8>, i: int) -> u64 {
    if 0 <= i < b.len() { b[i] as u64 } else { 0 }
}

/// Up to five bytes as one big-endian 40-bit value, missing bytes taken as zero.
pub open spec fn bytes_block_value(b: Seq<u8>) -> u64 {
    (byte_or_zero(b, 0) << 32u64) | (byte_or_zero(b, 1) << 24u64) | (byte_or_zero(b, 2) << 16u64)
        | (byte_or_zero(b, 3) << 8u64) | byte_or_zero(b, 4)
}

/// Number of base32 characters that carry `r` bytes: `ceil(8 r / 5)`.
pub open spec fn symbol_count(r: nat) -> nat {
    (8 * r + 4) / 5
}

/// The `k`-th 5-bit group, from the top, of a 40-bit block.
pub open spec fn block_symbol(v: u64, k: int) -> u8 {
    ((v >> ((35 - 5 * k) as u64)) & 31u64) as u8
}

/// The 5-bit values that encode one block of at most five bytes; the last one is filled with
/// zero bits.
pub open spec fn block_symbols(b: Seq<u8>) -> Seq<u8> {
    Seq::new(symbol_count(b.len()), |k: int| block_symbol(bytes_block_value(b), k))
}

/// The 5-bit values that encode a byte sequence, five bytes at a time.
pub open spec fn base32_symbols(data: Seq<u8>) -> Seq<u8>
    decreases data.len(),
{
    if data.len() <= 5 {
        block_symbols(data)
    } else {
        block_symbols(data.take(5)) + base32_symbols(data.skip(5))
    }
}

/// Base32 text of a byte sequence, without `=` padding.
pub open spec fn base32_text(data: Seq<u8>) -> Seq<char> {
    base32_symbols(data).map_values(|v: u8| base32_char(v))
}

/// The 5-bit value at `i`, or 0 past the end.
pub open spec fn symbol_or_zero(s: Seq<u8>, i: int) -> u64 {
    if 0 <= i < s.len() { s[i] as u64 } else { 0 }
}

/// Up to eight 5-bit values as one 40-bit value, missing values taken as zero.
pub open spec fn symbols_block_value(s: Seq<u8>) -> u64 {
    (symbol_or_zero(s, 0) << 35u64) | (symbol_or_zero(s, 1) << 30u64) | (symbol_or_zero(s, 2) << 25u64)
        | (symbol_or_zero(s, 3) << 20u64) | (symbol_or_zero(s, 4) << 15u64) | (symbol_or_zero(s, 5)
        << 10u64) | (symbol_or_zero(s, 6) << 5u64) | symbol_or_zero(s, 7)
}

/// Number of whole bytes in `m` 5-bit values.
pub open spec fn byte_count(m: nat) -> nat {
    5 * m / 8
}

/// The `j`-th byte, from the top, of a 40-bit block.
pub open spec fn block_byte(w: u64, j: int) -> u8 {
    ((w >> ((32 - 8 * j) as u64)) & 255u64) as u8
}

/// The whole bytes carried by at most eight 5-bit values; left-over bits are dropped.
pub open spec fn block_bytes(s: Seq<u8>) -> Seq<u8> {
    Seq::new(byte_count(s.len()), |j: int| block_byte(symbols_block_value(s), j))
}

/// The bytes carried by a sequence of 5-bit values, eight at a time.
pub open spec fn base32_bytes(s: Seq<u8>) -> Seq<u8>
    decreases s.len(),
{
    if s.len() <= 8 {
        block_bytes(s)
    } else {
        block_bytes(s.take(8)) + base32_bytes(s.skip(8))
    }
}

/// Reads base32 characters left to right, skipping `=`: the 5-bit values read, or the first
/// character that is not in the alphabet.
pub open spec fn scan_symbols(s: Seq<char>) -> Result<Seq<u8>, char>
    decreases s.len(),
{
    if s.len() == 0 {
        Ok(Seq::empty())
    } else {
        match scan_symbols(s.drop_last()) {
            Err(c) => Err(c),
            Ok(syms) => {
                if s.last() == '=' {
                    Ok(syms)
                } else {
                    match symbol_of(s.last()) {
                        Some(v) => Ok(syms.push(v)),
                        None => Err(s.last()),
                    }
                }
            },
        }
    }
}

/// Decoding of base32 text that is already uppercase: the bytes, or the first character that
/// is not `=` and not in the alphabet.
pub open spec fn base32_decoded(s: Seq<char>) -> Result<Seq<u8>, char> {
    match scan_symbols(s) {
        Ok(syms) => Ok(base32_bytes(syms)),
        Err(c) => Err(c),
    }
}

/// Text with every character mapped to its Unicode uppercase, as `str::to_uppercase` computes it.
pub uninterp spec fn uppercased(s: Seq<char>) -> Seq<char>;

/// Unicode uppercase of a string (calls `str::to_uppercase`). The result is claimed to be
/// `uppercased` of the input, a name for what `str::to_uppercase` returns, and, for ASCII
/// input, the character-by-character ASCII uppercase: Unicode maps `a`..`z` to `A`..`Z` and
/// leaves every other ASCII character as it is.
#[verifier::external_body]
fn to_uppercase(s: &str) -> (r: String)
    ensures
        r@ == uppercased(s@),
        vstd::utf8::is_ascii_chars(s@) ==> r@ == s@.map_values(|c: char| ascii_upper(c)),
{
    s.to_uppercase()
}

/// The base32 character of a 5-bit value.
fn alphabet_char(v: u8) -> (c: char)
    requires
        v < 32,
    ensures
        c == base32_char(v),
{
    if v < 26 {
        (v + 65) as char
    } else {
        (v + 24) as char
    }
}

/// The 5-bit value of a character, if it is in the base32 alphabet.
fn symbol_value(c: char) -> (r: Option<u8>)
    ensures
        r == symbol_of(c),
{
    if 'A' <= c && c <= 'Z' {
        Some((c as u32 - 65) as u8)
    } else if '2' <= c && c <= '7' {
        Some((c as u32 - 24) as u8)
    } else {
        None
    }
}

/// A 40-bit value is the sum of its eight 5-bit groups.
proof fn lemma_reassemble(v: u64)
    by (bit_vector)
    requires
        v < 0x100_0000_0000u64,
    ensures
        v == ((((v >> 35u64) & 31u64) as u8 as u64) << 35u64) | ((((v >> 30u64) & 31u64) as u8 as u64)
            << 30u64) | ((((v >> 25u64) & 31u64) as u8 as u64) << 25u64) | ((((v >> 20u64) & 31u64) as u8
            as u64) << 20u64) | ((((v >> 15u64) & 31u64) as u8 as u64) << 15u64) | ((((v >> 10u64)
            & 31u64) as u8 as u64) << 10u64) | ((((v >> 5u64) & 31u64) as u8 as u64) << 5u64) | (((v
            >> 0u64) & 31u64) as u8 as u64),
{
}

/// The bytes of a block are its 8-bit groups from the top; the 5-bit groups that start past the
/// last real byte are zero.
proof fn lemma_block_groups(b0: u64, b1: u64, b2: u64, b3: u64, b4: u64, r: u64, v: u64)
    by (bit_vector)
    requires
        b0 < 256,
        b1 < 256,
        b2 < 256,
        b3 < 256,
        b4 < 256,
        1 <= r <= 5,
        r < 2 ==> b1 == 0,
        r < 3 ==> b2 == 0,
        r < 4 ==> b3 == 0,
        r < 5 ==> b4 == 0,
        v == (b0 << 32u64) | (b1 << 24u64) | (b2 << 16u64) | (b3 << 8u64) | b4,
    ensures
        v < 0x100_0000_0000u64,
        (v >> 32u64) & 255u64 == b0,
        (v >> 24u64) & 255u64 == b1,
        (v >> 16u64) & 255u64 == b2,
        (v >> 8u64) & 255u64 == b3,
        (v >> 0u64) & 255u64 == b4,
        5 >= 8 * r ==> (v >> 30u64) & 31u64 == 0,
        10 >= 8 * r ==> (v >> 25u64) & 31u64 == 0,
        15 >= 8 * r ==> (v >> 20u64) & 31u64 == 0,
        20 >= 8 * r ==> (v >> 15u64) & 31u64 == 0,
        25 >= 8 * r ==> (v >> 10u64) & 31u64 == 0,
        30 >= 8 * r ==> (v >> 5u64) & 31u64 == 0,
        35 >= 8 * r ==> (v >> 0u64) & 31u64 == 0,
{
}

/// Every 5-bit group is below 32.
proof fn lemma_group_bound()
    by (bit_vector)
    ensures
        forall|x: u64| #[trigger] (x & 31u64) < 32u64,
{
}

/// Decoding the 5-bit values of one block gives the block back.
proof fn lemma_block_roundtrip(b: Seq<u8>)
    requires
        1 <= b.len() <= 5,
    ensures
        block_bytes(block_symbols(b)) =~= b,
{
    let v = bytes_block_value(b);
    let s = block_symbols(b);
    let r = b.len();
    lemma_block_groups(
        byte_or_zero(b, 0),
        byte_or_zero(b, 1),
        byte_or_zero(b, 2),
        byte_or_zero(b, 3),
        byte_or_zero(b, 4),
        r as u64,
        v,
    );
    lemma_reassemble(v);
    assert forall|i: int| 0 <= i < 8 implies symbol_or_zero(s, i) == (block_symbol(v, i) as u64) by {
        if i == 0 {} else if i == 1 {} else if i == 2 {} else if i == 3 {} else if i == 4 {} else if i == 5 {} else if i == 6 {} else {}
    }
    assert(symbols_block_value(s) == v);
    assert(byte_count(s.len()) == r);
    assert forall|j: int| 0 <= j < r implies block_byte(v, j) == b[j] by {
        if j == 0 {} else if j == 1 {} else if j == 2 {} else if j == 3 {} else {}
    }
}

/// Base32 text has `ceil(8 n / 5)` characters for `n` bytes.
pub proof fn lemma_base32_text_len(data: Seq<u8>)
    ensures
        base32_text(data).len() == symbol_count(data.len()),
    decreases data.len(),
{
    if data.len() > 5 {
        lemma_base32_text_len(data.skip(5));
    }
}

/// A non-empty byte sequence has at least one 5-bit value.
proof fn lemma_symbols_nonempty(data: Seq<u8>)
    requires
        data.len() > 0,
    ensures
        base32_symbols(data).len() > 0,
{
    if data.len() > 5 {
        assert(block_symbols(data.take(5)).len() == 8);
    }
}

/// The 5-bit values of a byte sequence are all below 32.
proof fn lemma_symbols_bounded(data: Seq<u8>)
    ensures
        forall|i: int| 0 <= i < base32_symbols(data).len() ==> #[trigger] base32_symbols(data)[i] < 32,
    decreases data.len(),
{
    lemma_group_bound();
    if data.len() > 5 {
        lemma_symbols_bounded(data.skip(5));
        let a = block_symbols(data.take(5));
        let rest = base32_symbols(data.skip(5));
        assert forall|i: int| 0 <= i < base32_symbols(data).len() implies #[trigger] base32_symbols(data)[i]
            < 32 by {
            if i < a.len() {
                assert(base32_symbols(data)[i] == a[i]);
            } else {
                assert(base32_symbols(data)[i] == rest[i - a.len()]);
            }
        }
    }
}

/// The bytes carried by the 5-bit values of a byte sequence are that byte sequence.
proof fn lemma_symbols_roundtrip(data: Seq<u8>)
    ensures
        base32_bytes(base32_symbols(data)) =~= data,
    decreases data.len(),
{
    if data.len() == 0 {
        assert(base32_symbols(data) =~= Seq::<u8>::empty());
    } else if data.len() <= 5 {
        lemma_block_roundtrip(data);
    } else {
        let a = block_symbols(data.take(5));
        let rest = base32_symbols(data.skip(5));
        lemma_symbols_nonempty(data.skip(5));
        lemma_block_roundtrip(data.take(5));
        lemma_symbols_roundtrip(data.skip(5));
        let syms = base32_symbols(data);
        assert(syms.take(8) =~= a);
        assert(syms.skip(8) =~= rest);
        assert(data =~= data.take(5) + data.skip(5));
    }
}

/// Reading the base32 characters of 5-bit values gives those values back.
proof fn lemma_scan_alphabet(syms: Seq<u8>)
    requires
        forall|i: int| 0 <= i < syms.len() ==> #[trigger] syms[i] < 32,
    ensures
        scan_symbols(syms.map_values(|v: u8| base32_char(v))) == Ok::<Seq<u8>, char>(syms),
    decreases syms.len(),
{
    let t = syms.map_values(|v: u8| base32_char(v));
    if syms.len() > 0 {
        assert(t.drop_last() =~= syms.drop_last().map_values(|v: u8| base32_char(v)));
        lemma_scan_alphabet(syms.drop_last());
        let v = syms.last();
        assert(v < 32);
        assert(t.last() == base32_char(v));
        assert(symbol_of(base32_char(v)) == Some(v));
        assert(syms.drop_last().push(v) =~= syms);
    } else {
        assert(t.len() == 0);
        assert(syms =~= Seq::<u8>::empty());
    }
}

/// Base32 decoding undoes base32 encoding: the text of any byte sequence is ASCII, already
/// uppercase, and decodes to that byte sequence.
pub proof fn lemma_base32_roundtrip(data: Seq<u8>)
    ensures
        vstd::utf8::is_ascii_chars(base32_text(data)),
        base32_text(data).map_values(|c: char| ascii_upper(c)) == base32_text(data),
        base32_decoded(base32_text(data)) == Ok::<Seq<u8>, char>(data),
{
    let syms = base32_symbols(data);
    let t = base32_text(data);
    lemma_symbols_bounded(data);
    lemma_scan_alphabet(syms);
    lemma_symbols_roundtrip(data);
    assert forall|i: int| 0 <= i < t.len() implies '\0' <= #[trigger] t[i] <= '\u{7f}' && ascii_upper(t[i]) == t[i] by {
        assert(syms[i] < 32);
        assert(t[i] == base32_char(syms[i]));
    }
    assert(t.map_values(|c: char| ascii_upper(c)) =~= t);
}

/// Base32 text still decodes to its bytes when written in lowercase: it stays ASCII, and the
/// uppercasing that decoding starts with brings back the encoder's text.
pub proof fn lemma_base32_lowercase_roundtrip(data: Seq<u8>)
    ensures
        vstd::utf8::is_ascii_chars(ascii_lowercase(base32_text(data))),
        base32_decoded(ascii_uppercase(ascii_lowercase(base32_text(data)))) == Ok::<Seq<u8>, char>(data),
{
    let t = base32_text(data);
    lemma_base32_roundtrip(data);
    lemma_ascii_case_fold(t);
    assert(ascii_uppercase(t) == t);
}

/// Appends the base32 characters of `data[start..start + r]`, one block of at most five bytes.
fn encode_block(data: &[u8], start: usize, r: usize, out: &mut String)
    requires
        1 <= r <= 5,
        start + r <= data.len(),
    ensures
        final(out)@ == old(out)@ + block_symbols(data@.subrange(start as int, start + r)).map_values(
            |v: u8| base32_char(v),
        ),
{
    let ghost b = data@.subrange(start as int, start + r);
    let b0: u64 = data[start] as u64;
    let b1: u64 = if r > 1 { data[start + 1] as u64 } else { 0 };
    let b2: u64 = if r > 2 { data[start + 2] as u64 } else { 0 };
    let b3: u64 = if r > 3 { data[start + 3] as u64 } else { 0 };
    let b4: u64 = if r > 4 { data[start + 4] as u64 } else { 0 };
    let v: u64 = (b0 << 32u64) | (b1 << 24u64) | (b2 << 16u64) | (b3 << 8u64) | b4;
    assert(v == bytes_block_value(b));
    let n: usize = (8 * r + 4) / 5;
    let ghost syms = block_symbols(b);
    assert(syms.len() == n);
    let mut k: usize = 0;
    while k < n
        invariant
            n <= 8,
            k <= n,
            syms.len() == n,
            v == bytes_block_value(b),
            syms == block_symbols(b),
            out@ == old(out)@ + syms.take(k as int).map_values(|v: u8| base32_char(v)),
        decreases n - k,
    {
        let shift: u64 = (35 - 5 * k) as u64;
        let sym: u8 = ((v >> shift) & 31u64) as u8;
        assert(((v >> shift) & 31u64) < 32) by (bit_vector);
        assert(sym == syms[k as int]);
        let c = alphabet_char(sym);
        crate::text::push_char(out, c);
        assert(syms.take(k + 1).map_values(|v: u8| base32_char(v)) =~= syms.take(k as int).map_values(
            |v: u8| base32_char(v),
        ).push(c));
        k = k + 1;
    }
    assert(syms.take(n as int) =~= syms);
}

/// Base32 text of a byte sequence, without `=` padding.
pub fn base32_encode(data: &[u8]) -> (r: String)
    ensures
        r@ == base32_text(data@),
{
    let mut out = String::new();
    let mut i: usize = 0;
    assert(data@.skip(0) =~= data@);
    assert(out@ + base32_text(data@) =~= base32_text(data@));
    while i < data.len()
        invariant
            i <= data.len(),
            out@ + base32_text(data@.skip(i as int)) == base32_text(data@),
        decreases data.len() - i,
    {
        let ghost rest = data@.skip(i as int);
        let r: usize = if data.len() - i < 5 { data.len() - i } else { 5 };
        let ghost before = out@;
        encode_block(data, i, r, &mut out);
        proof {
            assert(data@.subrange(i as int, i + r) =~= if rest.len() <= 5 { rest } else { rest.take(5) });
            if rest.len() > 5 {
                assert(rest.skip(5) =~= data@.skip(i + r));
                assert(base32_symbols(rest) == block_symbols(rest.take(5)) + base32_symbols(rest.skip(5)));
            } else {
                assert(data@.skip(i + r).len() == 0);
                assert(base32_symbols(data@.skip(i + r)) =~= Seq::<u8>::empty());
            }
            assert(base32_text(rest) =~= block_symbols(data@.subrange(i as int, i + r)).map_values(
                |v: u8| base32_char(v),
            ) + base32_text(data@.skip(i + r)));
        }
        i = i + r;
    }
    assert(data@.skip(i as int).len() == 0);
    assert(base32_text(data@.skip(i as int)) =~= Seq::<char>::empty());
    assert(out@ + Seq::<char>::empty() =~= out@);
    out
}

/// Appends the whole bytes carried by `syms[start..start + m]`, one block of at most eight
/// 5-bit values.
fn decode_block(syms: &Vec<u8>, start: usize, m: usize, out: &mut Vec<u8>)
    requires
        1 <= m <= 8,
        start + m <= syms.len(),
    ensures
        final(out)@ == old(out)@ + block_bytes(syms@.subrange(start as int, start + m)),
{
    let ghost s = syms@.subrange(start as int, start + m);
    let s0: u64 = syms[start] as u64;
    let s1: u64 = if m > 1 { syms[start + 1] as u64 } else { 0 };
    let s2: u64 = if m > 2 { syms[start + 2] as u64 } else { 0 };
    let s3: u64 = if m > 3 { syms[start + 3] as u64 } else { 0 };
    let s4: u64 = if m > 4 { syms[start + 4] as u64 } else { 0 };
    let s5: u64 = if m > 5 { syms[start + 5] as u64 } else { 0 };
    let s6: u64 = if m > 6 { syms[start + 6] as u64 } else { 0 };
    let s7: u64 = if m > 7 { syms[start + 7] as u64 } else { 0 };
    let w: u64 = (s0 << 35u64) | (s1 << 30u64) | (s2 << 25u64) | (s3 << 20u64) | (s4 << 15u64) | (s5
        << 10u64) | (s6 << 5u64) | s7;
    assert(w == symbols_block_value(s));
    let n: usize = 5 * m / 8;
    let ghost bytes = block_bytes(s);
    let mut j: usize = 0;
    while j < n
        invariant
            n <= 5,
            j <= n,
            bytes.len() == n,
            w == symbols_block_value(s),
            bytes == block_bytes(s),
            out@ == old(out)@ + bytes.take(j as int),
        decreases n - j,
    {
        let shift: u64 = (32 - 8 * j) as u64;
        let byte: u8 = ((w >> shift) & 255u64) as u8;
        assert(byte == bytes[j as int]);
        out.push(byte);
        assert(bytes.take(j + 1) =~= bytes.take(j as int).push(byte));
        j = j + 1;
    }
    assert(bytes.take(n as int) =~= bytes);
}

/// The bytes carried by a sequence of 5-bit values.
fn decode_symbols(syms: &Vec<u8>) -> (r: Vec<u8>)
    ensures
        r@ == base32_bytes(syms@),
{
    let mut out: Vec<u8> = Vec::new();
    let mut i: usize = 0;
    assert(syms@.skip(0) =~= syms@);
    assert(out@ + base32_bytes(syms@) =~= base32_bytes(syms@));
    while i < syms.len()
        invariant
            i <= syms.len(),
            out@ + base32_bytes(syms@.skip(i as int)) == base32_bytes(syms@),
        decreases syms.len() - i,
    {
        let ghost rest = syms@.skip(i as int);
        let m: usize = if syms.len() - i < 8 { syms.len() - i } else { 8 };
        decode_block(syms, i, m, &mut out);
        proof {
            assert(syms@.subrange(i as int, i + m) =~= if rest.len() <= 8 { rest } else { rest.take(8) });
            if rest.len() > 8 {
                assert(rest.skip(8) =~= syms@.skip(i + m));
            } else {
                assert(syms@.skip(i + m).len() == 0);
                assert(base32_bytes(syms@.skip(i + m)) =~= Seq::<u8>::empty());
            }
            assert(base32_bytes(rest) =~= block_bytes(syms@.subrange(i as int, i + m)) + base32_bytes(
                syms@.skip(i + m),
            ));
        }
        i = i + m;
    }
    assert(syms@.skip(i as int).len() == 0);
    assert(base32_bytes(syms@.skip(i as int)) =~= Seq::<u8>::empty());
    assert(out@ + Seq::<u8>::empty() =~= out@);
    out
}

/// Once a prefix of a text holds an invalid character, the whole text fails on it.
proof fn lemma_scan_error_extends(s: Seq<char>, i: int, c: char)
    requires
        0 <= i <= s.len(),
        scan_symbols(s.take(i)) == Err::<Seq<u8>, char>(c),
    ensures
        scan_symbols(s) == Err::<Seq<u8>, char>(c),
    decreases s.len() - i,
{
    if i < s.len() {
        assert(s.take(i + 1).drop_last() =~= s.take(i));
        lemma_scan_error_extends(s, i + 1, c);
    } else {
        assert(s.take(i) =~= s);
    }
}

/// The 5-bit values of already uppercase base32 text, `=` skipped, or the first character
/// outside the alphabet.
fn scan_text(chars: &Vec<char>) -> (r: Result<Vec<u8>, char>)
    ensures
        match r {
            Ok(v) => scan_symbols(chars@) == Ok::<Seq<u8>, char>(v@),
            Err(c) => scan_symbols(chars@) == Err::<Seq<u8>, char>(c),
        },
{
    let mut syms: Vec<u8> = Vec::new();
    let mut i: usize = 0;
    assert(chars@.take(0) =~= Seq::<char>::empty());
    while i < chars.len()
        invariant
            i <= chars.len(),
            scan_symbols(chars@.take(i as int)) == Ok::<Seq<u8>, char>(syms@),
        decreases chars.len() - i,
    {
        let c = chars[i];
        assert(chars@.take(i + 1).drop_last() =~= chars@.take(i as int));
        assert(chars@.take(i + 1).last() == c);
        if c != '=' {
            match symbol_value(c) {
                Some(v) => {
                    syms.push(v);
                },
                None => {
                    proof {
                        lemma_scan_error_extends(chars@, i + 1, c);
                    }
                    return Err(c);
                },
            }
        }
        i = i + 1;
    }
    assert(chars@.take(i as int) =~= chars@);
    Ok(syms)
}

/// Decodes base32 text: case is ignored and `=` skipped. Fails with the first character
/// (after uppercasing) that is not in the alphabet.
pub fn base32_decode(data: &str) -> (r: Result<Vec<u8>, char>)
    ensures
        match r {
            Ok(v) => base32_decoded(uppercased(data@)) == Ok::<Seq<u8>, char>(v@),
            Err(c) => base32_decoded(uppercased(data@)) == Err::<Seq<u8>, char>(c),
        },
        vstd::utf8::is_ascii_chars(data@) ==> uppercased(data@) == data@.map_values(
            |c: char| ascii_upper(c),
        ),
{
    let upper = to_uppercase(data);
    let chars = crate::text::chars_of(upper.as_str());
    match scan_text(&chars) {
        Ok(syms) => Ok(decode_symbols(&syms)),
        Err(c) => Err(c),
    }
}

// ---------------------------------------------------------------------------------------------
// Codes
// ---------------------------------------------------------------------------------------------

/// Ten to the power `d`.
pub open spec fn pow10(d: nat) -> nat
    decreases d,
{
    if d == 0 { 1 } else { 10 * pow10((d - 1) as nat) }
}

/// Decimal text of `n` with leading zeros up to `width` characters.
pub open spec fn zero_padded(n: nat, width: nat) -> Seq<char> {
    if nat_text(n).len() < width {
        Seq::new((width - nat_text(n).len()) as nat, |i: int| '0') + nat_text(n)
    } else {
        nat_text(n)
    }
}

/// The 31-bit value that HOTP (RFC 4226) takes from the HMAC-SHA1 of a counter keyed by a
/// secret (dynamic truncation), as `totp_lite` computes it.
pub uninterp spec fn hotp_truncated(secret: Seq<u8>, counter: u64) -> u64;

/// The code for a secret at a Unix time: the HOTP value of the time's period, reduced to
/// `digits` decimal digits with leading zeros.
pub open spec fn totp_code(step: u64, digits: u32, secret: Seq<u8>, time: u64) -> Seq<char> {
    zero_padded((hotp_truncated(secret, time / step) as nat) % pow10(digits as nat), digits as nat)
}

/// A number below `10^d` has at most `d` decimal digits.
proof fn lemma_nat_text_len(n: nat, d: nat)
    requires
        d >= 1,
        n < pow10(d),
    ensures
        nat_text(n).len() <= d,
    decreases n,
{
    if n >= 10 {
        assert(d >= 2) by {
            if d == 1 {
                assert(pow10(0) == 1);
            }
        }
        assert(pow10(d) == 10 * pow10((d - 1) as nat));
        lemma_nat_text_len(n / 10, (d - 1) as nat);
    }
}

/// A code has exactly `digits` characters, each a decimal digit.
pub proof fn lemma_totp_code_shape(step: u64, digits: u32, secret: Seq<u8>, time: u64)
    requires
        step > 0,
        digits >= 1,
    ensures
        totp_code(step, digits, secret, time).len() == digits,
{
    let n = (hotp_truncated(secret, time / step) as nat) % pow10(digits as nat);
    assert(pow10(digits as nat) > 0) by {
        lemma_pow10_positive(digits as nat);
    }
    lemma_nat_text_len(n, digits as nat);
}

/// Powers of ten are positive.
proof fn lemma_pow10_positive(d: nat)
    ensures
        pow10(d) > 0,
    decreases d,
{
    if d > 0 {
        lemma_pow10_positive((d - 1) as nat);
    }
}

/// The TOTP code of a secret at a time (calls `totp_lite::totp_custom::<Sha1>`). Claims the
/// result is `totp_code`: `totp_lite` hashes the secret with the counter `time / step`, takes
/// the 31-bit value `hotp_truncated` and prints it modulo `10^digits`, zero-padded to `digits`
/// characters. The step must not be zero and `10^digits` must fit in a `u64`.
#[verifier::external_body]
fn totp_sha1(step: u64, digits: u32, secret: &[u8], time: u64) -> (r: String)
    requires
        step > 0,
        1 <= digits <= 19,
    ensures
        r@ == zero_padded((hotp_truncated(secret@, time / step) as nat) % pow10(digits as nat), digits as nat),
{
    totp_lite::totp_custom::<totp_lite::Sha1>(step, digits, secret, time)
}

/// The current Unix time in whole seconds (calls `std::time::SystemTime::now` and measures the
/// duration since `UNIX_EPOCH`, 0 for a clock set before it). Nothing is claimed about the value.
#[verifier::external_body]
fn unix_time_secs() -> u64 {
    std::time::SystemTime::now().duration_since(std::time::UNIX_EPOCH).unwrap_or_default().as_secs()
}

/// Fills a buffer with random bytes (calls `rand::Rng::fill` on `rand::thread_rng()`).
/// Claims only that the length is kept.
#[verifier::external_body]
fn fill_random(buf: &mut Vec<u8>)
    ensures
        final(buf)@.len() == old(buf)@.len(),
{
    rand::thread_rng().fill(buf.as_mut_slice());
}

/// Why a QR code could not be made, one variant per `qrcode::types::QrError`.
#[derive(Debug, Clone, Copy, PartialEq, Eq)]
pub enum QrFailure {
    DataTooLong,
    InvalidVersion,
    UnsupportedCharacterSet,
    InvalidEciDesignator,
    InvalidCharacter,
}

/// The name of a QR failure as it is printed for debugging.
pub open spec fn qr_failure_name(f: QrFailure) -> Seq<char> {
    match f {
        QrFailure::DataTooLong => "DataTooLong"@,
        QrFailure::InvalidVersion => "InvalidVersion"@,
        QrFailure::UnsupportedCharacterSet => "UnsupportedCharacterSet"@,
        QrFailure::InvalidEciDesignator => "InvalidEciDesignator"@,
        QrFailure::InvalidCharacter => "InvalidCharacter"@,
    }
}

impl QrFailure {
    /// The variant's name.
    pub fn name(&self) -> (r: &'static str)
        ensures
            r@ == qr_failure_name(*self),
    {
        match self {
            QrFailure::DataTooLong => "DataTooLong",
            QrFailure::InvalidVersion => "InvalidVersion",
            QrFailure::UnsupportedCharacterSet => "UnsupportedCharacterSet",
            QrFailure::InvalidEciDesignator => "InvalidEciDesignator",
            QrFailure::InvalidCharacter => "InvalidCharacter",
        }
    }
}

/// The QR image of a text, or why the text cannot be encoded, as `qrcode` computes it: the
/// image's width and height and its 8-bit luminance-alpha pixels, row by row.
pub uninterp spec fn qr_rendered(text: Seq<char>) -> Result<(u32, u32, Seq<u8>), QrFailure>;

/// Encodes a text as a QR code and renders it (calls `qrcode::QrCode::new`, then
/// `render::<image::LumaA<u8>>().build()` on the code, and takes the image's size and raw
/// bytes). Claims the outcome is `qr_rendered` of the text, and that the raw bytes hold two
/// bytes for each of the image's pixels, as the image buffer keeps them.
#[verifier::external_body]
fn qr_pixels(text: &str) -> (r: Result<(u32, u32, Vec<u8>), QrFailure>)
    ensures
        match r {
            Ok((w, h, px)) => qr_rendered(text@) == Ok::<(u32, u32, Seq<u8>), QrFailure>((w, h, px@))
                && px@.len() == 2 * w * h,
            Err(f) => qr_rendered(text@) == Err::<(u32, u32, Seq<u8>), QrFailure>(f),
        },
{
    match qrcode::QrCode::new(text) {
        Ok(code) => {
            let image = code.render::<image::LumaA<u8>>().build();
            Ok((image.width(), image.height(), image.into_raw()))
        },
        Err(qrcode::types::QrError::DataTooLong) => Err(QrFailure::DataTooLong),
        Err(qrcode::types::QrError::InvalidVersion) => Err(QrFailure::InvalidVersion),
        Err(qrcode::types::QrError::UnsupportedCharacterSet) => Err(QrFailure::UnsupportedCharacterSet),
        Err(qrcode::types::QrError::InvalidEciDesignator) => Err(QrFailure::InvalidEciDesignator),
        Err(qrcode::types::QrError::InvalidCharacter) => Err(QrFailure::InvalidCharacter),
    }
}

/// The eight bytes every PNG file starts with.
pub open spec fn png_signature() -> Seq<u8> {
    seq![137u8, 80u8, 78u8, 71u8, 13u8, 10u8, 26u8, 10u8]
}

/// The PNG file that `image`'s PNG encoder (default compression and filter) writes for an
/// 8-bit luminance-alpha image of the given size, or `None` where it refuses the image.
pub uninterp spec fn png_la8(width: u32, height: u32, pixels: Seq<u8>) -> Option<Seq<u8>>;

/// Writes an 8-bit luminance-alpha image as a PNG file (calls
/// `image::codecs::png::PngEncoder::write_image` with `ExtendedColorType::La8` into a byte
/// vector). The encoder panics unless the buffer holds two bytes per pixel, hence the
/// `requires`. Claims the outcome is `png_la8`, and that a file it writes starts with the PNG
/// signature (the `png` encoder writes it first).
#[verifier::external_body]
fn png_encode_la8(width: u32, height: u32, pixels: &[u8]) -> (r: Option<Vec<u8>>)
    requires
        pixels@.len() == 2 * width * height,
    ensures
        match r {
            Some(b) => png_la8(width, height, pixels@) == Some(b@)
                && b@.len() >= 8 && b@.take(8) == png_signature(),
            None => png_la8(width, height, pixels@) is None,
        },
{
    let mut out: Vec<u8> = Vec::new();
    match image::codecs::png::PngEncoder::new(&mut out).write_image(pixels, width, height, image::ExtendedColorType::La8) {
        Ok(()) => Some(out),
        Err(_) => None,
    }
}

/// Why a TOTP operation failed.
#[derive(Debug, Clone, Copy, PartialEq, Eq)]
pub enum TotpError {
    /// The secret holds a character outside the base32 alphabet (shown uppercased).
    InvalidSecret(char),
    /// The text cannot be encoded as a QR code.
    QrCode(QrFailure),
    /// The QR image could not be written as a PNG file.
    ImageEncoding,
}

/// The message of a TOTP error.
pub open spec fn totp_error_text(e: TotpError) -> Seq<char> {
    match e {
        TotpError::InvalidSecret(c) => "Failed to decode secret: Invalid base32 character: "@ + seq![c],
        TotpError::QrCode(f) => "Failed to generate QR code: "@ + qr_failure_name(f),
        TotpError::ImageEncoding => "Failed to encode QR code as PNG"@,
    }
}

impl TotpError {
    /// The message shown for the error.
    pub fn message(&self) -> (r: String)
        ensures
            r@ == totp_error_text(*self),
    {
        match self {
            TotpError::InvalidSecret(c) => {
                let mut s = String::new();
                push_str(&mut s, "Failed to decode secret: Invalid base32 character: ");
                crate::text::push_char(&mut s, *c);
                s
            },
            TotpError::QrCode(f) => {
                let mut s = String::new();
                push_str(&mut s, "Failed to generate QR code: ");
                push_str(&mut s, f.name());
                s
            },
            TotpError::ImageEncoding => owned("Failed to encode QR code as PNG"),
        }
    }
}

/// A new random secret: twenty random bytes (160 bits) in base32, thirty-two characters.
pub fn generate_secret() -> (r: String)
    ensures
        exists|b: Seq<u8>| b.len() == 20 && r@ == base32_text(b),
        r@.len() == 32,
{
    let mut bytes: Vec<u8> = Vec::new();
    let mut i: usize = 0;
    while i < 20
        invariant
            i <= 20,
            bytes.len() == i,
        decreases 20 - i,
    {
        bytes.push(0u8);
        i = i + 1;
    }
    fill_random(&mut bytes);
    let r = base32_encode(bytes.as_slice());
    proof {
        lemma_base32_text_len(bytes@);
    }
    r
}

/// The code of a base32 secret at a Unix time, or the first character of the secret (after
/// uppercasing) that is not base32.
pub open spec fn totp_at(secret: Seq<char>, time: u64) -> Result<Seq<char>, char> {
    match base32_decoded(uppercased(secret)) {
        Ok(bytes) => Ok(totp_code(TOTP_PERIOD, TOTP_DIGITS, bytes, time)),
        Err(c) => Err(c),
    }
}

/// The six-digit code of a base32 secret at the given Unix time.
pub fn generate_totp_at(secret: &str, time: u64) -> (r: Result<String, TotpError>)
    ensures
        match r {
            Ok(code) => totp_at(secret@, time) == Ok::<Seq<char>, char>(code@),
            Err(e) => e matches TotpError::InvalidSecret(c) && totp_at(secret@, time) == Err::<Seq<char>, char>(c),
        },
{
    match base32_decode(secret) {
        Ok(bytes) => Ok(totp_sha1(TOTP_PERIOD, TOTP_DIGITS, bytes.as_slice(), time)),
        Err(c) => Err(TotpError::InvalidSecret(c)),
    }
}

/// The six-digit code of a base32 secret now.
pub fn generate_totp(secret: &str) -> (r: Result<String, TotpError>)
    ensures
        match r {
            Ok(code) => exists|t: u64| totp_at(secret@, t) == Ok::<Seq<char>, char>(code@),
            Err(e) => e matches TotpError::InvalidSecret(c) && base32_decoded(uppercased(secret@)) == Err::<Seq<u8>, char>(c),
        },
{
    let now = unix_time_secs();
    generate_totp_at(secret, now)
}

/// The time `offset` periods away from `now`, as code verification computes it in signed
/// arithmetic; none where it would overflow or fall before the epoch.
pub open spec fn drift_time(now: u64, offset: int) -> Option<u64> {
    let t = (now as i64) as int + offset * (TOTP_PERIOD as int);
    if i64::MIN <= t <= i64::MAX && t >= 0 {
        Some(t as u64)
    } else {
        None
    }
}

/// Whether the code equals the secret's code at `offset` periods from `now`.
pub open spec fn code_matches_at(bytes: Seq<u8>, code: Seq<char>, now: u64, offset: int) -> bool {
    match drift_time(now, offset) {
        Some(t) => totp_code(TOTP_PERIOD, TOTP_DIGITS, bytes, t) == code,
        None => false,
    }
}

/// Whether a code is accepted for a secret at `now`: both are non-empty, the secret is base32,
/// and the code is the secret's code in the period of `now`, the one before or the one after.
pub open spec fn totp_accepted(secret: Seq<char>, code: Seq<char>, now: u64) -> bool {
    &&& secret.len() > 0
    &&& code.len() > 0
    &&& match base32_decoded(uppercased(secret)) {
        Ok(bytes) => code_matches_at(bytes, code, now, -1) || code_matches_at(bytes, code, now, 0)
            || code_matches_at(bytes, code, now, 1),
        Err(_) => false,
    }
}

/// Whether the code equals the secret's code at `offset` periods from `now`.
fn matches_at(bytes: &Vec<u8>, code: &str, now: u64, offset: i64) -> (r: bool)
    requires
        -1 <= offset <= 1,
    ensures
        r == code_matches_at(bytes@, code@, now, offset as int),
{
    let t = now as i64;
    let step: i64 = TOTP_PERIOD as i64;
    assert(step == 30);
    match t.checked_add(offset * step) {
        Some(x) => {
            if x >= 0 {
                let expected = totp_sha1(TOTP_PERIOD, TOTP_DIGITS, bytes.as_slice(), x as u64);
                crate::text::str_eq(expected.as_str(), code)
            } else {
                false
            }
        },
        None => false,
    }
}

/// Checks a code against a secret at the given Unix time, allowing one period of clock drift
/// either way.
pub fn verify_totp_at(secret: &str, code: &str, now: u64) -> (r: bool)
    ensures
        r == totp_accepted(secret@, code@, now),
{
    if secret.is_empty() || code.is_empty() {
        return false;
    }
    let bytes = match base32_decode(secret) {
        Ok(b) => b,
        Err(_) => {
            return false;
        },
    };
    let mut offset: i64 = -1;
    while offset <= 1
        invariant
            -1 <= offset <= 2,
            secret@.len() > 0,
            code@.len() > 0,
            base32_decoded(uppercased(secret@)) == Ok::<Seq<u8>, char>(bytes@),
            forall|o: int| -1 <= o < offset ==> !code_matches_at(bytes@, code@, now, o),
        decreases 2 - offset,
    {
        if matches_at(&bytes, code, now, offset) {
            return true;
        }
        offset = offset + 1;
    }
    false
}

/// Checks a code against a secret now, allowing one period of clock drift either way.
pub fn verify_totp(secret: &str, code: &str) -> (r: bool)
    ensures
        exists|now: u64| r == totp_accepted(secret@, code@, now),
        secret@.len() == 0 || code@.len() == 0 || base32_decoded(uppercased(secret@)) is Err ==> !r,
{
    let now = unix_time_secs();
    verify_totp_at(secret, code, now)
}

/// A code made from a secret at time `t` is accepted at any time `now` in the same period as
/// `t`, the period after it or the period before it (while `now` and the time checked fit the
/// signed arithmetic that code verification uses).
pub proof fn lemma_code_accepted_with_drift(secret: Seq<char>, t: u64, now: u64)
    requires
        secret.len() > 0,
        totp_at(secret, t) is Ok,
        now <= i64::MAX,
        t / 30 > now / 30 ==> now + 30 <= i64::MAX,
        now / 30 <= t / 30 + 1,
        t / 30 <= now / 30 + 1,
    ensures
        totp_accepted(secret, totp_at(secret, t)->Ok_0, now),
{
    let bytes = base32_decoded(uppercased(secret))->Ok_0;
    let code = totp_code(TOTP_PERIOD, TOTP_DIGITS, bytes, t);
    lemma_totp_code_shape(TOTP_PERIOD, TOTP_DIGITS, bytes, t);
    let o: int = t / 30 - now / 30;
    assert((now as i64) as int == now);
    let x: int = now + 30 * o;
    assert(x >= 0 && x / 30 == t / 30) by (nonlinear_arith)
        requires
            o == t / 30 - now / 30,
            x == now + 30 * o,
            -1 <= o <= 1,
            t >= 0,
            now >= 0,
    ;
    assert(drift_time(now, o) == Some(x as u64));
    assert(code_matches_at(bytes, code, now, o));
}

/// The `otpauth://` provisioning URL of a secret for an authenticator app.
pub open spec fn otpauth_url(secret: Seq<char>, username: Seq<char>, issuer: Seq<char>) -> Seq<char> {
    "otpauth://totp/"@ + url_encoded(issuer) + ":"@ + url_encoded(username) + "?secret="@ + secret
        + "&issuer="@ + url_encoded(issuer) + "&algorithm=SHA1&digits="@ + nat_text(TOTP_DIGITS as nat)
        + "&period="@ + nat_text(TOTP_PERIOD as nat)
}

/// The `otpauth://` provisioning URL of a secret; issuer and user name are percent-encoded.
pub fn generate_otpauth_url(secret: &str, username: &str, issuer: &str) -> (r: String)
    ensures
        r@ == otpauth_url(secret@, username@, issuer@),
{
    let encoded_issuer = url_encode(issuer);
    let encoded_username = url_encode(username);
    let mut s = String::new();
    push_str(&mut s, "otpauth://totp/");
    push_str(&mut s, encoded_issuer.as_str());
    push_str(&mut s, ":");
    push_str(&mut s, encoded_username.as_str());
    push_str(&mut s, "?secret=");
    push_str(&mut s, secret);
    push_str(&mut s, "&issuer=");
    push_str(&mut s, encoded_issuer.as_str());
    push_str(&mut s, "&algorithm=SHA1&digits=");
    let digits = crate::text::u64_text(TOTP_DIGITS as u64);
    push_str(&mut s, digits.as_str());
    push_str(&mut s, "&period=");
    let period = crate::text::u64_text(TOTP_PERIOD);
    push_str(&mut s, period.as_str());
    s
}

/// The base64 of the PNG file of the QR image of a text, or why there is none.
pub open spec fn qr_base64(text: Seq<char>) -> Result<Seq<char>, TotpError> {
    match qr_rendered(text) {
        Ok((w, h, px)) => match png_la8(w, h, px) {
            Some(png) => Ok(base64_text(png)),
            None => Err(TotpError::ImageEncoding),
        },
        Err(f) => Err(TotpError::QrCode(f)),
    }
}

/// The QR image of a provisioning URL as a PNG file in base64.
pub fn generate_qr_code_base64(otpauth_url: &str) -> (r: Result<String, TotpError>)
    ensures
        match r {
            Ok(b) => qr_base64(otpauth_url@) == Ok::<Seq<char>, TotpError>(b@),
            Err(e) => qr_base64(otpauth_url@) == Err::<Seq<char>, TotpError>(e),
        },
        r matches Ok(b) ==> exists|png: Seq<u8>| png.take(8) == png_signature() && b@ == base64_text(png),
{
    match qr_pixels(otpauth_url) {
        Ok((w, h, px)) => match png_encode_la8(w, h, px.as_slice()) {
            Some(png) => Ok(base64_encode_bytes(png.as_slice())),
            None => Err(TotpError::ImageEncoding),
        },
        Err(f) => Err(TotpError::QrCode(f)),
    }
}

/// The QR image of a provisioning URL as a `data:` URI.
pub fn generate_qr_code_data_uri(otpauth_url: &str) -> (r: Result<String, TotpError>)
    ensures
        match r {
            Ok(u) => qr_base64(otpauth_url@) matches Ok(b) && u@ == "data:image/png;base64,"@ + b,
            Err(e) => qr_base64(otpauth_url@) == Err::<Seq<char>, TotpError>(e),
        },
{
    match generate_qr_code_base64(otpauth_url) {
        Ok(b) => {
            let mut s = String::new();
            push_str(&mut s, "data:image/png;base64,");
            push_str(&mut s, b.as_str());
            Ok(s)
        },
        Err(e) => Err(e),
    }
}

} // verus!
