//! Text building blocks shared by the panel: decimal rendering of integers,
//! two-decimal rendering of byte quantities, and small string helpers.
use vstd::prelude::*;
use vstd::string::*;

verus! {

/// The ASCII digit for a value below ten.
pub open spec fn digit_char(d: nat) -> char {
    if d == 0 { '0' }
    else if d == 1 { '1' }
    else if d == 2 { '2' }
    else if d == 3 { '3' }
    else if d == 4 { '4' }
    else if d == 5 { '5' }
    else if d == 6 { '6' }
    else if d == 7 { '7' }
    else if d == 8 { '8' }
    else { '9' }
}

/// Decimal digits of a natural number, most significant first, without leading zeros.
pub open spec fn nat_text(n: nat) -> Seq<char>
    decreases n,
{
    if n < 10 {
        seq![digit_char(n)]
    } else {
        nat_text(n / 10).push(digit_char(n % 10))
    }
}

/// Decimal text of an integer, with a leading '-' for negative values.
pub open spec fn int_text(i: int) -> Seq<char> {
    if i < 0 {
        seq!['-'] + nat_text((-i) as nat)
    } else {
        nat_text(i as nat)
    }
}

/// `n / d` rounded to the nearest integer, ties going to the even neighbour.
pub open spec fn div_round_half_even(n: nat, d: nat) -> nat
    recommends
        d > 0,
{
    let q = n / d;
    let r = n % d;
    if 2 * r > d {
        q + 1
    } else if 2 * r < d {
        q
    } else if q % 2 == 1 {
        q + 1
    } else {
        q
    }
}

/// Distance between neighbouring binary64 values around `b` (for `b` below 2^64).
pub open spec fn binary64_spacing(b: nat) -> nat {
    if b < 0x20_0000_0000_0000 { 1 }
    else if b < 0x40_0000_0000_0000 { 2 }
    else if b < 0x80_0000_0000_0000 { 4 }
    else if b < 0x100_0000_0000_0000 { 8 }
    else if b < 0x200_0000_0000_0000 { 16 }
    else if b < 0x400_0000_0000_0000 { 32 }
    else if b < 0x800_0000_0000_0000 { 64 }
    else if b < 0x1000_0000_0000_0000 { 128 }
    else if b < 0x2000_0000_0000_0000 { 256 }
    else if b < 0x4000_0000_0000_0000 { 512 }
    else if b < 0x8000_0000_0000_0000 { 1024 }
    else { 2048 }
}

/// The binary64 value nearest to `b` (ties to even), for `b` below 2^64.
pub open spec fn binary64_nearest(b: nat) -> nat {
    let s = binary64_spacing(b);
    div_round_half_even(b, s) * s
}

/// A value given in hundredths, written with exactly two decimals.
pub open spec fn hundredths_text(q: nat) -> Seq<char> {
    nat_text(q / 100) + seq!['.', digit_char((q % 100) / 10), digit_char(q % 10)]
}

/// `b / unit` written with two decimals, where `b` is first taken to the nearest binary64
/// value and the quotient is rounded to hundredths with ties to even.
pub open spec fn scaled_text(b: nat, unit: nat) -> Seq<char> {
    hundredths_text(div_round_half_even(binary64_nearest(b) * 100, unit))
}

/// Appends a character to a string.
#[verifier::external_body]
pub(crate) fn push_char(s: &mut String, c: char)
    ensures
        final(s)@ == old(s)@.push(c),
{
    s.push(c);
}

/// Appends a string slice to a string.
pub fn push_str(s: &mut String, t: &str)
    ensures
        final(s)@ == old(s)@ + t@,
{
    s.append(t);
}

/// The ASCII digit for a value below ten.
pub fn digit(d: u64) -> (c: char)
    requires
        d < 10,
    ensures
        c == digit_char(d as nat),
{
    if d == 0 { '0' }
    else if d == 1 { '1' }
    else if d == 2 { '2' }
    else if d == 3 { '3' }
    else if d == 4 { '4' }
    else if d == 5 { '5' }
    else if d == 6 { '6' }
    else if d == 7 { '7' }
    else if d == 8 { '8' }
    else { '9' }
}

/// Appends the decimal digits of `n`.
pub fn push_u128(s: &mut String, n: u128)
    ensures
        final(s)@ == old(s)@ + nat_text(n as nat),
    decreases n,
{
    if n >= 10 {
        push_u128(s, n / 10);
    }
    push_char(s, digit((n % 10) as u64));
}

/// Appends the decimal text of a signed integer.
pub fn push_i64(s: &mut String, i: i64)
    ensures
        final(s)@ == old(s)@ + int_text(i as int),
{
    if i < 0 {
        push_char(s, '-');
        let m: u128 = (0i128 - (i as i128)) as u128;
        push_u128(s, m);
    } else {
        push_u128(s, i as u128);
    }
}

/// Decimal text of an unsigned integer.
pub fn u64_text(n: u64) -> (r: String)
    ensures
        r@ == nat_text(n as nat),
{
    let mut s = String::new();
    push_u128(&mut s, n as u128);
    s
}

/// Decimal text of a signed integer.
pub fn i64_text(i: i64) -> (r: String)
    ensures
        r@ == int_text(i as int),
{
    let mut s = String::new();
    push_i64(&mut s, i);
    s
}

/// `n / d` rounded to the nearest integer, ties to even.
pub fn div_round_even(n: u128, d: u128) -> (q: u128)
    requires
        d > 0,
        n < 0x1_0000_0000_0000_0000_0000_0000,
        d < 0x1_0000_0000_0000_0000_0000_0000,
    ensures
        q == div_round_half_even(n as nat, d as nat),
{
    let q = n / d;
    let r = n % d;
    assert(r < d && q <= n) by (nonlinear_arith)
        requires
            d > 0,
            q == n / d,
            r == n % d,
    ;
    if 2 * r > d {
        q + 1
    } else if 2 * r < d {
        q
    } else if q % 2 == 1 {
        q + 1
    } else {
        q
    }
}

/// The binary64 value nearest to `b`, as an exact integer.
pub fn binary64_round(b: u64) -> (r: u128)
    ensures
        r == binary64_nearest(b as nat),
        r <= 0x1_0000_0000_0000_0000,
{
    let s: u128 = if b < 0x20_0000_0000_0000 { 1 }
        else if b < 0x40_0000_0000_0000 { 2 }
        else if b < 0x80_0000_0000_0000 { 4 }
        else if b < 0x100_0000_0000_0000 { 8 }
        else if b < 0x200_0000_0000_0000 { 16 }
        else if b < 0x400_0000_0000_0000 { 32 }
        else if b < 0x800_0000_0000_0000 { 64 }
        else if b < 0x1000_0000_0000_0000 { 128 }
        else if b < 0x2000_0000_0000_0000 { 256 }
        else if b < 0x4000_0000_0000_0000 { 512 }
        else if b < 0x8000_0000_0000_0000 { 1024 }
        else { 2048 };
    assert(s == binary64_spacing(b as nat));
    let q = div_round_even(b as u128, s);
    assert(q * s <= 0x1_0000_0000_0000_0000) by (nonlinear_arith)
        requires
            1 <= s <= 2048,
            q <= (b as int) / (s as int) + 1,
            b < 0x1_0000_0000_0000_0000,
            s == 1 ==> q == b,
            b < 0x20_0000_0000_0000 ==> s == 1,
            b >= 0x20_0000_0000_0000 ==> b * 2048 <= 0x1_0000_0000_0000_0000 * s,
    ;
    q * s
}

/// Appends `b / unit` with two decimals (see `scaled_text`).
pub fn push_scaled(s: &mut String, b: u64, unit: u64)
    requires
        1024 <= unit <= 0x100_0000_0000,
    ensures
        final(s)@ == old(s)@ + scaled_text(b as nat, unit as nat),
{
    let v = binary64_round(b);
    let q = div_round_even(v * 100, unit as u128);
    let whole = q / 100;
    let frac = q % 100;
    push_u128(s, whole);
    push_char(s, '.');
    push_char(s, digit((frac / 10) as u64));
    push_char(s, digit((frac % 10) as u64));
    assert(s@ =~= old(s)@ + scaled_text(b as nat, unit as nat));
}

/// Whether a character has the Unicode `White_Space` property, which `char::is_whitespace`
/// tests.
pub open spec fn is_white_space(c: char) -> bool {
    let n = c as u32;
    ||| 0x9 <= n <= 0xd
    ||| n == 0x20
    ||| n == 0x85
    ||| n == 0xa0
    ||| n == 0x1680
    ||| 0x2000 <= n <= 0x200a
    ||| n == 0x2028
    ||| n == 0x2029
    ||| n == 0x202f
    ||| n == 0x205f
    ||| n == 0x3000
}

/// Text without its leading white space.
pub open spec fn trimmed_start(s: Seq<char>) -> Seq<char>
    decreases s.len(),
{
    if s.len() > 0 && is_white_space(s[0]) { trimmed_start(s.drop_first()) } else { s }
}

/// Text without its trailing white space.
pub open spec fn trimmed_end(s: Seq<char>) -> Seq<char>
    decreases s.len(),
{
    if s.len() > 0 && is_white_space(s.last()) { trimmed_end(s.drop_last()) } else { s }
}

/// Text with leading and trailing white space removed, as `str::trim` gives it.
pub open spec fn trimmed(s: Seq<char>) -> Seq<char> {
    trimmed_end(trimmed_start(s))
}

proof fn lemma_trimmed_start(s: Seq<char>, i: int)
    requires
        0 <= i <= s.len(),
        forall|k: int| 0 <= k < i ==> is_white_space(#[trigger] s[k]),
        i == s.len() || !is_white_space(s[i]),
    ensures
        trimmed_start(s) == s.subrange(i, s.len() as int),
    decreases i,
{
    if i == 0 {
        assert(s.subrange(0, s.len() as int) =~= s);
    } else {
        let t = s.drop_first();
        assert forall|k: int| 0 <= k < i - 1 implies is_white_space(#[trigger] t[k]) by {
            assert(t[k] == s[k + 1]);
        }
        lemma_trimmed_start(t, i - 1);
        assert(t.subrange(i - 1, t.len() as int) =~= s.subrange(i, s.len() as int));
    }
}

proof fn lemma_trimmed_end(s: Seq<char>, j: int)
    requires
        0 <= j <= s.len(),
        forall|k: int| j <= k < s.len() ==> is_white_space(#[trigger] s[k]),
        j == 0 || !is_white_space(s[j - 1]),
    ensures
        trimmed_end(s) == s.subrange(0, j),
    decreases s.len() - j,
{
    if j == s.len() {
        assert(s.subrange(0, j) =~= s);
    } else {
        let t = s.drop_last();
        assert forall|k: int| j <= k < t.len() implies is_white_space(#[trigger] t[k]) by {
            assert(t[k] == s[k]);
        }
        lemma_trimmed_end(t, j);
        assert(t.subrange(0, j) =~= s.subrange(0, j));
    }
}

/// Whether a character is white space (see `is_white_space`).
fn white_space(c: char) -> (r: bool)
    ensures
        r == is_white_space(c),
{
    let n = c as u32;
    (0x9 <= n && n <= 0xd) || n == 0x20 || n == 0x85 || n == 0xa0 || n == 0x1680
        || (0x2000 <= n && n <= 0x200a) || n == 0x2028 || n == 0x2029 || n == 0x202f
        || n == 0x205f || n == 0x3000
}

/// The text with leading and trailing white space removed (see `trimmed`).
pub fn trim(s: &str) -> (r: String)
    ensures
        r@ == trimmed(s@),
{
    let chars = chars_of(s);
    let n = chars.len();
    let mut i: usize = 0;
    while i < n && white_space(chars[i])
        invariant
            i <= n,
            n == chars@.len(),
            forall|k: int| 0 <= k < i ==> is_white_space(#[trigger] chars@[k]),
        decreases n - i,
    {
        i = i + 1;
    }
    let mut j: usize = n;
    while j > i && white_space(chars[j - 1])
        invariant
            i <= j <= n,
            n == chars@.len(),
            forall|k: int| j <= k < n ==> is_white_space(#[trigger] chars@[k]),
        decreases j,
    {
        j = j - 1;
    }
    let mut out = String::new();
    let mut k: usize = i;
    while k < j
        invariant
            i <= k <= j <= n,
            n == chars@.len(),
            out@ == chars@.subrange(i as int, k as int),
        decreases j - k,
    {
        push_char(&mut out, chars[k]);
        assert(chars@.subrange(i as int, k + 1) =~= chars@.subrange(i as int, k as int).push(chars@[k as int]));
        k = k + 1;
    }
    proof {
        let c = chars@;
        lemma_trimmed_start(c, i as int);
        let t = c.subrange(i as int, n as int);
        assert forall|m: int| j - i <= m < t.len() implies is_white_space(#[trigger] t[m]) by {
            assert(t[m] == c[m + i]);
        }
        if j > i {
            assert(t[j - i - 1] == c[j - 1]);
        }
        lemma_trimmed_end(t, j - i);
        assert(t.subrange(0, j - i) =~= c.subrange(i as int, j as int));
    }
    out
}

/// The ASCII uppercase of a character; other characters stay.
pub open spec fn ascii_upper(c: char) -> char {
    if 'a' <= c && c <= 'z' { (c as u32 - 32) as char } else { c }
}

/// The ASCII lowercase of a character; other characters stay.
pub open spec fn ascii_lower(c: char) -> char {
    if 'A' <= c && c <= 'Z' { (c as u32 + 32) as char } else { c }
}

/// Text with its ASCII letters in uppercase.
pub open spec fn ascii_uppercase(s: Seq<char>) -> Seq<char> {
    s.map_values(|c: char| ascii_upper(c))
}

/// Text with its ASCII letters in lowercase.
pub open spec fn ascii_lowercase(s: Seq<char>) -> Seq<char> {
    s.map_values(|c: char| ascii_lower(c))
}

/// Changing the case of ASCII letters keeps a text ASCII, and folding to one case forgets
/// the case the text had before.
pub proof fn lemma_ascii_case_fold(s: Seq<char>)
    ensures
        ascii_lowercase(ascii_uppercase(s)) == ascii_lowercase(s),
        ascii_uppercase(ascii_lowercase(s)) == ascii_uppercase(s),
        vstd::utf8::is_ascii_chars(s) ==> vstd::utf8::is_ascii_chars(ascii_uppercase(s)),
        vstd::utf8::is_ascii_chars(s) ==> vstd::utf8::is_ascii_chars(ascii_lowercase(s)),
{
    assert forall|i: int| 0 <= i < s.len() implies
        #[trigger] ascii_lower(ascii_upper(s[i])) == ascii_lower(s[i])
        && ascii_upper(ascii_lower(s[i])) == ascii_upper(s[i])
        && (('\0' <= s[i] <= '\u{7f}') ==> '\0' <= ascii_upper(s[i]) <= '\u{7f}' && '\0' <= ascii_lower(s[i]) <= '\u{7f}') by {
        let c = s[i];
        if 'a' <= c && c <= 'z' {
            assert(('A' as u32) <= (c as u32 - 32) <= ('Z' as u32));
        }
        if 'A' <= c && c <= 'Z' {
            assert(('a' as u32) <= (c as u32 + 32) <= ('z' as u32));
        }
    }
    assert(ascii_lowercase(ascii_uppercase(s)) =~= ascii_lowercase(s));
    assert(ascii_uppercase(ascii_lowercase(s)) =~= ascii_uppercase(s));
    if vstd::utf8::is_ascii_chars(s) {
        assert forall|i: int| 0 <= i < ascii_uppercase(s).len() implies '\0' <= #[trigger] ascii_uppercase(s)[i] <= '\u{7f}' by {
            assert(ascii_uppercase(s)[i] == ascii_upper(s[i]));
            assert(ascii_lower(ascii_upper(s[i])) == ascii_lower(s[i]));
        }
        assert forall|i: int| 0 <= i < ascii_lowercase(s).len() implies '\0' <= #[trigger] ascii_lowercase(s)[i] <= '\u{7f}' by {
            assert(ascii_lowercase(s)[i] == ascii_lower(s[i]));
            assert(ascii_lower(ascii_upper(s[i])) == ascii_lower(s[i]));
        }
    }
}

/// Text with every character mapped to its Unicode lowercase, as `str::to_lowercase` computes it.
pub uninterp spec fn lowercased(s: Seq<char>) -> Seq<char>;

/// Unicode lowercase of a string (calls `str::to_lowercase`).
/// The result is claimed to be `lowercased` of the input, a name for what `str::to_lowercase`
/// returns, and, for ASCII input, the character-by-character ASCII lowercase: Unicode maps
/// `A`..`Z` to `a`..`z` and leaves every other ASCII character as it is.
#[verifier::external_body]
pub(crate) fn to_lowercase(s: &str) -> (r: String)
    ensures
        r@ == lowercased(s@),
        vstd::utf8::is_ascii_chars(s@) ==> r@ == ascii_lowercase(s@),
{
    s.to_lowercase()
}

/// Whether two string slices hold the same characters (calls `<str as PartialEq>::eq`).
#[verifier::external_body]
pub(crate) fn str_eq(a: &str, b: &str) -> (r: bool)
    ensures
        r == (a@ == b@),
{
    a == b
}

/// An owned copy of a string slice.
pub fn owned(s: &str) -> (r: String)
    ensures
        r@ == s@,
{
    s.to_owned()
}

/// The characters of a string slice, in order (calls `str::chars` and collects them).
#[verifier::external_body]
pub(crate) fn chars_of(s: &str) -> (r: Vec<char>)
    ensures
        r@ == s@,
{
    s.chars().collect()
}

/// The views of a sequence of strings.
pub open spec fn views(v: Seq<String>) -> Seq<Seq<char>> {
    v.map_values(|x: String| x@)
}

/// The parts joined with `sep` between neighbours.
pub open spec fn joined(parts: Seq<Seq<char>>, sep: Seq<char>) -> Seq<char>
    decreases parts.len(),
{
    if parts.len() == 0 {
        Seq::empty()
    } else if parts.len() == 1 {
        parts[0]
    } else {
        joined(parts.drop_last(), sep) + sep + parts.last()
    }
}

/// Joins strings with a separator between neighbours.
pub fn join(parts: &Vec<String>, sep: &str) -> (r: String)
    ensures
        r@ == joined(views(parts@), sep@),
{
    let mut r = String::new();
    let mut i: usize = 0;
    while i < parts.len()
        invariant
            0 <= i <= parts@.len(),
            r@ == joined(views(parts@.take(i as int)), sep@),
        decreases parts@.len() - i,
    {
        let ghost prev = views(parts@.take(i as int));
        proof {
            assert(views(parts@.take(i + 1)).drop_last() =~= prev);
            assert(views(parts@.take(i + 1)).last() == parts@[i as int]@);
        }
        if i > 0 {
            push_str(&mut r, sep);
        }
        push_str(&mut r, parts[i].as_str());
        proof {
            if i == 0 {
                assert(views(parts@.take(1)) =~= seq![parts@[0]@]);
            }
        }
        i = i + 1;
    }
    assert(parts@.take(i as int) =~= parts@);
    r
}

/// The text of an optional string.
pub open spec fn opt_text(o: Option<String>) -> Option<Seq<char>> {
    match o {
        Some(s) => Some(s@),
        None => None,
    }
}

/// The text of an optional string, or empty.
pub open spec fn text_or_empty(o: Option<Seq<char>>) -> Seq<char> {
    match o {
        Some(s) => s,
        None => Seq::empty(),
    }
}

} // verus!
