//! Plain text helpers: ASCII strings, decimal and hexadecimal renderings.

use vstd::prelude::*;
use vstd::utf8::*;
use vstd::string::*;

verus! {

broadcast use vstd::utf8::group_utf8_lib;

/// Pairs of strings as pairs of texts.
pub open spec fn pair_views(v: Seq<(String, String)>) -> Seq<(Seq<char>, Seq<char>)> {
    v.map_values(|p: (String, String)| (p.0@, p.1@))
}

/// The characters of an ASCII byte sequence.
pub open spec fn ascii_chars(bytes: Seq<u8>) -> Seq<char> {
    bytes.map_values(|b: u8| b as char)
}

/// Every byte is an ASCII code point.
pub open spec fn all_ascii(bytes: Seq<u8>) -> bool {
    forall|i: int| 0 <= i < bytes.len() ==> #[trigger] bytes[i] < 128
}

/// `String::from_utf8`: the bytes become a string exactly when they are valid UTF-8.
#[verifier::external_body]
fn string_from_utf8(bytes: Vec<u8>) -> (res: Option<String>)
    ensures
        res is Some <==> valid_utf8(bytes@),
        res matches Some(s) ==> s@ == decode_utf8(bytes@),
{
    String::from_utf8(bytes).ok()
}

/// `char::to_string`: the one-character string holding `c`.
#[verifier::external_body]
pub(crate) fn char_to_string(c: char) -> (res: String)
    ensures
        res@ == seq![c],
{
    c.to_string()
}

/// ASCII bytes are the UTF-8 encoding of the characters they stand for.
pub proof fn lemma_ascii_encode(bytes: Seq<u8>)
    requires
        all_ascii(bytes),
    ensures
        encode_utf8(ascii_chars(bytes)) == bytes,
        is_ascii_chars(ascii_chars(bytes)),
{
    let chars = ascii_chars(bytes);
    assert forall|i: int| 0 <= i < chars.len() implies '\0' <= #[trigger] chars[i] <= '\u{7f}' by {
        assert(bytes[i] < 128);
    }
    assert(is_ascii_chars(chars));
    is_ascii_chars_encode_utf8(chars);
    assert(encode_utf8(chars) =~= bytes);
}

/// Builds a string from ASCII bytes.
pub fn ascii_to_string(bytes: Vec<u8>) -> (res: String)
    requires
        all_ascii(bytes@),
    ensures
        res@ == ascii_chars(bytes@),
{
    proof {
        lemma_ascii_encode(bytes@);
        encode_utf8_valid_utf8(ascii_chars(bytes@));
        encode_utf8_decode_utf8(ascii_chars(bytes@));
    }
    match string_from_utf8(bytes) {
        Some(s) => s,
        None => {
            proof {
                assert(false);
            }
            String::new()
        },
    }
}

/// The decimal digits of `n`, most significant first, as ASCII bytes.
pub open spec fn decimal_digits(n: nat) -> Seq<u8>
    decreases n,
{
    if n < 10 {
        seq![(48 + n) as u8]
    } else {
        decimal_digits(n / 10).push((48 + n % 10) as u8)
    }
}

/// The decimal rendering of `n`, as characters.
pub open spec fn decimal(n: nat) -> Seq<char> {
    ascii_chars(decimal_digits(n))
}

/// Decimal digits are ASCII, and there is at least one.
pub proof fn lemma_decimal_digits_ascii(n: nat)
    ensures
        all_ascii(decimal_digits(n)),
        decimal_digits(n).len() >= 1,
    decreases n,
{
    if n >= 10 {
        lemma_decimal_digits_ascii(n / 10);
    }
}

/// Appends the decimal digits of `n` to `out`.
pub(crate) fn push_decimal(n: u64, out: &mut Vec<u8>)
    ensures
        final(out)@ == old(out)@ + decimal_digits(n as nat),
    decreases n,
{
    if n >= 10 {
        push_decimal(n / 10, out);
    }
    out.push((48 + n % 10) as u8);
    proof {
        if n < 10 {
            assert(decimal_digits(n as nat) =~= seq![(48 + n) as u8]);
        }
    }
    assert(final(out)@ =~= old(out)@ + decimal_digits(n as nat)) by {
        if n >= 10 {
            assert(decimal_digits(n as nat) =~= decimal_digits((n / 10) as nat).push((48 + n % 10) as u8));
        }
    }
}

/// The decimal rendering of an unsigned integer.
pub fn u64_to_decimal(n: u64) -> (res: String)
    ensures
        res@ == decimal(n as nat),
{
    let mut out: Vec<u8> = Vec::new();
    push_decimal(n, &mut out);
    proof {
        lemma_decimal_digits_ascii(n as nat);
        assert(out@ =~= decimal_digits(n as nat));
    }
    ascii_to_string(out)
}

/// The lowercase hexadecimal digit for a value below sixteen.
pub open spec fn hex_digit(d: int) -> u8 {
    if d < 10 {
        (48 + d) as u8
    } else {
        (87 + d) as u8
    }
}

/// Lowercase hexadecimal rendering, two digits per byte, high nibble first.
pub open spec fn hex_lower(bytes: Seq<u8>) -> Seq<u8> {
    Seq::new(
        2 * bytes.len(),
        |i: int|
            if i % 2 == 0 {
                hex_digit(bytes[i / 2] as int / 16)
            } else {
                hex_digit(bytes[i / 2] as int % 16)
            },
    )
}

/// Renders bytes as lowercase hexadecimal text.
pub fn to_hex_lower(bytes: &[u8]) -> (res: String)
    requires
        2 * bytes@.len() <= usize::MAX,
    ensures
        res@ == ascii_chars(hex_lower(bytes@)),
{
    let mut out: Vec<u8> = Vec::with_capacity(2 * bytes.len());
    let mut i: usize = 0;
    while i < bytes.len()
        invariant
            i <= bytes@.len(),
            out@ =~= hex_lower(bytes@).take(2 * i),
            all_ascii(out@),
        decreases bytes@.len() - i,
    {
        let b = bytes[i];
        let hi = b / 16;
        let lo = b % 16;
        let h = if hi < 10 { 48 + hi } else { 87 + hi };
        let l = if lo < 10 { 48 + lo } else { 87 + lo };
        out.push(h);
        out.push(l);
        i = i + 1;
        assert(out@ =~= hex_lower(bytes@).take(2 * i));
    }
    assert(hex_lower(bytes@).take(2 * bytes@.len() as int) =~= hex_lower(bytes@));
    ascii_to_string(out)
}

/// The value of a hexadecimal digit of either case.
pub open spec fn hex_value(c: u8) -> Option<int> {
    if 48 <= c <= 57 {
        Some(c - 48)
    } else if 97 <= c <= 102 {
        Some(c - 87)
    } else if 65 <= c <= 70 {
        Some(c - 55)
    } else {
        None
    }
}

/// The bytes that hexadecimal text stands for: it must have an even length and
/// hold only hexadecimal digits (of either case); each pair of digits, high
/// nibble first, is one byte.
pub open spec fn hex_decode(s: Seq<u8>) -> Option<Seq<u8>> {
    if s.len() % 2 == 0 && forall|i: int| 0 <= i < s.len() ==> #[trigger] hex_value(s[i]) is Some {
        Some(
            Seq::new(
                s.len() / 2,
                |i: int| (hex_value(s[2 * i]).unwrap() * 16 + hex_value(s[2 * i + 1]).unwrap()) as u8,
            ),
        )
    } else {
        None
    }
}

/// Law: lowercase hexadecimal text decodes back to the bytes it renders.
pub proof fn lemma_hex_roundtrip(b: Seq<u8>)
    ensures
        hex_decode(hex_lower(b)) == Some(b),
        all_ascii(hex_lower(b)),
        hex_lower(b).len() == 2 * b.len(),
{
    let h = hex_lower(b);
    assert forall|i: int| 0 <= i < h.len() implies #[trigger] hex_value(h[i]) is Some && h[i] < 128 by {
        assert(0 <= i / 2 < b.len());
    }
    assert(h.len() % 2 == 0);
    let d = hex_decode(h).unwrap();
    assert forall|i: int| 0 <= i < b.len() implies d[i] == b[i] by {
        assert((2 * i) / 2 == i && (2 * i) % 2 == 0 && (2 * i + 1) / 2 == i && (2 * i + 1) % 2 == 1);
        assert(hex_value(h[2 * i]).unwrap() == b[i] as int / 16);
        assert(hex_value(h[2 * i + 1]).unwrap() == b[i] as int % 16);
    }
    assert(d =~= b);
}

/// The characters of a string slice.
pub fn to_chars(s: &str) -> (res: Vec<char>)
    ensures
        res@ == s@,
{
    let n = s.unicode_len();
    let mut out: Vec<char> = Vec::new();
    let mut i: usize = 0;
    while i < n
        invariant
            n == s@.len(),
            i <= n,
            out@ =~= s@.take(i as int),
        decreases n - i,
    {
        out.push(s.get_char(i));
        i = i + 1;
    }
    assert(s@.take(n as int) =~= s@);
    out
}

/// The string made of the given characters.
pub fn chars_to_string(chars: &Vec<char>) -> (res: String)
    ensures
        res@ == chars@,
{
    let mut out = String::new();
    let mut i: usize = 0;
    while i < chars.len()
        invariant
            i <= chars@.len(),
            out@ =~= chars@.take(i as int),
        decreases chars@.len() - i,
    {
        out.append(char_to_string(chars[i]).as_str());
        i = i + 1;
        assert(out@ =~= chars@.take(i as int));
    }
    assert(chars@.take(chars@.len() as int) =~= chars@);
    out
}

/// The string made of the characters from `from` up to `to`.
pub fn chars_range_to_string(chars: &Vec<char>, from: usize, to: usize) -> (res: String)
    requires
        from <= to <= chars@.len(),
    ensures
        res@ == chars@.subrange(from as int, to as int),
{
    let mut out = String::new();
    let mut i: usize = from;
    while i < to
        invariant
            from <= i <= to,
            to <= chars@.len(),
            out@ =~= chars@.subrange(from as int, i as int),
        decreases to - i,
    {
        out.append(char_to_string(chars[i]).as_str());
        i = i + 1;
        assert(out@ =~= chars@.subrange(from as int, i as int));
    }
    out
}

/// `needle` occurs in `s` at position `i`.
pub open spec fn occurs_at(s: Seq<char>, needle: Seq<char>, i: int) -> bool {
    0 <= i && i + needle.len() <= s.len() && s.subrange(i, i + needle.len()) == needle
}

/// `needle` occurs somewhere in `s`.
pub open spec fn spec_contains(s: Seq<char>, needle: Seq<char>) -> bool {
    exists|i: int| occurs_at(s, needle, i)
}

/// `s` with the occurrences of `needle` replaced by `rep`, scanning from the
/// left and never overlapping (for a non-empty `needle`).
pub open spec fn spec_replace(s: Seq<char>, needle: Seq<char>, rep: Seq<char>) -> Seq<char>
    decreases s.len(),
{
    if needle.len() == 0 || s.len() < needle.len() {
        s
    } else if s.take(needle.len() as int) == needle {
        rep + spec_replace(s.skip(needle.len() as int), needle, rep)
    } else {
        seq![s[0]] + spec_replace(s.skip(1), needle, rep)
    }
}

/// Whether `needle` occurs in `s` at position `i`.
pub(crate) fn matches_at(s: &Vec<char>, needle: &Vec<char>, i: usize) -> (res: bool)
    requires
        i <= s@.len(),
    ensures
        res == occurs_at(s@, needle@, i as int),
{
    if needle.len() > s.len() - i {
        return false;
    }
    let mut k: usize = 0;
    let slen = s.len();
    while k < needle.len()
        invariant
            slen == s@.len(),
            i + needle@.len() <= s@.len(),
            k <= needle@.len(),
            forall|j: int| 0 <= j < k ==> s@[i + j] == needle@[j],
        decreases needle@.len() - k,
    {
        assert(i + k < s@.len());
        if s[i + k] != needle[k] {
            assert(s@.subrange(i as int, i + needle@.len())[k as int] != needle@[k as int]);
            return false;
        }
        k = k + 1;
    }
    assert(s@.subrange(i as int, i + needle@.len()) =~= needle@);
    true
}

/// Whether `needle` occurs in `s`.
pub fn contains_str(s: &str, needle: &str) -> (res: bool)
    ensures
        res == spec_contains(s@, needle@),
{
    let cs = to_chars(s);
    let cn = to_chars(needle);
    let mut i: usize = 0;
    while i < cs.len()
        invariant
            cs@ == s@,
            cn@ == needle@,
            i <= cs@.len(),
            forall|j: int| 0 <= j < i ==> !occurs_at(s@, needle@, j),
        decreases cs@.len() - i,
    {
        if matches_at(&cs, &cn, i) {
            return true;
        }
        i = i + 1;
    }
    if matches_at(&cs, &cn, i) {
        return true;
    }
    assert forall|j: int| !occurs_at(s@, needle@, j) by {
        if 0 <= j && j <= s@.len() {
            assert(j < i || j == i);
        }
    }
    false
}

/// One step of the left-to-right replacement scan at position `i`.
proof fn lemma_replace_step(s: Seq<char>, needle: Seq<char>, rep: Seq<char>, i: int)
    requires
        needle.len() > 0,
        0 <= i <= s.len(),
    ensures
        i + needle.len() <= s.len() && s.skip(i).take(needle.len() as int) == needle ==> spec_replace(
            s.skip(i),
            needle,
            rep,
        ) == rep + spec_replace(s.skip(i + needle.len()), needle, rep),
        i < s.len() && !(i + needle.len() <= s.len() && s.skip(i).take(needle.len() as int)
            == needle) ==> spec_replace(s.skip(i), needle, rep) == seq![s[i]] + spec_replace(
            s.skip(i + 1),
            needle,
            rep,
        ),
{
    if i + needle.len() <= s.len() {
        assert(s.skip(i).skip(needle.len() as int) =~= s.skip(i + needle.len()));
    }
    if i < s.len() {
        assert(s.skip(i).skip(1) =~= s.skip(i + 1));
    }
}

/// `s` with every occurrence of a non-empty `needle` replaced by `rep`.
pub fn replace_all(s: &str, needle: &str, rep: &str) -> (res: String)
    requires
        needle@.len() > 0,
    ensures
        res@ == spec_replace(s@, needle@, rep@),
{
    let cs = to_chars(s);
    let cn = to_chars(needle);
    let cr = to_chars(rep);
    let mut out: Vec<char> = Vec::new();
    let mut i: usize = 0;
    assert(s@.skip(0) =~= s@);
    while i < cs.len()
        invariant
            cs@ == s@,
            cn@ == needle@,
            cr@ == rep@,
            needle@.len() > 0,
            i <= cs@.len(),
            out@ + spec_replace(s@.skip(i as int), needle@, rep@) == spec_replace(s@, needle@, rep@),
        decreases cs@.len() - i,
    {
        proof {
            lemma_replace_step(s@, needle@, rep@, i as int);
        }
        let found = matches_at(&cs, &cn, i);
        proof {
            if found {
                assert(s@.skip(i as int).take(needle@.len() as int) =~= s@.subrange(
                    i as int,
                    i + needle@.len(),
                ));
            } else {
                if i + needle@.len() <= s@.len() {
                    assert(s@.skip(i as int).take(needle@.len() as int) =~= s@.subrange(
                        i as int,
                        i + needle@.len(),
                    ));
                }
            }
        }
        if found {
            let ghost before = out@;
            let mut k: usize = 0;
            while k < cr.len()
                invariant
                    cr@ == rep@,
                    k <= cr@.len(),
                    out@ =~= before + rep@.take(k as int),
                decreases cr@.len() - k,
            {
                out.push(cr[k]);
                k = k + 1;
            }
            assert(rep@.take(rep@.len() as int) =~= rep@);
            assert(out@ + spec_replace(s@.skip(i + needle@.len()), needle@, rep@) =~= before + (rep@
                + spec_replace(s@.skip(i + needle@.len()), needle@, rep@)));
            i = i + cn.len();
        } else {
            let ghost before = out@;
            out.push(cs[i]);
            assert(out@ + spec_replace(s@.skip(i + 1), needle@, rep@) =~= before + (seq![s@[i as int]]
                + spec_replace(s@.skip(i + 1), needle@, rep@)));
            i = i + 1;
        }
    }
    assert(spec_replace(s@.skip(i as int), needle@, rep@) == s@.skip(i as int));
    assert(out@ + s@.skip(i as int) =~= out@);
    chars_to_string(&out)
}

/// The lowercase form of a text, by the Unicode rules of the standard library.
pub uninterp spec fn lowercase(s: Seq<char>) -> Seq<char>;

/// `str::to_lowercase`: every character mapped to its lowercase form.
#[verifier::external_body]
pub(crate) fn to_lowercase(s: &str) -> (res: String)
    ensures
        res@ == lowercase(s@),
{
    s.to_lowercase()
}

} // verus!
