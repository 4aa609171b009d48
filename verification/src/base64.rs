//! Base64 encoding and decoding (RFC 4648), in the standard and URL-safe alphabets.

use vstd::prelude::*;
use vstd::string::*;
use crate::text::{ascii_chars, ascii_to_string, all_ascii, decimal, lemma_ascii_encode, u64_to_decimal, char_to_string};
use vstd::utf8::encode_utf8;

verus! {

/// Errors of the encoding layer.
#[derive(Clone, Debug, PartialEq, Eq)]
pub enum CryptError {
    /// The key length is invalid (expected, received)
    InvalidKeyLength(u8, usize),
    /// The nonce length is invalid (expected, received)
    InvalidNonceLength(u8, usize),
    /// Invalid character in input
    InvalidCharacterInput,
    /// Cannot decode the data
    CannotDecode,
    /// Cannot encode the data
    CannotEncode,
    /// The public key is missing for or invalid for the operation
    MissingOrInvalidPublicKey,
    /// The secret key is missing for or invalid for the operation
    MissingOrInvalidSecretKey,
    /// The provided data is too long, overflowing the maximum size
    DataTooLong(usize),
    /// The provided data is too short, underflowing the minimum size
    DataTooShort(usize),
    /// Invalid encoding character (encoding, character)
    InvalidEncodingCharacter(String, char),
    /// Invalid encoding length (encoding, length)
    InvalidEncodingLength(String, usize),
    /// The internal encoding bitmask overflowed
    EncodingBitmaskOverflow(usize),
}

/// An integer reduced to the machine word, as wrapping arithmetic leaves it.
pub open spec fn wrapped(x: int) -> usize {
    (x % (usize::MAX as int + 1)) as usize
}

pub proof fn lemma_wrapped_small(x: int)
    requires
        0 <= x <= usize::MAX,
    ensures
        wrapped(x) == x,
{
    assert(x % (usize::MAX as int + 1) == x) by (nonlinear_arith)
        requires
            0 <= x <= usize::MAX,
    ;
}

/// Multiplication that reports whether it overflowed, with the wrapped product.
pub fn overflowing_mul(a: usize, b: usize) -> (res: (usize, bool))
    ensures
        res.1 == (a * b > usize::MAX),
        res.0 == wrapped(a * b),
{
    (a.wrapping_mul(b), a.checked_mul(b).is_none())
}

/// Addition that reports whether it overflowed, with the wrapped sum.
pub fn overflowing_add(a: usize, b: usize) -> (res: (usize, bool))
    ensures
        res.1 == (a + b > usize::MAX),
        res.0 == wrapped(a + b),
{
    let r = a.wrapping_add(b);
    proof {
        if a + b > usize::MAX {
            assert((a + b) % (usize::MAX as int + 1) == a + b - (usize::MAX as int + 1)) by (nonlinear_arith)
                requires
                    a + b > usize::MAX,
                    a + b < 2 * (usize::MAX as int + 1),
            ;
        } else {
            assert((a + b) % (usize::MAX as int + 1) == a + b) by (nonlinear_arith)
                requires
                    0 <= a + b <= usize::MAX,
            ;
        }
    }
    (r, a.checked_add(b).is_none())
}

/// Rejects a capacity computation that overflowed.
fn check_capacity(capacity: (usize, bool)) -> (res: Result<(), CryptError>)
    ensures
        capacity.1 ==> res == Err::<(), CryptError>(CryptError::DataTooLong(capacity.0)),
        !capacity.1 ==> res is Ok,
{
    if capacity.1 {
        Err(CryptError::DataTooLong(capacity.0))
    } else {
        Ok(())
    }
}

/// The error for an invalid encoding length.
fn make_invalid_encoding_length(length: usize) -> (res: CryptError)
    ensures
        res matches CryptError::InvalidEncodingLength(name, l) && name@ == "base64"@ && l == length,
{
    CryptError::InvalidEncodingLength(String::from_str("base64"), length)
}

/// The error for an invalid number of trailing bytes.
fn make_invalid_padding_bytes_encoding_length(length: usize) -> (res: CryptError)
    ensures
        res matches CryptError::InvalidEncodingLength(name, l) && name@ == "base64 padding bytes"@
            && l == length,
{
    CryptError::InvalidEncodingLength(String::from_str("base64 padding bytes"), length)
}

/// Appends the alphabet symbol at position `value`, if the alphabet has one there.
fn checked_push(alphabet: &[u8], output: &mut Vec<u8>, value: u32) -> (res: Result<(), CryptError>)
    ensures
        (value as int) < alphabet@.len() ==> res is Ok && final(output)@ == old(output)@.push(
            alphabet@[value as int],
        ),
        (value as int) >= alphabet@.len() ==> res == Err::<(), CryptError>(
            CryptError::InvalidCharacterInput,
        ) && final(output)@ == old(output)@,
{
    if (value as usize) < alphabet.len() {
        output.push(alphabet[value as usize]);
        Ok(())
    } else {
        Err(CryptError::InvalidCharacterInput)
    }
}

/// The base64 alphabets.
#[derive(Clone, Copy, Debug, Default, PartialEq, Eq, Structural)]
pub enum Variant {
    Url,
    #[default]
    Standard,
}

/// The symbol for the six-bit value `i` in the alphabet of `v`.
pub open spec fn alphabet_byte(v: Variant, i: int) -> u8 {
    if i < 26 {
        (65 + i) as u8
    } else if i < 52 {
        (97 + (i - 26)) as u8
    } else if i < 62 {
        (48 + (i - 52)) as u8
    } else if i == 62 {
        if v is Url {
            45u8
        } else {
            43u8
        }
    } else {
        if v is Url {
            95u8
        } else {
            47u8
        }
    }
}

/// The sixty-four symbols of the alphabet of `v`, in value order.
pub open spec fn spec_alphabet(v: Variant) -> Seq<u8> {
    Seq::new(64, |i: int| alphabet_byte(v, i))
}

/// The padding symbol `=`.
pub open spec fn pad_byte() -> u8 {
    61u8
}

impl Variant {
    /// The alphabet of the variant.
    pub fn get_alphabet(&self) -> (res: Vec<u8>)
        ensures
            res@ == spec_alphabet(*self),
    {
        let mut out: Vec<u8> = Vec::with_capacity(64);
        let mut i: u8 = 0;
        while i < 64
            invariant
                i <= 64,
                out@ =~= spec_alphabet(*self).take(i as int),
            decreases 64 - i,
        {
            let b: u8 = if i < 26 {
                65 + i
            } else if i < 52 {
                97 + (i - 26)
            } else if i < 62 {
                48 + (i - 52)
            } else if i == 62 {
                match self {
                    Variant::Url => 45,
                    Variant::Standard => 43,
                }
            } else {
                match self {
                    Variant::Url => 95,
                    Variant::Standard => 47,
                }
            };
            out.push(b);
            i = i + 1;
            assert(out@ =~= spec_alphabet(*self).take(i as int));
        }
        assert(spec_alphabet(*self).take(64) =~= spec_alphabet(*self));
        out
    }

    /// The padding symbol of the variant, if it pads.
    pub fn get_padding(&self) -> (res: Option<u8>)
        ensures
            res == (if *self is Url {
                None::<u8>
            } else {
                Some(pad_byte())
            }),
    {
        match self {
            Variant::Url => None,
            Variant::Standard => Some(61),
        }
    }
}


/// The `k`-th six-bit group (from the most significant) of the 24 bits `b0 b1 b2`.
pub open spec fn sextet(b0: int, b1: int, b2: int, k: int) -> int {
    if k == 0 {
        b0 / 4
    } else if k == 1 {
        (b0 % 4) * 16 + b1 / 16
    } else if k == 2 {
        (b1 % 16) * 4 + b2 / 64
    } else {
        b2 % 64
    }
}

/// The number of symbols that encoding `n` bytes produces.
pub open spec fn encoded_len(v: Variant, n: nat) -> nat {
    if n % 3 == 0 {
        4 * (n / 3)
    } else if v is Standard {
        4 * (n / 3) + 4
    } else {
        4 * (n / 3) + n % 3 + 1
    }
}

/// The `j`-th symbol of the encoding of `d`: full groups of three bytes give four
/// symbols each; a final group of one or two bytes gives two or three symbols,
/// completed with `=` in the standard variant.
pub open spec fn encoded_symbol(v: Variant, d: Seq<u8>, j: int) -> u8 {
    let full: int = (d.len() / 3) as int;
    let rem: int = (d.len() % 3) as int;
    if j < 4 * full {
        let g = j / 4;
        alphabet_byte(v, sextet(d[3 * g] as int, d[3 * g + 1] as int, d[3 * g + 2] as int, j % 4))
    } else if j - 4 * full <= rem {
        let b1: int = if rem == 2 {
            d[3 * full + 1] as int
        } else {
            0
        };
        alphabet_byte(v, sextet(d[3 * full] as int, b1, 0, j - 4 * full))
    } else {
        pad_byte()
    }
}

/// The base64 encoding of `d`, as symbol bytes.
pub open spec fn spec_encode(v: Variant, d: Seq<u8>) -> Seq<u8> {
    Seq::new(encoded_len(v, d.len()), |j: int| encoded_symbol(v, d, j))
}

proof fn lemma_encode_bits(b0: u8, b1: u8, b2: u8)
    ensures
        ((((b0 as u32) << 16u32) | ((b1 as u32) << 8u32) | (b2 as u32)) >> 18u32) & 0x3fu32
            == sextet(b0 as int, b1 as int, b2 as int, 0),
        ((((b0 as u32) << 16u32) | ((b1 as u32) << 8u32) | (b2 as u32)) >> 12u32) & 0x3fu32
            == sextet(b0 as int, b1 as int, b2 as int, 1),
        ((((b0 as u32) << 16u32) | ((b1 as u32) << 8u32) | (b2 as u32)) >> 6u32) & 0x3fu32
            == sextet(b0 as int, b1 as int, b2 as int, 2),
        (((b0 as u32) << 16u32) | ((b1 as u32) << 8u32) | (b2 as u32)) & 0x3fu32 == sextet(
            b0 as int,
            b1 as int,
            b2 as int,
            3,
        ),
{
    assert(((((b0 as u32) << 16u32) | ((b1 as u32) << 8u32) | (b2 as u32)) >> 18u32) & 0x3fu32
        == (b0 as u32) / 4) by (bit_vector);
    assert(((((b0 as u32) << 16u32) | ((b1 as u32) << 8u32) | (b2 as u32)) >> 12u32) & 0x3fu32
        == ((b0 as u32) % 4) * 16 + (b1 as u32) / 16) by (bit_vector);
    assert(((((b0 as u32) << 16u32) | ((b1 as u32) << 8u32) | (b2 as u32)) >> 6u32) & 0x3fu32
        == ((b1 as u32) % 16) * 4 + (b2 as u32) / 64) by (bit_vector);
    assert((((b0 as u32) << 16u32) | ((b1 as u32) << 8u32) | (b2 as u32)) & 0x3fu32 == (b2 as u32)
        % 64) by (bit_vector);
}

/// The six-bit value of the symbol `b` in the alphabet of `v`, if `b` is one of its symbols.
pub open spec fn symbol_value(v: Variant, b: u8) -> Option<int> {
    if 65 <= b <= 90 {
        Some(b - 65)
    } else if 97 <= b <= 122 {
        Some(b - 97 + 26)
    } else if 48 <= b <= 57 {
        Some(b - 48 + 52)
    } else if b == (if v is Url {
        45u8
    } else {
        43u8
    }) {
        Some(62)
    } else if b == (if v is Url {
        95u8
    } else {
        47u8
    }) {
        Some(63)
    } else {
        None
    }
}

/// The six-bit value of a symbol (zero for a non-symbol).
pub open spec fn sym(v: Variant, b: u8) -> int {
    match symbol_value(v, b) {
        Some(x) => x,
        None => 0,
    }
}

/// Where the symbols of an encoded text end: at its first `=`, or at its end.
pub open spec fn symbols_end(s: Seq<u8>) -> int {
    if exists|i: int|
        0 <= i < s.len() && s[i] == pad_byte() && forall|j: int| 0 <= j < i ==> s[j] != pad_byte() {
        choose|i: int|
            0 <= i < s.len() && s[i] == pad_byte() && forall|j: int|
                0 <= j < i ==> s[j] != pad_byte()
    } else {
        s.len() as int
    }
}

/// The symbols that decoding reads: everything before the first `=`.
pub open spec fn decoded_symbols(s: Seq<u8>) -> Seq<u8> {
    s.take(symbols_end(s))
}

/// Every byte of `t` is a symbol of the alphabet of `v`.
pub open spec fn all_symbols(v: Variant, t: Seq<u8>) -> bool {
    forall|i: int| 0 <= i < t.len() ==> #[trigger] symbol_value(v, t[i]) is Some
}

/// The position of the first byte of `t` that is not a symbol of the alphabet of `v`.
pub open spec fn first_invalid(v: Variant, t: Seq<u8>) -> int {
    choose|k: int|
        0 <= k < t.len() && symbol_value(v, t[k]) is None && forall|j: int|
            0 <= j < k ==> symbol_value(v, t[j]) is Some
}

/// The number of bytes decoded from `n` symbols: three per group of four, then
/// one for a trailing pair and two for a trailing triple; a single trailing symbol is dropped.
pub open spec fn decoded_len(n: nat) -> nat {
    3 * (n / 4) + (if n % 4 == 2 {
        1nat
    } else if n % 4 == 3 {
        2nat
    } else {
        0nat
    })
}

/// The six-bit value of symbol `i` of `t`, zero past its end.
pub open spec fn sym_at(v: Variant, t: Seq<u8>, i: int) -> int {
    if 0 <= i < t.len() {
        sym(v, t[i])
    } else {
        0
    }
}

/// The byte `k` (0, 1 or 2) packed in the six-bit values `c0 c1 c2 c3`.
pub open spec fn unsextet(c0: int, c1: int, c2: int, c3: int, k: int) -> int {
    if k == 0 {
        c0 * 4 + c1 / 16
    } else if k == 1 {
        (c1 % 16) * 16 + c2 / 4
    } else {
        (c2 % 4) * 64 + c3
    }
}

/// The `j`-th decoded byte of the symbols `t`.
pub open spec fn decoded_byte(v: Variant, t: Seq<u8>, j: int) -> u8 {
    let g = j / 3;
    unsextet(
        sym_at(v, t, 4 * g),
        sym_at(v, t, 4 * g + 1),
        sym_at(v, t, 4 * g + 2),
        sym_at(v, t, 4 * g + 3),
        j % 3,
    ) as u8
}

/// The bytes decoded from the symbols `t`.
pub open spec fn spec_decode_symbols(v: Variant, t: Seq<u8>) -> Seq<u8> {
    Seq::new(decoded_len(t.len()), |j: int| decoded_byte(v, t, j))
}

proof fn lemma_symbol_value(v: Variant, b: u8)
    ensures
        symbol_value(v, b) matches Some(x) ==> 0 <= x < 64 && alphabet_byte(v, x) == b,
        forall|q: int| 0 <= q < 64 && #[trigger] alphabet_byte(v, q) == b ==> symbol_value(v, b) == Some(q),
{
}

proof fn lemma_symbols_end(s: Seq<u8>, e: int)
    requires
        0 <= e <= s.len(),
        forall|k: int| 0 <= k < e ==> s[k] != pad_byte(),
        e == s.len() || s[e] == pad_byte(),
    ensures
        symbols_end(s) == e,
{
    if exists|i: int|
        0 <= i < s.len() && s[i] == pad_byte() && forall|j: int| 0 <= j < i ==> s[j] != pad_byte() {
        assert(e < s.len());
        let c = symbols_end(s);
        assert(0 <= e < s.len() && s[e] == pad_byte() && forall|j: int| 0 <= j < e ==> s[j] != pad_byte());
        assert(0 <= c < s.len() && s[c] == pad_byte() && forall|j: int| 0 <= j < c ==> s[j] != pad_byte());
        if c < e {
            assert(s[c] != pad_byte());
        }
        if e < c {
            assert(s[e] != pad_byte());
        }
    }
}

proof fn lemma_symbols_end_past(s: Seq<u8>, i: int)
    requires
        0 <= i < s.len(),
        forall|k: int| 0 <= k <= i ==> s[k] != pad_byte(),
    ensures
        symbols_end(s) > i,
{
    if exists|x: int|
        0 <= x < s.len() && s[x] == pad_byte() && forall|j: int| 0 <= j < x ==> s[j] != pad_byte() {
        let c = symbols_end(s);
        assert(0 <= c < s.len() && s[c] == pad_byte());
    }
}

proof fn lemma_first_invalid(v: Variant, t: Seq<u8>, i: int)
    requires
        0 <= i < t.len(),
        symbol_value(v, t[i]) is None,
        forall|j: int| 0 <= j < i ==> symbol_value(v, t[j]) is Some,
    ensures
        first_invalid(v, t) == i,
        !all_symbols(v, t),
{
    let c = first_invalid(v, t);
    assert(0 <= i < t.len() && symbol_value(v, t[i]) is None && forall|j: int|
        0 <= j < i ==> symbol_value(v, t[j]) is Some);
    if c < i {
        assert(symbol_value(v, t[c]) is Some);
    }
    if i < c {
        assert(symbol_value(v, t[i]) is Some);
    }
}

proof fn lemma_decode_bits(c0: u32, c1: u32, c2: u32, c3: u32)
    requires
        c0 < 64,
        c1 < 64,
        c2 < 64,
        c3 < 64,
    ensures
        ((((c0 << 18u32) | (c1 << 12u32) | (c2 << 6u32) | c3) >> 16u32) & 0xffu32) == unsextet(
            c0 as int,
            c1 as int,
            c2 as int,
            c3 as int,
            0,
        ),
        ((((c0 << 18u32) | (c1 << 12u32) | (c2 << 6u32) | c3) >> 8u32) & 0xffu32) == unsextet(
            c0 as int,
            c1 as int,
            c2 as int,
            c3 as int,
            1,
        ),
        (((c0 << 18u32) | (c1 << 12u32) | (c2 << 6u32) | c3) & 0xffu32) == unsextet(
            c0 as int,
            c1 as int,
            c2 as int,
            c3 as int,
            2,
        ),
        (((c0 << 18u32) | (c1 << 12u32)) >> 16u32) & 0xffu32 == unsextet(
            c0 as int,
            c1 as int,
            0,
            0,
            0,
        ),
        ((((c0 << 18u32) | (c1 << 12u32)) | (c2 << 6u32)) >> 8u32) & 0xffu32 == unsextet(
            c0 as int,
            c1 as int,
            c2 as int,
            0,
            1,
        ),
{
    assert(((((c0 << 18u32) | (c1 << 12u32) | (c2 << 6u32) | c3) >> 16u32) & 0xffu32) == c0 * 4
        + c1 / 16) by (bit_vector)
        requires
            c0 < 64,
            c1 < 64,
            c2 < 64,
            c3 < 64,
    ;
    assert(((((c0 << 18u32) | (c1 << 12u32) | (c2 << 6u32) | c3) >> 8u32) & 0xffu32) == (c1 % 16)
        * 16 + c2 / 4) by (bit_vector)
        requires
            c0 < 64,
            c1 < 64,
            c2 < 64,
            c3 < 64,
    ;
    assert((((c0 << 18u32) | (c1 << 12u32) | (c2 << 6u32) | c3) & 0xffu32) == (c2 % 4) * 64 + c3)
        by (bit_vector)
        requires
            c0 < 64,
            c1 < 64,
            c2 < 64,
            c3 < 64,
    ;
    assert((((c0 << 18u32) | (c1 << 12u32)) >> 16u32) & 0xffu32 == c0 * 4 + c1 / 16) by (bit_vector)
        requires
            c0 < 64,
            c1 < 64,
    ;
    assert(((((c0 << 18u32) | (c1 << 12u32)) | (c2 << 6u32)) >> 8u32) & 0xffu32 == (c1 % 16) * 16
        + c2 / 4) by (bit_vector)
        requires
            c0 < 64,
            c1 < 64,
            c2 < 64,
    ;
}

/// The first position of `byte` in `alphabet`.
fn position(alphabet: &Vec<u8>, byte: u8) -> (res: Option<usize>)
    ensures
        res matches Some(p) ==> p < alphabet@.len() && alphabet@[p as int] == byte,
        res is None ==> forall|q: int| 0 <= q < alphabet@.len() ==> alphabet@[q] != byte,
{
    let mut q: usize = 0;
    while q < alphabet.len()
        invariant
            q <= alphabet@.len(),
            forall|k: int| 0 <= k < q ==> alphabet@[k] != byte,
        decreases alphabet@.len() - q,
    {
        if alphabet[q] == byte {
            return Some(q);
        }
        q = q + 1;
    }
    None
}


proof fn lemma_sextet_bounds(b0: int, b1: int, b2: int, k: int)
    requires
        0 <= b0 < 256,
        0 <= b1 < 256,
        0 <= b2 < 256,
    ensures
        0 <= sextet(b0, b1, b2, k) < 64,
{
}

proof fn lemma_unsextet_sextet(b0: int, b1: int, b2: int)
    requires
        0 <= b0 < 256,
        0 <= b1 < 256,
        0 <= b2 < 256,
    ensures
        unsextet(sextet(b0, b1, b2, 0), sextet(b0, b1, b2, 1), sextet(b0, b1, b2, 2), sextet(b0, b1, b2, 3), 0) == b0,
        unsextet(sextet(b0, b1, b2, 0), sextet(b0, b1, b2, 1), sextet(b0, b1, b2, 2), sextet(b0, b1, b2, 3), 1) == b1,
        unsextet(sextet(b0, b1, b2, 0), sextet(b0, b1, b2, 1), sextet(b0, b1, b2, 2), sextet(b0, b1, b2, 3), 2) == b2,
        unsextet(sextet(b0, b1, b2, 0), sextet(b0, b1, b2, 1), 0, 0, 0) == b0,
        unsextet(sextet(b0, b1, b2, 0), sextet(b0, b1, b2, 1), sextet(b0, b1, b2, 2), 0, 1) == b1,
{
    assert(b0 / 4 * 4 + ((b0 % 4) * 16 + b1 / 16) / 16 == b0) by (nonlinear_arith)
        requires
            0 <= b0 < 256,
            0 <= b1 < 256,
    ;
    assert((((b0 % 4) * 16 + b1 / 16) % 16) * 16 + ((b1 % 16) * 4 + b2 / 64) / 4 == b1) by (nonlinear_arith)
        requires
            0 <= b0 < 256,
            0 <= b1 < 256,
            0 <= b2 < 256,
    ;
    assert((((b1 % 16) * 4 + b2 / 64) % 4) * 64 + b2 % 64 == b2) by (nonlinear_arith)
        requires
            0 <= b1 < 256,
            0 <= b2 < 256,
    ;
}

proof fn lemma_decode_inverts_encode(v: Variant, d: Seq<u8>)
    ensures
        spec_encode(v, d).len() == encoded_len(v, d.len()),
        all_ascii(spec_encode(v, d)),
        all_symbols(v, decoded_symbols(spec_encode(v, d))),
        spec_decode_symbols(v, decoded_symbols(spec_encode(v, d))) == d,
{
    let e = spec_encode(v, d);
    let len = d.len() as int;
    let full = len / 3;
    let rem = len % 3;
    let m: int = if rem == 0 {
        4 * full
    } else {
        4 * full + rem + 1
    };
    assert(0 <= full && 3 * full + rem == len && 0 <= rem < 3) by (nonlinear_arith)
        requires
            full == len / 3,
            rem == len % 3,
            len >= 0,
    ;
    assert forall|k: int| 0 <= k < m implies symbol_value(v, #[trigger] e[k]) == Some(
        sym(v, e[k]),
    ) && e[k] != pad_byte() by {
        if k < 4 * full {
            let g = k / 4;
            assert(0 <= g < full && 0 <= k % 4 < 4) by (nonlinear_arith)
                requires
                    0 <= k < 4 * full,
                    g == k / 4,
            ;
            assert(3 * g + 2 < len) by (nonlinear_arith)
                requires
                    g < full,
                    3 * full <= len,
            ;
            lemma_sextet_bounds(d[3 * g] as int, d[3 * g + 1] as int, d[3 * g + 2] as int, k % 4);
            let x = sextet(d[3 * g] as int, d[3 * g + 1] as int, d[3 * g + 2] as int, k % 4);
            lemma_symbol_value(v, e[k]);
            assert(e[k] == alphabet_byte(v, x));
        } else {
            let b1: int = if rem == 2 {
                d[3 * full + 1] as int
            } else {
                0
            };
            lemma_sextet_bounds(d[3 * full] as int, b1, 0, k - 4 * full);
            let x = sextet(d[3 * full] as int, b1, 0, k - 4 * full);
            lemma_symbol_value(v, e[k]);
            assert(e[k] == alphabet_byte(v, x));
        }
    }
    assert forall|i: int| 0 <= i < e.len() implies #[trigger] e[i] < 128 by {
        if i >= m {
            assert(e[i] == pad_byte());
        } else {
            assert(symbol_value(v, e[i]) is Some);
        }
    }
    if m < e.len() {
        assert(e[m] == pad_byte());
    }
    lemma_symbols_end(e, m);
    let t = decoded_symbols(e);
    assert(t =~= e.take(m));
    assert forall|i: int| 0 <= i < t.len() implies #[trigger] symbol_value(v, t[i]) is Some by {
        assert(t[i] == e[i]);
    }
    assert(decoded_len(t.len()) == len) by (nonlinear_arith)
        requires
            t.len() == m,
            m == (if rem == 0 {
                4 * full
            } else {
                4 * full + rem + 1
            }),
            3 * full + rem == len,
            0 <= rem < 3,
            full >= 0,
    ;
    assert forall|j: int| 0 <= j < len implies #[trigger] decoded_byte(v, t, j) == d[j] by {
        let g = j / 3;
        let k = j % 3;
        assert(0 <= g <= full && 0 <= k < 3 && j == 3 * g + k) by (nonlinear_arith)
            requires
                0 <= j < len,
                g == j / 3,
                k == j % 3,
                full == len / 3,
        ;
        if g < full {
            assert(3 * g + 2 < len && 4 * g + 3 < 4 * full) by (nonlinear_arith)
                requires
                    g < full,
                    3 * full <= len,
            ;
            let b0 = d[3 * g] as int;
            let b1 = d[3 * g + 1] as int;
            let b2 = d[3 * g + 2] as int;
            assert forall|q: int| 0 <= q < 4 implies sym_at(v, t, 4 * g + q) == sextet(b0, b1, b2, q) by {
                assert(t[4 * g + q] == e[4 * g + q]);
                assert((4 * g + q) / 4 == g && (4 * g + q) % 4 == q) by (nonlinear_arith)
                    requires
                        0 <= q < 4,
                        g >= 0,
                ;
                lemma_sextet_bounds(b0, b1, b2, q);
                lemma_symbol_value(v, e[4 * g + q]);
            }
            assert(sym_at(v, t, 4 * g) == sextet(b0, b1, b2, 0));
            assert(sym_at(v, t, 4 * g + 1) == sextet(b0, b1, b2, 1));
            assert(sym_at(v, t, 4 * g + 2) == sextet(b0, b1, b2, 2));
            assert(sym_at(v, t, 4 * g + 3) == sextet(b0, b1, b2, 3));
            lemma_unsextet_sextet(b0, b1, b2);
        } else {
            assert(k < rem);
            let b0 = d[3 * full] as int;
            let b1: int = if rem == 2 {
                d[3 * full + 1] as int
            } else {
                0
            };
            assert forall|q: int| 0 <= q <= rem implies sym_at(v, t, 4 * full + q) == sextet(b0, b1, 0, q) by {
                assert(t[4 * full + q] == e[4 * full + q]);
                lemma_sextet_bounds(b0, b1, 0, q);
                lemma_symbol_value(v, e[4 * full + q]);
            }
            assert(sym_at(v, t, 4 * full) == sextet(b0, b1, 0, 0));
            assert(sym_at(v, t, 4 * full + 1) == sextet(b0, b1, 0, 1));
            lemma_unsextet_sextet(b0, b1, 0);
            if k == 1 {
                assert(sym_at(v, t, 4 * full + 2) == sextet(b0, b1, 0, 2));
                assert(b1 == d[j]);
            }
        }
    }
    assert(spec_decode_symbols(v, t) =~= d);
}


/// Law: decoding the text that encoding produced gives back the original bytes,
/// in either alphabet. The text's UTF-8 bytes are its symbols; the symbols read
/// before the first `=` all belong to the alphabet and decode to `d`.
pub proof fn law_decode_inverts_encode(v: Variant, d: Seq<u8>, text: Seq<char>)
    requires
        text == ascii_chars(spec_encode(v, d)),
    ensures
        encode_utf8(text) == spec_encode(v, d),
        encode_utf8(text).len() == encoded_len(v, d.len()),
        all_symbols(v, decoded_symbols(encode_utf8(text))),
        spec_decode_symbols(v, decoded_symbols(encode_utf8(text))) == d,
{
    lemma_decode_inverts_encode(v, d);
    lemma_ascii_encode(spec_encode(v, d));
}

/// The URL-safe symbol for a standard symbol: `-` for `+`, `_` for `/`.
pub open spec fn url_symbol(b: u8) -> u8 {
    if b == 43 {
        45
    } else if b == 47 {
        95
    } else {
        b
    }
}

/// Law: the URL-safe encoding is the standard encoding with its trailing `=`
/// removed and `+` and `/` replaced by `-` and `_`.
pub proof fn law_url_encoding_from_standard(d: Seq<u8>)
    ensures
        encoded_len(Variant::Url, d.len()) <= encoded_len(Variant::Standard, d.len()),
        forall|j: int|
            0 <= j < encoded_len(Variant::Url, d.len()) ==> spec_encode(Variant::Standard, d)[j] != pad_byte()
                && #[trigger] spec_encode(Variant::Url, d)[j] == url_symbol(spec_encode(Variant::Standard, d)[j]),
        forall|j: int|
            encoded_len(Variant::Url, d.len()) <= j < encoded_len(Variant::Standard, d.len())
                ==> #[trigger] spec_encode(Variant::Standard, d)[j] == pad_byte(),
{
    let full: int = (d.len() / 3) as int;
    let rem: int = (d.len() % 3) as int;
    assert forall|j: int| 0 <= j < encoded_len(Variant::Url, d.len()) implies spec_encode(Variant::Standard, d)[j]
        != pad_byte() && #[trigger] spec_encode(Variant::Url, d)[j] == url_symbol(
        spec_encode(Variant::Standard, d)[j],
    ) by {
        if j < 4 * full {
            let g = j / 4;
            assert(3 * g + 2 < d.len()) by (nonlinear_arith)
                requires
                    0 <= j < 4 * full,
                    g == j / 4,
                    full == d.len() / 3,
            ;
            lemma_sextet_bounds(d[3 * g] as int, d[3 * g + 1] as int, d[3 * g + 2] as int, j % 4);
        } else {
            let b1: int = if rem == 2 {
                d[3 * full + 1] as int
            } else {
                0
            };
            lemma_sextet_bounds(d[3 * full] as int, b1, 0, j - 4 * full);
        }
    }
}

/// The human-readable description of an encoding error.
pub open spec fn crypt_error_message(e: CryptError) -> Seq<char> {
    match e {
        CryptError::InvalidKeyLength(bytes, received) => "Invalid key length, expected "@ + decimal(
            bytes as nat,
        ) + " bytes, got "@ + decimal(received as nat),
        CryptError::InvalidNonceLength(bytes, received) => "Invalid nonce length, expected "@
            + decimal(bytes as nat) + " bytes, got "@ + decimal(received as nat),
        CryptError::InvalidCharacterInput => "Invalid character in input"@,
        CryptError::CannotDecode => "Cannot decode the data"@,
        CryptError::MissingOrInvalidPublicKey => "The receiver public key is missing or invalid"@,
        CryptError::MissingOrInvalidSecretKey => "The sender secret key is missing or invalid"@,
        CryptError::DataTooLong(size) =>
            "The provided data is too long, overflowing the maximum size resulting in: "@ + decimal(
                size as nat,
            ),
        CryptError::DataTooShort(size) =>
            "The provided data is too short, underflowing the minimum size resulting in: "@
                + decimal(size as nat),
        CryptError::InvalidEncodingCharacter(encoding, c) => "Invalid character in input for encoding '"@
            + encoding@ + "': '"@ + seq![c] + "'"@,
        CryptError::InvalidEncodingLength(encoding, size) => "Invalid length in input for encoding '"@
            + encoding@ + "': '"@ + decimal(size as nat) + "'"@,
        CryptError::CannotEncode => "Cannot encode the data"@,
        CryptError::EncodingBitmaskOverflow(bitmask) => "The internal encoding bitmask overflowed: "@
            + decimal(bitmask as nat),
    }
}

impl CryptError {
    /// The human-readable description of the error.
    pub fn message(&self) -> (res: String)
        ensures
            res@ == crypt_error_message(*self),
    {
        match self {
            CryptError::InvalidKeyLength(bytes, received) => {
                let mut m = String::from_str("Invalid key length, expected ");
                m.append(u64_to_decimal(*bytes as u64).as_str());
                m.append(" bytes, got ");
                m.append(u64_to_decimal(*received as u64).as_str());
                m
            },
            CryptError::InvalidNonceLength(bytes, received) => {
                let mut m = String::from_str("Invalid nonce length, expected ");
                m.append(u64_to_decimal(*bytes as u64).as_str());
                m.append(" bytes, got ");
                m.append(u64_to_decimal(*received as u64).as_str());
                m
            },
            CryptError::InvalidCharacterInput => String::from_str("Invalid character in input"),
            CryptError::CannotDecode => String::from_str("Cannot decode the data"),
            CryptError::MissingOrInvalidPublicKey => String::from_str(
                "The receiver public key is missing or invalid",
            ),
            CryptError::MissingOrInvalidSecretKey => String::from_str(
                "The sender secret key is missing or invalid",
            ),
            CryptError::DataTooLong(size) => {
                let mut m = String::from_str(
                    "The provided data is too long, overflowing the maximum size resulting in: ",
                );
                m.append(u64_to_decimal(*size as u64).as_str());
                m
            },
            CryptError::DataTooShort(size) => {
                let mut m = String::from_str(
                    "The provided data is too short, underflowing the minimum size resulting in: ",
                );
                m.append(u64_to_decimal(*size as u64).as_str());
                m
            },
            CryptError::InvalidEncodingCharacter(encoding, c) => {
                let mut m = String::from_str("Invalid character in input for encoding '");
                m.append(encoding.as_str());
                m.append("': '");
                m.append(char_to_string(*c).as_str());
                m.append("'");
                m
            },
            CryptError::InvalidEncodingLength(encoding, size) => {
                let mut m = String::from_str("Invalid length in input for encoding '");
                m.append(encoding.as_str());
                m.append("': '");
                m.append(u64_to_decimal(*size as u64).as_str());
                m.append("'");
                m
            },
            CryptError::CannotEncode => String::from_str("Cannot encode the data"),
            CryptError::EncodingBitmaskOverflow(bitmask) => {
                let mut m = String::from_str("The internal encoding bitmask overflowed: ");
                m.append(u64_to_decimal(*bitmask as u64).as_str());
                m
            },
        }
    }
}

/// A base64 encoder and decoder for one alphabet.
#[derive(Debug, Clone, Copy, Default, PartialEq, Eq)]
pub struct Encoder {
    /// Which variant of base64 to use
    variant: Variant,
}

impl Encoder {
    /// The alphabet this encoder uses.
    pub closed spec fn variant(&self) -> Variant {
        self.variant
    }

    /// An encoder for the given alphabet.
    pub fn new(variant: Variant) -> (res: Self)
        ensures
            res.variant() == variant,
    {
        Self { variant }
    }

    /// Encodes bytes as base64 text. Fails only when the size computation
    /// `4 * len + 2` does not fit in a machine word, reporting the wrapped value.
    pub fn encode(&self, data: &[u8]) -> (res: Result<String, CryptError>)
        ensures
            data@.len() * 4 + 2 <= usize::MAX ==> (res matches Ok(s) && s@ == ascii_chars(
                spec_encode(self.variant(), data@),
            )),
            data@.len() * 4 > usize::MAX ==> res == Err::<String, CryptError>(
                CryptError::DataTooLong(wrapped((data@.len() * 4) as int)),
            ),
            data@.len() * 4 <= usize::MAX < data@.len() * 4 + 2 ==> res == Err::<String, CryptError>(
                CryptError::DataTooLong(wrapped((data@.len() * 4 + 2) as int)),
            ),
    {
        let ghost v = self.variant;
        let ghost d = data@;
        let alphabet = self.variant.get_alphabet();
        let padding = self.variant.get_padding();

        let capacity = overflowing_mul(data.len(), 4);
        check_capacity(capacity)?;
        proof {
            lemma_wrapped_small((data@.len() * 4) as int);
        }
        let capacity = overflowing_add(capacity.0, 2);
        check_capacity(capacity)?;
        let capacity = capacity.0 / 3;

        let mut output: Vec<u8> = Vec::with_capacity(capacity);
        let len = data.len();
        let full = len / 3;
        let mut g: usize = 0;
        while g < full
            invariant
                d == data@,
                v == self.variant,
                len == d.len(),
                full == len / 3,
                g <= full,
                alphabet@ == spec_alphabet(v),
                output@ =~= spec_encode(v, d).take(4 * g as int),
            decreases full - g,
        {
            assert(3 * g + 3 <= len) by (nonlinear_arith)
                requires
                    g < full,
                    full == len / 3,
            ;
            let first = data[3 * g];
            let second = data[3 * g + 1];
            let third = data[3 * g + 2];
            let n: u32 = ((first as u32) << 16u32) | ((second as u32) << 8u32) | (third as u32);
            proof {
                lemma_encode_bits(first, second, third);
            }
            checked_push(alphabet.as_slice(), &mut output, (n >> 18u32) & 0x3f)?;
            checked_push(alphabet.as_slice(), &mut output, (n >> 12u32) & 0x3f)?;
            checked_push(alphabet.as_slice(), &mut output, (n >> 6u32) & 0x3f)?;
            checked_push(alphabet.as_slice(), &mut output, n & 0x3f)?;
            g = g + 1;
            assert(output@ =~= spec_encode(v, d).take(4 * g as int));
        }

        let rem = len - 3 * full;
        if rem != 0 {
            let first = data[3 * full];
            let second = if rem == 2 {
                data[3 * full + 1]
            } else {
                0
            };
            let n: u32 = ((first as u32) << 16u32) | ((second as u32) << 8u32);
            proof {
                lemma_encode_bits(first, second, 0);
                assert(((first as u32) << 16u32) | ((second as u32) << 8u32) == ((first as u32)
                    << 16u32) | ((second as u32) << 8u32) | (0u8 as u32)) by (bit_vector);
            }
            checked_push(alphabet.as_slice(), &mut output, (n >> 18u32) & 0x3f)?;
            checked_push(alphabet.as_slice(), &mut output, (n >> 12u32) & 0x3f)?;
            if rem == 2 {
                checked_push(alphabet.as_slice(), &mut output, (n >> 6u32) & 0x3f)?;
            } else if let Some(pad) = padding {
                output.push(pad);
            }
            if let Some(pad) = padding {
                output.push(pad);
            }
        }
        assert(output@ =~= spec_encode(v, d));
        proof {
            assert forall|i: int| 0 <= i < output@.len() implies #[trigger] output@[i] < 128 by {
                assert(output@[i] == encoded_symbol(v, d, i));
            }
        }
        Ok(ascii_to_string(output))
    }

    /// Decodes base64 text. Reading stops at the first `=`; every symbol before
    /// it must belong to the alphabet. Groups of four symbols give three bytes;
    /// a trailing pair or triple gives one or two bytes.
    pub fn decode(&self, data: &str) -> (res: Result<Vec<u8>, CryptError>)
        ensures
            data.spec_bytes().len() * 3 > usize::MAX ==> res == Err::<Vec<u8>, CryptError>(
                CryptError::DataTooLong(wrapped((data.spec_bytes().len() * 3) as int)),
            ),
            data.spec_bytes().len() * 3 <= usize::MAX && all_symbols(
                self.variant(),
                decoded_symbols(data.spec_bytes()),
            ) ==> (res matches Ok(out) && out@ == spec_decode_symbols(
                self.variant(),
                decoded_symbols(data.spec_bytes()),
            )),
            data.spec_bytes().len() * 3 <= usize::MAX && !all_symbols(
                self.variant(),
                decoded_symbols(data.spec_bytes()),
            ) ==> (res matches Err(CryptError::InvalidEncodingCharacter(name, c)) && name@
                == "base64"@ && c == (decoded_symbols(data.spec_bytes())[first_invalid(
                self.variant(),
                decoded_symbols(data.spec_bytes()),
            )] as char)),
    {
        let ghost v = self.variant;
        let alphabet = self.variant.get_alphabet();
        let padding = self.variant.get_padding();
        let bytes = data.as_bytes();
        let ghost s = bytes@;

        let capacity = overflowing_mul(bytes.len(), 3);
        if capacity.1 {
            return Err(CryptError::DataTooLong(capacity.0));
        }
        let capacity = capacity.0 / 4;
        let mut output: Vec<u8> = Vec::with_capacity(capacity);

        let mut buffer: [u32; 4] = [0u32; 4];
        let mut index: u8 = 0;
        let len = bytes.len();
        let mut i: usize = 0;

        while i < len
            invariant
                s == bytes@,
                s == data.spec_bytes(),
                v == self.variant,
                len == s.len(),
                len * 3 <= usize::MAX,
                i <= len,
                alphabet@ == spec_alphabet(v),
                padding == (if v is Url {
                    None::<u8>
                } else {
                    Some(pad_byte())
                }),
                forall|k: int| 0 <= k < i ==> s[k] != pad_byte(),
                forall|k: int| 0 <= k < i ==> #[trigger] symbol_value(v, s[k]) is Some,
                forall|m: int| 0 <= m < 4 ==> buffer@[m] < 64,
                index as int == i % 4,
                output@.len() == 3 * (i / 4),
                forall|j: int| 0 <= j < 3 * (i / 4) ==> #[trigger] output@[j] == decoded_byte(v, s, j),
                forall|m: int| 0 <= m < index ==> buffer@[m] == sym(v, s[4 * (i / 4) + m]),
            ensures
                i == len || s[i as int] == pad_byte(),
            decreases len - i,
        {
            let byte = bytes[i];
            let is_padding = match padding {
                Some(p) => p == byte,
                None => false,
            };
            if is_padding || byte == 61 {
                break;
            }
            let value = match position(&alphabet, byte) {
                Some(p) => p as u32,
                None => {
                    proof {
                        lemma_symbol_value(v, byte);
                        if symbol_value(v, byte) is Some {
                            let x = sym(v, byte);
                            assert(alphabet@[x] == byte);
                        }
                        assert(s[i as int] != pad_byte());
                        lemma_symbols_end_past(s, i as int);
                        assert(decoded_symbols(s)[i as int] == byte);
                        lemma_first_invalid(v, decoded_symbols(s), i as int);
                    }
                    return Err(
                        CryptError::InvalidEncodingCharacter(String::from_str("base64"), byte as char),
                    );
                },
            };
            proof {
                lemma_symbol_value(v, byte);
                assert(alphabet_byte(v, value as int) == byte);
            }
            if (index as usize) < 4 {
                buffer.set(index as usize, value);
            } else {
                return Err(make_invalid_encoding_length(bytes.len()));
            }
            index = index.saturating_add(1);
            if index == 4 {
                let n = (buffer[0] << 18u32) | (buffer[1] << 12u32) | (buffer[2] << 6u32) | buffer[3];
                proof {
                    lemma_decode_bits(buffer[0], buffer[1], buffer[2], buffer[3]);
                }
                output.push(((n >> 16u32) & 0xff) as u8);
                output.push(((n >> 8u32) & 0xff) as u8);
                output.push((n & 0xff) as u8);
                index = 0;
                proof {
                    let g = (i + 1) / 4 - 1;
                    assert forall|j: int| 0 <= j < 3 * ((i + 1) / 4) implies #[trigger] output@[j]
                        == decoded_byte(v, s, j) by {
                        if j >= 3 * (i / 4) {
                            assert(j / 3 == g);
                        }
                    }
                }
            }
            i = i + 1;
        }

        proof {
            lemma_symbols_end(s, i as int);
        }
        let ghost t = decoded_symbols(s);
        assert(t =~= s.take(i as int));

        if index > 1 {
            proof {
                lemma_decode_bits(buffer[0], buffer[1], buffer[2], 0);
            }
            let n = (buffer[0] << 18u32) | (buffer[1] << 12u32);
            output.push(((n >> 16u32) & 0xff) as u8);
            if index == 3 {
                let n = n | (buffer[2] << 6u32);
                output.push(((n >> 8u32) & 0xff) as u8);
            }
        }
        proof {
            assert(all_symbols(v, t));
            let full = 3 * (i / 4);
            assert forall|j: int| 0 <= j < full implies #[trigger] output@[j] == decoded_byte(v, t, j) by {
                assert(output@[j] == decoded_byte(v, s, j));
                let g = j / 3;
                assert(4 * g + 3 < i);
            }
            if index > 1 {
                assert(output@[full] == decoded_byte(v, t, full));
                if index == 3 {
                    assert(output@[full + 1] == decoded_byte(v, t, full + 1));
                }
            }
            assert(output@ =~= spec_decode_symbols(v, t));
        }
        Ok(output)
    }
}

} // verus!
