//! Zero padding of numbers.

use vstd::prelude::*;
use crate::text::{all_ascii, ascii_chars, ascii_to_string, decimal, decimal_digits, lemma_decimal_digits_ascii, push_decimal};

verus! {

/// The decimal rendering of `num`, preceded by as many `0` as it takes to reach
/// `length` characters (none when it is already that long).
pub open spec fn spec_pad_number(num: u32, length: nat) -> Seq<char> {
    let d = decimal(num as nat);
    if d.len() < length {
        Seq::new((length - d.len()) as nat, |i: int| '0') + d
    } else {
        d
    }
}

/// Pad a number with zeros to a certain length
pub fn pad_number(num: u32, length: usize) -> (res: String)
    ensures
        res@ == spec_pad_number(num, length as nat),
{
    let mut digits: Vec<u8> = Vec::new();
    push_decimal(num as u64, &mut digits);
    proof {
        lemma_decimal_digits_ascii(num as nat);
        assert(digits@ =~= decimal_digits(num as nat));
    }
    let mut out: Vec<u8> = Vec::new();
    let n = digits.len();
    if n < length {
        let mut k: usize = 0;
        while k < length - n
            invariant
                n < length,
                k <= length - n,
                out@ =~= Seq::new(k as nat, |i: int| 48u8),
            decreases length - n - k,
        {
            out.push(48);
            k = k + 1;
        }
    }
    let ghost zeros = out@;
    let mut j: usize = 0;
    while j < n
        invariant
            n == digits@.len(),
            j <= n,
            out@ =~= zeros + digits@.take(j as int),
        decreases n - j,
    {
        out.push(digits[j]);
        j = j + 1;
    }
    proof {
        assert(digits@.take(n as int) =~= digits@);
        assert(all_ascii(out@));
        if n < length {
            assert(ascii_chars(out@) =~= spec_pad_number(num, length as nat));
        } else {
            assert(zeros.len() == 0);
            assert(ascii_chars(out@) =~= spec_pad_number(num, length as nat));
        }
    }
    ascii_to_string(out)
}

} // verus!
