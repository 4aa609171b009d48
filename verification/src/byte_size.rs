//! Human-readable byte sizes.

use vstd::prelude::*;
use vstd::string::*;
use crate::text::{decimal, u64_to_decimal};

verus! {

/// The size of a kilobyte
pub const KILOBYTE: u64 = 1024;

/// The size of a megabyte
pub const MEGABYTE: u64 = 1024 * KILOBYTE;

/// The size of a gigabyte
pub const GIGABYTE: u64 = 1024 * MEGABYTE;

/// Two to the power `k`.
pub open spec fn p2(k: nat) -> nat
    decreases k,
{
    if k == 0 {
        1
    } else {
        2 * p2((k - 1) as nat)
    }
}

/// `n / m` rounded to the nearest integer, ties to the even neighbour.
pub open spec fn div_round_even(n: nat, m: nat) -> nat
    recommends
        m > 0,
{
    let q = n / m;
    let r = n % m;
    if 2 * r > m || (2 * r == m && q % 2 == 1) {
        q + 1
    } else {
        q
    }
}

/// The value of `n` once converted to a double: kept whole below 2^53, otherwise
/// rounded to 53 significant bits, ties to even.
pub open spec fn as_double(n: nat) -> nat {
    double_round(n, 0)
}

pub open spec fn double_round(n: nat, s: nat) -> nat
    decreases 11 - s,
{
    if n < p2(53 + s) || s >= 11 {
        div_round_even(n, p2(s)) * p2(s)
    } else {
        double_round(n, s + 1)
    }
}

/// The hundredths of `size / unit` as a two-decimal rendering of the double
/// quotient shows them.
pub open spec fn hundredths(size: nat, unit: nat) -> nat {
    div_round_even(as_double(size) * 100, unit)
}

/// A count of hundredths written with two decimals: `12345` is `123.45`.
pub open spec fn two_decimals(h: nat) -> Seq<char> {
    decimal(h / 100) + "."@ + decimal((h % 100) / 10) + decimal(h % 10)
}

/// The human-readable rendering of a byte count: plain bytes below a kilobyte,
/// otherwise kilobytes, megabytes or gigabytes with two decimals.
pub open spec fn spec_format_bytesize(size: u64) -> Seq<char> {
    if size < KILOBYTE {
        decimal(size as nat) + " B"@
    } else if size < MEGABYTE {
        two_decimals(hundredths(size as nat, KILOBYTE as nat)) + " KB"@
    } else if size < GIGABYTE {
        two_decimals(hundredths(size as nat, MEGABYTE as nat)) + " MB"@
    } else {
        two_decimals(hundredths(size as nat, GIGABYTE as nat)) + " GB"@
    }
}

fn round_even_div(n: u128, m: u128) -> (res: u128)
    requires
        m > 0,
        n < 0x1_0000_0000_0000_0000_0000_0000,
    ensures
        res == div_round_even(n as nat, m as nat),
{
    let q = n / m;
    let r = n % m;
    if r > m - r || (r == m - r && q % 2 == 1) {
        q + 1
    } else {
        q
    }
}

proof fn lemma_p2_add(a: nat, b: nat)
    ensures
        p2(a + b) == p2(a) * p2(b),
    decreases b,
{
    if b > 0 {
        lemma_p2_add(a, (b - 1) as nat);
        assert(p2(a + b) == 2 * p2((a + b - 1) as nat));
        assert(p2(a) * p2(b) == p2(a) * (2 * p2((b - 1) as nat)));
        assert(p2(a) * (2 * p2((b - 1) as nat)) == 2 * (p2(a) * p2((b - 1) as nat))) by (nonlinear_arith);
        assert((a + b - 1) as nat == a + (b - 1) as nat);
    } else {
        assert(a + b == a);
        assert(p2(0) == 1);
        assert(p2(a) * 1 == p2(a));
    }
}

proof fn lemma_p2_small(k: nat)
    requires
        k <= 11,
    ensures
        1 <= p2(k) <= 2048,
    decreases k,
{
    reveal_with_fuel(p2, 12);
}

proof fn lemma_p2_values()
    ensures
        p2(10) == 1024,
        p2(20) == 1048576,
        p2(30) == 1073741824,
        p2(53) == 0x20_0000_0000_0000,
        p2(64) == 0x1_0000_0000_0000_0000,
{
    reveal_with_fuel(p2, 11);
    lemma_p2_add(10, 10);
    lemma_p2_add(20, 10);
    lemma_p2_add(30, 23);
    reveal_with_fuel(p2, 24);
    lemma_p2_add(53, 11);
    reveal_with_fuel(p2, 12);
}

/// Converts `n` as a conversion to a double would, returning the exact integer value.
fn to_double_value(n: u64) -> (res: u128)
    ensures
        res == as_double(n as nat),
        res <= 0x1_0000_0000_0000_0000,
{
    let mut s: u32 = 0;
    let mut limit: u128 = 0x20_0000_0000_0000;
    let mut m: u128 = 1;
    proof {
        lemma_p2_values();
        reveal_with_fuel(p2, 1);
    }
    while (n as u128) >= limit && s < 11
        invariant
            s <= 11,
            m == p2(s as nat),
            limit == p2(53 + s as nat),
            limit == 0x20_0000_0000_0000 * m,
            1 <= m <= 2048,
            as_double(n as nat) == double_round(n as nat, 0),
            double_round(n as nat, 0) == double_round(n as nat, s as nat),
        decreases 11 - s,
    {
        proof {
            assert(p2(53 + s as nat + 1) == 2 * p2(53 + s as nat));
            assert(p2(s as nat + 1) == 2 * p2(s as nat));
            lemma_p2_small(s as nat + 1);
        }
        limit = limit * 2;
        m = m * 2;
        s = s + 1;
    }
    proof {
        lemma_p2_add(53, s as nat);
        lemma_p2_values();
        if s == 11 {
            assert(limit == 0x1_0000_0000_0000_0000);
        }
        assert((n as u128) < limit);
    }
    let q = round_even_div(n as u128, m);
    proof {
        assert((n as int) / (m as int) < 0x20_0000_0000_0000) by (nonlinear_arith)
            requires
                n < 0x20_0000_0000_0000 * m,
                m >= 1,
        ;
        assert(q * m <= limit) by (nonlinear_arith)
            requires
                q <= (n as int) / (m as int) + 1,
                (n as int) / (m as int) < 0x20_0000_0000_0000,
                limit == 0x20_0000_0000_0000 * m,
                m >= 1,
        ;
    }
    q * m
}

/// Writes a count of hundredths with two decimals.
fn two_decimals_string(h: u128) -> (res: String)
    requires
        h / 100 <= u64::MAX,
    ensures
        res@ == two_decimals(h as nat),
{
    let mut m = u64_to_decimal((h / 100) as u64);
    m.append(".");
    m.append(u64_to_decimal(((h % 100) / 10) as u64).as_str());
    m.append(u64_to_decimal((h % 10) as u64).as_str());
    m
}

/// Format a byte size into a human-readable string: plain bytes below a
/// kilobyte, otherwise the quotient by the largest unit not above the size,
/// rounded to two decimals as a double would be (ties to even).
pub fn format_bytesize(size: u64) -> (res: String)
    ensures
        res@ == spec_format_bytesize(size),
{
    if size < KILOBYTE {
        let mut m = u64_to_decimal(size);
        m.append(" B");
        return m;
    }
    let value = to_double_value(size);
    let unit: u128 = if size < MEGABYTE {
        1024
    } else if size < GIGABYTE {
        1048576
    } else {
        1073741824
    };
    let h = round_even_div(value * 100, unit);
    proof {
        assert(h <= (value * 100) / (unit as int) + 1);
        assert((value * 100) / (unit as int) <= 0x1_0000_0000_0000_0000 * 100 / 1024) by (nonlinear_arith)
            requires
                value <= 0x1_0000_0000_0000_0000,
                unit >= 1024,
        ;
    }
    let mut m = two_decimals_string(h);
    if size < MEGABYTE {
        m.append(" KB");
    } else if size < GIGABYTE {
        m.append(" MB");
    } else {
        m.append(" GB");
    }
    m
}

} // verus!
