//! Size display: byte counts as human-readable text with binary units, raw
//! byte counts, and the total of a directory tree.

use crate::text::{decimal, digit_char, digit_str, push_decimal};
use vstd::arithmetic::div_mod::{
    lemma_div_denominator, lemma_div_is_ordered, lemma_fundamental_div_mod,
    lemma_fundamental_div_mod_converse,
};
use vstd::prelude::*;
use vstd::string::*;

verus! {

/// Index of the largest unit, `YB`.
pub const LAST_UNIT: u8 = 8;

/// `1024` raised to the power `k`.
pub open spec fn pow1024(k: nat) -> nat
    decreases k,
{
    if k == 0 {
        1
    } else {
        1024 * pow1024((k - 1) as nat)
    }
}

/// How many times `n` can be divided by 1024 before it drops below 1024:
/// the integer part of the base-1024 logarithm, with `0` for `n == 0`.
pub open spec fn log1024(n: nat) -> nat
    decreases n,
{
    if n < 1024 {
        0
    } else {
        1 + log1024(n / 1024)
    }
}

/// The unit a byte count is shown in: its base-1024 logarithm, held at
/// the largest unit there is.
pub open spec fn unit_index(bytes: nat) -> nat {
    if log1024(bytes) > LAST_UNIT {
        LAST_UNIT as nat
    } else {
        log1024(bytes)
    }
}

/// The name of unit `k`.
pub open spec fn unit_name(k: nat) -> Seq<char> {
    if k == 0 {
        seq!['B']
    } else if k == 1 {
        seq!['K', 'B']
    } else if k == 2 {
        seq!['M', 'B']
    } else if k == 3 {
        seq!['G', 'B']
    } else if k == 4 {
        seq!['T', 'B']
    } else if k == 5 {
        seq!['P', 'B']
    } else if k == 6 {
        seq!['E', 'B']
    } else if k == 7 {
        seq!['Z', 'B']
    } else {
        seq!['Y', 'B']
    }
}

/// `num / den` rounded to the nearest integer, a tie going to the even
/// neighbour.
pub open spec fn round_half_even(num: nat, den: nat) -> nat {
    let q = num / den;
    let r = num % den;
    if 2 * r > den || (2 * r == den && q % 2 == 1) {
        q + 1
    } else {
        q
    }
}

/// The displayed number of a byte count, in hundredths of its unit.
pub open spec fn scaled_hundredths(bytes: nat) -> nat {
    round_half_even(bytes * 100, pow1024(unit_index(bytes)))
}

/// A count of hundredths written with two decimal places.
pub open spec fn two_places(hundredths: nat) -> Seq<char> {
    decimal(hundredths / 100) + seq![
        '.',
        digit_char(((hundredths % 100) / 10) as int),
        digit_char((hundredths % 10) as int),
    ]
}

/// The human-readable text of a byte count: the scaled number with two
/// decimal places, a space, and the unit.
pub open spec fn human_text(bytes: nat) -> Seq<char> {
    two_places(scaled_hundredths(bytes)) + seq![' '] + unit_name(unit_index(bytes))
}

/// The human-readable text of a signed byte count: a minus sign for a
/// negative count, then the text of its magnitude.
pub open spec fn signed_human_text(num: int) -> Seq<char> {
    if num < 0 {
        seq!['-'] + human_text((-num) as nat)
    } else {
        human_text(num as nat)
    }
}

/// The text shown for a size of `bytes`: the plain decimal count in byte
/// mode, the human-readable text otherwise.
pub open spec fn size_text(bytes: nat, byte_size: bool) -> Seq<char> {
    if byte_size {
        decimal(bytes)
    } else {
        human_text(bytes)
    }
}

/// The sum of a sequence of file lengths.
pub open spec fn sum_sizes(sizes: Seq<u64>) -> nat
    decreases sizes.len(),
{
    if sizes.len() == 0 {
        0
    } else {
        sum_sizes(sizes.drop_last()) + sizes.last() as nat
    }
}

/// The powers of 1024 that the unit table reaches.
pub proof fn lemma_pow1024_values()
    ensures
        pow1024(0) == 1,
        pow1024(1) == 0x400,
        pow1024(2) == 0x10_0000,
        pow1024(3) == 0x4000_0000,
        pow1024(4) == 0x100_0000_0000,
        pow1024(5) == 0x4_0000_0000_0000,
        pow1024(6) == 0x1000_0000_0000_0000,
        pow1024(7) == 0x40_0000_0000_0000_0000,
        pow1024(8) == 0x1_0000_0000_0000_0000_0000,
{
    reveal_with_fuel(pow1024, 10);
}

/// Powers of 1024 grow with the exponent.
pub proof fn lemma_pow1024_monotonic(a: nat, b: nat)
    requires
        a <= b,
    ensures
        0 < pow1024(a) <= pow1024(b),
    decreases b,
{
    if b == 0 {
    } else if a == b {
        lemma_pow1024_monotonic(0, (b - 1) as nat);
    } else {
        lemma_pow1024_monotonic(a, (b - 1) as nat);
    }
}

/// Dividing by one more factor of 1024 lowers the logarithm by one.
proof fn lemma_log1024_step(bytes: nat, k: nat)
    requires
        bytes / pow1024(k) >= 1024,
    ensures
        log1024(bytes / pow1024(k)) == 1 + log1024(bytes / pow1024(k + 1)),
{
    lemma_pow1024_monotonic(0, k);
    lemma_div_denominator(bytes as int, pow1024(k) as int, 1024);
    assert(pow1024(k + 1) == 1024 * pow1024(k));
    assert(pow1024(k) as int * 1024 == pow1024(k + 1) as int);
}

/// The unit of a byte count is the largest one whose size the count
/// reaches, and a count below 1024 is shown in bytes.
pub proof fn lemma_unit_index_bounds(bytes: nat)
    ensures
        unit_index(bytes) <= LAST_UNIT,
        bytes >= 1 ==> pow1024(unit_index(bytes)) <= bytes,
        unit_index(bytes) < LAST_UNIT ==> bytes < pow1024(unit_index(bytes) + 1),
        bytes < 1024 ==> unit_index(bytes) == 0,
{
    lemma_log1024_bounds(bytes);
    if log1024(bytes) > LAST_UNIT {
        lemma_pow1024_monotonic(LAST_UNIT as nat, log1024(bytes));
    }
}

/// A count lies between the power of 1024 at its logarithm and the next.
proof fn lemma_log1024_bounds(n: nat)
    ensures
        n >= 1 ==> pow1024(log1024(n)) <= n,
        n < pow1024(log1024(n) + 1),
    decreases n,
{
    reveal_with_fuel(pow1024, 2);
    if n < 1024 {
    } else {
        lemma_log1024_bounds(n / 1024);
        lemma_fundamental_div_mod(n as int, 1024);
        let k = log1024(n / 1024);
        assert(pow1024(k + 1) == 1024 * pow1024(k));
        assert(pow1024(k + 2) == 1024 * pow1024(k + 1));
        assert(1024 * (n as int / 1024) <= n);
        assert(n < 1024 * (n as int / 1024) + 1024);
    }
}

/// Splitting a count into whole units and a remainder does not change
/// the rounded number of hundredths.
proof fn lemma_round_split(m: nat, p: nat)
    requires
        p > 0,
    ensures
        round_half_even(m * 100, p) == (m / p) * 100 + round_half_even((m % p) * 100, p),
{
    let q = m / p;
    let r = m % p;
    let fq = (r * 100) / p;
    let fr = (r * 100) % p;
    lemma_fundamental_div_mod(m as int, p as int);
    lemma_fundamental_div_mod((r * 100) as int, p as int);
    assert(m * 100 == (q * 100 + fq) * p + fr) by (nonlinear_arith)
        requires
            m == p * q + r,
            r * 100 == p * fq + fr,
    ;
    lemma_fundamental_div_mod_converse((m * 100) as int, p as int, (q * 100 + fq) as int, fr as int);
    assert((q * 100 + fq) % 2 == fq % 2);
}

/// Among counts shown in the same unit, a larger count never shows a
/// smaller number.
pub proof fn lemma_convert_monotonic(b1: nat, b2: nat)
    requires
        b1 < b2,
        unit_index(b1) == unit_index(b2),
    ensures
        scaled_hundredths(b1) <= scaled_hundredths(b2),
{
    let p = pow1024(unit_index(b1));
    lemma_pow1024_monotonic(0, unit_index(b1));
    lemma_round_monotonic(b1 * 100, b2 * 100, p);
}

/// Rounding to the nearest integer keeps the order of the numerators.
pub proof fn lemma_round_monotonic(n1: nat, n2: nat, den: nat)
    requires
        n1 <= n2,
        den > 0,
    ensures
        round_half_even(n1, den) <= round_half_even(n2, den),
{
    let q1 = n1 / den;
    let q2 = n2 / den;
    let r1 = n1 % den;
    let r2 = n2 % den;
    lemma_fundamental_div_mod(n1 as int, den as int);
    lemma_fundamental_div_mod(n2 as int, den as int);
    lemma_div_is_ordered(n1 as int, n2 as int, den as int);
    if q1 == q2 {
        assert(den * q1 == den * q2);
        assert(r1 <= r2);
    }
}

/// The name of a unit as text.
fn unit_str(k: u8) -> (s: &'static str)
    requires
        k <= LAST_UNIT,
    ensures
        s@ == unit_name(k as nat),
{
    proof {
        reveal_strlit("B");
        reveal_strlit("KB");
        reveal_strlit("MB");
        reveal_strlit("GB");
        reveal_strlit("TB");
        reveal_strlit("PB");
        reveal_strlit("EB");
        reveal_strlit("ZB");
        reveal_strlit("YB");
    }
    let s = if k == 0 {
        "B"
    } else if k == 1 {
        "KB"
    } else if k == 2 {
        "MB"
    } else if k == 3 {
        "GB"
    } else if k == 4 {
        "TB"
    } else if k == 5 {
        "PB"
    } else if k == 6 {
        "EB"
    } else if k == 7 {
        "ZB"
    } else {
        "YB"
    };
    assert(s@ =~= unit_name(k as nat));
    s
}

/// Finds the unit of a byte count and the size of that unit in bytes.
pub fn select_unit(bytes: u128) -> (r: (u8, u128))
    ensures
        r.0 == unit_index(bytes as nat),
        r.1 == pow1024(r.0 as nat),
        r.0 <= LAST_UNIT,
        r.1 > 0,
{
    let mut k: u8 = 0;
    let mut p: u128 = 1;
    proof {
        lemma_pow1024_values();
    }
    while k < LAST_UNIT && bytes / p >= 1024
        invariant
            k <= LAST_UNIT,
            p == pow1024(k as nat),
            p > 0,
            log1024(bytes as nat) == k + log1024((bytes / p) as nat),
        decreases LAST_UNIT - k,
    {
        proof {
            lemma_log1024_step(bytes as nat, k as nat);
            lemma_pow1024_values();
            lemma_pow1024_monotonic(k as nat, (LAST_UNIT - 1) as nat);
            assert(pow1024((k + 1) as nat) == 1024 * pow1024(k as nat));
        }
        p = p * 1024;
        k = k + 1;
    }
    (k, p)
}

/// Rounds `num / den` to the nearest integer, a tie going to the even
/// neighbour.
fn rounded_div(num: u128, den: u128) -> (r: u128)
    requires
        den > 0,
        num / den < u128::MAX,
    ensures
        r == round_half_even(num as nat, den as nat),
{
    let q = num / den;
    let r = num % den;
    let rest = den - r;
    // `r` against `den - r` compares `2 * r` against `den` without overflow.
    if r > rest || (r == rest && q % 2 == 1) {
        q + 1
    } else {
        q
    }
}

/// The human-readable text of a byte count.
pub fn human_size(bytes: u128) -> (out: String)
    ensures
        out@ == human_text(bytes as nat),
{
    let (k, p) = select_unit(bytes);
    let whole = bytes / p;
    let rest = bytes % p;
    proof {
        lemma_pow1024_values();
        lemma_pow1024_monotonic(k as nat, LAST_UNIT as nat);
        lemma_unit_index_bounds(bytes as nat);
        lemma_round_split(bytes as nat, p as nat);
        if k < LAST_UNIT {
            assert(pow1024((k + 1) as nat) == 1024 * pow1024(k as nat));
            assert(whole < 1024) by (nonlinear_arith)
                requires
                    whole == bytes / p,
                    bytes < 1024 * p,
                    p > 0,
            ;
        } else {
            lemma_div_is_ordered(bytes as int, u128::MAX as int, p as int);
            assert(u128::MAX as int / 0x1_0000_0000_0000_0000_0000 == 0xffff_ffff_ffff);
        }
        assert((rest * 100) / (p as int) < 100) by (nonlinear_arith)
            requires
                rest < p,
                p > 0,
        ;
    }
    let frac = rounded_div(rest * 100, p);
    let hundredths = whole * 100 + frac;
    let mut out = String::new();
    push_decimal(&mut out, hundredths / 100);
    out.append(".");
    out.append(digit_str(((hundredths % 100) / 10) as u8));
    out.append(digit_str((hundredths % 10) as u8));
    out.append(" ");
    out.append(unit_str(k));
    proof {
        reveal_strlit(".");
        reveal_strlit(" ");
        assert(out@ =~= human_text(bytes as nat));
    }
    out
}

/// Converts a byte count to its human-readable text, keeping the sign of
/// a negative count.
pub fn convert(num: i128) -> (out: String)
    ensures
        out@ == signed_human_text(num as int),
{
    if num < 0 {
        let magnitude: u128 = (-(num + 1)) as u128 + 1;
        let mut out = String::from_str("-");
        let body = human_size(magnitude);
        out.append(body.as_str());
        proof {
            reveal_strlit("-");
            assert(out@ =~= signed_human_text(num as int));
        }
        out
    } else {
        human_size(num as u128)
    }
}

/// The plain decimal text of a byte count.
pub fn byte_count(bytes: u128) -> (out: String)
    ensures
        out@ == decimal(bytes as nat),
{
    let mut out = String::new();
    push_decimal(&mut out, bytes);
    assert(out@ =~= decimal(bytes as nat));
    out
}

/// The text shown for a size: the raw count in byte mode, the
/// human-readable text otherwise.
pub fn size_display(bytes: u128, byte_size: bool) -> (out: String)
    ensures
        out@ == size_text(bytes as nat, byte_size),
{
    if byte_size {
        byte_count(bytes)
    } else {
        human_size(bytes)
    }
}

/// Every prefix sum of file lengths stays within the count times the
/// largest length.
proof fn lemma_sum_sizes_bound(sizes: Seq<u64>)
    ensures
        sum_sizes(sizes) <= sizes.len() * u64::MAX,
    decreases sizes.len(),
{
    if sizes.len() > 0 {
        lemma_sum_sizes_bound(sizes.drop_last());
        assert((sizes.len() - 1) * u64::MAX + u64::MAX == sizes.len() * u64::MAX)
            by (nonlinear_arith);
    }
}

/// Adds up the lengths of the files found beneath a directory.
pub fn total_size(sizes: &Vec<u64>) -> (total: u128)
    ensures
        total == sum_sizes(sizes@),
{
    let mut total: u128 = 0;
    let mut i: usize = 0;
    while i < sizes.len()
        invariant
            i <= sizes.len(),
            total == sum_sizes(sizes@.take(i as int)),
        decreases sizes.len() - i,
    {
        proof {
            let next = sizes@.take(i + 1);
            assert(next.drop_last() =~= sizes@.take(i as int));
            lemma_sum_sizes_bound(next);
            assert(next.len() * u64::MAX <= usize::MAX * u64::MAX) by (nonlinear_arith)
                requires
                    next.len() <= usize::MAX,
            ;
            assert(usize::MAX * u64::MAX <= u64::MAX * u64::MAX) by (nonlinear_arith)
                requires
                    usize::MAX <= u64::MAX,
            ;
        }
        total = total + sizes[i] as u128;
        i = i + 1;
    }
    assert(sizes@.take(i as int) =~= sizes@);
    total
}

} // verus!
