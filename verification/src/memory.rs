//! Human-readable memory sizes.
//!
//! A size is shown in the largest of GB, MB and KB (binary units) that it
//! reaches, with one decimal, or in bytes below one KB. The value shown is
//! the size converted to a 64-bit float, divided by the unit and printed
//! with one decimal, rounded half to even. The functions here compute that
//! text exactly with integers.

use vstd::prelude::*;
use vstd::arithmetic::div_mod::lemma_fundamental_div_mod_converse;
use crate::text::{decimal, digit, digit_char, push_decimal, string_push};

verus! {

/// One kibibyte.
pub const KB: u64 = 1024;
/// One mebibyte.
pub const MB: u64 = 1048576;
/// One gibibyte.
pub const GB: u64 = 1073741824;
/// The first integer that a 64-bit float cannot hold with all its bits
/// (its significand has 53 bits).
pub const SIGNIFICAND_LIMIT: u64 = 9007199254740992;

/// `2` to the power `e`.
pub open spec fn two_pow(e: nat) -> nat
    decreases e,
{
    if e == 0 { 1 } else { 2 * two_pow((e - 1) as nat) }
}

/// How many low bits of `n` fall outside a 53-bit significand.
pub open spec fn dropped_bits(n: nat) -> nat
    decreases n,
{
    if n < SIGNIFICAND_LIMIT { 0 } else { 1 + dropped_bits(n / 2) }
}

/// `n / d` rounded to the nearest integer, a tie going to the even one.
pub open spec fn div_round_half_even(n: nat, d: nat) -> nat
    recommends
        d > 0,
{
    let q = n / d;
    let r = n % d;
    if 2 * r > d || (2 * r == d && q % 2 == 1) { q + 1 } else { q }
}

/// The value of the 64-bit float nearest to `n` (ties to an even
/// significand), which is what converting `n` to a float yields.
pub open spec fn float_value(n: nat) -> nat {
    let p = two_pow(dropped_bits(n));
    div_round_half_even(n, p) * p
}

/// The size `bytes`, as a float divided by `unit`, in tenths of the unit,
/// rounded half to even: the number that one-decimal printing shows.
pub open spec fn tenths(bytes: nat, unit: nat) -> nat {
    div_round_half_even(float_value(bytes) * 10, unit)
}

/// A count of tenths written with one decimal, such as `"12.5"`.
pub open spec fn one_decimal(t: nat) -> Seq<char> {
    decimal(t / 10).push('.').push(digit_char(t % 10))
}

/// A unit suffix: a space then the unit's letters.
pub open spec fn suffix(letters: Seq<char>) -> Seq<char> {
    seq![' '] + letters
}

/// The text shown for a memory size of `bytes` bytes.
pub open spec fn memory_text(bytes: u64) -> Seq<char> {
    if bytes >= GB {
        one_decimal(tenths(bytes as nat, GB as nat)) + suffix(seq!['G', 'B'])
    } else if bytes >= MB {
        one_decimal(tenths(bytes as nat, MB as nat)) + suffix(seq!['M', 'B'])
    } else if bytes >= KB {
        one_decimal(tenths(bytes as nat, KB as nat)) + suffix(seq!['K', 'B'])
    } else {
        decimal(bytes as nat) + suffix(seq!['B'])
    }
}

/// The value of the float nearest to `n`.
fn float_of(n: u64) -> (r: u128)
    ensures
        r == float_value(n as nat),
        r <= 2 * (n as u128) + 2,
{
    let mut q: u64 = n;
    let mut p: u128 = 1;
    let mut r: u128 = 0;
    let ghost mut s: nat = 0;
    while q >= SIGNIFICAND_LIMIT
        invariant
            n == q * p + r,
            r < p,
            p == two_pow(s),
            p >= 1,
            p <= n as u128 + 1,
            q * p <= n,
            dropped_bits(n as nat) == s + dropped_bits(q as nat),
        decreases q,
    {
        let bit: u64 = q % 2;
        let half: u64 = q / 2;
        assert(p <= n) by (nonlinear_arith)
            requires
                q * p <= n,
                q >= 1,
                p >= 1,
        ;
        assert(n == half * (2 * p) + (r + bit * p)) by (nonlinear_arith)
            requires
                n == q * p + r,
                q == 2 * half + bit,
        ;
        assert(half * (2 * p) <= n) by (nonlinear_arith)
            requires
                n == half * (2 * p) + (r + bit * p),
                r >= 0,
                bit >= 0,
                p >= 0,
        ;
        assert(r + bit * p < 2 * p) by (nonlinear_arith)
            requires
                r < p,
                bit <= 1,
                p >= 1,
        ;
        assert(2 * p <= n) by (nonlinear_arith)
            requires
                half * (2 * p) <= n,
                half >= 1,
        ;
        assert(dropped_bits(q as nat) == 1 + dropped_bits((q / 2) as nat));
        r = r + (bit as u128) * p;
        p = 2 * p;
        q = half;
        proof {
            s = s + 1;
        }
    }
    proof {
        lemma_fundamental_div_mod_converse(n as int, p as int, q as int, r as int);
    }
    let rounded: u128 = if 2 * r > p || (2 * r == p && q % 2 == 1) {
        (q as u128) + 1
    } else {
        q as u128
    };
    assert(rounded * p <= (n as u128) * 2 + 2) by (nonlinear_arith)
        requires
            rounded <= q + 1,
            q * p <= n,
            p <= n + 1,
    ;
    rounded * p
}

/// The size `bytes` in tenths of `unit`, as one-decimal printing of the
/// float size divided by `unit` rounds it.
fn tenths_of(bytes: u64, unit: u64) -> (t: u128)
    requires
        unit == KB || unit == MB || unit == GB,
    ensures
        t == tenths(bytes as nat, unit as nat),
{
    let f = float_of(bytes);
    let x: u128 = f * 10;
    let d: u128 = unit as u128;
    let q: u128 = x / d;
    let r: u128 = x % d;
    if 2 * r > d || (2 * r == d && q % 2 == 1) {
        q + 1
    } else {
        q
    }
}

/// Appends a count of tenths with one decimal.
fn push_one_decimal(s: &mut String, t: u128)
    ensures
        final(s)@ == old(s)@ + one_decimal(t as nat),
{
    push_decimal(s, t / 10);
    string_push(s, '.');
    string_push(s, digit((t % 10) as u8));
}

/// The human-readable text of a memory size, such as `"1.5 GB"`, `"12.0 KB"`
/// or `"512 B"`.
pub fn format_memory(bytes: u64) -> (text: String)
    ensures
        text@ == memory_text(bytes),
{
    let mut text = String::new();
    if bytes >= GB {
        push_one_decimal(&mut text, tenths_of(bytes, GB));
        string_push(&mut text, ' ');
        string_push(&mut text, 'G');
        string_push(&mut text, 'B');
    } else if bytes >= MB {
        push_one_decimal(&mut text, tenths_of(bytes, MB));
        string_push(&mut text, ' ');
        string_push(&mut text, 'M');
        string_push(&mut text, 'B');
    } else if bytes >= KB {
        push_one_decimal(&mut text, tenths_of(bytes, KB));
        string_push(&mut text, ' ');
        string_push(&mut text, 'K');
        string_push(&mut text, 'B');
    } else {
        push_decimal(&mut text, bytes as u128);
        string_push(&mut text, ' ');
        string_push(&mut text, 'B');
    }
    assert(text@ == memory_text(bytes));
    text
}

} // verus!
