//! Reading floats from their IEEE-754 bit patterns, exactly, with integers.
//!
//! A finite float is `significand * 2^exponent` for integers read off its
//! bits. The functions here give the whole part of such a value saturated
//! to a `u16` (what a cast `as u16` yields) and the text of a 32-bit float
//! printed with one decimal.

use vstd::prelude::*;
use crate::memory::{div_round_half_even, two_pow};
use crate::text::{decimal, digit, digit_char, push_decimal, string_push};

verus! {

/// The largest value of a `u16`.
pub const U16_TOP: u64 = 65535;

/// The sign bit of a 32-bit float is set.
pub open spec fn f32_negative(bits: u32) -> bool {
    bits >= 0x8000_0000
}

/// The biased exponent field of a 32-bit float.
pub open spec fn f32_exponent_field(bits: u32) -> nat {
    ((bits as nat) / 0x80_0000) % 256
}

/// The fraction field of a 32-bit float.
pub open spec fn f32_fraction(bits: u32) -> nat {
    (bits as nat) % 0x80_0000
}

/// The integer significand of a finite 32-bit float.
pub open spec fn f32_significand(bits: u32) -> nat {
    if f32_exponent_field(bits) == 0 { f32_fraction(bits) } else { f32_fraction(bits) + 0x80_0000 }
}

/// The power of two that scales the significand of a finite 32-bit float.
pub open spec fn f32_scale(bits: u32) -> int {
    if f32_exponent_field(bits) == 0 { -149 } else { f32_exponent_field(bits) - 150 }
}

/// The 32-bit float is infinite or not a number.
pub open spec fn f32_special(bits: u32) -> bool {
    f32_exponent_field(bits) == 255
}

/// The sign bit of a 64-bit float is set.
pub open spec fn f64_negative(bits: u64) -> bool {
    bits >= 0x8000_0000_0000_0000
}

/// The biased exponent field of a 64-bit float.
pub open spec fn f64_exponent_field(bits: u64) -> nat {
    ((bits as nat) / 0x10_0000_0000_0000) % 2048
}

/// The fraction field of a 64-bit float.
pub open spec fn f64_fraction(bits: u64) -> nat {
    (bits as nat) % 0x10_0000_0000_0000
}

/// The integer significand of a finite 64-bit float.
pub open spec fn f64_significand(bits: u64) -> nat {
    if f64_exponent_field(bits) == 0 { f64_fraction(bits) } else { f64_fraction(bits) + 0x10_0000_0000_0000 }
}

/// The power of two that scales the significand of a finite 64-bit float.
pub open spec fn f64_scale(bits: u64) -> int {
    if f64_exponent_field(bits) == 0 { -1074 } else { f64_exponent_field(bits) - 1075 }
}

/// The whole part of `significand * 2^scale` (for a non-negative value).
pub open spec fn whole_part(significand: nat, scale: int) -> nat {
    if scale >= 0 { significand * two_pow(scale as nat) } else { significand / two_pow((-scale) as nat) }
}

/// `n` saturated to the range of a `u16`.
pub open spec fn saturate_u16(n: nat) -> u16 {
    if n <= U16_TOP { n as u16 } else { U16_TOP as u16 }
}

/// What casting the 32-bit float with bits `bits` to `u16` yields: `0` for
/// not-a-number and for negative values, the largest `u16` for values at or
/// above it (infinity included), else the value cut to its whole part.
pub open spec fn f32_to_u16(bits: u32) -> u16 {
    if f32_special(bits) {
        if f32_fraction(bits) != 0 || f32_negative(bits) { 0 } else { U16_TOP as u16 }
    } else if f32_negative(bits) {
        0
    } else {
        saturate_u16(whole_part(f32_significand(bits), f32_scale(bits)))
    }
}

/// What casting the 64-bit float with bits `bits` to `u16` yields (as for
/// 32-bit floats).
pub open spec fn f64_to_u16(bits: u64) -> u16 {
    if f64_exponent_field(bits) == 2047 {
        if f64_fraction(bits) != 0 || f64_negative(bits) { 0 } else { U16_TOP as u16 }
    } else if f64_negative(bits) {
        0
    } else {
        saturate_u16(whole_part(f64_significand(bits), f64_scale(bits)))
    }
}

/// The value of a finite 32-bit float's magnitude, in tenths, rounded half
/// to even: the number that printing with one decimal shows.
pub open spec fn f32_tenths(bits: u32) -> nat {
    let m = f32_significand(bits);
    let e = f32_scale(bits);
    if e >= 0 { m * two_pow(e as nat) * 10 } else { div_round_half_even(m * 10, two_pow((-e) as nat)) }
}

/// The text of the 32-bit float with bits `bits` printed with one decimal:
/// `NaN`, `inf` or `-inf` for the special values, else a minus sign where the
/// sign bit is set (negative zero too), the whole part, a point and one
/// decimal.
pub open spec fn f32_one_decimal(bits: u32) -> Seq<char> {
    if f32_special(bits) {
        if f32_fraction(bits) != 0 {
            seq!['N', 'a', 'N']
        } else if f32_negative(bits) {
            seq!['-', 'i', 'n', 'f']
        } else {
            seq!['i', 'n', 'f']
        }
    } else {
        let t = f32_tenths(bits);
        let sign = if f32_negative(bits) { seq!['-'] } else { Seq::<char>::empty() };
        sign + decimal(t / 10).push('.').push(digit_char(t % 10))
    }
}

/// `2` to the power `e`.
fn power_of_two(e: u32) -> (p: u128)
    requires
        e < 128,
    ensures
        p == two_pow(e as nat),
{
    let mut p: u128 = 1;
    let mut i: u32 = 0;
    while i < e
        invariant
            i <= e,
            e < 128,
            p == two_pow(i as nat),
        decreases e - i,
    {
        proof {
            lemma_two_pow_bound((i + 1) as nat);
        }
        p = p * 2;
        i = i + 1;
    }
    p
}

/// `2^(a + b) == 2^a * 2^b`.
proof fn lemma_two_pow_add(a: nat, b: nat)
    ensures
        two_pow(a + b) == two_pow(a) * two_pow(b),
    decreases a,
{
    if a > 0 {
        lemma_two_pow_add((a - 1) as nat, b);
        assert(two_pow(a + b) == 2 * two_pow((a - 1 + b) as nat));
        assert(2 * (two_pow((a - 1) as nat) * two_pow(b)) == (2 * two_pow((a - 1) as nat)) * two_pow(b)) by (nonlinear_arith);
    } else {
        assert(a + b == b);
        assert(two_pow(a) == 1);
    }
}

/// The powers of two that the float readings need, by value.
proof fn lemma_two_pow_values()
    ensures
        two_pow(8) == 256,
        two_pow(16) == 0x1_0000,
        two_pow(32) == 0x1_0000_0000,
        two_pow(64) == 0x1_0000_0000_0000_0000,
        two_pow(127) == 0x8000_0000_0000_0000_0000_0000_0000_0000,
{
    reveal_with_fuel(two_pow, 9);
    lemma_two_pow_add(8, 8);
    lemma_two_pow_add(16, 16);
    lemma_two_pow_add(32, 32);
    lemma_two_pow_add(64, 32);
    lemma_two_pow_add(96, 16);
    lemma_two_pow_add(112, 8);
    lemma_two_pow_add(120, 7);
    assert(two_pow(7) == 128) by {
        reveal_with_fuel(two_pow, 8);
    }
}

/// Powers of two below `2^128` fit in a `u128`.
proof fn lemma_two_pow_bound(e: nat)
    requires
        e < 128,
    ensures
        two_pow(e) <= 0x8000_0000_0000_0000_0000_0000_0000_0000,
        two_pow(e) >= 1,
{
    lemma_two_pow_values();
    lemma_two_pow_monotone(e, 127);
}

/// `2^a <= 2^b` for `a <= b`.
proof fn lemma_two_pow_monotone(a: nat, b: nat)
    requires
        a <= b,
    ensures
        two_pow(a) <= two_pow(b),
        two_pow(a) >= 1,
    decreases b,
{
    if b > a {
        lemma_two_pow_monotone(a, (b - 1) as nat);
    } else if a > 0 {
        lemma_two_pow_monotone((a - 1) as nat, (a - 1) as nat);
    }
}

/// A quotient by a power of two that exceeds the dividend is zero.
proof fn lemma_small_quotient(m: nat, k: nat, bound: nat)
    requires
        m < bound,
        bound <= two_pow(k),
    ensures
        m / two_pow(k) == 0,
        m % two_pow(k) == m,
{
    lemma_two_pow_monotone(0, k);
    vstd::arithmetic::div_mod::lemma_basic_div(m as int, two_pow(k) as int);
    vstd::arithmetic::div_mod::lemma_small_mod(m, two_pow(k));
}

/// The whole part of the 32-bit float with bits `bits`, saturated to a
/// `u16`, as casting the float with `as u16` gives it.
pub fn f32_bits_to_u16(bits: u32) -> (r: u16)
    ensures
        r == f32_to_u16(bits),
{
    let exp: u32 = (bits / 0x80_0000) % 256;
    let frac: u32 = bits % 0x80_0000;
    let negative = bits >= 0x8000_0000;
    if exp == 255 {
        if frac != 0 || negative { 0 } else { 65535 }
    } else if negative {
        0
    } else if exp == 0 {
        proof {
            lemma_two_pow_values();
            lemma_two_pow_monotone(64, 149);
            lemma_small_quotient(frac as nat, 149, two_pow(64));
        }
        0
    } else if exp >= 150 {
        let ghost m: nat = f32_significand(bits);
        proof {
            lemma_two_pow_monotone(0, (exp - 150) as nat);
            assert(m * two_pow((exp - 150) as nat) >= m) by (nonlinear_arith)
                requires
                    two_pow((exp - 150) as nat) >= 1,
            ;
        }
        65535
    } else {
        let m: u64 = (frac as u64) + 0x80_0000;
        let k: u32 = 150 - exp;
        proof {
            lemma_two_pow_values();
        }
        if k >= 64 {
            proof {
                lemma_two_pow_monotone(64, k as nat);
                lemma_small_quotient(m as nat, k as nat, two_pow(64));
            }
            0
        } else {
            proof {
                lemma_two_pow_bound(k as nat);
            }
            let d = power_of_two(k);
            let w: u128 = (m as u128) / d;
            if w <= 65535 { w as u16 } else { 65535 }
        }
    }
}

/// The whole part of the 64-bit float with bits `bits`, saturated to a
/// `u16`, as casting the float with `as u16` gives it.
pub fn f64_bits_to_u16(bits: u64) -> (r: u16)
    ensures
        r == f64_to_u16(bits),
{
    let exp: u64 = (bits / 0x10_0000_0000_0000) % 2048;
    let frac: u64 = bits % 0x10_0000_0000_0000;
    let negative = bits >= 0x8000_0000_0000_0000;
    proof {
        lemma_two_pow_values();
    }
    if exp == 2047 {
        if frac != 0 || negative { 0 } else { 65535 }
    } else if negative {
        0
    } else if exp == 0 {
        proof {
            lemma_two_pow_monotone(64, 1074);
            lemma_small_quotient(frac as nat, 1074, two_pow(64));
        }
        0
    } else if exp >= 1075 {
        let ghost m: nat = f64_significand(bits);
        proof {
            lemma_two_pow_monotone(0, (exp - 1075) as nat);
            assert(m * two_pow((exp - 1075) as nat) >= m) by (nonlinear_arith)
                requires
                    two_pow((exp - 1075) as nat) >= 1,
            ;
        }
        65535
    } else {
        let m: u64 = frac + 0x10_0000_0000_0000;
        let k: u64 = 1075 - exp;
        if k >= 64 {
            proof {
                lemma_two_pow_monotone(64, k as nat);
                lemma_small_quotient(m as nat, k as nat, two_pow(64));
            }
            0
        } else {
            proof {
                lemma_two_pow_bound(k as nat);
            }
            let d = power_of_two(k as u32);
            let w: u128 = (m as u128) / d;
            if w <= 65535 { w as u16 } else { 65535 }
        }
    }
}

/// The magnitude of the finite 32-bit float with bits `bits` in tenths,
/// rounded half to even, and appended to `s` with one decimal.
fn push_f32_magnitude(s: &mut String, bits: u32)
    requires
        !f32_special(bits),
    ensures
        ({
            let t = f32_tenths(bits);
            final(s)@ == old(s)@ + decimal(t / 10).push('.').push(digit_char(t % 10))
        }),
{
    let exp: u32 = (bits / 0x80_0000) % 256;
    let frac: u32 = bits % 0x80_0000;
    let m: u64 = if exp == 0 { frac as u64 } else { (frac as u64) + 0x80_0000 };
    let ghost start = s@;
    proof {
        lemma_two_pow_values();
    }
    if exp >= 150 {
        let k: u32 = exp - 150;
        proof {
            lemma_two_pow_bound(k as nat);
            lemma_two_pow_monotone(k as nat, 104);
            lemma_two_pow_add(104, 24);
            lemma_two_pow_monotone(24, 24);
            assert(two_pow(24) == 0x100_0000) by {
                lemma_two_pow_add(16, 8);
            }
            assert(m * two_pow(k as nat) < two_pow(128)) by (nonlinear_arith)
                requires
                    m < two_pow(24),
                    two_pow(k as nat) <= two_pow(104),
                    two_pow(104) >= 1,
                    m >= 0,
                    two_pow(128) == two_pow(104) * two_pow(24),
            ;
            lemma_two_pow_add(64, 64);
        }
        let v: u128 = (m as u128) * power_of_two(k);
        push_decimal(s, v);
        string_push(s, '.');
        string_push(s, '0');
        proof {
            let t = f32_tenths(bits);
            assert(t == v * 10);
            assert(t / 10 == v && t % 10 == 0) by (nonlinear_arith)
                requires
                    t == v * 10,
            ;
        }
    } else {
        let k: u32 = if exp == 0 { 149 } else { 150 - exp };
        let t: u128 = if k >= 64 {
            proof {
                lemma_two_pow_monotone(64, k as nat);
                lemma_small_quotient((m * 10) as nat, k as nat, two_pow(64));
            }
            0
        } else {
            proof {
                lemma_two_pow_bound(k as nat);
            }
            let d = power_of_two(k);
            let x: u128 = (m as u128) * 10;
            let q: u128 = x / d;
            let r: u128 = x % d;
            if 2 * r > d || (2 * r == d && q % 2 == 1) { q + 1 } else { q }
        };
        assert(t == f32_tenths(bits));
        push_decimal(s, t / 10);
        string_push(s, '.');
        string_push(s, digit((t % 10) as u8));
    }
}

/// The text of the 32-bit float with bits `bits` printed with one decimal,
/// as `"4.2"`, `"-0.0"`, `"inf"` or `"NaN"`.
pub fn f32_text(bits: u32) -> (text: String)
    ensures
        text@ == f32_one_decimal(bits),
{
    let exp: u32 = (bits / 0x80_0000) % 256;
    let frac: u32 = bits % 0x80_0000;
    let negative = bits >= 0x8000_0000;
    let mut text = String::new();
    if exp == 255 {
        if frac != 0 {
            string_push(&mut text, 'N');
            string_push(&mut text, 'a');
            string_push(&mut text, 'N');
        } else {
            if negative {
                string_push(&mut text, '-');
            }
            string_push(&mut text, 'i');
            string_push(&mut text, 'n');
            string_push(&mut text, 'f');
        }
    } else {
        if negative {
            string_push(&mut text, '-');
        }
        push_f32_magnitude(&mut text, bits);
    }
    assert(text@ =~= f32_one_decimal(bits));
    text
}

/// The CPU usage with bits `bits` as shown in the process table: one
/// decimal and a percent sign, as `"4.2%"`.
pub fn cpu_usage_text(bits: u32) -> (text: String)
    ensures
        text@ == f32_one_decimal(bits).push('%'),
{
    let mut text = f32_text(bits);
    string_push(&mut text, '%');
    text
}

} // verus!
