//! Single-precision numbers seen through their bit patterns.
//!
//! A pattern holds a sign bit, eight exponent bits and twenty-three fraction
//! bits. Ordering and the integer part of a number can be read off the pattern
//! with integer arithmetic alone.

use vstd::arithmetic::div_mod::*;
use vstd::arithmetic::mul::*;
use vstd::arithmetic::power2::*;
use vstd::bits::*;
use vstd::prelude::*;

verus! {

/// Pattern of `0.0`.
pub const ZERO: u32 = 0;

/// Pattern of `0.01`, rounded to nearest.
pub const HUNDREDTH: u32 = 0x3C23_D70A;

/// Pattern of `0.5`.
pub const HALF: u32 = 0x3F00_0000;

/// Pattern of `1.0`.
pub const ONE: u32 = 0x3F80_0000;

/// The pattern without its sign bit.
pub open spec fn magnitude(bits: u32) -> int {
    bits as int % 0x8000_0000
}

/// Whether the sign bit is set.
pub open spec fn sign_set(bits: u32) -> bool {
    bits >= 0x8000_0000
}

/// Whether the pattern is not a number.
pub open spec fn is_nan(bits: u32) -> bool {
    magnitude(bits) > 0x7F80_0000
}

/// An integer that orders the numbers as their values do: both zeros map to 0.
pub open spec fn order_key(bits: u32) -> int {
    if sign_set(bits) {
        -magnitude(bits)
    } else {
        magnitude(bits)
    }
}

/// `a < b` as numbers: false whenever either side is not a number.
pub open spec fn lt(a: u32, b: u32) -> bool {
    !is_nan(a) && !is_nan(b) && order_key(a) < order_key(b)
}

/// The eight exponent bits.
pub open spec fn exponent_field(bits: u32) -> int {
    (bits as int / 0x80_0000) % 0x100
}

/// The twenty-three fraction bits.
pub open spec fn fraction_field(bits: u32) -> int {
    bits as int % 0x80_0000
}

/// Whether the pattern is a finite number that is not below zero: what a
/// position into a buffer has to be. Negative zero counts as zero.
pub open spec fn is_position(bits: u32) -> bool {
    magnitude(bits) < 0x7F80_0000 && (!sign_set(bits) || magnitude(bits) == 0)
}

/// The integer part of a position: the number is
/// `(2^23 + fraction) * 2^(exponent - 150)`, and anything with an exponent
/// field under 127 lies below one.
pub open spec fn floor_of(bits: u32) -> int {
    let e = exponent_field(bits);
    let s = 0x80_0000 + fraction_field(bits);
    if e < 127 {
        0
    } else if e <= 150 {
        s / (pow2((150 - e) as nat) as int)
    } else {
        s * pow2((e - 150) as nat)
    }
}

/// Decides whether the pattern is not a number.
pub fn is_not_a_number(bits: u32) -> (r: bool)
    ensures
        r == is_nan(bits),
{
    bits % 0x8000_0000 > 0x7F80_0000
}

/// Decides `a < b` on the patterns.
pub fn less_than(a: u32, b: u32) -> (r: bool)
    ensures
        r == lt(a, b),
{
    let ma: u32 = a % 0x8000_0000;
    let mb: u32 = b % 0x8000_0000;
    if ma > 0x7F80_0000 || mb > 0x7F80_0000 {
        return false;
    }
    if a >= 0x8000_0000 {
        if b >= 0x8000_0000 {
            mb < ma
        } else {
            ma > 0 || mb > 0
        }
    } else {
        if b >= 0x8000_0000 {
            false
        } else {
            ma < mb
        }
    }
}

/// The integer part of `position`, where it is a position whose integer part
/// and the one after it both lie below `limit`.
pub fn index_below(position: u32, limit: usize) -> (r: Option<usize>)
    ensures
        r.is_some() <==> is_position(position) && floor_of(position) + 1 < limit,
        r.is_some() ==> r.unwrap() == floor_of(position),
{
    let m: u32 = position % 0x8000_0000;
    if m >= 0x7F80_0000 || (position >= 0x8000_0000 && m != 0) {
        return None;
    }
    let e: u32 = (position / 0x80_0000) % 0x100;
    let s: u64 = 0x80_0000 + (position % 0x80_0000) as u64;
    proof {
        lemma2_to64();
        lemma2_to64_rest();
    }
    if e > 190 {
        proof {
            let k = (e - 150) as nat;
            if k > 41 {
                lemma_pow2_strictly_increases(41, k);
            }
            assert(s * pow2(k) >= 0x80_0000 * 0x200_0000_0000) by (nonlinear_arith)
                requires
                    s >= 0x80_0000,
                    pow2(k) >= 0x200_0000_0000,
            ;
        }
        return None;
    }
    let floor: u64 = if e < 127 {
        0
    } else if e <= 150 {
        let k: u64 = (150 - e) as u64;
        proof {
            lemma_u64_shl_is_mul(1, k);
            lemma_pow2_pos(k as nat);
        }
        s / (1u64 << k)
    } else {
        let k: u64 = (e - 150) as u64;
        proof {
            if k < 40 {
                lemma_pow2_strictly_increases(k as nat, 40);
            }
            assert(s * pow2(k as nat) < 0x100_0000 * 0x100_0000_0000) by (nonlinear_arith)
                requires
                    s < 0x100_0000,
                    0 < pow2(k as nat) <= 0x100_0000_0000,
            ;
            lemma_pow2_pos(k as nat);
            lemma_u64_shl_is_mul(s, k);
        }
        s << k
    };
    assert(floor == floor_of(position));
    if floor < usize::MAX as u64 && floor + 1 < limit as u64 {
        Some(floor as usize)
    } else {
        None
    }
}

/// The integer part of a pattern is never negative.
pub proof fn lemma_floor_not_negative(bits: u32)
    ensures
        floor_of(bits) >= 0,
{
    let e = exponent_field(bits);
    let s = 0x80_0000 + fraction_field(bits);
    if e >= 127 && e <= 150 {
        lemma_pow2_pos((150 - e) as nat);
        assert(s / (pow2((150 - e) as nat) as int) >= 0) by (nonlinear_arith)
            requires
                s >= 0,
                pow2((150 - e) as nat) > 0,
        ;
    } else if e > 150 {
        lemma_pow2_pos((e - 150) as nat);
        assert(s * pow2((e - 150) as nat) >= 0) by (nonlinear_arith)
            requires
                s >= 0,
                pow2((e - 150) as nat) > 0,
        ;
    }
}

/// The integer part of a number with an exponent field `e` of 127 or more
/// lies from `2^(e - 127)` up to, but not at, `2^(e - 126)`.
pub proof fn lemma_floor_bracket(bits: u32)
    requires
        exponent_field(bits) >= 127,
    ensures
        pow2((exponent_field(bits) - 127) as nat) <= floor_of(bits) < pow2(
            (exponent_field(bits) - 126) as nat,
        ),
{
    let e = exponent_field(bits);
    let s = 0x80_0000 + fraction_field(bits);
    let k = (e - 127) as nat;
    lemma2_to64();
    if e <= 150 {
        let d = (150 - e) as nat;
        let low = pow2(k) as int;
        let high = pow2(k + 1) as int;
        let unit = pow2(d) as int;
        lemma_pow2_adds(k, d);
        lemma_pow2_adds(k + 1, d);
        lemma_pow2_pos(d);
        assert(low * unit == 0x80_0000);
        assert(high * unit == 0x100_0000);
        lemma_div_by_multiple(low, unit);
        lemma_div_is_ordered(low * unit, s, unit);
        assert(unit * high == high * unit) by (nonlinear_arith);
        lemma_multiply_divide_lt(s, unit, high);
    } else {
        let u = (e - 150) as nat;
        let unit = pow2(u) as int;
        lemma_pow2_adds(23, u);
        lemma_pow2_adds(24, u);
        lemma_pow2_pos(u);
        assert(pow2(k) == 0x80_0000 * unit);
        assert(pow2(k + 1) == 0x100_0000 * unit);
        lemma_mul_inequality(0x80_0000, s, unit);
        lemma_mul_strict_inequality(s, 0x100_0000, unit);
    }
}

/// Among positions, the integer part follows the order of the numbers: where
/// `b` is not below `a`, neither is its integer part.
pub proof fn lemma_floor_is_monotone(a: u32, b: u32)
    requires
        is_position(a),
        is_position(b),
        !lt(b, a),
    ensures
        floor_of(a) <= floor_of(b),
{
    let ea = exponent_field(a);
    let eb = exponent_field(b);
    let sa = 0x80_0000 + fraction_field(a);
    let sb = 0x80_0000 + fraction_field(b);
    lemma_floor_not_negative(b);
    assert(magnitude(a) <= magnitude(b));
    if ea < 127 {
    } else if ea == eb {
        assert(sa <= sb);
        if ea <= 150 {
            lemma_pow2_pos((150 - ea) as nat);
            lemma_div_is_ordered(sa, sb, pow2((150 - ea) as nat) as int);
        } else {
            lemma_pow2_pos((ea - 150) as nat);
            lemma_mul_inequality(sa, sb, pow2((ea - 150) as nat) as int);
        }
    } else {
        assert(ea < eb);
        lemma_floor_bracket(a);
        lemma_floor_bracket(b);
        if ea - 126 < eb - 127 {
            lemma_pow2_strictly_increases((ea - 126) as nat, (eb - 127) as nat);
        }
    }
}

} // verus!
