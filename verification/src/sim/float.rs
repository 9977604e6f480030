//! Comparison of float values held as bit patterns.
//!
//! IEEE 754 orders two non-NaN values of one format as the integers formed
//! from their bits in sign-magnitude form (with `+0 == -0`); a NaN is
//! unordered with everything. `float_compare` compares in `f64`: an `F32` operand is
//! widened exactly to the `f64` bits of the same value, and an integer
//! operand counts as a NaN.

use vstd::prelude::*;

use crate::sim::ir::FloatCC;
use crate::sim::value::SimValue;

verus! {

/// Index of the highest set bit of `m` (0 for `m < 2`).
pub open spec fn high_bit(m: nat) -> nat
    decreases m,
{
    if m < 2 {
        0
    } else {
        1 + high_bit(m / 2)
    }
}

/// The `f64` bit pattern of the value an `f32` bit pattern denotes:
/// infinities and NaNs keep their class (a NaN keeps its payload shifted
/// into place), normal numbers re-bias the exponent, zeros keep their
/// sign, and subnormals are normalized.
pub open spec fn widen_f32(b: u32) -> u64 {
    let s = ((b >> 31u32) as u64) << 63u64;
    let e = ((b >> 23u32) & 0xffu32) as u64;
    let m = (b & 0x7f_ffffu32) as u64;
    if e == 0xff {
        s | 0x7ff0_0000_0000_0000u64 | (m << 29u64)
    } else if e != 0 {
        s | (((e + 896) as u64) << 52u64) | (m << 29u64)
    } else if m == 0 {
        s
    } else {
        let p = high_bit(m as nat) as u64;
        s | (((p + 874) as u64) << 52u64) | ((m << ((52 - p) as u64)) & 0xf_ffff_ffff_ffffu64)
    }
}

/// Whether an `f64` bit pattern is a NaN.
pub open spec fn is_nan64(bits: u64) -> bool {
    ((bits >> 52u64) & 0x7ffu64) == 0x7ff && (bits & 0xf_ffff_ffff_ffffu64) != 0
}

/// The ordering key of a non-NaN `f64` bit pattern: its magnitude bits,
/// negated when the sign bit is set.
pub open spec fn key64(bits: u64) -> int {
    let mag = (bits & 0x7fff_ffff_ffff_ffffu64) as int;
    if (bits >> 63u64) == 1 {
        -mag
    } else {
        mag
    }
}

/// The `f64` bits an operand of `float_compare` is compared as; `None` (a NaN) for
/// an integer operand.
pub open spec fn compare_bits(v: SimValue) -> Option<u64> {
    match v {
        SimValue::F32(b) => Some(widen_f32(b)),
        SimValue::F64(b) => Some(b),
        _ => None,
    }
}

/// The key of an operand, `None` when it is (or counts as) a NaN.
pub open spec fn order_key(v: SimValue) -> Option<int> {
    match compare_bits(v) {
        Some(b) => if is_nan64(b) {
            None
        } else {
            Some(key64(b))
        },
        None => None,
    }
}

/// Float comparison: `ord` is whether neither operand is a NaN; the
/// ordered relations compare keys.
pub open spec fn spec_float_compare(cond: FloatCC, a: SimValue, b: SimValue) -> bool {
    let ka = order_key(a);
    let kb = order_key(b);
    let ord = ka is Some && kb is Some;
    let x = ka->0;
    let y = kb->0;
    match cond {
        FloatCC::Ordered => ord,
        FloatCC::Unordered => !ord,
        FloatCC::Equal => ord && x == y,
        FloatCC::NotEqual => !ord || x != y,
        FloatCC::OrderedNotEqual => ord && x != y,
        FloatCC::UnorderedOrEqual => !ord || x == y,
        FloatCC::LessThan => ord && x < y,
        FloatCC::LessThanOrEqual => ord && x <= y,
        FloatCC::GreaterThan => ord && x > y,
        FloatCC::GreaterThanOrEqual => ord && x >= y,
        FloatCC::UnorderedOrLessThan => !ord || x < y,
        FloatCC::UnorderedOrLessThanOrEqual => !ord || x <= y,
        FloatCC::UnorderedOrGreaterThan => !ord || x > y,
        FloatCC::UnorderedOrGreaterThanOrEqual => !ord || x >= y,
    }
}

proof fn lemma_high_bit_bound(m: nat, k: nat)
    requires
        m < vstd::arithmetic::power2::pow2(k + 1),
    ensures
        high_bit(m) <= k,
    decreases m,
{
    if m >= 2 {
        vstd::arithmetic::power2::lemma_pow2_unfold(k + 1);
        if k == 0 {
            vstd::arithmetic::power2::lemma2_to64();
        } else {
            lemma_high_bit_bound(m / 2, (k - 1) as nat);
        }
    }
}

fn highest_bit(m: u64) -> (p: u64)
    requires
        m < 0x80_0000,
    ensures
        p == high_bit(m as nat),
        p <= 22,
{
    proof {
        vstd::arithmetic::power2::lemma2_to64();
        lemma_high_bit_bound(m as nat, 22);
    }
    let mut t = m;
    let mut p: u64 = 0;
    while t >= 2
        invariant
            high_bit(m as nat) == p + high_bit(t as nat),
            high_bit(m as nat) <= 22,
        decreases t,
    {
        t = t / 2;
        p = p + 1;
    }
    p
}

fn widen(b: u32) -> (r: u64)
    ensures
        r == widen_f32(b),
{
    let s = ((b >> 31u32) as u64) << 63u64;
    let e = ((b >> 23u32) & 0xffu32) as u64;
    let m = (b & 0x7f_ffffu32) as u64;
    if e == 0xff {
        s | 0x7ff0_0000_0000_0000u64 | (m << 29u64)
    } else if e != 0 {
        s | ((e + 896) << 52u64) | (m << 29u64)
    } else if m == 0 {
        s
    } else {
        assert(m < 0x80_0000) by (bit_vector)
            requires
                m == (b & 0x7f_ffffu32) as u64,
        ;
        let p = highest_bit(m);
        s | ((p + 874) << 52u64) | ((m << (52 - p)) & 0xf_ffff_ffff_ffffu64)
    }
}

fn key(v: SimValue) -> (r: Option<i64>)
    ensures
        match order_key(v) {
            Some(k) => r matches Some(x) && x == k,
            None => r is None,
        },
{
    let bits = match v {
        SimValue::F32(b) => widen(b),
        SimValue::F64(b) => b,
        _ => {
            return None;
        },
    };
    if ((bits >> 52u64) & 0x7ffu64) == 0x7ff && (bits & 0xf_ffff_ffff_ffffu64) != 0 {
        return None;
    }
    let mag = (bits & 0x7fff_ffff_ffff_ffffu64) as i64;
    assert((bits & 0x7fff_ffff_ffff_ffffu64) <= 0x7fff_ffff_ffff_ffffu64) by (bit_vector);
    if (bits >> 63u64) == 1 {
        Some(-mag)
    } else {
        Some(mag)
    }
}

/// Float comparison of [`spec_float_compare`].
pub fn float_compare(cond: FloatCC, a: SimValue, b: SimValue) -> (r: bool)
    ensures
        r == spec_float_compare(cond, a, b),
{
    let ka = key(a);
    let kb = key(b);
    let ord = ka.is_some() && kb.is_some();
    let x: i64 = match ka {
        Some(k) => k,
        None => 0,
    };
    let y: i64 = match kb {
        Some(k) => k,
        None => 0,
    };
    match cond {
        FloatCC::Ordered => ord,
        FloatCC::Unordered => !ord,
        FloatCC::Equal => ord && x == y,
        FloatCC::NotEqual => !ord || x != y,
        FloatCC::OrderedNotEqual => ord && x != y,
        FloatCC::UnorderedOrEqual => !ord || x == y,
        FloatCC::LessThan => ord && x < y,
        FloatCC::LessThanOrEqual => ord && x <= y,
        FloatCC::GreaterThan => ord && x > y,
        FloatCC::GreaterThanOrEqual => ord && x >= y,
        FloatCC::UnorderedOrLessThan => !ord || x < y,
        FloatCC::UnorderedOrLessThanOrEqual => !ord || x <= y,
        FloatCC::UnorderedOrGreaterThan => !ord || x > y,
        FloatCC::UnorderedOrGreaterThanOrEqual => !ord || x >= y,
    }
}

} // verus!
