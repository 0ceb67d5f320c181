//! Comparison of two values of one width, and the sixteen compare predicates.

use vstd::prelude::*;
use vstd::arithmetic::power2::{
    lemma2_to64, lemma_pow2_pos, lemma_pow2_strictly_increases, lemma_pow2_unfold, pow2,
};
use crate::fault::Fatal;
use crate::ieee::{
    Width, abs, exponent_of, fraction_of, is_nan, lemma_fields, lemma_sign_cleared,
    lemma_sign_flipped, magnitude_of, nan, negated, sign_of, significand_of, unpack,
};

verus! {

/// The size of a value, counted in steps of the smallest subnormal of its
/// width: `significand × 2^(scale - least scale)`. Every finite value is a
/// whole number of such steps. An infinity comes out as the first power of
/// two above every finite value.
pub open spec fn units_of(w: Width, v: u64) -> int {
    let e = exponent_of(w, v);
    let shift = if e == 0 {
        0nat
    } else {
        (e - 1) as nat
    };
    significand_of(w, v) * pow2(shift)
}

/// The place of a value among the values of its width: its size in steps,
/// below zero for negative values. Both zeros have place 0.
pub open spec fn ordinal_of(w: Width, v: u64) -> int {
    if sign_of(w, v) {
        -units_of(w, v)
    } else {
        units_of(w, v)
    }
}

/// How two values stand to each other. Exactly one of `unordered`, `less`,
/// `equal` and "greater" holds; the last is the case in which all three
/// fields are false.
#[derive(Clone, Copy, Debug, PartialEq, Eq, Structural)]
pub struct Relation {
    /// One of the two is a NaN.
    pub unordered: bool,
    /// Neither is a NaN and the first is below the second.
    pub less: bool,
    /// Neither is a NaN and the two are the same number.
    pub equal: bool,
}

/// The relation of `a` to `b`, both read at width `w`.
pub open spec fn relation_of(w: Width, a: u64, b: u64) -> Relation {
    let unordered = nan(w, a) || nan(w, b);
    Relation {
        unordered,
        less: !unordered && ordinal_of(w, a) < ordinal_of(w, b),
        equal: !unordered && ordinal_of(w, a) == ordinal_of(w, b),
    }
}

proof fn lemma_scaled_bounds(f: int, h: int, p: int)
    by (nonlinear_arith)
    requires
        0 <= f < h,
        p > 0,
    ensures
        h * p <= (f + h) * p < h * (2 * p),
{
}

proof fn lemma_scaled_order(x: int, y: int, p: int)
    by (nonlinear_arith)
    requires
        x < y,
        p > 0,
    ensures
        x * p < y * p,
{
}

proof fn lemma_scaled_le(h: int, p: int, q: int)
    by (nonlinear_arith)
    requires
        h > 0,
        p <= q,
    ensures
        h * p <= h * q,
{
}

/// The size of a pattern lies in the binade that its exponent field names.
proof fn lemma_units_bounds(w: Width, v: u64)
    ensures
        exponent_of(w, v) == 0 ==> units_of(w, v) == fraction_of(w, v),
        exponent_of(w, v) >= 1 ==> w.hidden_bit() * pow2((exponent_of(w, v) - 1) as nat)
            <= units_of(w, v) < w.hidden_bit() * pow2(exponent_of(w, v) as nat),
        units_of(w, v) >= 0,
        units_of(w, v) == 0 <==> magnitude_of(w, v) == 0,
{
    lemma_fields(w, v);
    let e = exponent_of(w, v);
    let f = fraction_of(w, v) as int;
    let h = w.hidden_bit() as int;
    if e == 0 {
        lemma2_to64();
        assert(f * 1 == f);
    } else {
        let p = pow2((e - 1) as nat) as int;
        lemma_pow2_pos((e - 1) as nat);
        lemma_pow2_unfold(e as nat);
        lemma_scaled_bounds(f, h, p);
        assert(h * p > 0) by (nonlinear_arith)
            requires
                h > 0,
                p > 0,
        ;
    }
}

/// A larger magnitude pattern is a larger size.
proof fn lemma_units_increase(w: Width, a: u64, b: u64)
    requires
        magnitude_of(w, a) < magnitude_of(w, b),
    ensures
        units_of(w, a) < units_of(w, b),
{
    lemma_fields(w, a);
    lemma_fields(w, b);
    lemma_units_bounds(w, a);
    lemma_units_bounds(w, b);
    let ea = exponent_of(w, a);
    let eb = exponent_of(w, b);
    let h = w.hidden_bit() as int;
    if ea == eb {
        if ea != 0 {
            let p = pow2((ea - 1) as nat) as int;
            lemma_pow2_pos((ea - 1) as nat);
            lemma_scaled_order(fraction_of(w, a) + h, fraction_of(w, b) + h, p);
        }
    } else {
        assert(ea < eb);
        let q = pow2((eb - 1) as nat) as int;
        lemma_pow2_pos((eb - 1) as nat);
        if ea == 0 {
            lemma_scaled_le(h, 1, q);
        } else {
            if ea < eb - 1 {
                lemma_pow2_strictly_increases(ea as nat, (eb - 1) as nat);
            }
            lemma_scaled_le(h, pow2(ea as nat) as int, q);
        }
    }
}

/// Sizes are ordered as magnitude patterns are: comparing the bits below the
/// sign as integers compares the numbers they stand for.
pub proof fn lemma_magnitude_orders_units(w: Width, a: u64, b: u64)
    ensures
        magnitude_of(w, a) < magnitude_of(w, b) <==> units_of(w, a) < units_of(w, b),
        magnitude_of(w, a) == magnitude_of(w, b) <==> units_of(w, a) == units_of(w, b),
        units_of(w, a) >= 0,
        units_of(w, a) == 0 <==> magnitude_of(w, a) == 0,
{
    lemma_units_bounds(w, a);
    lemma_fields(w, a);
    lemma_fields(w, b);
    if magnitude_of(w, a) < magnitude_of(w, b) {
        lemma_units_increase(w, a, b);
    } else if magnitude_of(w, b) < magnitude_of(w, a) {
        lemma_units_increase(w, b, a);
    } else {
        assert(exponent_of(w, a) == exponent_of(w, b));
        assert(fraction_of(w, a) == fraction_of(w, b));
    }
}

/// The sign operations do to the number what their names say: clearing the
/// sign bit gives the size of the value, flipping it the opposite value.
pub proof fn lemma_sign_operations(w: Width, v: u64)
    ensures
        ordinal_of(w, magnitude_of(w, v)) == units_of(w, v),
        ordinal_of(w, magnitude_of(w, v)) == (if ordinal_of(w, v) < 0 {
            -ordinal_of(w, v)
        } else {
            ordinal_of(w, v)
        }),
        ordinal_of(w, negated(w, v)) == -ordinal_of(w, v),
{
    lemma_sign_cleared(w, v);
    lemma_sign_flipped(w, v);
    lemma_units_bounds(w, v);
}

/// Of two values, exactly one of four holds: they are unordered, the first
/// is less, they are equal, or the second is less. Equality does not depend
/// on the order of the two.
pub proof fn lemma_relation_is_exclusive(w: Width, a: u64, b: u64)
    ensures
        ({
            let ab = relation_of(w, a, b);
            let ba = relation_of(w, b, a);
            &&& ab.unordered == ba.unordered
            &&& ab.equal == ba.equal
            &&& ab.unordered ==> !ab.less && !ab.equal && !ba.less
            &&& ab.less ==> !ab.equal && !ba.less
            &&& ab.equal ==> !ab.less && !ba.less
            &&& !ab.unordered ==> ab.less || ab.equal || ba.less
        }),
{
}

/// Relates `a` to `b`, both read at width `w`.
pub fn relate(w: Width, a: u64, b: u64) -> (r: Relation)
    ensures
        r == relation_of(w, a, b),
{
    if is_nan(w, a) || is_nan(w, b) {
        return Relation { unordered: true, less: false, equal: false };
    }
    let fa = unpack(w, a);
    let fb = unpack(w, b);
    let ma = abs(w, a);
    let mb = abs(w, b);
    proof {
        lemma_magnitude_orders_units(w, a, b);
        lemma_magnitude_orders_units(w, b, a);
    }
    let less = if fa.negative {
        if fb.negative {
            ma > mb
        } else {
            ma != 0 || mb != 0
        }
    } else {
        !fb.negative && ma < mb
    };
    let equal = if fa.negative == fb.negative {
        ma == mb
    } else {
        ma == 0 && mb == 0
    };
    Relation { unordered: false, less, equal }
}

/// Whether a predicate signals on unordered operands: bit 3.
pub open spec fn signals(predicate: u32) -> bool {
    predicate & 8 != 0
}

/// The condition that a predicate computes from a relation. Bit 2 selects
/// "less", bit 1 "equal", bit 0 "unordered".
pub open spec fn condition_of(predicate: u32, r: Relation) -> bool {
    (r.less && predicate & 4 != 0) || (r.equal && predicate & 2 != 0) || (r.unordered && predicate
        & 1 != 0)
}

/// Applies a compare predicate to a relation. A signaling predicate on
/// unordered operands is fatal; every other case yields the condition.
pub fn evaluate(predicate: u32, r: Relation) -> (c: Result<bool, Fatal>)
    ensures
        c == (if r.unordered && signals(predicate) {
            Err::<bool, Fatal>(Fatal::SignalingNan)
        } else {
            Ok(condition_of(predicate, r))
        }),
{
    if r.unordered && predicate & 8 != 0 {
        Err(Fatal::SignalingNan)
    } else {
        Ok(
            (r.less && predicate & 4 != 0) || (r.equal && predicate & 2 != 0) || (r.unordered
                && predicate & 1 != 0),
        )
    }
}

} // verus!
