//! Rounding a value to an integer.
//!
//! A finite value is an exact fraction `numerator / denominator` whose
//! denominator is a power of two. The four rounding policies are stated on
//! such fractions, over mathematical integers; the executable conversion
//! works on the bit pattern and is proved to give the same integer.

use vstd::prelude::*;
use vstd::arithmetic::div_mod::{lemma_fundamental_div_mod, lemma_fundamental_div_mod_converse};
use vstd::arithmetic::power2::{
    lemma2_to64, lemma2_to64_rest, lemma_pow2_adds, lemma_pow2_pos, lemma_pow2_strictly_increases,
    lemma_pow2_unfold, pow2,
};
use vstd::bits::lemma_u64_shl_is_mul;
use crate::compare::{lemma_magnitude_orders_units, units_of};
use crate::fault::Fatal;
use crate::ieee::{
    Width, exponent_of, finite, from_u64bits, lemma_bits_round_trip, lemma_fields, pack, scale_of,
    sign_of, significand_of, unpack,
};

verus! {

/// How a value that is not an integer is brought to one.
#[derive(Clone, Copy, Debug, PartialEq, Eq, Structural)]
pub enum Rounding {
    /// To the nearest integer; a value halfway between two goes to the even one.
    Nearest,
    /// Toward zero.
    Truncate,
    /// Toward positive infinity.
    Ceiling,
    /// Toward negative infinity.
    Floor,
}

/// The integer type that a conversion produces.
#[derive(Clone, Copy, Debug, PartialEq, Eq, Structural)]
pub enum Target {
    /// A signed 32-bit integer.
    Word,
    /// A signed 64-bit integer.
    Long,
}

/// The distance of `x` from zero.
pub open spec fn magnitude(x: int) -> int {
    if x < 0 {
        -x
    } else {
        x
    }
}

/// `num / den` rounded toward zero.
pub open spec fn truncate(num: int, den: int) -> int {
    if num >= 0 {
        num / den
    } else {
        -((-num) / den)
    }
}

/// The largest integer not above `num / den`.
pub open spec fn floor(num: int, den: int) -> int {
    num / den
}

/// The smallest integer not below `num / den`.
pub open spec fn ceiling(num: int, den: int) -> int {
    -((-num) / den)
}

/// `num / den` rounded to the nearest integer, halfway cases away from zero.
pub open spec fn round_half_away(num: int, den: int) -> int {
    if num >= 0 {
        (2 * num + den) / (2 * den)
    } else {
        -((2 * (-num) + den) / (2 * den))
    }
}

/// `num / den` rounded to the nearest integer, halfway cases to the even
/// neighbour, by the two-step rule: round `x` with halfway cases away from
/// zero; if the result lies exactly one half from `x`, take twice the
/// rounding of `x / 2` instead.
pub open spec fn round_half_even(num: int, den: int) -> int {
    let y = round_half_away(num, den);
    if 2 * magnitude(num - y * den) == den {
        2 * round_half_away(num, 2 * den)
    } else {
        y
    }
}

/// `num / den` brought to an integer by the policy `mode`.
pub open spec fn rounded(mode: Rounding, num: int, den: int) -> int {
    match mode {
        Rounding::Nearest => round_half_even(num, den),
        Rounding::Truncate => truncate(num, den),
        Rounding::Ceiling => ceiling(num, den),
        Rounding::Floor => floor(num, den),
    }
}

/// The numerator of a finite value, written as a fraction.
pub open spec fn numerator_of(w: Width, v: u64) -> int {
    let s = scale_of(w, v);
    let m = if s >= 0 {
        significand_of(w, v) * pow2(s as nat)
    } else {
        significand_of(w, v)
    };
    if sign_of(w, v) {
        -m
    } else {
        m
    }
}

/// The denominator of a finite value, written as a fraction: a power of two.
pub open spec fn denominator_of(w: Width, v: u64) -> int {
    let s = scale_of(w, v);
    if s >= 0 {
        1
    } else {
        pow2((-s) as nat) as int
    }
}

/// The integer that the finite value `v` of width `w` rounds to.
pub open spec fn rounded_of(w: Width, v: u64, mode: Rounding) -> int {
    rounded(mode, numerator_of(w, v), denominator_of(w, v))
}

/// Whether the integer `n` can be held by the target type.
pub open spec fn fits(target: Target, n: int) -> bool {
    match target {
        Target::Word => -0x8000_0000 <= n <= 0x7fff_ffff,
        Target::Long => -0x8000_0000_0000_0000 <= n <= 0x7fff_ffff_ffff_ffff,
    }
}

/// The 64-bit two's complement pattern of `n`. A 32-bit result is stored
/// sign-extended, which is the same pattern.
pub open spec fn twos_complement(n: int) -> u64 {
    (n % 0x1_0000_0000_0000_0000) as u64
}

/// Whether a fraction with quotient `q` and remainder `r` over `d` moves one
/// step away from zero under `mode`.
pub open spec fn steps_away(mode: Rounding, negative: bool, q: int, r: int, d: int) -> bool {
    match mode {
        Rounding::Nearest => 2 * r > d || (2 * r == d && q % 2 == 1),
        Rounding::Truncate => false,
        Rounding::Ceiling => !negative && r != 0,
        Rounding::Floor => negative && r != 0,
    }
}

proof fn lemma_div_of_split(q: int, r: int, d: int)
    requires
        d > 0,
        0 <= r < d,
    ensures
        (q * d + r) / d == q,
        (-(q * d + r)) / d == (if r == 0 {
            -q
        } else {
            -q - 1
        }),
{
    lemma_fundamental_div_mod_converse(q * d + r, d, q, r);
    if r == 0 {
        assert(-(q * d + r) == (-q) * d + 0) by (nonlinear_arith)
            requires
                r == 0,
        ;
        lemma_fundamental_div_mod_converse(-(q * d + r), d, -q, 0);
    } else {
        assert(-(q * d + r) == (-q - 1) * d + (d - r)) by (nonlinear_arith);
        lemma_fundamental_div_mod_converse(-(q * d + r), d, -q - 1, d - r);
    }
}

proof fn lemma_half_away_of_split(q: int, r: int, d: int)
    requires
        d > 0,
        0 <= r < d,
        q >= 0,
    ensures
        (2 * (q * d + r) + d) / (2 * d) == (if 2 * r >= d {
            q + 1
        } else {
            q
        }),
{
    let x = 2 * (q * d + r) + d;
    if 2 * r >= d {
        assert(x == (q + 1) * (2 * d) + (2 * r - d)) by (nonlinear_arith)
            requires
                x == 2 * (q * d + r) + d,
        ;
        lemma_fundamental_div_mod_converse(x, 2 * d, q + 1, 2 * r - d);
    } else {
        assert(x == q * (2 * d) + (2 * r + d)) by (nonlinear_arith)
            requires
                x == 2 * (q * d + r) + d,
        ;
        lemma_fundamental_div_mod_converse(x, 2 * d, q, 2 * r + d);
    }
}

proof fn lemma_half_of_tie(q: int, r: int, d: int)
    requires
        d > 0,
        2 * r == d,
        q >= 0,
    ensures
        2 * ((2 * (q * d + r) + 2 * d) / (2 * (2 * d))) == (if q % 2 == 1 {
            q + 1
        } else {
            q
        }),
{
    let x = 2 * (q * d + r) + 2 * d;
    let j = q / 2;
    lemma_fundamental_div_mod(q, 2);
    if q % 2 == 1 {
        assert(x == (j + 1) * (4 * d) + d) by (nonlinear_arith)
            requires
                x == 2 * (q * d + r) + 2 * d,
                2 * r == d,
                q == 2 * j + 1,
        ;
        lemma_fundamental_div_mod_converse(x, 4 * d, j + 1, d);
    } else {
        assert(x == j * (4 * d) + 3 * d) by (nonlinear_arith)
            requires
                x == 2 * (q * d + r) + 2 * d,
                2 * r == d,
                q == 2 * j,
        ;
        lemma_fundamental_div_mod_converse(x, 4 * d, j, 3 * d);
    }
}

/// Rounding a fraction given by sign, quotient and remainder: the quotient,
/// or one step further from zero, with the sign put back.
pub proof fn lemma_rounded_of_split(mode: Rounding, negative: bool, q: int, r: int, d: int)
    requires
        d > 0,
        0 <= r < d,
        q >= 0,
    ensures
        rounded(
            mode,
            if negative {
                -(q * d + r)
            } else {
                q * d + r
            },
            d,
        ) == ({
            let m = if steps_away(mode, negative, q, r, d) {
                q + 1
            } else {
                q
            };
            if negative {
                -m
            } else {
                m
            }
        }),
{
    let a = q * d + r;
    assert(a >= 0) by (nonlinear_arith)
        requires
            a == q * d + r,
            q >= 0,
            d > 0,
            r >= 0,
    ;
    lemma_div_of_split(q, r, d);
    lemma_half_away_of_split(q, r, d);
    let num = if negative {
        -a
    } else {
        a
    };
    if mode == Rounding::Nearest {
        let u: int = if 2 * r >= d {
            1
        } else {
            0
        };
        let y = round_half_away(num, d);
        assert(y == (if negative {
            -(q + u)
        } else {
            q + u
        }));
        assert(magnitude(num - y * d) == (if u == 1 {
            d - r
        } else {
            r
        })) by (nonlinear_arith)
            requires
                num == (if negative {
                    -a
                } else {
                    a
                }),
                a == q * d + r,
                y == (if negative {
                    -(q + u)
                } else {
                    q + u
                }),
                u == 0 || u == 1,
                0 <= r < d,
        ;
        if 2 * r == d {
            lemma_half_of_tie(q, r, d);
            if a == 0 {
                assert(q == 0 && r == 0) by (nonlinear_arith)
                    requires
                        a == q * d + r,
                        a == 0,
                        q >= 0,
                        r >= 0,
                        d > 0,
                ;
            }
        }
    }
}

/// The two-step rule gives the nearest integer, and the even one of the two
/// where the fraction lies halfway between them.
pub proof fn lemma_round_half_even_is_nearest(num: int, den: int)
    requires
        den > 0,
    ensures
        2 * magnitude(num - round_half_even(num, den) * den) <= den,
        2 * magnitude(num - round_half_even(num, den) * den) == den ==> round_half_even(num, den)
            % 2 == 0,
{
    let a = magnitude(num);
    let q = a / den;
    let r = a % den;
    lemma_fundamental_div_mod(a, den);
    assert(a == q * den + r) by (nonlinear_arith)
        requires
            a == den * q + r,
    ;
    assert(q >= 0) by (nonlinear_arith)
        requires
            a == q * den + r,
            a >= 0,
            r < den,
            den > 0,
    ;
    lemma_rounded_of_split(Rounding::Nearest, num < 0, q, r, den);
    let n = round_half_even(num, den);
    let up: int = if steps_away(Rounding::Nearest, num < 0, q, r, den) {
        1
    } else {
        0
    };
    assert(magnitude(num - n * den) == (if up == 1 {
        den - r
    } else {
        r
    })) by (nonlinear_arith)
        requires
            a == q * den + r,
            num == (if num < 0 {
                -a
            } else {
                a
            }),
            n == (if num < 0 {
                -(q + up)
            } else {
                q + up
            }),
            up == 0 || up == 1,
            0 <= r < den,
    ;
}

/// An integer rounds to itself under every policy.
pub proof fn lemma_rounded_of_integer(mode: Rounding, n: int)
    ensures
        rounded(mode, n, 1) == n,
{
    let q = magnitude(n);
    assert(q * 1 + 0 == q);
    lemma_rounded_of_split(mode, n < 0, q, 0, 1);
}

/// A value below `2^(fraction bits + 1)` in size, taken apart at the binary
/// point, with the decision that a rounding policy makes on it.
struct Split {
    /// The whole part of the size.
    q: u64,
    /// The part behind the point, counted in `d`-ths.
    r: u64,
    d: u64,
    /// Whether the policy moves one step away from zero.
    up: bool,
}

/// The integer that a split value rounds to: the whole part, one more if the
/// policy steps away from zero, with the sign put back.
spec fn split_result(negative: bool, s: Split) -> int {
    let m = if s.up {
        s.q + 1
    } else {
        s.q as int
    };
    if negative {
        -m
    } else {
        m
    }
}

/// Takes a finite value that has bits behind the binary point apart at the
/// point, and decides the rounding step.
fn split(w: Width, v: u64, mode: Rounding) -> (s: Split)
    requires
        finite(w, v),
        scale_of(w, v) < 0,
    ensures
        rounded_of(w, v, mode) == split_result(sign_of(w, v), s),
        s.q <= significand_of(w, v),
        s.r < s.d,
        scale_of(w, v) >= -(w.fraction_bits() + 1) ==> s.d == pow2((-scale_of(w, v)) as nat)
            && significand_of(w, v) == s.q * s.d + s.r,
        scale_of(w, v) < -w.fraction_bits() ==> s.q == 0,
{
    let f = unpack(w, v);
    let (hidden, point, frac_bits): (u64, u64, u64) = match w {
        Width::Single => (0x80_0000, 150, 23),
        Width::Double => (0x10_0000_0000_0000, 1075, 52),
    };
    let (sig, e): (u64, u64) = if f.exponent == 0 {
        (f.fraction, 1)
    } else {
        (f.fraction + hidden, f.exponent)
    };
    let negative = f.negative;
    let shift = point - e;
    proof {
        lemma_fields(w, v);
        lemma2_to64();
        lemma2_to64_rest();
        assert(2 * hidden == pow2((frac_bits + 1) as nat));
        lemma_pow2_pos(shift as nat);
    }
    if shift > frac_bits + 1 {
        // Below one half in size: the whole part is zero, and what is
        // behind the point is less than a half.
        proof {
            let d = pow2(shift as nat) as int;
            lemma_pow2_unfold(shift as nat);
            if shift - 1 > frac_bits + 1 {
                lemma_pow2_strictly_increases((frac_bits + 1) as nat, (shift - 1) as nat);
            }
            assert(2 * sig < d);
            assert(0 * d + sig == sig);
            lemma_rounded_of_split(mode, negative, 0, sig as int, d);
        }
        let up = match mode {
            Rounding::Nearest => false,
            Rounding::Truncate => false,
            Rounding::Ceiling => !negative && sig != 0,
            Rounding::Floor => negative && sig != 0,
        };
        Split { q: 0, r: sig, d: 2 * hidden, up }
    } else {
        proof {
            if shift < 63 {
                lemma_pow2_strictly_increases(shift as nat, 63);
            }
            lemma_u64_shl_is_mul(1, shift);
        }
        let d: u64 = 1u64 << shift;
        let q = sig / d;
        let r = sig % d;
        proof {
            lemma_fundamental_div_mod(sig as int, d as int);
            assert(sig == q * d + r) by (nonlinear_arith)
                requires
                    sig == d * q + r,
            ;
            lemma_rounded_of_split(mode, negative, q as int, r as int, d as int);
            assert(q <= sig) by (nonlinear_arith)
                requires
                    sig == q * d + r,
                    d >= 1,
                    r >= 0,
                    q >= 0,
            ;
            if shift == frac_bits + 1 {
                assert(q == 0) by (nonlinear_arith)
                    requires
                        sig == q * d + r,
                        sig < d,
                        r >= 0,
                        q >= 0,
                ;
            }
        }
        let up = match mode {
            Rounding::Nearest => r > d - r || (r == d - r && q % 2 == 1),
            Rounding::Truncate => false,
            Rounding::Ceiling => !negative && r != 0,
            Rounding::Floor => negative && r != 0,
        };
        Split { q, r, d, up }
    }
}

/// The rounded integer as a magnitude, the sign being that of the value;
/// `None` when the magnitude is above `2^63`.
fn round_magnitude(w: Width, v: u64, mode: Rounding) -> (r: Option<u64>)
    requires
        finite(w, v),
    ensures
        match r {
            Some(m) => m <= 0x8000_0000_0000_0000 && rounded_of(w, v, mode) == (if sign_of(w, v) {
                -(m as int)
            } else {
                m as int
            }),
            None => magnitude(rounded_of(w, v, mode)) > 0x8000_0000_0000_0000,
        },
{
    let f = unpack(w, v);
    let (hidden, point, frac_bits): (u64, u64, u64) = match w {
        Width::Single => (0x80_0000, 150, 23),
        Width::Double => (0x10_0000_0000_0000, 1075, 52),
    };
    if f.exponent < point {
        proof {
            lemma_fields(w, v);
        }
        let s = split(w, v, mode);
        return Some(
            if s.up {
                s.q + 1
            } else {
                s.q
            },
        );
    }
    // No bits behind the point: the value is the significand shifted left.
    let sig = f.fraction + hidden;
    let shift = f.exponent - point;
    proof {
        lemma_fields(w, v);
        lemma2_to64();
        lemma2_to64_rest();
        assert(2 * hidden == pow2((frac_bits + 1) as nat));
        lemma_rounded_of_integer(mode, numerator_of(w, v));
        let p = pow2(shift as nat) as int;
        lemma_pow2_pos(shift as nat);
        if shift + frac_bits >= 64 {
            lemma_pow2_adds(frac_bits as nat, shift as nat);
            if shift + frac_bits > 64 {
                lemma_pow2_strictly_increases(64, (frac_bits + shift) as nat);
            }
            assert(sig * p >= hidden * p) by (nonlinear_arith)
                requires
                    sig >= hidden,
                    p >= 0,
            ;
        } else {
            lemma_pow2_adds((frac_bits + 1) as nat, shift as nat);
            if frac_bits + 1 + shift < 64 {
                lemma_pow2_strictly_increases((frac_bits + 1 + shift) as nat, 64);
            }
            assert(sig * p < (2 * hidden) * p) by (nonlinear_arith)
                requires
                    sig < 2 * hidden,
                    p > 0,
            ;
            lemma_u64_shl_is_mul(sig, shift);
        }
    }
    if shift + frac_bits >= 64 {
        return None;
    }
    let m = sig << shift;
    if m > 0x8000_0000_0000_0000 {
        None
    } else {
        Some(m)
    }
}

/// Whether the finite pattern `r` stands for the integer `n`.
pub open spec fn stands_for(w: Width, r: u64, n: int) -> bool {
    numerator_of(w, r) == n * denominator_of(w, r)
}

/// The two readings of a finite pattern agree: its size in steps of the
/// least subnormal is its fraction times a constant of the width,
/// `units × denominator = |numerator| × 2^(bias + fraction bits - 1)`.
pub proof fn lemma_units_of_fraction(w: Width, v: u64)
    requires
        finite(w, v),
    ensures
        units_of(w, v) * denominator_of(w, v) == magnitude(numerator_of(w, v)) * pow2(
            (w.bias() + w.fraction_bits() - 1) as nat,
        ),
        denominator_of(w, v) > 0,
{
    lemma_fields(w, v);
    let e = exponent_of(w, v);
    let e1: nat = if e == 0 {
        1
    } else {
        e as nat
    };
    let point = (w.bias() + w.fraction_bits()) as nat;
    let sig = significand_of(w, v);
    let low = pow2((e1 - 1) as nat) as int;
    let k = pow2((point - 1) as nat) as int;
    lemma_pow2_pos((e1 - 1) as nat);
    if scale_of(w, v) >= 0 {
        let up = pow2((e1 - point) as nat) as int;
        lemma_pow2_pos((e1 - point) as nat);
        lemma_pow2_adds((e1 - point) as nat, (point - 1) as nat);
        assert(low == up * k);
        assert(sig * up >= 0) by (nonlinear_arith)
            requires
                sig >= 0,
                up > 0,
        ;
        assert((sig * low) * 1 == (sig * up) * k) by (nonlinear_arith)
            requires
                low == up * k,
        ;
    } else {
        let den = pow2((point - e1) as nat) as int;
        lemma_pow2_pos((point - e1) as nat);
        lemma_pow2_adds((e1 - 1) as nat, (point - e1) as nat);
        assert(low * den == k);
        assert((sig * low) * den == sig * k) by (nonlinear_arith)
            requires
                low * den == k,
        ;
    }
}

/// A sign and an integer have one pattern only: two finite patterns of one
/// width with the same sign that stand for the same integer are the same
/// pattern.
pub proof fn lemma_stands_for_one_pattern(w: Width, a: u64, b: u64, n: int)
    requires
        finite(w, a),
        finite(w, b),
        sign_of(w, a) == sign_of(w, b),
        stands_for(w, a, n),
        stands_for(w, b, n),
        a == a & w.mask(),
        b == b & w.mask(),
    ensures
        a == b,
{
    lemma_units_of_fraction(w, a);
    lemma_units_of_fraction(w, b);
    let k = pow2((w.bias() + w.fraction_bits() - 1) as nat) as int;
    let m = magnitude(n);
    let da = denominator_of(w, a);
    let db = denominator_of(w, b);
    assert(magnitude(numerator_of(w, a)) == m * da) by (nonlinear_arith)
        requires
            numerator_of(w, a) == n * da,
            da > 0,
            m == magnitude(n),
    ;
    assert(magnitude(numerator_of(w, b)) == m * db) by (nonlinear_arith)
        requires
            numerator_of(w, b) == n * db,
            db > 0,
            m == magnitude(n),
    ;
    assert(units_of(w, a) == m * k) by (nonlinear_arith)
        requires
            units_of(w, a) * da == (m * da) * k,
            da > 0,
    ;
    assert(units_of(w, b) == m * k) by (nonlinear_arith)
        requires
            units_of(w, b) * db == (m * db) * k,
            db > 0,
    ;
    lemma_magnitude_orders_units(w, a, b);
    lemma_fields(w, a);
    lemma_fields(w, b);
}

proof fn lemma_step_fits(f: int, r: int, q: int, d: int, h: int, k: int)
    by (nonlinear_arith)
    requires
        h == k * d,
        d > 0,
        0 <= r < d,
        0 <= f < h,
        h + f == q * d + r,
    ensures
        r <= f,
        f - r + d <= h,
        h + (f - r) == q * d,
        h + (f - r + d) == (q + 1) * d,
{
    assert((q - k) * d == f - r);
    assert(q - k >= 0);
    assert(q - k < k);
    assert((q - k + 1) * d <= k * d);
    assert((q + 1) * d == q * d + d);
}

/// Rounds the value `v` of width `w` to an integral value of the same width
/// under the policy `mode`.
///
/// The result has the sign of `v`, also where it is zero. An infinity and a
/// NaN are returned as they are. For a finite value the clauses leave one
/// pattern only (`lemma_stands_for_one_pattern`).
pub fn integral(w: Width, v: u64, mode: Rounding) -> (r: u64)
    ensures
        r == r & w.mask(),
        !finite(w, v) ==> r == v & w.mask(),
        finite(w, v) ==> finite(w, r) && sign_of(w, r) == sign_of(w, v) && stands_for(
            w,
            r,
            rounded_of(w, v, mode),
        ),
{
    let f = unpack(w, v);
    let (hidden, point, frac_bits, bias): (u64, u64, u64, u64) = match w {
        Width::Single => (0x80_0000, 150, 23, 127),
        Width::Double => (0x10_0000_0000_0000, 1075, 52, 1023),
    };
    proof {
        lemma_fields(w, v);
        lemma_bits_round_trip(w, v);
        lemma2_to64();
        lemma2_to64_rest();
        assert(hidden == pow2(frac_bits as nat));
    }
    if f.exponent >= point {
        // An infinity, a NaN, or a value without bits behind the point.
        proof {
            if finite(w, v) {
                lemma_rounded_of_integer(mode, numerator_of(w, v));
                assert(numerator_of(w, v & w.mask()) == numerator_of(w, v));
                assert(denominator_of(w, v & w.mask()) == 1);
            }
        }
        return from_u64bits(w, v);
    }
    let s = split(w, v, mode);
    let ghost n = rounded_of(w, v, mode);
    let ghost negative = f.negative;
    if f.exponent < bias {
        // Below one in size: the result is zero or one.
        if s.up {
            let r = pack(w, f.negative, bias, 0);
            proof {
                let num = numerator_of(w, r);
                let den = denominator_of(w, r);
                assert(scale_of(w, r) == -(frac_bits as int));
                assert(significand_of(w, r) == hidden);
                assert(num == n * den) by (nonlinear_arith)
                    requires
                        den == hidden,
                        num == (if negative {
                            -(hidden as int)
                        } else {
                            hidden as int
                        }),
                        n == (if negative {
                            -1int
                        } else {
                            1int
                        }),
                ;
            }
            r
        } else {
            let r = pack(w, f.negative, 0, 0);
            proof {
                let num = numerator_of(w, r);
                let den = denominator_of(w, r);
                assert(significand_of(w, r) == 0);
                assert(num == n * den) by (nonlinear_arith)
                    requires
                        num == 0,
                        n == 0,
                ;
            }
            r
        }
    } else {
        let shift = point - f.exponent;
        proof {
            let k = pow2((frac_bits - shift) as nat) as int;
            lemma_pow2_adds((frac_bits - shift) as nat, shift as nat);
            lemma_pow2_pos(shift as nat);
            lemma_step_fits(f.fraction as int, s.r as int, s.q as int, s.d as int, hidden as int, k);
        }
        let stepped = if s.up {
            f.fraction - s.r + s.d
        } else {
            f.fraction - s.r
        };
        if stepped == hidden {
            // The step carries into the exponent: the next power of two.
            let r = pack(w, f.negative, f.exponent + 1, 0);
            proof {
                let num = numerator_of(w, r);
                let den = denominator_of(w, r);
                let half = pow2((shift - 1) as nat) as int;
                lemma_pow2_unfold(shift as nat);
                assert(significand_of(w, r) == hidden);
                assert(scale_of(w, r) == 1 - shift);
                assert(den == half);
                assert(num == (if negative {
                    -(hidden as int)
                } else {
                    hidden as int
                })) by {
                    if shift == 1 {
                        assert(hidden * half == hidden) by (nonlinear_arith)
                            requires
                                half == 1,
                        ;
                    }
                }
                assert(num == n * den) by (nonlinear_arith)
                    requires
                        den == half,
                        s.d == 2 * half,
                        hidden + hidden == (s.q + 1) * s.d,
                        num == (if negative {
                            -(hidden as int)
                        } else {
                            hidden as int
                        }),
                        n == (if negative {
                            -(s.q + 1)
                        } else {
                            s.q + 1
                        }),
                ;
            }
            r
        } else {
            let r = pack(w, f.negative, f.exponent, stepped);
            proof {
                let num = numerator_of(w, r);
                let den = denominator_of(w, r);
                let m = if s.up {
                    s.q + 1
                } else {
                    s.q as int
                };
                assert(significand_of(w, r) == hidden + stepped);
                assert(den == s.d);
                assert(num == n * den) by (nonlinear_arith)
                    requires
                        den == s.d,
                        hidden + stepped == m * s.d,
                        num == (if negative {
                            -(hidden + stepped)
                        } else {
                            hidden + stepped
                        }),
                        n == (if negative {
                            -m
                        } else {
                            m
                        }),
                ;
            }
            r
        }
    }
}

/// Rounds the value `v` of width `w` to the nearest integral value, a value
/// halfway between two going to the even one.
pub fn bankers_round(w: Width, v: u64) -> (r: u64)
    ensures
        r == r & w.mask(),
        !finite(w, v) ==> r == v & w.mask(),
        finite(w, v) ==> finite(w, r) && sign_of(w, r) == sign_of(w, v) && stands_for(
            w,
            r,
            round_half_even(numerator_of(w, v), denominator_of(w, v)),
        ),
{
    integral(w, v, Rounding::Nearest)
}

/// Converts the value `v` of width `w` to an integer of type `target` under
/// the policy `mode`, and returns the register cell that holds it. An
/// infinity, a NaN, and a value whose rounding does not fit are fatal.
pub fn approx(w: Width, v: u64, mode: Rounding, target: Target) -> (r: Result<u64, Fatal>)
    ensures
        r == (if finite(w, v) && fits(target, rounded_of(w, v, mode)) {
            Ok::<u64, Fatal>(twos_complement(rounded_of(w, v, mode)))
        } else {
            Err(Fatal::ApproxOutOfRange)
        }),
{
    if !crate::ieee::is_finite(w, v) {
        return Err(Fatal::ApproxOutOfRange);
    }
    let negative = unpack(w, v).negative;
    match round_magnitude(w, v, mode) {
        None => Err(Fatal::ApproxOutOfRange),
        Some(m) => {
            let limit: u64 = match target {
                Target::Word => 0x8000_0000,
                Target::Long => 0x8000_0000_0000_0000,
            };
            if negative {
                if m > limit {
                    Err(Fatal::ApproxOutOfRange)
                } else {
                    Ok(0u64.wrapping_sub(m))
                }
            } else {
                if m >= limit {
                    Err(Fatal::ApproxOutOfRange)
                } else {
                    Ok(m)
                }
            }
        },
    }
}

} // verus!
