//! IEEE-754 binary32 and binary64 values, as bit patterns.
//!
//! A register cell holds 64 raw bits. An instruction reads the cell at the
//! width it declares: the low 32 bits as a binary32 value, or all 64 bits as a
//! binary64 value. This module names the fields of such a pattern and gives
//! the value it stands for as `±significand × 2^scale`, over mathematical
//! integers.

use vstd::prelude::*;

verus! {

/// The width at which an instruction reads and writes floating-point values.
#[derive(Clone, Copy, Debug, PartialEq, Eq, Structural)]
pub enum Width {
    /// binary32: 1 sign bit, 8 exponent bits, 23 fraction bits.
    Single,
    /// binary64: 1 sign bit, 11 exponent bits, 52 fraction bits.
    Double,
}

impl Width {
    /// Number of stored fraction bits.
    pub open spec fn fraction_bits(self) -> nat {
        match self {
            Width::Single => 23,
            Width::Double => 52,
        }
    }

    /// The implicit leading bit of a normal number: `2^fraction_bits`.
    pub open spec fn hidden_bit(self) -> u64 {
        match self {
            Width::Single => 0x80_0000,
            Width::Double => 0x10_0000_0000_0000,
        }
    }

    /// The all-ones exponent field, which marks infinities and NaNs.
    pub open spec fn exponent_max(self) -> u64 {
        match self {
            Width::Single => 0xff,
            Width::Double => 0x7ff,
        }
    }

    /// The exponent bias.
    pub open spec fn bias(self) -> int {
        match self {
            Width::Single => 127,
            Width::Double => 1023,
        }
    }

    /// The bits of a cell that belong to a value of this width.
    pub open spec fn mask(self) -> u64 {
        match self {
            Width::Single => 0xffff_ffff,
            Width::Double => 0xffff_ffff_ffff_ffff,
        }
    }

    /// The sign bit.
    pub open spec fn sign_mask(self) -> u64 {
        match self {
            Width::Single => 0x8000_0000,
            Width::Double => 0x8000_0000_0000_0000,
        }
    }
}

/// The sign bit of `v` read at width `w`: set for negative values, for
/// negative zero, and for NaNs that carry it.
pub open spec fn sign_of(w: Width, v: u64) -> bool {
    v & w.sign_mask() != 0
}

/// The biased exponent field.
pub open spec fn exponent_of(w: Width, v: u64) -> u64 {
    match w {
        Width::Single => (v >> 23) & 0xff,
        Width::Double => (v >> 52) & 0x7ff,
    }
}

/// The stored fraction field.
pub open spec fn fraction_of(w: Width, v: u64) -> u64 {
    match w {
        Width::Single => v & 0x7f_ffff,
        Width::Double => v & 0xf_ffff_ffff_ffff,
    }
}

/// The pattern without its sign bit: exponent and fraction as one number.
pub open spec fn magnitude_of(w: Width, v: u64) -> u64 {
    match w {
        Width::Single => v & 0x7fff_ffff,
        Width::Double => v & 0x7fff_ffff_ffff_ffff,
    }
}

/// Not a number: exponent all ones, fraction not zero.
pub open spec fn nan(w: Width, v: u64) -> bool {
    exponent_of(w, v) == w.exponent_max() && fraction_of(w, v) != 0
}

/// Positive or negative infinity.
pub open spec fn infinite(w: Width, v: u64) -> bool {
    exponent_of(w, v) == w.exponent_max() && fraction_of(w, v) == 0
}

/// Zero, subnormal or normal.
pub open spec fn finite(w: Width, v: u64) -> bool {
    exponent_of(w, v) != w.exponent_max()
}

/// Positive or negative zero.
pub open spec fn zero(w: Width, v: u64) -> bool {
    exponent_of(w, v) == 0 && fraction_of(w, v) == 0
}

/// The integer significand of a finite value: the fraction, with the hidden
/// bit in front unless the value is zero or subnormal.
pub open spec fn significand_of(w: Width, v: u64) -> int {
    if exponent_of(w, v) == 0 {
        fraction_of(w, v) as int
    } else {
        fraction_of(w, v) + w.hidden_bit()
    }
}

/// The power of two by which the significand is scaled: a finite pattern
/// stands for `±significand_of × 2^scale_of`.
pub open spec fn scale_of(w: Width, v: u64) -> int {
    let e = if exponent_of(w, v) == 0 {
        1
    } else {
        exponent_of(w, v) as int
    };
    e - w.bias() - w.fraction_bits()
}

/// The fields of a pattern, taken apart.
#[derive(Clone, Copy, Debug, PartialEq, Eq, Structural)]
pub struct Fields {
    pub negative: bool,
    pub exponent: u64,
    pub fraction: u64,
}

/// How the fields make up the pattern, in arithmetic: the magnitude is
/// `exponent × 2^fraction_bits + fraction`, and the fields are bounded.
pub proof fn lemma_fields(w: Width, v: u64)
    ensures
        exponent_of(w, v) <= w.exponent_max(),
        fraction_of(w, v) < w.hidden_bit(),
        magnitude_of(w, v) == exponent_of(w, v) * w.hidden_bit() + fraction_of(w, v),
        (v & w.mask()) == magnitude_of(w, v) + (if sign_of(w, v) {
            w.sign_mask()
        } else {
            0
        }),
{
    match w {
        Width::Single => {
            assert(((v >> 23) & 0xff) <= 0xff && (v & 0x7f_ffff) < 0x80_0000 && (v & 0x7fff_ffff)
                == ((v >> 23) & 0xff) * 0x80_0000 + (v & 0x7f_ffff) && (v & 0xffff_ffff) == (v
                & 0x7fff_ffff) + (if v & 0x8000_0000 != 0 {
                0x8000_0000u64
            } else {
                0u64
            })) by (bit_vector);
        },
        Width::Double => {
            assert(((v >> 52) & 0x7ff) <= 0x7ff && (v & 0xf_ffff_ffff_ffff) < 0x10_0000_0000_0000
                && (v & 0x7fff_ffff_ffff_ffff) == ((v >> 52) & 0x7ff) * 0x10_0000_0000_0000 + (v
                & 0xf_ffff_ffff_ffff) && (v & 0xffff_ffff_ffff_ffff) == (v
                & 0x7fff_ffff_ffff_ffff) + (if v & 0x8000_0000_0000_0000 != 0 {
                0x8000_0000_0000_0000u64
            } else {
                0u64
            })) by (bit_vector);
        },
    }
}

/// Takes a pattern apart into sign, exponent and fraction.
pub fn unpack(w: Width, v: u64) -> (f: Fields)
    ensures
        f.negative == sign_of(w, v),
        f.exponent == exponent_of(w, v),
        f.fraction == fraction_of(w, v),
        f.exponent <= w.exponent_max(),
        f.fraction < w.hidden_bit(),
{
    proof {
        lemma_fields(w, v);
    }
    match w {
        Width::Single => Fields {
            negative: v & 0x8000_0000 != 0,
            exponent: (v >> 23) & 0xff,
            fraction: v & 0x7f_ffff,
        },
        Width::Double => Fields {
            negative: v & 0x8000_0000_0000_0000 != 0,
            exponent: (v >> 52) & 0x7ff,
            fraction: v & 0xf_ffff_ffff_ffff,
        },
    }
}

/// Puts a pattern together from sign, exponent and fraction: the inverse of
/// `unpack`.
pub fn pack(w: Width, negative: bool, exponent: u64, fraction: u64) -> (v: u64)
    requires
        exponent <= w.exponent_max(),
        fraction < w.hidden_bit(),
    ensures
        sign_of(w, v) == negative,
        exponent_of(w, v) == exponent,
        fraction_of(w, v) == fraction,
        v & w.mask() == v,
{
    match w {
        Width::Single => {
            let sign: u64 = if negative {
                0x8000_0000
            } else {
                0
            };
            let v = sign | (exponent << 23) | fraction;
            assert((v & 0x8000_0000 != 0) == (sign != 0) && (v >> 23) & 0xff == exponent && v
                & 0x7f_ffff == fraction && v & 0xffff_ffff == v) by (bit_vector)
                requires
                    v == sign | (exponent << 23) | fraction,
                    sign == 0x8000_0000 || sign == 0,
                    exponent <= 0xff,
                    fraction < 0x80_0000,
            ;
            v
        },
        Width::Double => {
            let sign: u64 = if negative {
                0x8000_0000_0000_0000
            } else {
                0
            };
            let v = sign | (exponent << 52) | fraction;
            assert((v & 0x8000_0000_0000_0000 != 0) == (sign != 0) && (v >> 52) & 0x7ff
                == exponent && v & 0xf_ffff_ffff_ffff == fraction && v & 0xffff_ffff_ffff_ffff
                == v) by (bit_vector)
                requires
                    v == sign | (exponent << 52) | fraction,
                    sign == 0x8000_0000_0000_0000 || sign == 0,
                    exponent <= 0x7ff,
                    fraction < 0x10_0000_0000_0000,
            ;
            v
        },
    }
}

/// Reads a register cell at width `w`: the low 32 bits for `Single`, the
/// whole cell for `Double`.
pub fn from_u64bits(w: Width, cell: u64) -> (v: u64)
    ensures
        v == cell & w.mask(),
{
    match w {
        Width::Single => cell & 0xffff_ffff,
        Width::Double => {
            assert(cell & 0xffff_ffff_ffff_ffff == cell) by (bit_vector);
            cell
        },
    }
}

/// The register cell that holds the value `v` of width `w`: its bits,
/// zero-extended to 64.
pub fn to_u64bits(w: Width, v: u64) -> (cell: u64)
    ensures
        cell == v & w.mask(),
{
    from_u64bits(w, v)
}

/// Reading a cell and storing the value read gives back the bits that were
/// read: `to_u64bits` undoes `from_u64bits`, and reading is idempotent.
pub proof fn lemma_bits_round_trip(w: Width, cell: u64)
    ensures
        (cell & w.mask()) & w.mask() == cell & w.mask(),
        sign_of(w, cell & w.mask()) == sign_of(w, cell),
        exponent_of(w, cell & w.mask()) == exponent_of(w, cell),
        fraction_of(w, cell & w.mask()) == fraction_of(w, cell),
        magnitude_of(w, cell & w.mask()) == magnitude_of(w, cell),
{
    match w {
        Width::Single => {
            let m = cell & 0xffff_ffff;
            assert((m & 0xffff_ffff) == m && (m & 0x8000_0000 != 0) == (cell & 0x8000_0000 != 0)
                && ((m >> 23) & 0xff) == ((cell >> 23) & 0xff) && (m & 0x7f_ffff) == (cell
                & 0x7f_ffff) && (m & 0x7fff_ffff) == (cell & 0x7fff_ffff)) by (bit_vector)
                requires
                    m == cell & 0xffff_ffff,
            ;
        },
        Width::Double => {
            assert(cell & 0xffff_ffff_ffff_ffff == cell) by (bit_vector);
        },
    }
}

pub fn is_nan(w: Width, v: u64) -> (r: bool)
    ensures
        r == nan(w, v),
{
    let f = unpack(w, v);
    match w {
        Width::Single => f.exponent == 0xff && f.fraction != 0,
        Width::Double => f.exponent == 0x7ff && f.fraction != 0,
    }
}

pub fn is_finite(w: Width, v: u64) -> (r: bool)
    ensures
        r == finite(w, v),
{
    let f = unpack(w, v);
    match w {
        Width::Single => f.exponent != 0xff,
        Width::Double => f.exponent != 0x7ff,
    }
}

/// The pattern of `v` with its sign bit flipped.
pub open spec fn negated(w: Width, v: u64) -> u64 {
    (v & w.mask()) ^ w.sign_mask()
}

/// Clearing the sign bit touches nothing else: exponent and fraction stay,
/// and so does a NaN's payload.
pub proof fn lemma_sign_cleared(w: Width, v: u64)
    ensures
        !sign_of(w, magnitude_of(w, v)),
        exponent_of(w, magnitude_of(w, v)) == exponent_of(w, v),
        fraction_of(w, magnitude_of(w, v)) == fraction_of(w, v),
        magnitude_of(w, magnitude_of(w, v)) == magnitude_of(w, v),
        magnitude_of(w, v) & w.mask() == magnitude_of(w, v),
{
    match w {
        Width::Single => {
            let r = v & 0x7fff_ffff;
            assert(r & 0x8000_0000 == 0 && ((r >> 23) & 0xff) == ((v >> 23) & 0xff) && (r
                & 0x7f_ffff) == (v & 0x7f_ffff) && r & 0x7fff_ffff == r && r & 0xffff_ffff == r)
                by (bit_vector)
                requires
                    r == v & 0x7fff_ffff,
            ;
        },
        Width::Double => {
            let r = v & 0x7fff_ffff_ffff_ffff;
            assert(r & 0x8000_0000_0000_0000 == 0 && ((r >> 52) & 0x7ff) == ((v >> 52) & 0x7ff)
                && (r & 0xf_ffff_ffff_ffff) == (v & 0xf_ffff_ffff_ffff) && r
                & 0x7fff_ffff_ffff_ffff == r && r & 0xffff_ffff_ffff_ffff == r) by (bit_vector)
                requires
                    r == v & 0x7fff_ffff_ffff_ffff,
            ;
        },
    }
}

/// Flipping the sign bit touches nothing else.
pub proof fn lemma_sign_flipped(w: Width, v: u64)
    ensures
        sign_of(w, negated(w, v)) == !sign_of(w, v),
        exponent_of(w, negated(w, v)) == exponent_of(w, v),
        fraction_of(w, negated(w, v)) == fraction_of(w, v),
        magnitude_of(w, negated(w, v)) == magnitude_of(w, v),
        negated(w, v) & w.mask() == negated(w, v),
{
    match w {
        Width::Single => {
            let r = (v & 0xffff_ffff) ^ 0x8000_0000;
            assert((r & 0x8000_0000 != 0) == !(v & 0x8000_0000 != 0) && (r & 0x7fff_ffff) == (v
                & 0x7fff_ffff) && ((r >> 23) & 0xff) == ((v >> 23) & 0xff) && (r & 0x7f_ffff)
                == (v & 0x7f_ffff) && r & 0xffff_ffff == r) by (bit_vector)
                requires
                    r == (v & 0xffff_ffff) ^ 0x8000_0000,
            ;
        },
        Width::Double => {
            let r = (v & 0xffff_ffff_ffff_ffff) ^ 0x8000_0000_0000_0000;
            assert((r & 0x8000_0000_0000_0000 != 0) == !(v & 0x8000_0000_0000_0000 != 0) && (r
                & 0x7fff_ffff_ffff_ffff) == (v & 0x7fff_ffff_ffff_ffff) && ((r >> 52) & 0x7ff)
                == ((v >> 52) & 0x7ff) && (r & 0xf_ffff_ffff_ffff) == (v & 0xf_ffff_ffff_ffff)
                && r & 0xffff_ffff_ffff_ffff == r) by (bit_vector)
                requires
                    r == (v & 0xffff_ffff_ffff_ffff) ^ 0x8000_0000_0000_0000,
            ;
        },
    }
}

/// Absolute value: the pattern with its sign bit cleared. Every other bit is
/// kept, so a NaN keeps its payload.
pub fn abs(w: Width, v: u64) -> (r: u64)
    ensures
        r == magnitude_of(w, v),
        !sign_of(w, r),
        exponent_of(w, r) == exponent_of(w, v),
        fraction_of(w, r) == fraction_of(w, v),
        r & w.mask() == r,
{
    proof {
        lemma_sign_cleared(w, v);
    }
    match w {
        Width::Single => v & 0x7fff_ffff,
        Width::Double => v & 0x7fff_ffff_ffff_ffff,
    }
}

/// Negation: the pattern with its sign bit flipped. Every other bit is kept.
pub fn neg(w: Width, v: u64) -> (r: u64)
    ensures
        r == negated(w, v),
        sign_of(w, r) == !sign_of(w, v),
        magnitude_of(w, r) == magnitude_of(w, v),
        exponent_of(w, r) == exponent_of(w, v),
        fraction_of(w, r) == fraction_of(w, v),
        r & w.mask() == r,
{
    proof {
        lemma_sign_flipped(w, v);
    }
    match w {
        Width::Single => (v & 0xffff_ffff) ^ 0x8000_0000,
        Width::Double => {
            assert(v & 0xffff_ffff_ffff_ffff == v) by (bit_vector);
            v ^ 0x8000_0000_0000_0000
        },
    }
}

} // verus!
