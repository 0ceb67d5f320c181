//! The operations of the arithmetic-class instructions, as a closed
//! enumeration, and what each does to its operands.
//!
//! Sign operations, moves, conversions to integer and comparisons are
//! computed here, on bit patterns. Addition, subtraction, multiplication,
//! division and square root are left to the host's floating-point unit: the
//! dispatcher names the operation and its operands, and takes the result
//! back as a bit pattern.

use vstd::prelude::*;
use crate::compare::{condition_of, evaluate, relate, relation_of, signals};
use crate::fault::Fatal;
use crate::ieee::{Width, abs, finite, from_u64bits, magnitude_of, neg, negated};
use crate::round::{Rounding, Target, approx, fits, rounded_of, twos_complement};

verus! {

/// The operations that the host's floating-point unit computes.
#[derive(Clone, Copy, Debug, PartialEq, Eq, Structural)]
pub enum Arith {
    Add,
    Sub,
    Mul,
    Div,
    Sqrt,
}

/// An operation of the arithmetic instruction class.
#[derive(Clone, Copy, Debug, PartialEq, Eq, Structural)]
pub enum FloatOp {
    /// `fd = fs op ft` (`fd = sqrt(fs)` for the square root).
    Arith(Arith),
    /// `fd = |fs|`.
    Abs,
    /// `fd = fs`, bit for bit.
    Mov,
    /// `fd = -fs`.
    Neg,
    /// `fd = fs` converted to an integer.
    Convert { mode: Rounding, target: Target },
    /// Condition flag `cc` = `fs` compared with `ft` under a predicate.
    Compare { predicate: u32 },
}

/// The operation that a function selector names, if it names one.
pub open spec fn operation_of(func: u32) -> Option<FloatOp> {
    if func == 0x00 {
        Some(FloatOp::Arith(Arith::Add))
    } else if func == 0x01 {
        Some(FloatOp::Arith(Arith::Sub))
    } else if func == 0x02 {
        Some(FloatOp::Arith(Arith::Mul))
    } else if func == 0x03 {
        Some(FloatOp::Arith(Arith::Div))
    } else if func == 0x04 {
        Some(FloatOp::Arith(Arith::Sqrt))
    } else if func == 0x05 {
        Some(FloatOp::Abs)
    } else if func == 0x06 {
        Some(FloatOp::Mov)
    } else if func == 0x07 {
        Some(FloatOp::Neg)
    } else if func == 0x08 {
        Some(FloatOp::Convert { mode: Rounding::Nearest, target: Target::Long })
    } else if func == 0x09 {
        Some(FloatOp::Convert { mode: Rounding::Truncate, target: Target::Long })
    } else if func == 0x0a {
        Some(FloatOp::Convert { mode: Rounding::Ceiling, target: Target::Long })
    } else if func == 0x0b {
        Some(FloatOp::Convert { mode: Rounding::Floor, target: Target::Long })
    } else if func == 0x0c {
        Some(FloatOp::Convert { mode: Rounding::Nearest, target: Target::Word })
    } else if func == 0x0d {
        Some(FloatOp::Convert { mode: Rounding::Truncate, target: Target::Word })
    } else if func == 0x0e {
        Some(FloatOp::Convert { mode: Rounding::Ceiling, target: Target::Word })
    } else if func == 0x0f {
        Some(FloatOp::Convert { mode: Rounding::Floor, target: Target::Word })
    } else if 0x30 <= func <= 0x3f {
        Some(FloatOp::Compare { predicate: func & 0xf })
    } else {
        None
    }
}

/// Decodes a function selector.
pub fn operation(func: u32) -> (r: Option<FloatOp>)
    ensures
        r == operation_of(func),
{
    match func {
        0x00 => Some(FloatOp::Arith(Arith::Add)),
        0x01 => Some(FloatOp::Arith(Arith::Sub)),
        0x02 => Some(FloatOp::Arith(Arith::Mul)),
        0x03 => Some(FloatOp::Arith(Arith::Div)),
        0x04 => Some(FloatOp::Arith(Arith::Sqrt)),
        0x05 => Some(FloatOp::Abs),
        0x06 => Some(FloatOp::Mov),
        0x07 => Some(FloatOp::Neg),
        0x08 => Some(FloatOp::Convert { mode: Rounding::Nearest, target: Target::Long }),
        0x09 => Some(FloatOp::Convert { mode: Rounding::Truncate, target: Target::Long }),
        0x0a => Some(FloatOp::Convert { mode: Rounding::Ceiling, target: Target::Long }),
        0x0b => Some(FloatOp::Convert { mode: Rounding::Floor, target: Target::Long }),
        0x0c => Some(FloatOp::Convert { mode: Rounding::Nearest, target: Target::Word }),
        0x0d => Some(FloatOp::Convert { mode: Rounding::Truncate, target: Target::Word }),
        0x0e => Some(FloatOp::Convert { mode: Rounding::Ceiling, target: Target::Word }),
        0x0f => Some(FloatOp::Convert { mode: Rounding::Floor, target: Target::Word }),
        _ => if 0x30 <= func && func <= 0x3f {
            Some(FloatOp::Compare { predicate: func & 0xf })
        } else {
            None
        },
    }
}

/// What an operation asks of the state.
#[derive(Clone, Copy, Debug, PartialEq, Eq, Structural)]
pub enum Effect {
    /// Store this cell in the destination register.
    Write(u64),
    /// Set the selected condition flag to this.
    Condition(bool),
    /// Have the host compute this operation on the two operands.
    Host(Arith),
}

/// The effect of `op` at width `w` on the source cell `fs` and the target
/// cell `ft`, or the fatal condition that it runs into.
pub open spec fn effect_of(op: FloatOp, w: Width, fs: u64, ft: u64) -> Result<Effect, Fatal> {
    match op {
        FloatOp::Arith(a) => Ok(Effect::Host(a)),
        FloatOp::Abs => Ok(Effect::Write(magnitude_of(w, fs))),
        FloatOp::Mov => Ok(Effect::Write(fs & w.mask())),
        FloatOp::Neg => Ok(Effect::Write(negated(w, fs))),
        FloatOp::Convert { mode, target } => if finite(w, fs) && fits(
            target,
            rounded_of(w, fs, mode),
        ) {
            Ok(Effect::Write(twos_complement(rounded_of(w, fs, mode))))
        } else {
            Err(Fatal::ApproxOutOfRange)
        },
        FloatOp::Compare { predicate } => {
            let r = relation_of(w, fs, ft);
            if r.unordered && signals(predicate) {
                Err(Fatal::SignalingNan)
            } else {
                Ok(Effect::Condition(condition_of(predicate, r)))
            }
        },
    }
}

/// Computes the effect of `op` on its operands.
pub fn perform(op: FloatOp, w: Width, fs: u64, ft: u64) -> (r: Result<Effect, Fatal>)
    ensures
        r == effect_of(op, w, fs, ft),
{
    match op {
        FloatOp::Arith(a) => Ok(Effect::Host(a)),
        FloatOp::Abs => Ok(Effect::Write(abs(w, fs))),
        FloatOp::Mov => Ok(Effect::Write(from_u64bits(w, fs))),
        FloatOp::Neg => Ok(Effect::Write(neg(w, fs))),
        FloatOp::Convert { mode, target } => match approx(w, fs, mode, target) {
            Ok(cell) => Ok(Effect::Write(cell)),
            Err(e) => Err(e),
        },
        FloatOp::Compare { predicate } => match evaluate(predicate, relate(w, fs, ft)) {
            Ok(c) => Ok(Effect::Condition(c)),
            Err(e) => Err(e),
        },
    }
}

} // verus!
