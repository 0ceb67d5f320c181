//! Verified core of a MIPS64 emulator: the floating-point coprocessor (COP1)
//! and the description of texture uploads.
//!
//! Floating-point values never appear as machine floats in this crate. A value
//! is the bit pattern held in a 64-bit register cell, read at one of two
//! widths, and every operation is stated over that pattern.
//!
//! - `opcode`: the fields of an instruction word.
//! - `ieee`: the fields of a bit pattern and the number it stands for.
//! - `compare`: ordering of values and the compare predicates.
//! - `round`: rounding to an integer, and conversion to integer types.
//! - `dispatch`: the operations of the arithmetic class and their effects.
//! - `fpu`: the coprocessor's state and its instructions.
//! - `disasm`: decoded instructions, for display.
//! - `fault`: the fatal and the recoverable conditions.
//! - `texture`: textures and the description of their uploads.

pub mod compare;
pub mod disasm;
pub mod dispatch;
pub mod fault;
pub mod fpu;
pub mod ieee;
pub mod opcode;
pub mod round;
pub mod texture;
