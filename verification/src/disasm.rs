//! Decoded instructions, for display.
//!
//! Control-register transfers and branches are named in full. The arithmetic
//! class is named by a shared disassembler elsewhere; here it comes out as a
//! placeholder that carries the raw format value.

use vstd::prelude::*;
use crate::opcode::{
    branch_cc, branch_cc_of, branch_likely, branch_likely_of, branch_on_true, branch_on_true_of,
    branch_target, branch_target_of, fmt, fmt_of, rs, rs_of, rt, rt_of,
};

verus! {

/// A register that an operand names.
#[derive(Clone, Copy, Debug, PartialEq, Eq, Structural)]
pub enum Reg {
    /// A general register of the CPU.
    General(usize),
    /// A control register of the coprocessor.
    Control(usize),
}

/// An operand of a decoded instruction.
#[derive(Clone, Copy, Debug, PartialEq, Eq, Structural)]
pub enum Operand {
    /// A register that the instruction reads.
    IReg(Reg),
    /// A register that the instruction writes.
    OReg(Reg),
    Imm8(u8),
    Imm32(u32),
    /// The address that a branch leads to.
    Target(u64),
}

/// A mnemonic and its operands.
#[derive(Debug, PartialEq, Eq)]
pub struct DecodedInsn {
    pub name: &'static str,
    pub args: Vec<Operand>,
}

impl DecodedInsn {
    pub fn new1(name: &'static str, op: Operand) -> (d: DecodedInsn)
        ensures
            d.name == name,
            d.args@ == seq![op],
    {
        DecodedInsn { name, args: vec![op] }
    }

    pub fn new2(name: &'static str, first: Operand, second: Operand) -> (d: DecodedInsn)
        ensures
            d.name == name,
            d.args@ == seq![first, second],
    {
        DecodedInsn { name, args: vec![first, second] }
    }
}

/// The decimal digit `d` as a character.
pub open spec fn digit_of(d: int) -> char {
    (('0' as u8) + d) as u8 as char
}

/// The display name of control register `index`: `FCSR` for register 31, the
/// index between question marks for the registers that do not exist.
pub open spec fn creg_name_of(index: usize) -> Seq<char> {
    if index == 31 {
        seq!['F', 'C', 'S', 'R']
    } else if index < 10 {
        seq!['?', digit_of(index as int), '?']
    } else {
        seq!['?', digit_of(index as int / 10), digit_of(index as int % 10), '?']
    }
}

/// The mnemonic of an instruction.
pub open spec fn mnemonic_of(opcode: u32) -> Seq<char> {
    let format = fmt_of(opcode);
    if format == 2 {
        "cfc1"@
    } else if format == 6 {
        "ctc1"@
    } else if format == 8 {
        if branch_on_true_of(opcode) {
            if branch_likely_of(opcode) {
                "BC1TL"@
            } else {
                "BC1T"@
            }
        } else {
            if branch_likely_of(opcode) {
                "BC1FL"@
            } else {
                "BC1F"@
            }
        }
    } else {
        "cop1?"@
    }
}

/// The operands of the instruction with opcode `opcode` at address `pc`.
pub open spec fn operands_of(opcode: u32, pc: u64) -> Seq<Operand> {
    let format = fmt_of(opcode);
    let general = Reg::General(rt_of(opcode));
    let control = Reg::Control(rs_of(opcode));
    if format == 2 {
        seq![Operand::OReg(general), Operand::IReg(control)]
    } else if format == 6 {
        seq![Operand::IReg(general), Operand::OReg(control)]
    } else if format == 8 {
        let target = Operand::Target(branch_target_of(pc, opcode));
        if branch_cc_of(opcode) != 0 {
            seq![Operand::Imm8(branch_cc_of(opcode) as u8), target]
        } else {
            seq![target]
        }
    } else {
        seq![Operand::Imm32(format)]
    }
}

/// The display name of control register `index`.
pub fn creg_name(index: usize) -> (name: &'static str)
    requires
        index < 32,
    ensures
        name@ == creg_name_of(index),
{
    let name = match index {
        0 => "?0?",
        1 => "?1?",
        2 => "?2?",
        3 => "?3?",
        4 => "?4?",
        5 => "?5?",
        6 => "?6?",
        7 => "?7?",
        8 => "?8?",
        9 => "?9?",
        10 => "?10?",
        11 => "?11?",
        12 => "?12?",
        13 => "?13?",
        14 => "?14?",
        15 => "?15?",
        16 => "?16?",
        17 => "?17?",
        18 => "?18?",
        19 => "?19?",
        20 => "?20?",
        21 => "?21?",
        22 => "?22?",
        23 => "?23?",
        24 => "?24?",
        25 => "?25?",
        26 => "?26?",
        27 => "?27?",
        28 => "?28?",
        29 => "?29?",
        30 => "?30?",
        _ => "FCSR",
    };
    proof {
        reveal_strlit("?0?");
        reveal_strlit("?1?");
        reveal_strlit("?2?");
        reveal_strlit("?3?");
        reveal_strlit("?4?");
        reveal_strlit("?5?");
        reveal_strlit("?6?");
        reveal_strlit("?7?");
        reveal_strlit("?8?");
        reveal_strlit("?9?");
        reveal_strlit("?10?");
        reveal_strlit("?11?");
        reveal_strlit("?12?");
        reveal_strlit("?13?");
        reveal_strlit("?14?");
        reveal_strlit("?15?");
        reveal_strlit("?16?");
        reveal_strlit("?17?");
        reveal_strlit("?18?");
        reveal_strlit("?19?");
        reveal_strlit("?20?");
        reveal_strlit("?21?");
        reveal_strlit("?22?");
        reveal_strlit("?23?");
        reveal_strlit("?24?");
        reveal_strlit("?25?");
        reveal_strlit("?26?");
        reveal_strlit("?27?");
        reveal_strlit("?28?");
        reveal_strlit("?29?");
        reveal_strlit("?30?");
        reveal_strlit("FCSR");
        assert(name@ =~= creg_name_of(index));
    }
    name
}

/// Decodes the instruction with opcode `opcode` at address `pc`.
pub fn decode(opcode: u32, pc: u64) -> (d: DecodedInsn)
    ensures
        d.name@ == mnemonic_of(opcode),
        d.args@ == operands_of(opcode, pc),
{
    let format = fmt(opcode);
    let general = Reg::General(rt(opcode));
    let control = Reg::Control(rs(opcode));
    if format == 2 {
        DecodedInsn::new2("cfc1", Operand::OReg(general), Operand::IReg(control))
    } else if format == 6 {
        DecodedInsn::new2("ctc1", Operand::IReg(general), Operand::OReg(control))
    } else if format == 8 {
        let target = Operand::Target(branch_target(pc, opcode));
        let flag = branch_cc(opcode);
        let name = if branch_on_true(opcode) {
            if branch_likely(opcode) {
                "BC1TL"
            } else {
                "BC1T"
            }
        } else {
            if branch_likely(opcode) {
                "BC1FL"
            } else {
                "BC1F"
            }
        };
        if flag != 0 {
            DecodedInsn::new2(name, Operand::Imm8(flag as u8), target)
        } else {
            DecodedInsn::new1(name, target)
        }
    } else {
        DecodedInsn::new1("cop1?", Operand::Imm32(format))
    }
}

} // verus!
