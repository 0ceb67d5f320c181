//! Instruction field decoder: pure bit extraction from a 32-bit opcode word.
//!
//! Any bit pattern decodes to some field values; whether they name an
//! implemented operation is judged by the dispatcher.

use vstd::prelude::*;

verus! {

/// Top-level format selector, bits 25..21.
pub open spec fn fmt_of(opcode: u32) -> u32 {
    (opcode >> 21) & 0x1f
}

/// Function selector of an arithmetic-class instruction, bits 5..0.
pub open spec fn func_of(opcode: u32) -> u32 {
    opcode & 0x3f
}

/// Condition-code index of a compare instruction, bits 10..8.
pub open spec fn cc_of(opcode: u32) -> usize {
    ((opcode >> 8) & 7) as usize
}

/// Source register index (`fs`, or the control register of a transfer), bits 15..11.
pub open spec fn rs_of(opcode: u32) -> usize {
    ((opcode >> 11) & 0x1f) as usize
}

/// Target register index (`ft`, or the general register of a transfer), bits 20..16.
pub open spec fn rt_of(opcode: u32) -> usize {
    ((opcode >> 16) & 0x1f) as usize
}

/// Destination register index (`fd`), bits 10..6.
pub open spec fn rd_of(opcode: u32) -> usize {
    ((opcode >> 6) & 0x1f) as usize
}

/// Condition-code index of a branch instruction: two bits, 19..18.
pub open spec fn branch_cc_of(opcode: u32) -> usize {
    ((opcode >> 18) & 3) as usize
}

/// "Likely" flag of a branch (bit 17): the delay slot is squashed when the
/// branch is not taken.
pub open spec fn branch_likely_of(opcode: u32) -> bool {
    opcode & 0x2_0000 != 0
}

/// Sense of a branch (bit 16): branch when the condition is true.
pub open spec fn branch_on_true_of(opcode: u32) -> bool {
    opcode & 0x1_0000 != 0
}

/// The 16-bit immediate of a branch, read as a signed number of instructions.
pub open spec fn branch_offset_of(opcode: u32) -> int {
    let imm = opcode & 0xffff;
    if imm >= 0x8000 {
        imm - 0x1_0000
    } else {
        imm as int
    }
}

/// Where a branch at program counter `pc` leads: the offset counts
/// instructions of 4 bytes, and the sum wraps around at 64 bits.
pub open spec fn branch_target_of(pc: u64, opcode: u32) -> u64 {
    ((pc + 4 * branch_offset_of(opcode)) % 0x1_0000_0000_0000_0000) as u64
}

/// Every decoded register index addresses one of the 32 registers, and every
/// condition-code index one of the 8 flags: the masks make other values
/// unreachable.
pub proof fn lemma_field_bounds(opcode: u32)
    ensures
        fmt_of(opcode) < 32,
        func_of(opcode) < 64,
        cc_of(opcode) < 8,
        rs_of(opcode) < 32,
        rt_of(opcode) < 32,
        rd_of(opcode) < 32,
        branch_cc_of(opcode) < 4,
        opcode & 0xffff < 0x1_0000,
        -0x8000 <= branch_offset_of(opcode) < 0x8000,
{
    assert((opcode >> 21) & 0x1f < 32) by (bit_vector);
    assert(opcode & 0x3f < 64) by (bit_vector);
    assert((opcode >> 8) & 7 < 8) by (bit_vector);
    assert((opcode >> 11) & 0x1f < 32) by (bit_vector);
    assert((opcode >> 16) & 0x1f < 32) by (bit_vector);
    assert((opcode >> 6) & 0x1f < 32) by (bit_vector);
    assert((opcode >> 18) & 3 < 4) by (bit_vector);
    assert(opcode & 0xffff < 0x1_0000) by (bit_vector);
}

pub fn fmt(opcode: u32) -> (r: u32)
    ensures
        r == fmt_of(opcode),
        r < 32,
{
    proof {
        lemma_field_bounds(opcode);
    }
    (opcode >> 21) & 0x1f
}

pub fn func(opcode: u32) -> (r: u32)
    ensures
        r == func_of(opcode),
        r < 64,
{
    proof {
        lemma_field_bounds(opcode);
    }
    opcode & 0x3f
}

pub fn cc(opcode: u32) -> (r: usize)
    ensures
        r == cc_of(opcode),
        r < 8,
{
    proof {
        lemma_field_bounds(opcode);
    }
    ((opcode >> 8) & 7) as usize
}

pub fn rs(opcode: u32) -> (r: usize)
    ensures
        r == rs_of(opcode),
        r < 32,
{
    proof {
        lemma_field_bounds(opcode);
    }
    ((opcode >> 11) & 0x1f) as usize
}

pub fn rt(opcode: u32) -> (r: usize)
    ensures
        r == rt_of(opcode),
        r < 32,
{
    proof {
        lemma_field_bounds(opcode);
    }
    ((opcode >> 16) & 0x1f) as usize
}

pub fn rd(opcode: u32) -> (r: usize)
    ensures
        r == rd_of(opcode),
        r < 32,
{
    proof {
        lemma_field_bounds(opcode);
    }
    ((opcode >> 6) & 0x1f) as usize
}

pub fn branch_cc(opcode: u32) -> (r: usize)
    ensures
        r == branch_cc_of(opcode),
        r < 4,
{
    proof {
        lemma_field_bounds(opcode);
    }
    ((opcode >> 18) & 3) as usize
}

pub fn branch_likely(opcode: u32) -> (r: bool)
    ensures
        r == branch_likely_of(opcode),
{
    opcode & 0x2_0000 != 0
}

pub fn branch_on_true(opcode: u32) -> (r: bool)
    ensures
        r == branch_on_true_of(opcode),
{
    opcode & 0x1_0000 != 0
}

/// Computes the target of a branch at program counter `pc`.
pub fn branch_target(pc: u64, opcode: u32) -> (target: u64)
    ensures
        target == branch_target_of(pc, opcode),
{
    proof {
        lemma_field_bounds(opcode);
    }
    let imm: u32 = opcode & 0xffff;
    if imm >= 0x8000 {
        let back: u64 = (0x1_0000 - imm) as u64 * 4;
        pc.wrapping_sub(back)
    } else {
        pc.wrapping_add(imm as u64 * 4)
    }
}

} // verus!
