//! The coprocessor: its register and control state, the dispatcher of the
//! arithmetic instruction class, and the interface that the CPU drives.

use vstd::prelude::*;
use crate::disasm::{DecodedInsn, mnemonic_of, operands_of};
use crate::dispatch::{Arith, Effect, effect_of, operation, operation_of, perform};
use crate::fault::{Fatal, Fault, Unimplemented};
use crate::ieee::{Width, from_u64bits, to_u64bits};
use crate::opcode::{
    branch_cc, branch_cc_of, branch_likely, branch_likely_of, branch_on_true, branch_on_true_of,
    branch_target, branch_target_of, cc, cc_of, fmt, fmt_of, func, func_of, rd, rd_of, rs, rs_of,
    rt, rt_of,
};

verus! {

/// Whether bit `pos` of `word` is set.
pub open spec fn bit(word: u64, pos: u64) -> bool {
    word & (1u64 << pos) != 0
}

/// `word` with bit `pos` made equal to `val` and every other bit kept.
pub open spec fn with_bit(word: u64, pos: u64, val: bool) -> u64 {
    if val {
        word | (1u64 << pos)
    } else {
        word & !(1u64 << pos)
    }
}

/// Where the control/status register mirrors condition flag `cc`: flag 0 at
/// bit 23, flags 1 to 7 at bits 25 to 31. Bit 24 lies between them and
/// belongs to no flag.
pub open spec fn fcsr_position(cc: usize) -> u64 {
    if cc == 0 {
        23
    } else {
        (cc + 24) as u64
    }
}

/// Writing a bit and reading it back gives what was written, and no other bit
/// changes.
pub proof fn lemma_with_bit(word: u64, pos: u64, val: bool)
    requires
        pos < 64,
    ensures
        bit(with_bit(word, pos, val), pos) == val,
        forall|other: u64|
            other < 64 && other != pos ==> bit(with_bit(word, pos, val), other) == bit(word, other),
{
    assert((word | (1u64 << pos)) & (1u64 << pos) != 0 && (word & !(1u64 << pos)) & (1u64 << pos)
        == 0) by (bit_vector)
        requires
            pos < 64,
    ;
    assert forall|other: u64| other < 64 && other != pos implies bit(
        with_bit(word, pos, val),
        other,
    ) == bit(word, other) by {
        assert((word | (1u64 << pos)) & (1u64 << other) == word & (1u64 << other) && (word & !(1u64
            << pos)) & (1u64 << other) == word & (1u64 << other)) by (bit_vector)
            requires
                pos < 64,
                other < 64,
                other != pos,
        ;
    }
}

/// What the coprocessor holds, as plain values.
pub struct FpuState {
    /// The 32 register cells, 64 raw bits each.
    pub regs: Seq<u64>,
    /// The compact condition-code register: flag `cc` at bit `cc`.
    pub fccr: u64,
    /// The control/status register.
    pub fcsr: u64,
}

impl FpuState {
    /// Condition flag `cc`, as the compact register has it.
    pub open spec fn condition(self, cc: usize) -> bool {
        bit(self.fccr, cc as u64)
    }

    /// The mirror of condition flag `cc` in the control/status register.
    pub open spec fn mirrored_condition(self, cc: usize) -> bool {
        bit(self.fcsr, fcsr_position(cc))
    }

    /// This state after condition flag `cc` has been written.
    pub open spec fn with_condition(self, cc: usize, val: bool) -> FpuState {
        FpuState {
            regs: self.regs,
            fccr: with_bit(self.fccr, cc as u64, val),
            fcsr: with_bit(self.fcsr, fcsr_position(cc), val),
        }
    }

    /// This state after register `idx` has been written.
    pub open spec fn with_reg(self, idx: usize, cell: u64) -> FpuState {
        FpuState { regs: self.regs.update(idx as int, cell), fccr: self.fccr, fcsr: self.fcsr }
    }

    /// This state after the control/status register has been written.
    pub open spec fn with_fcsr(self, value: u64) -> FpuState {
        FpuState { regs: self.regs, fccr: self.fccr, fcsr: value }
    }
}

/// An operation that the host's floating-point unit has to compute: the two
/// operands as bit patterns of the given width, and the register that takes
/// the result.
#[derive(Clone, Copy, Debug, PartialEq, Eq, Structural)]
pub struct HostOp {
    pub op: Arith,
    pub width: Width,
    /// The source operand.
    pub fs: u64,
    /// The target operand; the square root does not read it.
    pub ft: u64,
    /// Index of the destination register.
    pub fd: usize,
}

/// How an arithmetic-class instruction ended.
#[derive(Clone, Copy, Debug, PartialEq, Eq, Structural)]
pub enum Step {
    /// The instruction is complete.
    Done,
    /// The host computes the operation, and `Fpu::finish` stores the result.
    Host(HostOp),
}

/// What is left to do after an instruction, outside the coprocessor.
#[derive(Clone, Copy, Debug, PartialEq, Eq, Structural)]
pub enum Action {
    /// Nothing.
    Done,
    /// The CPU performs the branch, with its delay-slot bookkeeping.
    Branch { taken: bool, target: u64, likely: bool },
    /// The host computes the operation, and `Fpu::finish` stores the result.
    Host(HostOp),
}

/// What the coprocessor reads and writes of the CPU: the 32 general
/// registers and the program counter.
pub struct CpuContext {
    pub regs: [u64; 32],
    pub pc: u64,
}

/// The outcome of an arithmetic-class instruction with opcode `opcode`, read
/// at width `w`, in state `s`: the state after it and what is left to do, or
/// the fatal condition.
pub open spec fn fop_of(s: FpuState, opcode: u32, w: Width) -> Result<(FpuState, Step), Fatal> {
    match operation_of(func_of(opcode)) {
        None => Err(Fatal::UnimplementedFunction { func: func_of(opcode) }),
        Some(op) => {
            let fs = s.regs[rs_of(opcode) as int];
            let ft = s.regs[rt_of(opcode) as int];
            match effect_of(op, w, fs, ft) {
                Err(fatal) => Err(fatal),
                Ok(Effect::Write(cell)) => Ok((s.with_reg(rd_of(opcode), cell), Step::Done)),
                Ok(Effect::Condition(c)) => Ok((s.with_condition(cc_of(opcode), c), Step::Done)),
                Ok(Effect::Host(a)) => Ok(
                    (
                        s,
                        Step::Host(
                            HostOp {
                                op: a,
                                width: w,
                                fs: fs & w.mask(),
                                ft: ft & w.mask(),
                                fd: rd_of(opcode),
                            },
                        ),
                    ),
                ),
            }
        },
    }
}

/// The outcome of a coprocessor instruction: the state after it, the general
/// registers after it, and what is left to do; or the fault.
pub open spec fn op_of(s: FpuState, gprs: Seq<u64>, pc: u64, opcode: u32) -> Result<
    (FpuState, Seq<u64>, Action),
    Fault,
> {
    let format = fmt_of(opcode);
    if format == 2 {
        if rs_of(opcode) == 31 {
            Ok((s, gprs.update(rt_of(opcode) as int, s.fcsr), Action::Done))
        } else {
            Err(Fault::Recoverable(Unimplemented::ControlRead { index: rs_of(opcode) }))
        }
    } else if format == 6 {
        if rs_of(opcode) == 31 {
            Ok((s.with_fcsr(gprs[rt_of(opcode) as int]), gprs, Action::Done))
        } else {
            Err(Fault::Recoverable(Unimplemented::ControlWrite { index: rs_of(opcode) }))
        }
    } else if format == 8 {
        Ok(
            (
                s,
                gprs,
                Action::Branch {
                    taken: s.condition(branch_cc_of(opcode)) == branch_on_true_of(opcode),
                    target: branch_target_of(pc, opcode),
                    likely: branch_likely_of(opcode),
                },
            ),
        )
    } else if format == 16 || format == 17 {
        let w = if format == 16 {
            Width::Single
        } else {
            Width::Double
        };
        match fop_of(s, opcode, w) {
            Err(fatal) => Err(Fault::Fatal(fatal)),
            Ok((post, Step::Done)) => Ok((post, gprs, Action::Done)),
            Ok((post, Step::Host(h))) => Ok((post, gprs, Action::Host(h))),
        }
    } else {
        Err(Fault::Recoverable(Unimplemented::Format { fmt: format }))
    }
}

/// The floating-point coprocessor: 32 raw register cells, the condition
/// codes, the control/status register, and three reserved registers that no
/// instruction touches.
pub struct Fpu {
    regs: [u64; 32],
    fir: u64,
    fccr: u64,
    fexr: u64,
    fenr: u64,
    fcsr: u64,
    name: &'static str,
}

impl View for Fpu {
    type V = FpuState;

    closed spec fn view(&self) -> FpuState {
        FpuState { regs: self.regs@, fccr: self.fccr, fcsr: self.fcsr }
    }
}

impl Fpu {
    /// The reserved registers stay zero.
    #[verifier::type_invariant]
    spec fn reserved_are_zero(self) -> bool {
        self.fir == 0 && self.fexr == 0 && self.fenr == 0
    }

    /// The name given at creation.
    pub closed spec fn name_of(self) -> &'static str {
        self.name
    }

    /// A coprocessor with every register, flag and control bit cleared.
    pub fn new(name: &'static str) -> (fpu: Box<Fpu>)
        ensures
            fpu@.regs == Seq::new(32, |i: int| 0u64),
            fpu@.fccr == 0,
            fpu@.fcsr == 0,
            fpu.name_of() == name,
    {
        let fpu = Fpu { regs: [0u64;32], fir: 0, fccr: 0, fexr: 0, fenr: 0, fcsr: 0, name };
        assert(fpu.regs@ =~= Seq::new(32, |i: int| 0u64));
        Box::new(fpu)
    }

    pub fn name(&self) -> (r: &'static str)
        ensures
            r == self.name_of(),
    {
        self.name
    }

    /// The register file always has 32 cells.
    pub proof fn lemma_regs_len(&self)
        ensures
            self@.regs.len() == 32,
    {
    }

    /// Register `idx`, widened to the integer type that all coprocessors
    /// share.
    pub fn reg(&self, idx: usize) -> (r: u128)
        requires
            idx < 32,
        ensures
            r == self@.regs[idx as int],
    {
        self.regs[idx] as u128
    }

    /// Writes the low 64 bits of `val` into register `idx`.
    pub fn set_reg(&mut self, idx: usize, val: u128)
        requires
            idx < 32,
        ensures
            final(self)@ == old(self)@.with_reg(idx, (val % 0x1_0000_0000_0000_0000) as u64),
            final(self).name_of() == old(self).name_of(),
    {
        proof {
            use_type_invariant(&*self);
        }
        let low = val & 0xffff_ffff_ffff_ffff;
        assert(low == val % 0x1_0000_0000_0000_0000 && low <= 0xffff_ffff_ffff_ffff) by (bit_vector)
            requires
                low == val & 0xffff_ffff_ffff_ffff,
        ;
        self.regs[idx] = low as u64;
    }

    /// The raw bits of register `idx`.
    pub fn read(&self, idx: usize) -> (r: u64)
        requires
            idx < 32,
        ensures
            r == self@.regs[idx as int],
    {
        self.regs[idx]
    }

    /// Stores raw bits into register `idx`.
    pub fn write(&mut self, idx: usize, cell: u64)
        requires
            idx < 32,
        ensures
            final(self)@ == old(self)@.with_reg(idx, cell),
            final(self).name_of() == old(self).name_of(),
    {
        proof {
            use_type_invariant(&*self);
        }
        self.regs[idx] = cell;
    }

    /// The reserved registers: implementation id, exception and enable. No
    /// instruction reads or writes them, and they hold zero for good.
    pub fn reserved(&self) -> (r: (u64, u64, u64))
        ensures
            r == (0u64, 0u64, 0u64),
    {
        proof {
            use_type_invariant(self);
        }
        (self.fir, self.fexr, self.fenr)
    }

    /// The control/status register.
    pub fn fcsr(&self) -> (r: u64)
        ensures
            r == self@.fcsr,
    {
        self.fcsr
    }

    /// The compact condition-code register.
    pub fn fccr(&self) -> (r: u64)
        ensures
            r == self@.fccr,
    {
        self.fccr
    }

    /// Writes condition flag `cc`, in the compact register and in its mirror
    /// in the control/status register. No other flag, no other control bit
    /// and no register changes.
    pub fn set_cc(&mut self, cc: usize, val: bool)
        requires
            cc < 8,
        ensures
            final(self)@ == old(self)@.with_condition(cc, val),
            final(self)@.condition(cc) == val,
            final(self)@.mirrored_condition(cc) == val,
            forall|other: usize|
                other < 8 && other != cc ==> final(self)@.condition(other) == old(self)@.condition(
                    other,
                ) && final(self)@.mirrored_condition(other) == old(self)@.mirrored_condition(other),
            final(self).name_of() == old(self).name_of(),
    {
        let pos: u64 = if cc == 0 {
            23
        } else {
            cc as u64 + 24
        };
        proof {
            use_type_invariant(&*self);
            lemma_with_bit(self.fccr, cc as u64, val);
            lemma_with_bit(self.fcsr, pos, val);
            assert forall|other: usize| other < 8 && other != cc implies fcsr_position(other)
                != pos && fcsr_position(other) < 64 by {}
        }
        if val {
            self.fccr = self.fccr | (1u64 << (cc as u64));
            self.fcsr = self.fcsr | (1u64 << pos);
        } else {
            self.fccr = self.fccr & !(1u64 << (cc as u64));
            self.fcsr = self.fcsr & !(1u64 << pos);
        }
    }

    /// Reads condition flag `cc` from the compact register, which is the one
    /// that counts.
    pub fn get_cc(&self, cc: usize) -> (r: bool)
        requires
            cc < 8,
        ensures
            r == self@.condition(cc),
    {
        (self.fccr & (1u64 << (cc as u64))) != 0
    }

    /// The source operand of an instruction, read at width `w`.
    pub fn fs(&self, opcode: u32, w: Width) -> (v: u64)
        ensures
            v == self@.regs[rs_of(opcode) as int] & w.mask(),
    {
        from_u64bits(w, self.regs[rs(opcode)])
    }

    /// The target operand of an instruction, read at width `w`.
    pub fn ft(&self, opcode: u32, w: Width) -> (v: u64)
        ensures
            v == self@.regs[rt_of(opcode) as int] & w.mask(),
    {
        from_u64bits(w, self.regs[rt(opcode)])
    }

    /// Stores the value `v` of width `w` in the destination register of an
    /// instruction, zero-extended to the cell.
    pub fn set_fd(&mut self, opcode: u32, w: Width, v: u64)
        ensures
            final(self)@ == old(self)@.with_reg(rd_of(opcode), v & w.mask()),
            final(self).name_of() == old(self).name_of(),
    {
        let cell = to_u64bits(w, v);
        self.write(rd(opcode), cell);
    }

    /// Stores what the host computed for `h`: the result, as a bit pattern
    /// of the operation's width, goes to the destination register.
    pub fn finish(&mut self, h: HostOp, result: u64)
        requires
            h.fd < 32,
        ensures
            final(self)@ == old(self)@.with_reg(h.fd, result & h.width.mask()),
            final(self).name_of() == old(self).name_of(),
    {
        let cell = to_u64bits(h.width, result);
        self.write(h.fd, cell);
    }

    /// Executes an arithmetic-class instruction at width `w`.
    ///
    /// Sign operations, moves, conversions and comparisons are carried out.
    /// For the operations of the host's floating-point unit the state is left
    /// as it is and the operation is handed back. On a fatal condition the
    /// state is left as it is.
    pub fn fop(&mut self, opcode: u32, w: Width) -> (r: Result<Step, Fatal>)
        ensures
            match fop_of(old(self)@, opcode, w) {
                Ok((post, step)) => r == Ok::<Step, Fatal>(step) && final(self)@ == post,
                Err(fatal) => r == Err::<Step, Fatal>(fatal) && final(self)@ == old(self)@,
            },
            final(self).name_of() == old(self).name_of(),
    {
        let function = func(opcode);
        let op = match operation(function) {
            None => {
                return Err(Fatal::UnimplementedFunction { func: function });
            },
            Some(op) => op,
        };
        let fs = self.regs[rs(opcode)];
        let ft = self.regs[rt(opcode)];
        match perform(op, w, fs, ft) {
            Err(fatal) => Err(fatal),
            Ok(Effect::Write(cell)) => {
                self.write(rd(opcode), cell);
                Ok(Step::Done)
            },
            Ok(Effect::Condition(c)) => {
                self.set_cc(cc(opcode), c);
                Ok(Step::Done)
            },
            Ok(Effect::Host(a)) => Ok(
                Step::Host(
                    HostOp {
                        op: a,
                        width: w,
                        fs: from_u64bits(w, fs),
                        ft: from_u64bits(w, ft),
                        fd: rd(opcode),
                    },
                ),
            ),
        }
    }

    /// Decodes the instruction with opcode `opcode` at address `pc`, for
    /// display. The state is not read.
    pub fn decode(&self, opcode: u32, pc: u64) -> (d: DecodedInsn)
        ensures
            d.name@ == mnemonic_of(opcode),
            d.args@ == operands_of(opcode, pc),
    {
        crate::disasm::decode(opcode, pc)
    }

    /// Executes a coprocessor instruction.
    ///
    /// Format 2 copies the control/status register to a general register,
    /// format 6 copies a general register to it; only control register 31
    /// exists. Format 8 decides a branch on a condition flag and leaves the
    /// transfer to the CPU. Formats 16 and 17 are the arithmetic class in
    /// single and double width. Everything else is reported as unimplemented.
    /// On a fault nothing changes.
    pub fn op(&mut self, cpu: &mut CpuContext, opcode: u32) -> (r: Result<Action, Fault>)
        ensures
            match op_of(old(self)@, old(cpu).regs@, old(cpu).pc, opcode) {
                Ok((post, gprs, action)) => r == Ok::<Action, Fault>(action) && final(self)@ == post
                    && final(cpu).regs@ == gprs,
                Err(fault) => r == Err::<Action, Fault>(fault) && final(self)@ == old(self)@
                    && final(cpu).regs@ == old(cpu).regs@,
            },
            final(cpu).pc == old(cpu).pc,
            final(self).name_of() == old(self).name_of(),
    {
        proof {
            use_type_invariant(&*self);
        }
        let format = fmt(opcode);
        let gpr = rt(opcode);
        let control = rs(opcode);
        if format == 2 {
            if control == 31 {
                cpu.regs[gpr] = self.fcsr;
                Ok(Action::Done)
            } else {
                Err(Fault::Recoverable(Unimplemented::ControlRead { index: control }))
            }
        } else if format == 6 {
            if control == 31 {
                self.fcsr = cpu.regs[gpr];
                Ok(Action::Done)
            } else {
                Err(Fault::Recoverable(Unimplemented::ControlWrite { index: control }))
            }
        } else if format == 8 {
            let target = branch_target(cpu.pc, opcode);
            let flag = self.get_cc(branch_cc(opcode));
            let taken = flag == branch_on_true(opcode);
            Ok(Action::Branch { taken, target, likely: branch_likely(opcode) })
        } else if format == 16 || format == 17 {
            let w = if format == 16 {
                Width::Single
            } else {
                Width::Double
            };
            match self.fop(opcode, w) {
                Err(fatal) => Err(Fault::Fatal(fatal)),
                Ok(Step::Done) => Ok(Action::Done),
                Ok(Step::Host(h)) => Ok(Action::Host(h)),
            }
        } else {
            Err(Fault::Recoverable(Unimplemented::Format { fmt: format }))
        }
    }
}

/// A move keeps the bit pattern that it reads: the destination cell gets the
/// source cell's bits of the instruction's width, unchanged, whatever they
/// stand for (a NaN with its payload, a zero with its sign), and nothing else
/// changes. At double width that is the whole cell.
pub proof fn lemma_move_keeps_bits(s: FpuState, opcode: u32, w: Width)
    requires
        func_of(opcode) == 0x06,
    ensures
        fop_of(s, opcode, w) == Ok::<(FpuState, Step), Fatal>(
            (s.with_reg(rd_of(opcode), s.regs[rs_of(opcode) as int] & w.mask()), Step::Done),
        ),
        w == Width::Double ==> s.regs[rs_of(opcode) as int] & w.mask() == s.regs[rs_of(
            opcode,
        ) as int],
{
    let cell = s.regs[rs_of(opcode) as int];
    assert(cell & 0xffff_ffff_ffff_ffff == cell) by (bit_vector);
}

/// What a control-register write stored, a later control-register read
/// returns: after a write of general register `rt(write)` to control
/// register 31, a read of control register 31 puts exactly that value into
/// general register `rt(read)`.
pub proof fn lemma_control_written_is_read(
    s: FpuState,
    gprs: Seq<u64>,
    pc: u64,
    write: u32,
    read: u32,
)
    requires
        gprs.len() == 32,
        fmt_of(write) == 6,
        rs_of(write) == 31,
        fmt_of(read) == 2,
        rs_of(read) == 31,
    ensures
        ({
            let x = gprs[rt_of(write) as int];
            let written = s.with_fcsr(x);
            let read_back = gprs.update(rt_of(read) as int, x);
            &&& op_of(s, gprs, pc, write) == Ok::<(FpuState, Seq<u64>, Action), Fault>(
                (written, gprs, Action::Done),
            )
            &&& op_of(written, gprs, pc, read) == Ok::<(FpuState, Seq<u64>, Action), Fault>(
                (written, read_back, Action::Done),
            )
            &&& written.fcsr == x
            &&& read_back[rt_of(read) as int] == x
        }),
{
    crate::opcode::lemma_field_bounds(read);
    crate::opcode::lemma_field_bounds(write);
}

/// A control-register transfer that names a register other than 31 is a
/// recoverable condition, and so is a format that is not implemented.
pub proof fn lemma_unknown_is_recoverable(s: FpuState, gprs: Seq<u64>, pc: u64, opcode: u32)
    ensures
        fmt_of(opcode) == 2 && rs_of(opcode) != 31 ==> op_of(s, gprs, pc, opcode) == Err::<
            (FpuState, Seq<u64>, Action),
            Fault,
        >(Fault::Recoverable(Unimplemented::ControlRead { index: rs_of(opcode) })),
        fmt_of(opcode) == 6 && rs_of(opcode) != 31 ==> op_of(s, gprs, pc, opcode) == Err::<
            (FpuState, Seq<u64>, Action),
            Fault,
        >(Fault::Recoverable(Unimplemented::ControlWrite { index: rs_of(opcode) })),
        fmt_of(opcode) != 2 && fmt_of(opcode) != 6 && fmt_of(opcode) != 8 && fmt_of(opcode) != 16
            && fmt_of(opcode) != 17 ==> op_of(s, gprs, pc, opcode) == Err::<
            (FpuState, Seq<u64>, Action),
            Fault,
        >(Fault::Recoverable(Unimplemented::Format { fmt: fmt_of(opcode) })),
{
}

/// A flag that was written reads back as written, in the compact register and
/// in its mirror in the control/status register, for each of the 8 flags.
pub proof fn lemma_condition_written_is_read(s: FpuState, cc: usize, val: bool)
    requires
        cc < 8,
    ensures
        s.with_condition(cc, val).condition(cc) == val,
        s.with_condition(cc, val).mirrored_condition(cc) == val,
        fcsr_position(cc) == (if cc > 0 {
            cc + 24
        } else {
            cc + 23
        }),
{
    lemma_with_bit(s.fccr, cc as u64, val);
    lemma_with_bit(s.fcsr, fcsr_position(cc), val);
}

} // verus!
