use emu_core::dispatch::Arith;
use emu_core::fault::{Fatal, Fault, Unimplemented};
use emu_core::fpu::{Action, CpuContext, Fpu, HostOp, Step};
use emu_core::ieee::Width;

const SINGLE: u32 = 16;
const DOUBLE: u32 = 17;

fn cop1(fmt: u32, ft: u32, fs: u32, fd: u32, func: u32) -> u32 {
    (0x11 << 26) | (fmt << 21) | (ft << 16) | (fs << 11) | (fd << 6) | func
}

fn compare(fmt: u32, ft: u32, fs: u32, cc: u32, func: u32) -> u32 {
    (0x11 << 26) | (fmt << 21) | (ft << 16) | (fs << 11) | (cc << 8) | func
}

fn branch(cc: u32, likely: bool, on_true: bool, imm: u32) -> u32 {
    (0x11 << 26) | (8 << 21) | (cc << 18) | ((likely as u32) << 17) | ((on_true as u32) << 16) | imm
}

fn cpu(pc: u64) -> CpuContext {
    CpuContext { regs: [0; 32], pc }
}

fn host(h: &HostOp) -> u64 {
    match h.width {
        Width::Double => {
            let a = f64::from_bits(h.fs);
            let b = f64::from_bits(h.ft);
            let r = match h.op {
                Arith::Add => a + b,
                Arith::Sub => a - b,
                Arith::Mul => a * b,
                Arith::Div => a / b,
                Arith::Sqrt => a.sqrt(),
            };
            r.to_bits()
        }
        Width::Single => {
            let a = f32::from_bits(h.fs as u32);
            let b = f32::from_bits(h.ft as u32);
            let r = match h.op {
                Arith::Add => a + b,
                Arith::Sub => a - b,
                Arith::Mul => a * b,
                Arith::Div => a / b,
                Arith::Sqrt => a.sqrt(),
            };
            r.to_bits() as u64
        }
    }
}

fn run(fpu: &mut Fpu, opcode: u32) -> Result<Action, Fault> {
    let mut c = cpu(0);
    let r = fpu.op(&mut c, opcode);
    if let Ok(Action::Host(h)) = r {
        let bits = host(&h);
        fpu.finish(h, bits);
    }
    r
}

#[test]
fn control_write_then_read_returns_the_value() {
    let mut fpu = Fpu::new("cop1");
    let mut c = cpu(0);
    c.regs[7] = 0x0123_4567_89ab_cdef;
    assert_eq!(fpu.op(&mut c, cop1(6, 7, 31, 0, 0)), Ok(Action::Done));
    assert_eq!(fpu.fcsr(), 0x0123_4567_89ab_cdef);
    assert_eq!(fpu.op(&mut c, cop1(2, 9, 31, 0, 0)), Ok(Action::Done));
    assert_eq!(c.regs[9], 0x0123_4567_89ab_cdef);
    assert_eq!(c.regs[7], 0x0123_4567_89ab_cdef);
    assert_eq!(c.pc, 0);
}

#[test]
fn control_write_leaves_the_condition_codes() {
    let mut fpu = Fpu::new("cop1");
    fpu.set_cc(3, true);
    let mut c = cpu(0);
    c.regs[1] = 0;
    assert_eq!(fpu.op(&mut c, cop1(6, 1, 31, 0, 0)), Ok(Action::Done));
    assert_eq!(fpu.fcsr(), 0);
    assert!(fpu.get_cc(3));
}

#[test]
fn control_read_of_unknown_register_is_recoverable() {
    for index in 0..31 {
        let mut fpu = Fpu::new("cop1");
        let mut c = cpu(0);
        c.regs[4] = 99;
        let fault = Unimplemented::ControlRead { index: index as usize };
        assert_eq!(fpu.op(&mut c, cop1(2, 4, index, 0, 0)), Err(Fault::Recoverable(fault)));
        assert_eq!(fault.message(), "CFC1 from unknown register");
        assert_eq!(c.regs[4], 99);
    }
}

#[test]
fn control_write_of_unknown_register_is_recoverable() {
    for index in 0..31 {
        let mut fpu = Fpu::new("cop1");
        let mut c = cpu(0);
        c.regs[4] = 99;
        let fault = Unimplemented::ControlWrite { index: index as usize };
        assert_eq!(fpu.op(&mut c, cop1(6, 4, index, 0, 0)), Err(Fault::Recoverable(fault)));
        assert_eq!(fault.message(), "CTC1 to unknown register");
        assert_eq!(fpu.fcsr(), 0);
    }
}

#[test]
fn unknown_format_is_recoverable() {
    for fmt in 0..32 {
        if [2, 6, 8, 16, 17].contains(&fmt) {
            continue;
        }
        let mut fpu = Fpu::new("cop1");
        let mut c = cpu(0);
        let fault = Unimplemented::Format { fmt };
        assert_eq!(fpu.op(&mut c, cop1(fmt, 0, 0, 0, 0)), Err(Fault::Recoverable(fault)));
        assert_eq!(fault.message(), "unimplemented COP1 opcode");
    }
}

#[test]
fn unknown_function_is_fatal() {
    for func in 0x10..0x30 {
        let mut fpu = Fpu::new("cop1");
        let fatal = Fatal::UnimplementedFunction { func };
        assert_eq!(fpu.fop(cop1(DOUBLE, 0, 0, 0, func), Width::Double), Err(fatal));
        assert_eq!(run(&mut fpu, cop1(SINGLE, 0, 0, 0, func)), Err(Fault::Fatal(fatal)));
        assert_eq!(fatal.message(), "unimplemented COP1 opcode");
    }
}

#[test]
fn branch_target_forward() {
    let mut fpu = Fpu::new("cop1");
    let mut c = cpu(0x1000);
    let r = fpu.op(&mut c, branch(0, false, false, 0x0005));
    assert_eq!(r, Ok(Action::Branch { taken: true, target: 0x1014, likely: false }));
    assert_eq!(emu_core::opcode::branch_target(0x1000, branch(0, false, false, 5)), 0x1014);
}

#[test]
fn branch_target_backward() {
    let mut fpu = Fpu::new("cop1");
    let mut c = cpu(0x1000);
    let r = fpu.op(&mut c, branch(0, false, false, 0xffff));
    assert_eq!(r, Ok(Action::Branch { taken: true, target: 0x0ffc, likely: false }));
    assert_eq!(emu_core::opcode::branch_target(0x1000, branch(0, false, false, 0xffff)), 0x0ffc);
}

#[test]
fn branch_target_wraps_around() {
    assert_eq!(emu_core::opcode::branch_target(0, branch(0, false, false, 0xffff)), u64::MAX - 3);
    assert_eq!(emu_core::opcode::branch_target(u64::MAX - 3, branch(0, false, false, 1)), 0);
    assert_eq!(
        emu_core::opcode::branch_target(0x10_0000, branch(0, false, false, 0x8000)),
        0x10_0000 - 0x2_0000
    );
    assert_eq!(
        emu_core::opcode::branch_target(0x10_0000, branch(0, false, false, 0x7fff)),
        0x10_0000 + 0x1_fffc
    );
}

#[test]
fn branch_is_taken_when_flag_matches_sense() {
    for cc in 0..4u32 {
        for flag in [false, true] {
            for on_true in [false, true] {
                for likely in [false, true] {
                    let mut fpu = Fpu::new("cop1");
                    fpu.set_cc(cc as usize, flag);
                    let mut c = cpu(0x2000);
                    let r = fpu.op(&mut c, branch(cc, likely, on_true, 2));
                    let expect = Action::Branch { taken: flag == on_true, target: 0x2008, likely };
                    assert_eq!(r, Ok(expect));
                    assert_eq!(c.pc, 0x2000);
                }
            }
        }
    }
}

#[test]
fn move_keeps_every_bit_at_double_width() {
    let patterns = [
        0u64,
        0x8000_0000_0000_0000,
        0x7ff0_0000_0000_0001,
        0xfff8_0000_dead_beef,
        0x7ff4_1234_5678_9abc,
        0x0000_0000_0000_0001,
        0xffff_ffff_ffff_ffff,
        1.5f64.to_bits(),
    ];
    for p in patterns {
        let mut fpu = Fpu::new("cop1");
        fpu.write(3, p);
        assert_eq!(run(&mut fpu, cop1(DOUBLE, 0, 3, 4, 0x06)), Ok(Action::Done));
        assert_eq!(fpu.read(4), p);
        assert_eq!(fpu.read(3), p);
    }
}

#[test]
fn move_keeps_the_low_word_at_single_width() {
    let patterns = [0u64, 0x8000_0000, 0x7f80_0001, 0xffc1_2345, 0xdead_beef_7fa0_0001];
    for p in patterns {
        let mut fpu = Fpu::new("cop1");
        fpu.write(3, p);
        fpu.write(4, u64::MAX);
        assert_eq!(run(&mut fpu, cop1(SINGLE, 0, 3, 4, 0x06)), Ok(Action::Done));
        assert_eq!(fpu.read(4), p & 0xffff_ffff);
    }
}

#[test]
fn absolute_value_and_negation() {
    let mut fpu = Fpu::new("cop1");
    fpu.write(1, (-2.5f64).to_bits());
    assert_eq!(run(&mut fpu, cop1(DOUBLE, 0, 1, 2, 0x05)), Ok(Action::Done));
    assert_eq!(fpu.read(2), 2.5f64.to_bits());
    assert_eq!(run(&mut fpu, cop1(DOUBLE, 0, 2, 3, 0x07)), Ok(Action::Done));
    assert_eq!(fpu.read(3), (-2.5f64).to_bits());
    fpu.write(1, (-0.0f32).to_bits() as u64);
    assert_eq!(run(&mut fpu, cop1(SINGLE, 0, 1, 2, 0x05)), Ok(Action::Done));
    assert_eq!(fpu.read(2), 0);
    assert_eq!(run(&mut fpu, cop1(SINGLE, 0, 2, 3, 0x07)), Ok(Action::Done));
    assert_eq!(fpu.read(3), 0x8000_0000);
    // a NaN keeps its payload
    fpu.write(1, 0xfff4_0000_0000_0123);
    assert_eq!(run(&mut fpu, cop1(DOUBLE, 0, 1, 2, 0x05)), Ok(Action::Done));
    assert_eq!(fpu.read(2), 0x7ff4_0000_0000_0123);
    assert_eq!(run(&mut fpu, cop1(DOUBLE, 0, 2, 3, 0x07)), Ok(Action::Done));
    assert_eq!(fpu.read(3), 0xfff4_0000_0000_0123);
}

#[test]
fn sign_operations_agree_with_the_host() {
    let values = [0.0f64, -0.0, 1.0, -1.0, 3.75, -1e300, f64::INFINITY, f64::NEG_INFINITY, 5e-324];
    for x in values {
        assert_eq!(emu_core::ieee::abs(Width::Double, x.to_bits()), x.abs().to_bits());
        assert_eq!(emu_core::ieee::neg(Width::Double, x.to_bits()), (-x).to_bits());
        let y = x as f32;
        assert_eq!(emu_core::ieee::abs(Width::Single, y.to_bits() as u64), y.abs().to_bits() as u64);
        assert_eq!(emu_core::ieee::neg(Width::Single, y.to_bits() as u64), (-y).to_bits() as u64);
    }
}

#[test]
fn arithmetic_is_handed_to_the_host() {
    let mut fpu = Fpu::new("cop1");
    fpu.write(1, 1.5f64.to_bits());
    fpu.write(2, 2.25f64.to_bits());
    let r = fpu.fop(cop1(DOUBLE, 2, 1, 3, 0x00), Width::Double);
    let h = HostOp {
        op: Arith::Add,
        width: Width::Double,
        fs: 1.5f64.to_bits(),
        ft: 2.25f64.to_bits(),
        fd: 3,
    };
    assert_eq!(r, Ok(Step::Host(h)));
    assert_eq!(fpu.read(3), 0);
    fpu.finish(h, 3.75f64.to_bits());
    assert_eq!(fpu.read(3), 3.75f64.to_bits());
    let kinds = [Arith::Add, Arith::Sub, Arith::Mul, Arith::Div, Arith::Sqrt];
    for (func, kind) in kinds.into_iter().enumerate() {
        let r = fpu.fop(cop1(SINGLE, 2, 1, 3, func as u32), Width::Single);
        let h = HostOp {
            op: kind,
            width: Width::Single,
            fs: 1.5f64.to_bits() & 0xffff_ffff,
            ft: 2.25f64.to_bits() & 0xffff_ffff,
            fd: 3,
        };
        assert_eq!(r, Ok(Step::Host(h)));
    }
}

#[test]
fn double_arithmetic_matches_the_reference() {
    let pairs = [
        (1.5f64, 2.25f64),
        (0.1, 0.2),
        (-0.0, 0.0),
        (0.0, -0.0),
        (1.0, 0.0),
        (-1.0, 0.0),
        (f64::MAX, f64::MAX),
        (5e-324, 2.0),
        (1e308, 10.0),
        (9.0, 3.0),
    ];
    for (a, b) in pairs {
        let expected = [a + b, a - b, a * b, a / b, a.sqrt()];
        for (func, want) in expected.into_iter().enumerate() {
            let mut fpu = Fpu::new("cop1");
            fpu.write(1, a.to_bits());
            fpu.write(2, b.to_bits());
            assert_eq!(run(&mut fpu, cop1(DOUBLE, 2, 1, 3, func as u32)), {
                let kinds = [Arith::Add, Arith::Sub, Arith::Mul, Arith::Div, Arith::Sqrt];
                Ok(Action::Host(HostOp {
                    op: kinds[func],
                    width: Width::Double,
                    fs: a.to_bits(),
                    ft: b.to_bits(),
                    fd: 3,
                }))
            });
            assert_eq!(fpu.read(3), want.to_bits());
            assert_eq!(fpu.read(1), a.to_bits());
            assert_eq!(fpu.read(2), b.to_bits());
        }
    }
}

#[test]
fn single_arithmetic_matches_the_reference() {
    let pairs = [(1.5f32, 2.25f32), (0.1, 0.2), (-0.0, 0.0), (1.0, 0.0), (f32::MAX, f32::MAX)];
    for (a, b) in pairs {
        let expected = [a + b, a - b, a * b, a / b, a.sqrt()];
        for (func, want) in expected.into_iter().enumerate() {
            let mut fpu = Fpu::new("cop1");
            // the upper halves of the cells are not part of the operands
            fpu.write(1, a.to_bits() as u64 | 0xdead_beef_0000_0000);
            fpu.write(2, b.to_bits() as u64 | 0x1234_5678_0000_0000);
            fpu.write(3, u64::MAX);
            assert!(matches!(
                run(&mut fpu, cop1(SINGLE, 2, 1, 3, func as u32)),
                Ok(Action::Host(_))
            ));
            assert_eq!(fpu.read(3), want.to_bits() as u64);
        }
    }
}

#[test]
fn finish_stores_the_result_at_its_width() {
    let mut fpu = Fpu::new("cop1");
    let h = HostOp { op: Arith::Mul, width: Width::Single, fs: 0, ft: 0, fd: 9 };
    fpu.finish(h, 0xaaaa_bbbb_cccc_dddd);
    assert_eq!(fpu.read(9), 0xcccc_dddd);
    let h = HostOp { op: Arith::Mul, width: Width::Double, fs: 0, ft: 0, fd: 9 };
    fpu.finish(h, 0xaaaa_bbbb_cccc_dddd);
    assert_eq!(fpu.read(9), 0xaaaa_bbbb_cccc_dddd);
    fpu.set_fd(cop1(SINGLE, 0, 0, 10, 0), Width::Single, 0x1_0000_0001);
    assert_eq!(fpu.read(10), 1);
}

#[test]
fn operands_are_read_at_the_instruction_width() {
    let mut fpu = Fpu::new("cop1");
    fpu.write(1, 0x1111_2222_3333_4444);
    fpu.write(2, 0x5555_6666_7777_8888);
    let opcode = cop1(SINGLE, 2, 1, 0, 0);
    assert_eq!(fpu.fs(opcode, Width::Single), 0x3333_4444);
    assert_eq!(fpu.ft(opcode, Width::Single), 0x7777_8888);
    assert_eq!(fpu.fs(opcode, Width::Double), 0x1111_2222_3333_4444);
    assert_eq!(fpu.ft(opcode, Width::Double), 0x5555_6666_7777_8888);
}

#[test]
fn convert_instructions_write_the_integer() {
    // (function selector, source, expected cell)
    let cases: [(u32, f64, u64); 8] = [
        (0x08, 3.5, 4),
        (0x09, 3.9, 3),
        (0x0a, -1.2, -1i64 as u64),
        (0x0b, -1.2, -2i64 as u64),
        (0x0c, 3.5, 4),
        (0x0d, 3.9, 3),
        (0x0e, -1.2, -1i32 as u64),
        (0x0f, -1.2, -2i32 as u64),
    ];
    for (func, x, cell) in cases {
        let mut fpu = Fpu::new("cop1");
        fpu.write(1, x.to_bits());
        assert_eq!(run(&mut fpu, cop1(DOUBLE, 0, 1, 2, func)), Ok(Action::Done));
        assert_eq!(fpu.read(2), cell);
        let mut fpu = Fpu::new("cop1");
        fpu.write(1, (x as f32).to_bits() as u64);
        assert_eq!(run(&mut fpu, cop1(SINGLE, 0, 1, 2, func)), Ok(Action::Done));
        assert_eq!(fpu.read(2), cell);
    }
}

#[test]
fn convert_out_of_range_is_fatal_and_changes_nothing() {
    let mut fpu = Fpu::new("cop1");
    fpu.write(1, 1e10f64.to_bits());
    fpu.write(2, 42);
    let fatal = Fault::Fatal(Fatal::ApproxOutOfRange);
    assert_eq!(run(&mut fpu, cop1(DOUBLE, 0, 1, 2, 0x0d)), Err(fatal));
    assert_eq!(fpu.read(2), 42);
    assert_eq!(run(&mut fpu, cop1(DOUBLE, 0, 1, 2, 0x09)), Ok(Action::Done));
    assert_eq!(fpu.read(2), 10_000_000_000);
    fpu.write(1, f64::NAN.to_bits());
    fpu.write(2, 42);
    assert_eq!(run(&mut fpu, cop1(DOUBLE, 0, 1, 2, 0x08)), Err(fatal));
    assert_eq!(fpu.read(2), 42);
    assert_eq!(Fatal::ApproxOutOfRange.message(), "approx out of range");
}

#[test]
fn compare_equal_not_signaling() {
    let mut fpu = Fpu::new("cop1");
    fpu.write(1, 1.0f64.to_bits());
    fpu.write(2, 1.0f64.to_bits());
    fpu.write(3, 2.0f64.to_bits());
    assert_eq!(run(&mut fpu, compare(DOUBLE, 2, 1, 0, 0x32)), Ok(Action::Done));
    assert!(fpu.get_cc(0));
    assert_eq!(run(&mut fpu, compare(DOUBLE, 3, 1, 0, 0x32)), Ok(Action::Done));
    assert!(!fpu.get_cc(0));
}

#[test]
fn compare_unordered_matches_when_asked() {
    let mut fpu = Fpu::new("cop1");
    fpu.write(1, f64::NAN.to_bits());
    fpu.write(2, 1.0f64.to_bits());
    // "equal", quiet: a NaN is not equal
    fpu.set_cc(5, true);
    assert_eq!(run(&mut fpu, compare(DOUBLE, 2, 1, 5, 0x32)), Ok(Action::Done));
    assert!(!fpu.get_cc(5));
    // "unordered or equal", quiet
    assert_eq!(run(&mut fpu, compare(DOUBLE, 2, 1, 5, 0x33)), Ok(Action::Done));
    assert!(fpu.get_cc(5));
    // "unordered", quiet
    fpu.set_cc(5, false);
    assert_eq!(run(&mut fpu, compare(DOUBLE, 2, 1, 5, 0x31)), Ok(Action::Done));
    assert!(fpu.get_cc(5));
}

#[test]
fn compare_signaling_on_nan_is_fatal() {
    for func in 0x38..0x40 {
        let mut fpu = Fpu::new("cop1");
        fpu.write(1, f64::NAN.to_bits());
        fpu.write(2, 1.0f64.to_bits());
        fpu.set_cc(1, true);
        let before = (fpu.fccr(), fpu.fcsr());
        let fatal = Fault::Fatal(Fatal::SignalingNan);
        assert_eq!(run(&mut fpu, compare(DOUBLE, 2, 1, 1, func)), Err(fatal));
        assert_eq!(run(&mut fpu, compare(DOUBLE, 1, 2, 1, func)), Err(fatal));
        assert_eq!((fpu.fccr(), fpu.fcsr()), before);
        // ordered operands do not signal
        assert_eq!(run(&mut fpu, compare(DOUBLE, 2, 2, 1, func)), Ok(Action::Done));
    }
    assert_eq!(Fatal::SignalingNan.message(), "signal FPU NaN in comparison");
}

#[test]
fn compare_writes_the_selected_flag_and_its_mirror() {
    for cc in 0..8u32 {
        let mut fpu = Fpu::new("cop1");
        fpu.write(1, 1.0f32.to_bits() as u64);
        fpu.write(2, 2.0f32.to_bits() as u64);
        // "less than"
        assert_eq!(run(&mut fpu, compare(SINGLE, 2, 1, cc, 0x34)), Ok(Action::Done));
        assert_eq!(fpu.fccr(), 1 << cc);
        let pos = if cc == 0 { 23 } else { cc + 24 };
        assert_eq!(fpu.fcsr(), 1 << pos);
    }
}
