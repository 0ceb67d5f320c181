//! The two classes of failure.
//!
//! A fatal condition has no defined emulated result: the instruction is
//! refused and the state is left as it was. A recoverable condition is handed
//! to whoever drives the coprocessor, to be reported and acted on.

use vstd::prelude::*;

verus! {

/// A condition with no defined emulated result.
#[derive(Clone, Copy, Debug, PartialEq, Eq, Structural)]
pub enum Fatal {
    /// The function selector names no implemented operation.
    UnimplementedFunction { func: u32 },
    /// The rounded value does not fit the integer width asked for, or the
    /// source is an infinity or a NaN.
    ApproxOutOfRange,
    /// A signaling comparison met a NaN operand.
    SignalingNan,
}

/// A condition that is reported and leaves the emulation running.
#[derive(Clone, Copy, Debug, PartialEq, Eq, Structural)]
pub enum Unimplemented {
    /// A control-register read named a register other than 31.
    ControlRead { index: usize },
    /// A control-register write named a register other than 31.
    ControlWrite { index: usize },
    /// The format field names no implemented instruction class.
    Format { fmt: u32 },
}

/// Either class of failure.
#[derive(Clone, Copy, Debug, PartialEq, Eq, Structural)]
pub enum Fault {
    Recoverable(Unimplemented),
    Fatal(Fatal),
}

impl Fatal {
    pub open spec fn message_of(self) -> Seq<char> {
        match self {
            Fatal::UnimplementedFunction { .. } => "unimplemented COP1 opcode"@,
            Fatal::ApproxOutOfRange => "approx out of range"@,
            Fatal::SignalingNan => "signal FPU NaN in comparison"@,
        }
    }

    /// The words with which the condition is announced.
    pub fn message(&self) -> (m: &'static str)
        ensures
            m@ == self.message_of(),
    {
        match self {
            Fatal::UnimplementedFunction { .. } => "unimplemented COP1 opcode",
            Fatal::ApproxOutOfRange => "approx out of range",
            Fatal::SignalingNan => "signal FPU NaN in comparison",
        }
    }
}

impl Unimplemented {
    pub open spec fn message_of(self) -> Seq<char> {
        match self {
            Unimplemented::ControlRead { .. } => "CFC1 from unknown register"@,
            Unimplemented::ControlWrite { .. } => "CTC1 to unknown register"@,
            Unimplemented::Format { .. } => "unimplemented COP1 opcode"@,
        }
    }

    /// The reason handed to the tracer.
    pub fn message(&self) -> (m: &'static str)
        ensures
            m@ == self.message_of(),
    {
        match self {
            Unimplemented::ControlRead { .. } => "CFC1 from unknown register",
            Unimplemented::ControlWrite { .. } => "CTC1 to unknown register",
            Unimplemented::Format { .. } => "unimplemented COP1 opcode",
        }
    }
}

} // verus!
