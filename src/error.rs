use vstd::prelude::*;

verus! {

/// Why a step of the machine failed. Every one of them ends the run.
#[derive(Debug, Clone, Copy, PartialEq, Eq, Structural)]
pub enum MachineError {
    /// A memory access at an address at or past the memory's size.
    OutOfBounds(u16),
    /// A register operand outside the eight registers.
    InvalidRegisterCode(u8),
    /// An opcode byte that selects no instruction.
    UnknownOpcode(u8),
    /// An interrupt whose signal has no handler.
    UnknownSignal(u8),
    /// An `ALU Div` whose divisor register holds zero.
    DivideByZero,
}

/// Why assembly failed. Lines are numbered from 1; tokens are the bytes of
/// the offending word.
#[derive(Debug)]
pub enum AssembleError {
    /// The instruction on `line` lacks an operand; `token` is its mnemonic.
    MissingOperand { line: usize, token: Vec<u8> },
    InvalidRegister { line: usize, token: Vec<u8> },
    InvalidNumericLiteral { line: usize, token: Vec<u8> },
    /// An unknown instruction, ALU operation or jump condition.
    UnknownMnemonic { line: usize, token: Vec<u8> },
    /// A jump names a label that no line defines.
    UnresolvedLabel { label: Vec<u8> },
}

/// The mathematical value of an `AssembleError`.
pub enum AssembleFault {
    MissingOperand(usize, Seq<u8>),
    InvalidRegister(usize, Seq<u8>),
    InvalidNumericLiteral(usize, Seq<u8>),
    UnknownMnemonic(usize, Seq<u8>),
    UnresolvedLabel(Seq<u8>),
}

impl View for AssembleError {
    type V = AssembleFault;

    open spec fn view(&self) -> AssembleFault {
        match self {
            AssembleError::MissingOperand { line, token } => AssembleFault::MissingOperand(*line, token@),
            AssembleError::InvalidRegister { line, token } => AssembleFault::InvalidRegister(*line, token@),
            AssembleError::InvalidNumericLiteral { line, token } => AssembleFault::InvalidNumericLiteral(
                *line,
                token@,
            ),
            AssembleError::UnknownMnemonic { line, token } => AssembleFault::UnknownMnemonic(*line, token@),
            AssembleError::UnresolvedLabel { label } => AssembleFault::UnresolvedLabel(label@),
        }
    }
}

} // verus!
