//! The errors that machines and the sequencer report.

use vstd::prelude::*;

verus! {

/// Why a machine could not execute an instruction, deliver a message or
/// access its memory.
#[derive(Clone, Copy, Debug, PartialEq, Eq, Structural)]
pub enum ExecError {
    /// A range of words from `address` on does not lie in physical memory.
    OutOfRange { address: u16 },
    /// A write touches the code or the call stack segment at `address`.
    ProtectedSegment { address: u16 },
    /// The data stack has no room, or its pointer lies outside the stack segment.
    StackOverflow,
    /// The data stack holds fewer values than the instruction takes.
    StackUnderflow,
    /// The call stack has no room, or its pointer lies outside its segment.
    CallStackOverflow,
    /// A return without a call.
    CallStackUnderflow,
    /// The word at the program counter names no instruction.
    InvalidOpcode { word: u16 },
    /// The operand of an instruction names no register.
    InvalidRegister { number: u16 },
    /// The program ends in the middle of an instruction.
    TruncatedInstruction { address: u16 },
    /// A jump or a call leads past the end of the program.
    InvalidJump { target: u16 },
    /// The program needs more words than the code segment has.
    CodeTooLarge,
    /// The data needs more words than the data segment has.
    DataTooLarge,
}

/// Why a source text is no program.
#[derive(Clone, Copy, Debug, PartialEq, Eq, Structural)]
pub enum ParseError {
    /// The first word of the line names no instruction.
    UnknownInstruction { line: u16 },
    /// The instruction on the line takes more operands than the line gives.
    MissingOperand { line: u16 },
    /// An operand on the line is no number that fits in a word.
    InvalidOperand { line: u16 },
    /// The line goes on after the last operand of its instruction.
    TrailingInput { line: u16 },
    /// The source has more lines than a program can have.
    TooManyLines,
    /// The program needs more words than the code segment has.
    CodeTooLarge,
    /// The data needs more words than the data segment has.
    DataTooLarge,
}

/// What the sequencer reports to the host.
#[derive(Clone, Copy, Debug, PartialEq, Eq, Structural)]
#[allow(inconsistent_fields)]
pub enum SequencerError {
    /// No machine has this id.
    MachineDoesNotExist { id: u16 },
    /// The source given for this machine is no program.
    CannotParse { id: u16, error: ParseError },
    /// A message in the inbox could not be delivered.
    ReceiveFailed { error: ExecError },
    /// An instruction of this machine failed.
    ExecutionFailed { id: u16, error: ExecError },
    /// This machine waited for a message that no peer could send any more.
    MessageNeverReceived { id: u16 },
}

} // verus!
