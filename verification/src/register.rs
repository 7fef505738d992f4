//! The registers of a machine.

use vstd::prelude::*;
use crate::segments::{CALL_STACK_START, STACK_START};

verus! {

/// Number of registers of a machine.
pub const REGISTER_COUNT: usize = 7;

/// The name of a register.
#[derive(Clone, Copy, Debug, PartialEq, Eq, Hash, Structural)]
pub enum Register {
    /// Program counter: the address of the next code word to decode.
    PC,
    /// Stack pointer: the address of the next free word of the data stack.
    SP,
    /// Frame pointer: the address of the next free word of the call stack.
    FP,
    /// General-purpose registers.
    R0,
    R1,
    R2,
    R3,
}

impl Register {
    /// The place of the register in the register file.
    pub open spec fn index_spec(self) -> int {
        match self {
            Register::PC => 0,
            Register::SP => 1,
            Register::FP => 2,
            Register::R0 => 3,
            Register::R1 => 4,
            Register::R2 => 5,
            Register::R3 => 6,
        }
    }

    /// Gives the place of the register in the register file.
    pub fn index(self) -> (i: usize)
        ensures
            i == self.index_spec(),
            i < REGISTER_COUNT,
    {
        match self {
            Register::PC => 0,
            Register::SP => 1,
            Register::FP => 2,
            Register::R0 => 3,
            Register::R1 => 4,
            Register::R2 => 5,
            Register::R3 => 6,
        }
    }

    /// Finds the register at a place of the register file.
    pub fn from_index(word: u16) -> (r: Option<Register>)
        ensures
            word < REGISTER_COUNT ==> r is Some && r->0.index_spec() == word,
            word >= REGISTER_COUNT ==> r is None,
    {
        match word {
            0 => Some(Register::PC),
            1 => Some(Register::SP),
            2 => Some(Register::FP),
            3 => Some(Register::R0),
            4 => Some(Register::R1),
            5 => Some(Register::R2),
            6 => Some(Register::R3),
            _ => None,
        }
    }
}

/// The register file of a machine that has not run yet: the program counter
/// at zero, the two stack pointers at the start of their segments, the rest
/// zero.
pub open spec fn initial_registers() -> Seq<u16> {
    seq![0u16, STACK_START, CALL_STACK_START, 0u16, 0u16, 0u16, 0u16]
}

/// The register file: one word for each register.
#[derive(Clone, Debug, PartialEq, Eq)]
pub struct Registers {
    pub buffer: Vec<u16>,
}

impl View for Registers {
    type V = Seq<u16>;

    open spec fn view(&self) -> Seq<u16> {
        self.buffer@
    }
}

impl Registers {
    /// The register file holds one word for each register.
    pub open spec fn wf(&self) -> bool {
        self.buffer@.len() == REGISTER_COUNT
    }

    /// The value of a register.
    pub open spec fn get_spec(&self, r: Register) -> u16
        recommends
            self.wf(),
    {
        self.buffer@[r.index_spec()]
    }

    /// Makes the register file of a machine that has not run yet.
    pub fn new() -> (r: Registers)
        ensures
            r.wf(),
            r@ == initial_registers(),
    {
        let mut buffer: Vec<u16> = Vec::new();
        buffer.push(0);
        buffer.push(STACK_START);
        buffer.push(CALL_STACK_START);
        buffer.push(0);
        buffer.push(0);
        buffer.push(0);
        buffer.push(0);
        assert(buffer@ =~= initial_registers());
        Registers { buffer }
    }

    /// Tells whether the register file holds one word for each register.
    pub fn is_wf(&self) -> (b: bool)
        ensures
            b == self.wf(),
    {
        self.buffer.len() == REGISTER_COUNT
    }

    /// Reads a register.
    pub fn get(&self, r: Register) -> (value: u16)
        requires
            self.wf(),
        ensures
            value == self.get_spec(r),
    {
        self.buffer[r.index()]
    }

    /// Writes a register and leaves the others as they are.
    pub fn set(&mut self, r: Register, value: u16)
        requires
            old(self).wf(),
        ensures
            final(self).wf(),
            final(self)@ == old(self)@.update(r.index_spec(), value),
    {
        let i = r.index();
        self.buffer.set(i, value);
    }

    /// Puts every register back to its initial value.
    pub fn reset(&mut self)
        ensures
            final(self).wf(),
            final(self)@ == initial_registers(),
    {
        *self = Registers::new();
    }
}

} // verus!
