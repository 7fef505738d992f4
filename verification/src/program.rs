//! A program as the assembler hands it to a machine.

use vstd::prelude::*;
use crate::error::ParseError;
use crate::op::{encode_all, Op};
use crate::segments::{CODE_SIZE, DATA_SIZE};

verus! {

/// A name for an address of the data segment.
#[derive(Clone, Debug, PartialEq, Eq)]
pub struct Symbol {
    pub name: String,
    /// The address that the name stands for.
    pub address: u16,
}

/// The names that a program defines and the initial words of its data.
#[derive(Clone, Debug, PartialEq, Eq)]
pub struct Symbols {
    pub table: Vec<Symbol>,
    /// The words that the data segment starts with.
    pub data: Vec<u16>,
}

/// A program: its instructions in order, and its symbols.
#[derive(Clone, Debug, PartialEq, Eq)]
pub struct Program {
    pub ops: Vec<Op>,
    pub symbols: Symbols,
}

/// A program as a mathematical value: its instructions and its data. The
/// names play no part in how a machine runs.
pub ghost struct ProgramView {
    pub ops: Seq<Op>,
    pub data: Seq<u16>,
}

impl View for Program {
    type V = ProgramView;

    open spec fn view(&self) -> ProgramView {
        ProgramView { ops: self.ops@, data: self.symbols.data@ }
    }
}

impl ProgramView {
    /// The code of the program fits in the code segment.
    pub open spec fn code_fits(self) -> bool {
        encode_all(self.ops).len() <= CODE_SIZE
    }

    /// The data of the program fits in the data segment.
    pub open spec fn data_fits(self) -> bool {
        self.data.len() <= DATA_SIZE
    }
}

/// What the assembler made of a source, with the program as a mathematical
/// value.
pub open spec fn parsed_view(parsed: Result<Program, ParseError>) -> Result<
    ProgramView,
    ParseError,
> {
    match parsed {
        Ok(program) => Ok(program@),
        Err(e) => Err(e),
    }
}

impl Symbols {
    /// Makes an empty symbol table without data.
    pub fn new() -> (s: Symbols)
        ensures
            s.table@ == Seq::<Symbol>::empty(),
            s.data@ == Seq::<u16>::empty(),
    {
        let s = Symbols { table: Vec::new(), data: Vec::new() };
        assert(s.table@ =~= Seq::<Symbol>::empty());
        assert(s.data@ =~= Seq::<u16>::empty());
        s
    }
}

impl Program {
    /// Makes the program of the given instructions, without symbols.
    pub fn from_ops(ops: Vec<Op>) -> (p: Program)
        ensures
            p@ == (ProgramView { ops: ops@, data: Seq::empty() }),
            p.ops == ops,
            p.symbols.table@ == Seq::<Symbol>::empty(),
    {
        Program { ops, symbols: Symbols::new() }
    }
}

} // verus!
