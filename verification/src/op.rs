//! The instructions of a machine and their encoding in code words.
//!
//! An instruction takes one code word for its opcode and one more for each
//! of its operands.

use vstd::prelude::*;

verus! {

/// An instruction.
#[derive(Clone, Copy, Debug, PartialEq, Eq, Structural)]
pub enum Op {
    /// Does nothing.
    Noop,
    /// Pushes a word on the data stack.
    Push(u16),
    /// Drops the top of the data stack.
    Pop,
    /// Replaces the two topmost words by their sum, modulo 2^16.
    Add,
    /// Replaces the two topmost words by the lower minus the upper, modulo 2^16.
    Sub,
    /// Pushes the word at an address; for a mapped address, asks the outlet
    /// for it and waits for the answer.
    Load(u16),
    /// Pops a word and stores it at an address; for a mapped address, sends it
    /// to the outlet.
    Store(u16),
    /// Pushes the value of the register with the given number.
    GetReg(u16),
    /// Pops a word into the register with the given number.
    SetReg(u16),
    /// Continues at an address.
    Jump(u16),
    /// Pops a word and continues at an address if the word is zero.
    JumpZero(u16),
    /// Continues at an address and remembers where to come back to.
    Call(u16),
    /// Comes back to the instruction after the last call.
    Return,
    /// Pops a number of words and sends them from a port: first the port,
    /// then the number.
    Send(u16, u16),
    /// Waits for one more message.
    Receive,
    /// Pops a word and shows it as a decimal number.
    Print,
    /// Sleeps for a number of steps.
    Sleep(u16),
    /// Ends the program.
    Halt,
}

/// The largest opcode.
pub const MAX_OPCODE: u16 = 17;

/// The number of operands of the instruction with the given opcode.
pub open spec fn arity_spec(opcode: u16) -> Option<int> {
    if opcode > MAX_OPCODE {
        None
    } else if opcode == 13 {
        Some(2)
    } else if opcode == 1 || (5 <= opcode <= 11) || opcode == 16 {
        Some(1)
    } else {
        Some(0)
    }
}

/// The instruction with the given opcode and operands; an instruction with
/// fewer than two operands ignores the rest.
pub open spec fn build_spec(opcode: u16, a: u16, b: u16) -> Op
    recommends
        opcode <= MAX_OPCODE,
{
    match opcode {
        0 => Op::Noop,
        1 => Op::Push(a),
        2 => Op::Pop,
        3 => Op::Add,
        4 => Op::Sub,
        5 => Op::Load(a),
        6 => Op::Store(a),
        7 => Op::GetReg(a),
        8 => Op::SetReg(a),
        9 => Op::Jump(a),
        10 => Op::JumpZero(a),
        11 => Op::Call(a),
        12 => Op::Return,
        13 => Op::Send(a, b),
        14 => Op::Receive,
        15 => Op::Print,
        16 => Op::Sleep(a),
        _ => Op::Halt,
    }
}

impl Op {
    /// The opcode of the instruction.
    pub open spec fn opcode_spec(self) -> u16 {
        match self {
            Op::Noop => 0,
            Op::Push(_) => 1,
            Op::Pop => 2,
            Op::Add => 3,
            Op::Sub => 4,
            Op::Load(_) => 5,
            Op::Store(_) => 6,
            Op::GetReg(_) => 7,
            Op::SetReg(_) => 8,
            Op::Jump(_) => 9,
            Op::JumpZero(_) => 10,
            Op::Call(_) => 11,
            Op::Return => 12,
            Op::Send(_, _) => 13,
            Op::Receive => 14,
            Op::Print => 15,
            Op::Sleep(_) => 16,
            Op::Halt => 17,
        }
    }

    /// The operands of the instruction, in order.
    pub open spec fn operands_spec(self) -> Seq<u16> {
        match self {
            Op::Push(a) | Op::Load(a) | Op::Store(a) | Op::GetReg(a) | Op::SetReg(a) | Op::Jump(a)
            | Op::JumpZero(a) | Op::Call(a) | Op::Sleep(a) => seq![a],
            Op::Send(a, b) => seq![a, b],
            _ => Seq::empty(),
        }
    }

    /// The code words of the instruction: its opcode, then its operands.
    pub open spec fn encode_spec(self) -> Seq<u16> {
        seq![self.opcode_spec()] + self.operands_spec()
    }

    /// The number of code words of the instruction.
    pub open spec fn len_spec(self) -> int {
        1 + self.operands_spec().len() as int
    }

    /// Gives the opcode of the instruction.
    pub fn opcode(&self) -> (w: u16)
        ensures
            w == self.opcode_spec(),
            w <= MAX_OPCODE,
    {
        match self {
            Op::Noop => 0,
            Op::Push(_) => 1,
            Op::Pop => 2,
            Op::Add => 3,
            Op::Sub => 4,
            Op::Load(_) => 5,
            Op::Store(_) => 6,
            Op::GetReg(_) => 7,
            Op::SetReg(_) => 8,
            Op::Jump(_) => 9,
            Op::JumpZero(_) => 10,
            Op::Call(_) => 11,
            Op::Return => 12,
            Op::Send(_, _) => 13,
            Op::Receive => 14,
            Op::Print => 15,
            Op::Sleep(_) => 16,
            Op::Halt => 17,
        }
    }

    /// Gives the operands of the instruction, in order.
    pub fn field_values(&self) -> (values: Vec<u16>)
        ensures
            values@ == self.operands_spec(),
    {
        let mut values: Vec<u16> = Vec::new();
        match self {
            Op::Push(a) | Op::Load(a) | Op::Store(a) | Op::GetReg(a) | Op::SetReg(a) | Op::Jump(a)
            | Op::JumpZero(a) | Op::Call(a) | Op::Sleep(a) => {
                values.push(*a);
            },
            Op::Send(a, b) => {
                values.push(*a);
                values.push(*b);
            },
            _ => {},
        }
        assert(values@ =~= self.operands_spec());
        values
    }

    /// Appends the code words of the instruction to `out`.
    pub fn encode_into(&self, out: &mut Vec<u16>)
        ensures
            final(out)@ == old(out)@ + self.encode_spec(),
    {
        out.push(self.opcode());
        match self {
            Op::Push(a) | Op::Load(a) | Op::Store(a) | Op::GetReg(a) | Op::SetReg(a) | Op::Jump(a)
            | Op::JumpZero(a) | Op::Call(a) | Op::Sleep(a) => {
                out.push(*a);
            },
            Op::Send(a, b) => {
                out.push(*a);
                out.push(*b);
            },
            _ => {},
        }
        assert(out@ =~= old(out)@ + self.encode_spec());
    }

    /// Gives the code words of the instruction.
    pub fn encode(&self) -> (words: Vec<u16>)
        ensures
            words@ == self.encode_spec(),
    {
        let mut words: Vec<u16> = Vec::new();
        self.encode_into(&mut words);
        assert(words@ =~= self.encode_spec());
        words
    }
}

/// Gives the number of operands of the instruction with the given opcode, if
/// there is such an instruction.
pub fn arity(opcode: u16) -> (n: Option<u16>)
    ensures
        match n {
            Some(k) => arity_spec(opcode) == Some(k as int),
            None => arity_spec(opcode) is None,
        },
{
    if opcode > MAX_OPCODE {
        None
    } else if opcode == 13 {
        Some(2)
    } else if opcode == 1 || (5 <= opcode && opcode <= 11) || opcode == 16 {
        Some(1)
    } else {
        Some(0)
    }
}

/// Makes the instruction with the given opcode and operands.
pub fn build(opcode: u16, a: u16, b: u16) -> (op: Op)
    requires
        opcode <= MAX_OPCODE,
    ensures
        op == build_spec(opcode, a, b),
{
    match opcode {
        0 => Op::Noop,
        1 => Op::Push(a),
        2 => Op::Pop,
        3 => Op::Add,
        4 => Op::Sub,
        5 => Op::Load(a),
        6 => Op::Store(a),
        7 => Op::GetReg(a),
        8 => Op::SetReg(a),
        9 => Op::Jump(a),
        10 => Op::JumpZero(a),
        11 => Op::Call(a),
        12 => Op::Return,
        13 => Op::Send(a, b),
        14 => Op::Receive,
        15 => Op::Print,
        16 => Op::Sleep(a),
        _ => Op::Halt,
    }
}

/// The word of `words` at `at`, or zero past their end.
pub open spec fn word_at(words: Seq<u16>, at: int) -> u16 {
    if 0 <= at < words.len() {
        words[at]
    } else {
        0
    }
}

/// The instruction that the code words hold at `at`, if the words from `at`
/// to `end` start with one.
pub open spec fn decode_spec(words: Seq<u16>, at: int, end: int) -> Option<Op> {
    match arity_spec(word_at(words, at)) {
        Some(n) if at + n < end => Some(
            build_spec(word_at(words, at), word_at(words, at + 1), word_at(words, at + 2)),
        ),
        _ => None,
    }
}

/// The code words of a program: those of its instructions, one after the
/// other.
pub open spec fn encode_all(ops: Seq<Op>) -> Seq<u16>
    decreases ops.len(),
{
    if ops.len() == 0 {
        Seq::empty()
    } else {
        encode_all(ops.drop_last()) + ops.last().encode_spec()
    }
}

/// Every instruction has the number of operands that its opcode announces,
/// and is made again from its opcode and operands.
pub proof fn lemma_encoding_is_faithful(op: Op)
    ensures
        op.opcode_spec() <= MAX_OPCODE,
        arity_spec(op.opcode_spec()) == Some(op.operands_spec().len() as int),
        1 <= op.len_spec() <= 3,
        op.encode_spec().len() == op.len_spec(),
        build_spec(
            op.opcode_spec(),
            word_at(op.encode_spec(), 1),
            word_at(op.encode_spec(), 2),
        ) == op,
{
}

/// Decoding undoes encoding: where the code words hold the words of an
/// instruction at `at`, and those end at or before `end`, that instruction is
/// decoded there.
pub proof fn lemma_decode_encode(op: Op, words: Seq<u16>, at: int, end: int)
    requires
        0 <= at,
        at + op.len_spec() <= end <= words.len(),
        words.subrange(at, at + op.len_spec()) == op.encode_spec(),
    ensures
        decode_spec(words, at, end) == Some(op),
{
    lemma_encoding_is_faithful(op);
    let part = words.subrange(at, at + op.len_spec());
    assert(words[at] == part[0]);
    if op.len_spec() >= 2 {
        assert(words[at + 1] == part[1]);
    }
    if op.len_spec() >= 3 {
        assert(words[at + 2] == part[2]);
    }
}

/// The code words of a program are those of its first instructions, then
/// those of the rest.
pub proof fn lemma_encode_all_split(ops: Seq<Op>, at: int)
    requires
        0 <= at <= ops.len(),
    ensures
        encode_all(ops) == encode_all(ops.subrange(0, at)) + encode_all(
            ops.subrange(at, ops.len() as int),
        ),
    decreases ops.len(),
{
    let front = ops.subrange(0, at);
    let back = ops.subrange(at, ops.len() as int);
    if at == ops.len() {
        assert(front =~= ops);
        assert(encode_all(back) =~= Seq::<u16>::empty());
        assert(encode_all(ops) =~= encode_all(front) + encode_all(back));
    } else {
        lemma_encode_all_split(ops.drop_last(), at);
        assert(ops.drop_last().subrange(0, at) =~= front);
        assert(ops.drop_last().subrange(at, ops.len() - 1) =~= back.drop_last());
        assert(back.last() == ops.last());
        assert(encode_all(ops) =~= encode_all(front) + encode_all(back));
    }
}

/// The place of an instruction of a program among its code words.
pub open spec fn offset_of(ops: Seq<Op>, index: int) -> int {
    encode_all(ops.subrange(0, index)).len() as int
}

/// In the code words of a program, each instruction is decoded at its
/// place, and the next instruction stands right behind it. The last
/// instruction ends where the code words end.
pub proof fn lemma_program_decodes(ops: Seq<Op>, index: int, words: Seq<u16>)
    requires
        0 <= index < ops.len(),
        words.len() >= encode_all(ops).len(),
        words.subrange(0, encode_all(ops).len() as int) == encode_all(ops),
    ensures
        decode_spec(words, offset_of(ops, index), encode_all(ops).len() as int) == Some(
            ops[index],
        ),
        offset_of(ops, index + 1) == offset_of(ops, index) + ops[index].len_spec(),
        offset_of(ops, index + 1) <= encode_all(ops).len(),
        offset_of(ops, ops.len() as int) == encode_all(ops).len(),
{
    let code = encode_all(ops);
    let at = offset_of(ops, index);
    let op = ops[index];
    lemma_encode_all_split(ops, index + 1);
    let upto = ops.subrange(0, index + 1);
    assert(upto.drop_last() =~= ops.subrange(0, index));
    assert(upto.last() == op);
    assert(encode_all(upto) == encode_all(ops.subrange(0, index)) + op.encode_spec());
    lemma_encoding_is_faithful(op);
    assert(ops.subrange(0, ops.len() as int) =~= ops);
    assert(words.subrange(at, at + op.len_spec()) =~= op.encode_spec()) by {
        assert forall|j: int| 0 <= j < op.len_spec() implies words[at + j] == op.encode_spec()[j] by {
            assert(words[at + j] == words.subrange(0, code.len() as int)[at + j]);
            assert(code[at + j] == encode_all(upto)[at + j]);
        }
    }
    lemma_decode_encode(op, words, at, code.len() as int);
}

/// Gives the code words of a program.
pub fn encode_program(ops: &Vec<Op>) -> (words: Vec<u16>)
    ensures
        words@ == encode_all(ops@),
{
    let mut words: Vec<u16> = Vec::new();
    let mut i: usize = 0;
    while i < ops.len()
        invariant
            i <= ops.len(),
            words@ == encode_all(ops@.subrange(0, i as int)),
        decreases ops.len() - i,
    {
        let op = ops[i];
        op.encode_into(&mut words);
        proof {
            let next = ops@.subrange(0, i + 1);
            assert(next.drop_last() =~= ops@.subrange(0, i as int));
            assert(next.last() == op);
        }
        i += 1;
    }
    assert(ops@.subrange(0, i as int) =~= ops@);
    words
}

} // verus!
