//! What the instructions and the messages do to a machine, stated on the
//! machine as a mathematical value.

use vstd::prelude::*;
use crate::error::{ExecError, ParseError};
use crate::event::EventView;
use crate::memory::{splice, writable, write_error, zeroed};
use crate::message::{ActionView, MessageView, Port};
use crate::op::{arity_spec, decode_spec, encode_all, word_at, Op};
use crate::program::ProgramView;
use crate::register::{initial_registers, REGISTER_COUNT};
use crate::segments::{
    in_physical, is_mapped_spec, outlet_of_spec, outlet_offset_spec, CALL_STACK_END,
    CALL_STACK_START, CODE_SIZE, DATA_SIZE, DATA_START, MEMORY_SIZE, STACK_START,
};
use crate::status::MachineStatus;
use crate::text::decimal_text;

verus! {

/// A machine as a mathematical value.
pub ghost struct MachineView {
    pub id: Option<u16>,
    pub reg: Seq<u16>,
    pub mem: Seq<u16>,
    pub code_len: u16,
    pub status: MachineStatus,
    pub inbox: Seq<MessageView>,
    pub outbox: Seq<MessageView>,
    pub events: Seq<EventView>,
    pub sleeping: bool,
    pub remaining_sleep_ticks: u16,
    pub expected_receives: u16,
}

/// One more than `n`, but never more than a word holds.
pub open spec fn saturating_succ(n: u16) -> u16 {
    if n == u16::MAX {
        n
    } else {
        (n + 1) as u16
    }
}

/// The sum of two words modulo 2^16.
pub open spec fn wrapping_sum(a: u16, b: u16) -> u16 {
    ((a + b) % 0x1_0000) as u16
}

/// The difference of two words modulo 2^16.
pub open spec fn wrapping_difference(a: u16, b: u16) -> u16 {
    ((a - b) % 0x1_0000) as u16
}

impl MachineView {
    /// A machine that has been created or fully reset: no program, zeroed
    /// memory, initial registers, empty queues.
    pub open spec fn fresh(id: Option<u16>) -> MachineView {
        MachineView {
            id,
            reg: initial_registers(),
            mem: zeroed(),
            code_len: 0,
            status: MachineStatus::Invalid,
            inbox: Seq::empty(),
            outbox: Seq::empty(),
            events: Seq::empty(),
            sleeping: false,
            remaining_sleep_ticks: 0,
            expected_receives: 0,
        }
    }

    /// The machine with what a run leaves behind cleared: registers, outbox,
    /// events, sleep and receive counters. Memory, inbox and status stay.
    pub open spec fn rewound(self) -> MachineView {
        MachineView {
            reg: initial_registers(),
            outbox: Seq::empty(),
            events: Seq::empty(),
            sleeping: false,
            remaining_sleep_ticks: 0,
            expected_receives: 0,
            ..self
        }
    }

    /// The machine without what is large: inbox, memory words and registers
    /// are empty.
    pub open spec fn stripped(self) -> MachineView {
        MachineView { inbox: Seq::empty(), mem: Seq::empty(), reg: Seq::empty(), ..self }
    }

    /// The machine has all its registers and memory words, and its code lies
    /// in the code segment.
    pub open spec fn wf(self) -> bool {
        &&& self.reg.len() == REGISTER_COUNT
        &&& self.mem.len() == MEMORY_SIZE
        &&& self.code_len <= CODE_SIZE
    }

    /// The program counter.
    pub open spec fn pc(self) -> u16 {
        self.reg[0]
    }

    /// The stack pointer.
    pub open spec fn sp(self) -> u16 {
        self.reg[1]
    }

    /// The frame pointer.
    pub open spec fn fp(self) -> u16 {
        self.reg[2]
    }

    /// The block that the machine sends from: its id, or zero without one.
    pub open spec fn block(self) -> u16 {
        match self.id {
            Some(id) => id,
            None => 0,
        }
    }

    /// The program counter has reached or passed the end of the program.
    pub open spec fn should_halt(self) -> bool {
        self.pc() >= self.code_len
    }

    /// The machine with another status.
    pub open spec fn with_status(self, status: MachineStatus) -> MachineView {
        MachineView { status, ..self }
    }

    /// The machine with another program counter.
    pub open spec fn with_pc(self, pc: u16) -> MachineView {
        MachineView { reg: self.reg.update(0, pc), ..self }
    }

    /// The machine with another value in the register at a place.
    pub open spec fn with_register(self, place: int, value: u16) -> MachineView {
        MachineView { reg: self.reg.update(place, value), ..self }
    }

    /// The machine with another word at an address.
    pub open spec fn with_word(self, address: int, value: u16) -> MachineView {
        MachineView { mem: self.mem.update(address, value), ..self }
    }

    /// The data stack has room for `n` more words.
    pub open spec fn has_room(self, n: int) -> bool {
        STACK_START <= self.sp() && self.sp() + n <= MEMORY_SIZE
    }

    /// The data stack holds at least `n` words.
    pub open spec fn has_depth(self, n: int) -> bool {
        STACK_START + n <= self.sp() && self.sp() <= MEMORY_SIZE
    }

    /// The word `k` places below the top of the data stack.
    pub open spec fn top(self, k: int) -> u16 {
        self.mem[self.sp() - 1 - k]
    }

    /// The machine with the words `words` pushed on its data stack, the last
    /// of them on top.
    pub open spec fn pushed_all(self, words: Seq<u16>) -> MachineView {
        MachineView {
            mem: splice(self.mem, self.sp() as int, words),
            reg: self.reg.update(1, (self.sp() + words.len()) as u16),
            ..self
        }
    }

    /// The machine with one word pushed on its data stack.
    pub open spec fn pushed(self, value: u16) -> MachineView {
        MachineView {
            mem: self.mem.update(self.sp() as int, value),
            reg: self.reg.update(1, (self.sp() + 1) as u16),
            ..self
        }
    }

    /// The machine with the `n` topmost words dropped from its data stack.
    /// The memory keeps them.
    pub open spec fn popped(self, n: int) -> MachineView {
        MachineView { reg: self.reg.update(1, (self.sp() - n) as u16), ..self }
    }

    /// The machine with one more message in its outbox.
    pub open spec fn sent(self, message: MessageView) -> MachineView {
        MachineView { outbox: self.outbox.push(message), ..self }
    }

    /// The machine with one more event in its queue.
    pub open spec fn raised(self, event: EventView) -> MachineView {
        MachineView { events: self.events.push(event), ..self }
    }

    /// The machine waiting for one more message.
    pub open spec fn expecting(self) -> MachineView {
        MachineView { expected_receives: saturating_succ(self.expected_receives), ..self }
    }

    /// The machine put to sleep for a number of steps.
    pub open spec fn asleep(self, ticks: u16) -> MachineView {
        MachineView { sleeping: true, remaining_sleep_ticks: ticks, ..self }
    }

    /// The machine woken up: running, with its sleep over.
    pub open spec fn woken(self) -> MachineView {
        MachineView {
            status: MachineStatus::Running,
            sleeping: false,
            remaining_sleep_ticks: 0,
            ..self
        }
    }

    /// The port of this machine that a mapped address is routed through.
    pub open spec fn outlet_port(self, address: u16) -> Port {
        Port { block: self.block(), port: outlet_of_spec(address) as u16 }
    }
}

/// The message by which a machine asks an outlet for the word at a mapped
/// address.
pub open spec fn read_request(m: MachineView, address: u16) -> MessageView {
    MessageView {
        action: ActionView::Read { address: outlet_offset_spec(address) as u16, count: 1 },
        sender: m.outlet_port(address),
        recipient: None,
    }
}

/// The message by which a machine hands an outlet a word for a mapped
/// address.
pub open spec fn write_request(m: MachineView, address: u16, value: u16) -> MessageView {
    MessageView {
        action: ActionView::Write {
            address: outlet_offset_spec(address) as u16,
            data: seq![value],
        },
        sender: m.outlet_port(address),
        recipient: None,
    }
}

/// The message by which a machine sends words from one of its ports to
/// whatever is wired to it.
pub open spec fn data_message(m: MachineView, port: u16, body: Seq<u16>) -> MessageView {
    MessageView {
        action: ActionView::Data { body },
        sender: Port { block: m.block(), port },
        recipient: None,
    }
}

/// The message by which a machine answers a request to read its memory.
pub open spec fn read_reply(m: MachineView, asker: Port, body: Seq<u16>) -> MessageView {
    MessageView {
        action: ActionView::Data { body },
        sender: Port { block: m.block(), port: asker.port },
        recipient: Some(asker.block),
    }
}

/// What one instruction does to a machine whose program counter stands at
/// it. An instruction that fails changes nothing.
pub open spec fn execute_spec(m: MachineView, op: Op) -> Result<MachineView, ExecError> {
    let next = (m.pc() + op.len_spec()) as u16;
    match op {
        Op::Noop => Ok(m.with_pc(next)),
        Op::Push(value) => if !m.has_room(1) {
            Err(ExecError::StackOverflow)
        } else {
            Ok(m.pushed(value).with_pc(next))
        },
        Op::Pop => if !m.has_depth(1) {
            Err(ExecError::StackUnderflow)
        } else {
            Ok(m.popped(1).with_pc(next))
        },
        Op::Add => if !m.has_depth(2) {
            Err(ExecError::StackUnderflow)
        } else {
            Ok(m.popped(2).pushed(wrapping_sum(m.top(1), m.top(0))).with_pc(next))
        },
        Op::Sub => if !m.has_depth(2) {
            Err(ExecError::StackUnderflow)
        } else {
            Ok(m.popped(2).pushed(wrapping_difference(m.top(1), m.top(0))).with_pc(next))
        },
        Op::Load(address) => if is_mapped_spec(address) {
            Ok(m.sent(read_request(m, address)).expecting().with_pc(next))
        } else if !m.has_room(1) {
            Err(ExecError::StackOverflow)
        } else {
            Ok(m.pushed(m.mem[address as int]).with_pc(next))
        },
        Op::Store(address) => if !m.has_depth(1) {
            Err(ExecError::StackUnderflow)
        } else if is_mapped_spec(address) {
            Ok(m.popped(1).sent(write_request(m, address, m.top(0))).with_pc(next))
        } else if !writable(address as int, 1) {
            Err(ExecError::ProtectedSegment { address })
        } else {
            Ok(m.popped(1).with_word(address as int, m.top(0)).with_pc(next))
        },
        Op::GetReg(number) => if number >= REGISTER_COUNT {
            Err(ExecError::InvalidRegister { number })
        } else if !m.has_room(1) {
            Err(ExecError::StackOverflow)
        } else {
            Ok(m.pushed(m.reg[number as int]).with_pc(next))
        },
        Op::SetReg(number) => if number >= REGISTER_COUNT {
            Err(ExecError::InvalidRegister { number })
        } else if !m.has_depth(1) {
            Err(ExecError::StackUnderflow)
        } else {
            Ok(m.popped(1).with_pc(next).with_register(number as int, m.top(0)))
        },
        Op::Jump(target) => if target > m.code_len {
            Err(ExecError::InvalidJump { target })
        } else {
            Ok(m.with_pc(target))
        },
        Op::JumpZero(target) => if !m.has_depth(1) {
            Err(ExecError::StackUnderflow)
        } else if target > m.code_len {
            Err(ExecError::InvalidJump { target })
        } else {
            Ok(
                m.popped(1).with_pc(
                    if m.top(0) == 0 {
                        target
                    } else {
                        next
                    },
                ),
            )
        },
        Op::Call(target) => if target > m.code_len {
            Err(ExecError::InvalidJump { target })
        } else if !(CALL_STACK_START <= m.fp() <= CALL_STACK_END) {
            Err(ExecError::CallStackOverflow)
        } else {
            Ok(
                m.with_word(m.fp() as int, next).with_register(2, (m.fp() + 1) as u16).with_pc(
                    target,
                ),
            )
        },
        Op::Return => if !(CALL_STACK_START < m.fp() <= CALL_STACK_END + 1) {
            Err(ExecError::CallStackUnderflow)
        } else {
            Ok(m.with_register(2, (m.fp() - 1) as u16).with_pc(m.mem[m.fp() - 1]))
        },
        Op::Send(port, count) => if !m.has_depth(count as int) {
            Err(ExecError::StackUnderflow)
        } else {
            Ok(
                m.popped(count as int).sent(
                    data_message(m, port, m.mem.subrange(m.sp() - count, m.sp() as int)),
                ).with_pc(next),
            )
        },
        Op::Receive => Ok(m.expecting().with_pc(next)),
        Op::Print => if !m.has_depth(1) {
            Err(ExecError::StackUnderflow)
        } else {
            Ok(
                m.popped(1).raised(EventView::Print { text: decimal_text(m.top(0) as nat) }).with_pc(
                    next,
                ),
            )
        },
        Op::Sleep(ms) => Ok(m.asleep(ms).raised(EventView::Sleep { ms }).with_pc(next)),
        Op::Halt => Ok(m.with_pc(m.code_len)),
    }
}

/// Why the words at the program counter are no instruction.
pub open spec fn decode_error(m: MachineView) -> ExecError {
    let word = word_at(m.mem, m.pc() as int);
    if arity_spec(word) is None {
        ExecError::InvalidOpcode { word }
    } else {
        ExecError::TruncatedInstruction { address: m.pc() }
    }
}

/// What one tick does to a machine: at the end of the program nothing;
/// otherwise what the instruction at the program counter does. A tick that
/// fails changes nothing.
pub open spec fn tick_spec(m: MachineView) -> Result<MachineView, ExecError> {
    if m.should_halt() {
        Ok(m)
    } else {
        match decode_spec(m.mem, m.pc() as int, m.code_len as int) {
            Some(op) => execute_spec(m, op),
            None => Err(decode_error(m)),
        }
    }
}

/// What the delivery of one message does to a machine. A delivery that fails
/// changes nothing.
///
/// Data is pushed on the data stack and counts as one awaited message. A
/// write goes to memory under the rules for writes. An override replaces the
/// whole data segment: the given words, then zeros. A read is answered by a
/// message to the asking block.
pub open spec fn deliver_spec(m: MachineView, message: MessageView) -> Result<
    MachineView,
    ExecError,
> {
    match message.action {
        ActionView::Data { body } => if !m.has_room(body.len() as int) {
            Err(ExecError::StackOverflow)
        } else {
            Ok(
                MachineView {
                    expected_receives: if m.expected_receives > 0 {
                        (m.expected_receives - 1) as u16
                    } else {
                        0
                    },
                    ..m.pushed_all(body)
                },
            )
        },
        ActionView::Write { address, data } => match write_error(address, data.len() as int) {
            Some(e) => Err(e),
            None => Ok(MachineView { mem: splice(m.mem, address as int, data), ..m }),
        },
        ActionView::Override { data } => if data.len() > DATA_SIZE {
            Err(ExecError::DataTooLarge)
        } else {
            Ok(
                MachineView {
                    mem: splice(
                        splice(m.mem, DATA_START as int, Seq::new(DATA_SIZE as nat, |i: int| 0u16)),
                        DATA_START as int,
                        data,
                    ),
                    ..m
                },
            )
        },
        ActionView::Read { address, count } => if !in_physical(address as int, count as int) {
            Err(ExecError::OutOfRange { address })
        } else {
            Ok(
                m.sent(
                    read_reply(
                        m,
                        message.sender,
                        m.mem.subrange(address as int, address + count),
                    ),
                ),
            )
        },
    }
}

/// What draining the inbox does to a machine: the messages are taken out in
/// the order in which they came and delivered one by one. The first that
/// fails ends the draining: it is gone, the ones behind it stay in the
/// inbox, and its error is reported.
pub open spec fn receive_spec(m: MachineView) -> (MachineView, Option<ExecError>)
    decreases m.inbox.len(),
{
    if m.inbox.len() == 0 {
        (m, None)
    } else {
        let rest = MachineView { inbox: m.inbox.drop_first(), ..m };
        match deliver_spec(rest, m.inbox[0]) {
            Err(e) => (rest, Some(e)),
            Ok(next) => receive_spec(MachineView { inbox: rest.inbox, ..next }),
        }
    }
}

/// What making ready does to one machine: a machine without id or without
/// valid program stays as it is; any other is rewound and ready.
pub open spec fn readied(m: MachineView) -> MachineView {
    if m.id is None || m.status == MachineStatus::Invalid {
        m
    } else {
        m.rewound().with_status(MachineStatus::Ready)
    }
}

/// What one step does to a sleeping machine: one step less to sleep, and
/// with none left the machine runs again. A sleeping machine with no step
/// left to count stays asleep until it is woken.
pub open spec fn slept(m: MachineView) -> MachineView {
    if m.remaining_sleep_ticks == 0 {
        m
    } else if m.remaining_sleep_ticks == 1 {
        MachineView {
            remaining_sleep_ticks: 0,
            sleeping: false,
            status: MachineStatus::Running,
            ..m
        }
    } else {
        MachineView { remaining_sleep_ticks: (m.remaining_sleep_ticks - 1) as u16, ..m }
    }
}

/// What up to `count` ticks do to a running machine. A tick that fails
/// leaves the machine errored, and its error is given. After each tick the
/// machine stops if it waits for a message (awaiting), else if it was put to
/// sleep (sleeping), else if its program is at its end (halted); the ticks
/// that are left are dropped.
pub open spec fn run_spec(m: MachineView, count: nat) -> (MachineView, Option<ExecError>)
    decreases count,
{
    if count == 0 {
        (m, None)
    } else {
        match tick_spec(m) {
            Err(e) => (m.with_status(MachineStatus::Errored), Some(e)),
            Ok(next) => if next.expected_receives > 0 {
                (next.with_status(MachineStatus::Awaiting), None)
            } else if next.sleeping {
                (next.with_status(MachineStatus::Sleeping), None)
            } else if next.should_halt() {
                (next.with_status(MachineStatus::Halted), None)
            } else {
                run_spec(next, (count - 1) as nat)
            },
        }
    }
}

/// What loading does to one machine: the machine is reset; with a program
/// that fits, its code and data are in memory and the machine is loaded;
/// otherwise the machine is invalid.
pub open spec fn loaded(m: MachineView, parsed: Result<ProgramView, ParseError>) -> MachineView {
    let fresh = MachineView::fresh(m.id);
    match load_error(parsed) {
        Some(_) => fresh,
        None => {
            let program = parsed->Ok_0;
            MachineView {
                mem: splice(
                    splice(fresh.mem, 0, encode_all(program.ops)),
                    DATA_START as int,
                    program.data,
                ),
                code_len: encode_all(program.ops).len() as u16,
                status: MachineStatus::Loaded,
                ..fresh
            }
        },
    }
}

/// Why a machine cannot take what the assembler made of its source, if it
/// cannot: the assembler's own error, or the program is too large.
pub open spec fn load_error(parsed: Result<ProgramView, ParseError>) -> Option<ParseError> {
    match parsed {
        Err(e) => Some(e),
        Ok(program) => if !program.code_fits() {
            Some(ParseError::CodeTooLarge)
        } else if !program.data_fits() {
            Some(ParseError::DataTooLarge)
        } else {
            None
        },
    }
}

} // verus!
