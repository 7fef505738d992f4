//! One machine: registers, memory, message queues, event queue and status.

use std::collections::VecDeque;
use vstd::prelude::*;
use crate::error::{ExecError, ParseError};
use crate::event::{copy_events, events_view, Event};
use crate::memory::Memory;
use crate::message::{copy_words, messages_view, Action, Message, Port};
use crate::op::{arity, build, Op};
use crate::program::{parsed_view, Program};
use crate::register::{Register, Registers};
use crate::segments::{
    is_mapped, outlet_of, outlet_offset, CALL_STACK_END, CALL_STACK_START, DATA_END, DATA_SIZE,
    DATA_START, MEMORY_SIZE, STACK_START,
};
use crate::semantics::{
    data_message, deliver_spec, execute_spec, load_error, loaded, read_reply, read_request,
    readied, receive_spec,
    run_spec, slept, tick_spec, wrapping_difference, wrapping_sum, write_request, MachineView,
};
use crate::status::MachineStatus;
use crate::text::decimal_string;

verus! {

/// One virtual machine.
#[derive(Clone, Debug, PartialEq, Eq)]
pub struct Machine {
    /// The id under which the sequencer knows the machine.
    pub id: Option<u16>,
    pub reg: Registers,
    pub mem: Memory,
    pub status: MachineStatus,
    /// Messages that have arrived and are not delivered yet, oldest first.
    pub inbox: VecDeque<Message>,
    /// Messages that the machine has produced, oldest first.
    pub outbox: Vec<Message>,
    /// Side effects that the machine has produced, oldest first.
    pub events: Vec<Event>,
    /// Whether a sleep instruction has put the machine to sleep.
    pub sleeping: bool,
    /// Steps that the machine still sleeps.
    pub remaining_sleep_ticks: u16,
    /// Messages that the machine still waits for.
    pub expected_receives: u16,
}

impl View for Machine {
    type V = MachineView;

    open spec fn view(&self) -> MachineView {
        MachineView {
            id: self.id,
            reg: self.reg@,
            mem: self.mem@,
            code_len: self.mem.code_len,
            status: self.status,
            inbox: messages_view(self.inbox@),
            outbox: messages_view(self.outbox@),
            events: events_view(self.events@),
            sleeping: self.sleeping,
            remaining_sleep_ticks: self.remaining_sleep_ticks,
            expected_receives: self.expected_receives,
        }
    }
}

/// Makes a vector of zeros.
fn zeros(n: u16) -> (v: Vec<u16>)
    ensures
        v@ == Seq::new(n as nat, |i: int| 0u16),
{
    let mut v: Vec<u16> = Vec::new();
    let mut i: u16 = 0;
    while i < n
        invariant
            i <= n,
            v@.len() == i,
            forall|j: int| 0 <= j < i ==> v@[j] == 0,
        decreases n - i,
    {
        v.push(0);
        i += 1;
    }
    assert(v@ =~= Seq::new(n as nat, |i: int| 0u16));
    v
}

impl Machine {
    /// The machine has all its registers and memory words, and its code lies
    /// in the code segment.
    pub open spec fn wf(&self) -> bool {
        self@.wf()
    }

    /// Makes a machine without id and without program.
    pub fn new() -> (m: Machine)
        ensures
            m.wf(),
            m@ == MachineView::fresh(None),
    {
        let m = Machine {
            id: None,
            reg: Registers::new(),
            mem: Memory::new(),
            status: MachineStatus::Invalid,
            inbox: VecDeque::new(),
            outbox: Vec::new(),
            events: Vec::new(),
            sleeping: false,
            remaining_sleep_ticks: 0,
            expected_receives: 0,
        };
        assert(m@.inbox =~= Seq::empty());
        assert(m@.outbox =~= Seq::empty());
        assert(m@.events =~= Seq::empty());
        m
    }

    /// Tells whether the machine has all its registers and memory words and
    /// its code lies in the code segment.
    pub fn is_wf(&self) -> (b: bool)
        ensures
            b == self.wf(),
    {
        self.reg.is_wf() && self.mem.is_wf()
    }

    /// Clears everything but the id: program, memory, registers, queues,
    /// counters. The machine is then as if newly made.
    pub fn full_reset(&mut self)
        ensures
            final(self).wf(),
            final(self)@ == MachineView::fresh(old(self).id),
    {
        let id = self.id;
        *self = Machine::new();
        self.id = id;
    }

    /// Clears what a run leaves behind: registers, outbox, events, sleep and
    /// receive counters. Memory, and so the program, inbox and status stay.
    pub fn partial_reset(&mut self)
        requires
            old(self).wf(),
        ensures
            final(self).wf(),
            final(self)@ == old(self)@.rewound(),
    {
        self.reg.reset();
        self.outbox.clear();
        self.events.clear();
        self.sleeping = false;
        self.remaining_sleep_ticks = 0;
        self.expected_receives = 0;
        assert(self@.outbox =~= Seq::empty());
        assert(self@.events =~= Seq::empty());
    }

    /// Resets the machine and gives it what the assembler made of a source.
    /// With a program that fits in memory, its code and data are put there
    /// and the machine is loaded. With an error of the assembler, or a
    /// program that is too large, the machine is left reset and invalid, and
    /// the error is given back.
    pub fn load(&mut self, parsed: Result<Program, ParseError>) -> (r: Result<(), ParseError>)
        ensures
            final(self).wf(),
            final(self)@ == loaded(old(self)@, parsed_view(parsed)),
            r == match load_error(parsed_view(parsed)) {
                Some(e) => Err::<(), ParseError>(e),
                None => Ok(()),
            },
    {
        self.full_reset();
        let program = match parsed {
            Ok(program) => program,
            Err(e) => {
                return Err(e);
            },
        };
        if self.mem.load_code(&program.ops).is_err() {
            return Err(ParseError::CodeTooLarge);
        }
        if self.mem.load_symbols(&program.symbols).is_err() {
            self.full_reset();
            return Err(ParseError::DataTooLarge);
        }
        self.status = MachineStatus::Loaded;
        Ok(())
    }

    /// Makes a copy of the machine.
    pub fn duplicate(&self) -> (r: Machine)
        ensures
            r@ == self@,
    {
        let mut inbox: VecDeque<Message> = VecDeque::new();
        let mut i: usize = 0;
        while i < self.inbox.len()
            invariant
                i <= self.inbox@.len(),
                inbox@.len() == i,
                forall|j: int| 0 <= j < i ==> inbox@[j]@ == self.inbox@[j]@,
            decreases self.inbox@.len() - i,
        {
            inbox.push_back(self.inbox[i].duplicate());
            i += 1;
        }
        let mut outbox: Vec<Message> = Vec::new();
        let mut k: usize = 0;
        while k < self.outbox.len()
            invariant
                k <= self.outbox@.len(),
                outbox@.len() == k,
                forall|j: int| 0 <= j < k ==> outbox@[j]@ == self.outbox@[j]@,
            decreases self.outbox@.len() - k,
        {
            outbox.push(self.outbox[k].duplicate());
            k += 1;
        }
        let r = Machine {
            id: self.id,
            reg: Registers { buffer: copy_words(&self.reg.buffer) },
            mem: Memory { buffer: copy_words(&self.mem.buffer), code_len: self.mem.code_len },
            status: self.status,
            inbox,
            outbox,
            events: copy_events(&self.events),
            sleeping: self.sleeping,
            remaining_sleep_ticks: self.remaining_sleep_ticks,
            expected_receives: self.expected_receives,
        };
        assert(r@.inbox =~= self@.inbox);
        assert(r@.outbox =~= self@.outbox);
        r
    }

    /// Makes a copy of the machine without what is large: the inbox, the
    /// memory words and the registers of the copy are empty.
    pub fn summary(&self) -> (r: Machine)
        ensures
            r@ == self@.stripped(),
    {
        let mut outbox: Vec<Message> = Vec::new();
        let mut k: usize = 0;
        while k < self.outbox.len()
            invariant
                k <= self.outbox@.len(),
                outbox@.len() == k,
                forall|j: int| 0 <= j < k ==> outbox@[j]@ == self.outbox@[j]@,
            decreases self.outbox@.len() - k,
        {
            outbox.push(self.outbox[k].duplicate());
            k += 1;
        }
        let r = Machine {
            id: self.id,
            reg: Registers { buffer: Vec::new() },
            mem: Memory { buffer: Vec::new(), code_len: self.mem.code_len },
            status: self.status,
            inbox: VecDeque::new(),
            outbox,
            events: copy_events(&self.events),
            sleeping: self.sleeping,
            remaining_sleep_ticks: self.remaining_sleep_ticks,
            expected_receives: self.expected_receives,
        };
        assert(r@.inbox =~= Seq::empty());
        assert(r@.reg =~= Seq::empty());
        assert(r@.mem =~= Seq::empty());
        assert(r@.outbox =~= self@.outbox);
        r
    }

    /// Makes the machine ready to run its program from the start: a machine
    /// without id or without valid program stays as it is; any other is
    /// rewound and ready.
    pub fn make_ready(&mut self)
        requires
            old(self).wf(),
        ensures
            final(self).wf(),
            final(self)@ == readied(old(self)@),
    {
        if self.id.is_none() {
            return ;
        }
        if self.status == MachineStatus::Invalid {
            return ;
        }
        self.partial_reset();
        self.status = MachineStatus::Ready;
    }

    /// Wakes the machine: it runs, and its sleep is over.
    pub fn wake(&mut self)
        ensures
            final(self).wf() == old(self).wf(),
            final(self)@ == old(self)@.woken(),
    {
        self.status = MachineStatus::Running;
        self.sleeping = false;
        self.remaining_sleep_ticks = 0;
    }

    /// Takes the messages out of the outbox, oldest first.
    pub fn take_messages(&mut self) -> (messages: Vec<Message>)
        ensures
            final(self).wf() == old(self).wf(),
            final(self)@ == (MachineView { outbox: Seq::empty(), ..old(self)@ }),
            messages_view(messages@) == old(self)@.outbox,
    {
        let mut messages: Vec<Message> = Vec::new();
        core::mem::swap(&mut self.outbox, &mut messages);
        assert(self@.outbox =~= Seq::empty());
        messages
    }

    /// Takes the events out of the queue, oldest first.
    pub fn take_events(&mut self) -> (events: Vec<Event>)
        ensures
            final(self).wf() == old(self).wf(),
            final(self)@ == (MachineView { events: Seq::empty(), ..old(self)@ }),
            events_view(events@) == old(self)@.events,
    {
        let mut events: Vec<Event> = Vec::new();
        core::mem::swap(&mut self.events, &mut events);
        assert(self@.events =~= Seq::empty());
        events
    }

    /// Counts one step of sleep down; with none left the machine runs again.
    /// A sleeping machine with no step left to count stays asleep.
    pub fn sleep_on(&mut self)
        ensures
            final(self).wf() == old(self).wf(),
            final(self)@ == slept(old(self)@),
    {
        if self.remaining_sleep_ticks > 0 {
            self.remaining_sleep_ticks = self.remaining_sleep_ticks - 1;
            if self.remaining_sleep_ticks == 0 {
                self.sleeping = false;
                self.status = MachineStatus::Running;
            }
        }
    }

    /// Runs the machine for up to `count` ticks. A tick that fails leaves
    /// the machine errored and is reported. After each tick the machine
    /// stops if it waits for a message, was put to sleep or is at the end of
    /// its program, and gets the status for that; the ticks that are left
    /// are dropped.
    pub fn run(&mut self, count: u16) -> (r: Result<(), ExecError>)
        requires
            old(self).wf(),
        ensures
            final(self).wf(),
            final(self)@ == run_spec(old(self)@, count as nat).0,
            r == match run_spec(old(self)@, count as nat).1 {
                Some(e) => Err::<(), ExecError>(e),
                None => Ok(()),
            },
    {
        let mut i: u16 = 0;
        while i < count
            invariant
                self.wf(),
                i <= count,
                run_spec(self@, (count - i) as nat) == run_spec(
                    old(self)@,
                    count as nat,
                ),
            decreases count - i,
        {
            if let Err(error) = self.tick() {
                self.status = MachineStatus::Errored;
                return Err(error);
            }
            if self.expected_receives > 0 {
                self.status = MachineStatus::Awaiting;
                return Ok(());
            }
            if self.sleeping {
                self.status = MachineStatus::Sleeping;
                return Ok(());
            }
            if self.should_halt() {
                self.status = MachineStatus::Halted;
                return Ok(());
            }
            i += 1;
        }
        Ok(())
    }

    /// Tells whether the program counter has reached or passed the end of
    /// the program.
    pub fn should_halt(&self) -> (b: bool)
        requires
            self.wf(),
        ensures
            b == self@.should_halt(),
    {
        self.reg.get(Register::PC) >= self.mem.code_len
    }

    /// Puts a message at the end of the inbox.
    pub fn accept(&mut self, message: Message)
        ensures
            final(self)@ == (MachineView {
                inbox: old(self)@.inbox.push(message@),
                ..old(self)@
            }),
    {
        self.inbox.push_back(message);
        assert(self@.inbox =~= old(self)@.inbox.push(message@));
    }

    fn block(&self) -> (b: u16)
        ensures
            b == self@.block(),
    {
        match self.id {
            Some(id) => id,
            None => 0,
        }
    }

    fn has_room(&self, n: usize) -> (b: bool)
        requires
            self.wf(),
        ensures
            b == self@.has_room(n as int),
    {
        let sp = self.reg.get(Register::SP);
        STACK_START <= sp && n <= MEMORY_SIZE as usize && sp as usize + n <= MEMORY_SIZE as usize
    }

    fn has_depth(&self, n: u16) -> (b: bool)
        requires
            self.wf(),
        ensures
            b == self@.has_depth(n as int),
    {
        let sp = self.reg.get(Register::SP);
        STACK_START as u32 + n as u32 <= sp as u32 && sp <= MEMORY_SIZE
    }

    fn top(&self, k: u16) -> (w: u16)
        requires
            self.wf(),
            self@.has_depth(k + 1),
        ensures
            w == self@.top(k as int),
    {
        let sp = self.reg.get(Register::SP);
        self.mem.buffer[(sp - 1 - k) as usize]
    }

    fn set_pc(&mut self, pc: u16)
        requires
            old(self).wf(),
        ensures
            final(self).wf(),
            final(self)@ == old(self)@.with_pc(pc),
    {
        self.reg.set(Register::PC, pc);
    }

    fn push_word(&mut self, value: u16)
        requires
            old(self).wf(),
            old(self)@.has_room(1),
        ensures
            final(self).wf(),
            final(self)@ == old(self)@.pushed(value),
    {
        let sp = self.reg.get(Register::SP);
        self.mem.buffer.set(sp as usize, value);
        self.reg.set(Register::SP, sp + 1);
    }

    fn drop_words(&mut self, n: u16)
        requires
            old(self).wf(),
            old(self)@.has_depth(n as int),
        ensures
            final(self).wf(),
            final(self)@ == old(self)@.popped(n as int),
    {
        let sp = self.reg.get(Register::SP);
        self.reg.set(Register::SP, sp - n);
    }

    fn send(&mut self, message: Message)
        ensures
            final(self).wf() == old(self).wf(),
            final(self)@ == old(self)@.sent(message@),
    {
        self.outbox.push(message);
        assert(self@.outbox =~= old(self)@.outbox.push(message@));
    }

    fn raise(&mut self, event: Event)
        ensures
            final(self).wf() == old(self).wf(),
            final(self)@ == old(self)@.raised(event@),
    {
        self.events.push(event);
        assert(self@.events =~= old(self)@.events.push(event@));
    }

    fn expect(&mut self)
        ensures
            final(self).wf() == old(self).wf(),
            final(self)@ == old(self)@.expecting(),
    {
        if self.expected_receives < u16::MAX {
            self.expected_receives = self.expected_receives + 1;
        }
    }

    /// Reads the instruction at the program counter.
    fn decode(&self) -> (r: Result<Op, ExecError>)
        requires
            self.wf(),
            !self@.should_halt(),
        ensures
            tick_spec(self@) == match r {
                Ok(op) => execute_spec(self@, op),
                Err(e) => Err(e),
            },
            r is Ok ==> self@.pc() + r->Ok_0.len_spec() <= self@.code_len,
    {
        let pc = self.reg.get(Register::PC);
        let end = self.mem.code_len;
        let word = self.mem.buffer[pc as usize];
        match arity(word) {
            None => Err(ExecError::InvalidOpcode { word }),
            Some(n) => {
                if pc + n >= end {
                    Err(ExecError::TruncatedInstruction { address: pc })
                } else {
                    let a = if n >= 1 {
                        self.mem.buffer[(pc + 1) as usize]
                    } else {
                        0
                    };
                    let b = if n >= 2 {
                        self.mem.buffer[(pc + 2) as usize]
                    } else {
                        0
                    };
                    let op = build(word, a, b);
                    proof {
                        crate::op::lemma_encoding_is_faithful(op);
                    }
                    Ok(op)
                }
            },
        }
    }

    /// Executes one instruction that the program holds at the program
    /// counter.
    fn execute(&mut self, op: Op) -> (r: Result<(), ExecError>)
        requires
            old(self).wf(),
            old(self)@.pc() + op.len_spec() <= old(self)@.code_len,
        ensures
            final(self).wf(),
            match execute_spec(old(self)@, op) {
                Ok(m) => r is Ok && final(self)@ == m,
                Err(e) => r == Err::<(), ExecError>(e) && final(self)@ == old(self)@,
            },
    {
        let pc = self.reg.get(Register::PC);
        let end = self.mem.code_len;
        match op {
            Op::Noop => {
                self.set_pc(pc + 1);
            },
            Op::Push(value) => {
                if !self.has_room(1) {
                    return Err(ExecError::StackOverflow);
                }
                self.push_word(value);
                self.set_pc(pc + 2);
            },
            Op::Pop => {
                if !self.has_depth(1) {
                    return Err(ExecError::StackUnderflow);
                }
                self.drop_words(1);
                self.set_pc(pc + 1);
            },
            Op::Add => {
                if !self.has_depth(2) {
                    return Err(ExecError::StackUnderflow);
                }
                let upper = self.top(0);
                let lower = self.top(1);
                let sum = ((lower as u32 + upper as u32) % 0x1_0000) as u16;
                assert(sum == wrapping_sum(lower, upper));
                self.drop_words(2);
                self.push_word(sum);
                self.set_pc(pc + 1);
            },
            Op::Sub => {
                if !self.has_depth(2) {
                    return Err(ExecError::StackUnderflow);
                }
                let upper = self.top(0);
                let lower = self.top(1);
                let difference = ((lower as u32 + 0x1_0000 - upper as u32) % 0x1_0000) as u16;
                assert(difference == wrapping_difference(lower, upper));
                self.drop_words(2);
                self.push_word(difference);
                self.set_pc(pc + 1);
            },
            Op::Load(address) => {
                if is_mapped(address) {
                    let message = Message {
                        action: Action::Read { address: outlet_offset(address), count: 1 },
                        sender: Port { block: self.block(), port: outlet_of(address) },
                        recipient: None,
                    };
                    assert(message@ == read_request(old(self)@, address));
                    self.send(message);
                    self.expect();
                    self.set_pc(pc + 2);
                } else {
                    if !self.has_room(1) {
                        return Err(ExecError::StackOverflow);
                    }
                    let value = self.mem.buffer[address as usize];
                    self.push_word(value);
                    self.set_pc(pc + 2);
                }
            },
            Op::Store(address) => {
                if !self.has_depth(1) {
                    return Err(ExecError::StackUnderflow);
                }
                let value = self.top(0);
                if is_mapped(address) {
                    let mut data: Vec<u16> = Vec::new();
                    data.push(value);
                    let message = Message {
                        action: Action::Write { address: outlet_offset(address), data },
                        sender: Port { block: self.block(), port: outlet_of(address) },
                        recipient: None,
                    };
                    assert(data@ =~= seq![value]);
                    assert(message@ == write_request(old(self)@, address, value));
                    self.drop_words(1);
                    self.send(message);
                    self.set_pc(pc + 2);
                } else {
                    if !((DATA_START <= address && address <= DATA_END) || STACK_START
                        <= address) {
                        return Err(ExecError::ProtectedSegment { address });
                    }
                    self.drop_words(1);
                    self.mem.buffer.set(address as usize, value);
                    self.set_pc(pc + 2);
                }
            },
            Op::GetReg(number) => {
                match Register::from_index(number) {
                    None => {
                        return Err(ExecError::InvalidRegister { number });
                    },
                    Some(register) => {
                        if !self.has_room(1) {
                            return Err(ExecError::StackOverflow);
                        }
                        let value = self.reg.get(register);
                        self.push_word(value);
                        self.set_pc(pc + 2);
                    },
                }
            },
            Op::SetReg(number) => {
                match Register::from_index(number) {
                    None => {
                        return Err(ExecError::InvalidRegister { number });
                    },
                    Some(register) => {
                        if !self.has_depth(1) {
                            return Err(ExecError::StackUnderflow);
                        }
                        let value = self.top(0);
                        self.drop_words(1);
                        self.set_pc(pc + 2);
                        self.reg.set(register, value);
                    },
                }
            },
            Op::Jump(target) => {
                if target > end {
                    return Err(ExecError::InvalidJump { target });
                }
                self.set_pc(target);
            },
            Op::JumpZero(target) => {
                if !self.has_depth(1) {
                    return Err(ExecError::StackUnderflow);
                }
                if target > end {
                    return Err(ExecError::InvalidJump { target });
                }
                let value = self.top(0);
                self.drop_words(1);
                if value == 0 {
                    self.set_pc(target);
                } else {
                    self.set_pc(pc + 2);
                }
            },
            Op::Call(target) => {
                if target > end {
                    return Err(ExecError::InvalidJump { target });
                }
                let fp = self.reg.get(Register::FP);
                if !(CALL_STACK_START <= fp && fp <= CALL_STACK_END) {
                    return Err(ExecError::CallStackOverflow);
                }
                self.mem.buffer.set(fp as usize, pc + 2);
                self.reg.set(Register::FP, fp + 1);
                self.set_pc(target);
            },
            Op::Return => {
                let fp = self.reg.get(Register::FP);
                if !(CALL_STACK_START < fp && fp <= CALL_STACK_END + 1) {
                    return Err(ExecError::CallStackUnderflow);
                }
                let back = self.mem.buffer[(fp - 1) as usize];
                self.reg.set(Register::FP, fp - 1);
                self.set_pc(back);
            },
            Op::Send(port, count) => {
                if !self.has_depth(count) {
                    return Err(ExecError::StackUnderflow);
                }
                let sp = self.reg.get(Register::SP);
                let body = self.mem.copy_range(sp - count, count);
                let message = Message {
                    action: Action::Data { body },
                    sender: Port { block: self.block(), port },
                    recipient: None,
                };
                assert(message@ == data_message(
                    old(self)@,
                    port,
                    old(self)@.mem.subrange(sp - count, sp as int),
                ));
                self.drop_words(count);
                self.send(message);
                self.set_pc(pc + 3);
            },
            Op::Receive => {
                self.expect();
                self.set_pc(pc + 1);
            },
            Op::Print => {
                if !self.has_depth(1) {
                    return Err(ExecError::StackUnderflow);
                }
                let value = self.top(0);
                self.drop_words(1);
                self.raise(Event::Print { text: decimal_string(value) });
                self.set_pc(pc + 1);
            },
            Op::Sleep(ms) => {
                self.sleeping = true;
                self.remaining_sleep_ticks = ms;
                self.raise(Event::Sleep { ms });
                self.set_pc(pc + 2);
            },
            Op::Halt => {
                self.set_pc(end);
            },
        }
        Ok(())
    }

    /// Delivers one message to the machine: data goes on the data stack, a
    /// write to memory, an override over the data segment, and a read is
    /// answered through the outbox. A delivery that fails changes nothing.
    pub fn deliver(&mut self, message: Message) -> (r: Result<(), ExecError>)
        requires
            old(self).wf(),
        ensures
            final(self).wf(),
            match deliver_spec(old(self)@, message@) {
                Ok(m) => r is Ok && final(self)@ == m,
                Err(e) => r == Err::<(), ExecError>(e) && final(self)@ == old(self)@,
            },
    {
        let Message { action, sender, recipient: _ } = message;
        match action {
            Action::Data { body } => {
                if !self.has_room(body.len()) {
                    return Err(ExecError::StackOverflow);
                }
                let sp = self.reg.get(Register::SP);
                self.mem.fill(sp, &body);
                self.reg.set(Register::SP, sp + body.len() as u16);
                if self.expected_receives > 0 {
                    self.expected_receives = self.expected_receives - 1;
                }
                Ok(())
            },
            Action::Write { address, data } => self.mem.write(address, &data),
            Action::Override { data } => {
                if data.len() > DATA_SIZE as usize {
                    return Err(ExecError::DataTooLarge);
                }
                let blank = zeros(DATA_SIZE);
                self.mem.fill(DATA_START, &blank);
                self.mem.fill(DATA_START, &data);
                Ok(())
            },
            Action::Read { address, count } => {
                match self.mem.read(address, count) {
                    Err(e) => Err(e),
                    Ok(body) => {
                        let reply = Message {
                            action: Action::Data { body },
                            sender: Port { block: self.block(), port: sender.port },
                            recipient: Some(sender.block),
                        };
                        assert(reply@ == read_reply(
                            old(self)@,
                            sender,
                            old(self)@.mem.subrange(address as int, address + count),
                        ));
                        self.send(reply);
                        Ok(())
                    },
                }
            },
        }
    }

    /// Drains the inbox: takes the messages out in the order in which they
    /// came and delivers each. The first delivery that fails ends the
    /// draining and is reported; the messages behind it stay in the inbox.
    pub fn receive_messages(&mut self) -> (r: Result<(), ExecError>)
        requires
            old(self).wf(),
        ensures
            final(self).wf(),
            final(self)@ == receive_spec(old(self)@).0,
            final(self)@.status == old(self)@.status,
            match receive_spec(old(self)@).1 {
                None => r is Ok && final(self)@.inbox.len() == 0,
                Some(e) => r == Err::<(), ExecError>(e),
            },
    {
        loop
            invariant
                self.wf(),
                receive_spec(self@) == receive_spec(old(self)@),
                self@.status == old(self)@.status,
            decreases self.inbox@.len(),
        {
            let ghost before = self@;
            match self.inbox.pop_front() {
                None => {
                    assert(before.inbox.len() == 0);
                    return Ok(());
                },
                Some(message) => {
                    assert(message@ == before.inbox[0]);
                    assert(self@.inbox =~= before.inbox.drop_first());
                    let ghost rest = self@;
                    match self.deliver(message) {
                        Err(e) => {
                            return Err(e);
                        },
                        Ok(_) => {
                            assert(self@ == (MachineView { inbox: rest.inbox, ..self@ }));
                        },
                    }
                },
            }
        }
    }

    /// Executes the instruction at the program counter and moves the program
    /// counter on. At the end of the program there is nothing to execute,
    /// and the tick succeeds without a change. What the instruction sends or
    /// asks of the host is queued in the outbox and the events. A tick that
    /// fails changes nothing.
    pub fn tick(&mut self) -> (r: Result<(), ExecError>)
        requires
            old(self).wf(),
        ensures
            final(self).wf(),
            match tick_spec(old(self)@) {
                Ok(m) => r is Ok && final(self)@ == m,
                Err(e) => r == Err::<(), ExecError>(e) && final(self)@ == old(self)@,
            },
    {
        if self.should_halt() {
            return Ok(());
        }
        match self.decode() {
            Err(e) => Err(e),
            Ok(op) => self.execute(op),
        }
    }
}

} // verus!
