//! The controller: what a host calls to drive the machines and to look at
//! them.

use std::collections::HashMap;
use vstd::prelude::*;
use crate::error::{ExecError, SequencerError};
use crate::event::{copy_events, events_view, Event};
use crate::message::{messages_view, Message};
use crate::parser::assemble_spec;
use crate::register::Register;
use crate::segments::{CODE_SIZE, STACK_SIZE, STACK_START};
use crate::semantics::{readied, MachineView};
use crate::sequencer::{statuses_spec, Sequencer, SequencerView};
use crate::status::MachineStatus;

verus! {

/// The three registers that a host looks at.
#[derive(Clone, Copy, Debug, PartialEq, Eq, Structural)]
pub struct InspectedRegister {
    pub pc: u16,
    pub sp: u16,
    pub fp: u16,
}

/// What a host sees of a machine when it inspects it.
#[derive(Clone, Debug, PartialEq, Eq)]
pub struct InspectedMachine {
    /// The events that are queued; they stay queued.
    pub effects: Vec<Event>,
    pub registers: InspectedRegister,
    pub inbox_size: usize,
    pub outbox_size: usize,
    pub status: MachineStatus,
}

/// What a host gets of a machine in one call: how the machine stands, and
/// the events and messages that it has produced, which are taken out.
#[derive(Clone, Debug, PartialEq, Eq)]
pub struct MachineSnapshot {
    pub machine: Option<InspectedMachine>,
    pub effects: Vec<Event>,
    pub messages: Vec<Message>,
}

/// Whether an inspection shows the machine as it is.
pub open spec fn shows(seen: InspectedMachine, m: MachineView) -> bool {
    &&& events_view(seen.effects@) == m.events
    &&& seen.registers == (InspectedRegister { pc: m.pc(), sp: m.sp(), fp: m.fp() })
    &&& seen.inbox_size == m.inbox.len()
    &&& seen.outbox_size == m.outbox.len()
    &&& seen.status == m.status
}

/// Drives a sequencer for a host.
#[derive(Clone, Debug, PartialEq, Eq)]
pub struct Controller {
    pub seq: Sequencer,
}

impl View for Controller {
    type V = SequencerView;

    open spec fn view(&self) -> SequencerView {
        self.seq@
    }
}

impl Controller {
    /// Every machine is well formed.
    pub open spec fn wf(&self) -> bool {
        self.seq.wf()
    }

    /// Makes a controller without machines.
    pub fn create() -> (c: Controller)
        ensures
            c.wf(),
            c@ == SequencerView::initial(),
            c.seq.machines@.len() == 0,
    {
        Controller { seq: Sequencer::new() }
    }

    /// Tells whether every machine is well formed.
    pub fn is_wf(&self) -> (b: bool)
        ensures
            b == self.wf(),
    {
        self.seq.is_wf()
    }

    /// Adds a machine whose id is the number of machines so far, cut to a
    /// word, and gives the id back.
    pub fn add_machine(&mut self) -> (id: u16)
        ensures
            final(self).wf() == old(self).wf(),
            id == old(self)@.machines.len() % 0x1_0000,
            final(self)@ == old(self)@.added(id),
            final(self).seq.machines@.len() == old(self).seq.machines@.len() + 1,
    {
        let id = (self.seq.machines.len() % 0x1_0000) as u16;
        self.seq.add(id);
        id
    }

    /// Adds a machine with the given id.
    pub fn add_machine_with_id(&mut self, id: u16)
        ensures
            final(self).wf() == old(self).wf(),
            final(self)@ == old(self)@.added(id),
    {
        self.seq.add(id);
    }

    /// Removes every machine with the given id.
    pub fn remove_machine(&mut self, id: u16)
        ensures
            old(self).wf() ==> final(self).wf(),
            final(self)@ == old(self)@.removed(id),
    {
        self.seq.remove(id);
    }

    /// Assembles a source and loads the program into the machine with the
    /// given id.
    pub fn load(&mut self, id: u16, source: &str) -> (r: Result<(), SequencerError>)
        ensures
            old(self).wf() ==> final(self).wf(),
            final(self)@ == old(self)@.program_loaded(id, assemble_spec(source@)).0,
            r == old(self)@.program_loaded(id, assemble_spec(source@)).1,
    {
        self.seq.load(id, source)
    }

    /// Makes every machine ready to run its program from the start.
    pub fn ready(&mut self)
        requires
            old(self).wf(),
        ensures
            final(self).wf(),
            final(self)@ == old(self)@.all_readied(),
    {
        self.seq.ready();
    }

    /// Steps the machine with the given id for up to `count` instructions.
    pub fn step_machine(&mut self, id: u16, count: u16) -> (r: Result<(), SequencerError>)
        requires
            old(self).wf(),
        ensures
            final(self).wf(),
            final(self)@ == old(self)@.stepped(id, count).0,
            r == old(self)@.stepped(id, count).1,
    {
        self.seq.step_machine(id, count)
    }

    /// Makes the machine with the given id ready to run its program from
    /// the start.
    pub fn reset_machine(&mut self, id: u16)
        requires
            old(self).wf(),
        ensures
            final(self).wf(),
            final(self)@ == match old(self)@.find(id) {
                Some(i) => old(self)@.with_machine(i, readied(old(self)@.machines[i])),
                None => old(self)@,
            },
    {
        self.seq.reset_machine(id)
    }

    /// Gives the status of each id.
    pub fn statuses(&self) -> (statuses: HashMap<u16, MachineStatus>)
        ensures
            statuses@ == statuses_spec(self@.machines),
    {
        self.seq.get_statuses()
    }

    /// Tells whether every machine with an id is halted, errored or
    /// invalid.
    pub fn is_halted(&self) -> (b: bool)
        ensures
            b == self@.is_halted(),
    {
        self.seq.is_halted()
    }

    /// Shows how the machine with the given id stands, if there is one.
    /// Nothing is taken out of its queues.
    pub fn inspect_machine(&self, id: u16) -> (r: Option<InspectedMachine>)
        requires
            self.wf(),
        ensures
            match self@.find(id) {
                Some(i) => r is Some && shows(r->0, self@.machines[i]),
                None => r is None,
            },
    {
        match self.seq.get(id) {
            None => None,
            Some(m) => {
                proof {
                    crate::sequencer::lemma_find_from(self@.machines, id, 0);
                    assert(self@.machines[self@.find(id)->0].wf());
                }
                Some(
                    InspectedMachine {
                        effects: copy_events(&m.events),
                        registers: InspectedRegister {
                            pc: m.reg.get(Register::PC),
                            sp: m.reg.get(Register::SP),
                            fp: m.reg.get(Register::FP),
                        },
                        inbox_size: m.inbox.len(),
                        outbox_size: m.outbox.len(),
                        status: m.status,
                    },
                )
            },
        }
    }

    /// Reads the first `size` words of the code segment of the machine with
    /// the given id, if there is one.
    pub fn read_code(&self, id: u16, size: u16) -> (r: Option<Result<Vec<u16>, ExecError>>)
        requires
            self.wf(),
        ensures
            match self@.find(id) {
                None => r is None,
                Some(i) => r is Some && match r->0 {
                    Ok(words) => size <= CODE_SIZE && words@ == self@.machines[i].mem.subrange(
                        0,
                        size as int,
                    ),
                    Err(e) => size > CODE_SIZE && e == (ExecError::OutOfRange { address: 0 }),
                },
            },
    {
        match self.seq.get(id) {
            None => None,
            Some(m) => {
                proof {
                    crate::sequencer::lemma_find_from(self@.machines, id, 0);
                    assert(self@.machines[self@.find(id)->0].wf());
                }
                Some(m.mem.read_code(size))
            },
        }
    }

    /// Reads `size` words from `addr` on of the machine with the given id,
    /// if there is one.
    pub fn read_mem(&self, id: u16, addr: u16, size: u16) -> (r: Option<
        Result<Vec<u16>, ExecError>,
    >)
        requires
            self.wf(),
        ensures
            match self@.find(id) {
                None => r is None,
                Some(i) => r is Some && match r->0 {
                    Ok(words) => crate::segments::in_physical(addr as int, size as int) && words@
                        == self@.machines[i].mem.subrange(addr as int, addr + size),
                    Err(e) => !crate::segments::in_physical(addr as int, size as int) && e == (
                    ExecError::OutOfRange { address: addr }),
                },
            },
    {
        match self.seq.get(id) {
            None => None,
            Some(m) => {
                proof {
                    crate::sequencer::lemma_find_from(self@.machines, id, 0);
                    assert(self@.machines[self@.find(id)->0].wf());
                }
                Some(m.mem.read(addr, size))
            },
        }
    }

    /// Reads the first `size` words of the stack segment of the machine
    /// with the given id, if there is one.
    pub fn read_stack(&self, id: u16, size: u16) -> (r: Option<Result<Vec<u16>, ExecError>>)
        requires
            self.wf(),
        ensures
            match self@.find(id) {
                None => r is None,
                Some(i) => r is Some && match r->0 {
                    Ok(words) => size <= STACK_SIZE && words@ == self@.machines[i].mem.subrange(
                        STACK_START as int,
                        STACK_START + size,
                    ),
                    Err(e) => size > STACK_SIZE && e == (ExecError::OutOfRange {
                        address: STACK_START,
                    }),
                },
            },
    {
        match self.seq.get(id) {
            None => None,
            Some(m) => {
                proof {
                    crate::sequencer::lemma_find_from(self@.machines, id, 0);
                    assert(self@.machines[self@.find(id)->0].wf());
                }
                Some(m.mem.read_stack(size))
            },
        }
    }

    /// Takes the events of the machine with the given id out of its queue.
    pub fn consume_machine_side_effects(&mut self, id: u16) -> (events: Vec<Event>)
        ensures
            final(self).wf() == old(self).wf(),
            final(self)@ == old(self)@.side_effects_consumed(id).0,
            events_view(events@) == old(self)@.side_effects_consumed(id).1,
    {
        self.seq.consume_side_effects(id)
    }

    /// Starts over with a new sequencer without machines.
    pub fn clear(&mut self)
        ensures
            final(self).wf(),
            final(self)@ == SequencerView::initial(),
    {
        self.seq = Sequencer::new();
    }

    /// Gives a copy of the whole state, with all that the machines hold.
    pub fn full_serialize_sequencer_state(&self) -> (state: Sequencer)
        ensures
            state@ == self@,
    {
        self.seq.duplicate()
    }

    /// Gives a copy of the state for cheap polling: every machine with its
    /// id, status, counters, outbox and events, but without its inbox,
    /// memory words and registers.
    pub fn partial_serialize_sequencer_state(&self) -> (state: Sequencer)
        ensures
            state@ == self@.stripped(),
            state@.machines.len() == self@.machines.len(),
            forall|i: int|
                0 <= i < self@.machines.len() ==> {
                    &&& (#[trigger] state@.machines[i]).id == self@.machines[i].id
                    &&& state@.machines[i].status == self@.machines[i].status
                    &&& state@.machines[i].inbox.len() == 0
                    &&& state@.machines[i].mem.len() == 0
                    &&& state@.machines[i].reg.len() == 0
                },
    {
        self.seq.summary()
    }

    /// Writes `data` from `address` on into the memory of the machine with
    /// the given id, and tells whether there is such a machine. A write that
    /// the memory refuses changes nothing.
    pub fn set_mem(&mut self, id: u16, address: u16, data: Vec<u16>) -> (found: bool)
        requires
            old(self).wf(),
        ensures
            final(self).wf(),
            found == old(self)@.find(id) is Some,
            final(self)@ == old(self)@.memory_set(id, address, data@),
    {
        let r = self.seq.write_memory(id, address, &data);
        r.is_some()
    }

    /// Wakes the machine with the given id.
    pub fn wake(&mut self, machine_id: u16)
        ensures
            final(self).wf() == old(self).wf(),
            final(self)@ == old(self)@.woken(machine_id),
    {
        self.seq.wake(machine_id);
    }

    /// Puts a message in the inbox of the machine with the given id, and
    /// tells whether there is such a machine. Without one the message is
    /// dropped.
    pub fn send_message_to_machine(&mut self, machine_id: u16, message: Message) -> (delivered:
        bool)
        ensures
            final(self).wf() == old(self).wf(),
            final(self)@ == old(self)@.message_sent(machine_id, message@).0,
            delivered == old(self)@.message_sent(machine_id, message@).1,
    {
        self.seq.send_message(machine_id, message)
    }

    /// Takes the messages out of the outbox of the machine with the given
    /// id.
    pub fn consume_messages(&mut self, machine_id: u16) -> (messages: Vec<Message>)
        ensures
            final(self).wf() == old(self).wf(),
            final(self)@ == old(self)@.messages_consumed(machine_id).0,
            messages_view(messages@) == old(self)@.messages_consumed(machine_id).1,
    {
        self.seq.consume_messages(machine_id)
    }

    /// Gives in one call how the machine with the given id stands, and
    /// takes its events and messages out. The machine is shown as it was
    /// before they were taken.
    pub fn get_snapshot(&mut self, id: u16) -> (snapshot: MachineSnapshot)
        requires
            old(self).wf(),
        ensures
            final(self).wf(),
            final(self)@ == old(self)@.side_effects_consumed(id).0.messages_consumed(id).0,
            match old(self)@.find(id) {
                Some(i) => {
                    &&& snapshot.machine is Some
                    &&& shows(snapshot.machine->0, old(self)@.machines[i])
                    &&& events_view(snapshot.effects@) == old(self)@.machines[i].events
                    &&& messages_view(snapshot.messages@) == old(self)@.machines[i].outbox
                },
                None => {
                    &&& snapshot.machine is None
                    &&& snapshot.effects@.len() == 0
                    &&& snapshot.messages@.len() == 0
                },
            },
    {
        let machine = self.inspect_machine(id);
        let effects = self.seq.consume_side_effects(id);
        proof {
            crate::sequencer::lemma_find_from(old(self)@.machines, id, 0);
            if let Some(i) = old(self)@.find(id) {
                crate::sequencer::lemma_find_keeps(
                    old(self)@.machines,
                    i,
                    self@.machines[i],
                    id,
                    0,
                );
            }
        }
        let messages = self.seq.consume_messages(id);
        proof {
            if old(self)@.find(id) is None {
                assert(events_view(effects@).len() == 0);
                assert(messages_view(messages@).len() == 0);
            }
        }
        MachineSnapshot { machine, effects, messages }
    }
}

} // verus!
