//! The sequencer: owns the machines and steps them one at a time.

use std::collections::HashMap;
use vstd::prelude::*;
use vstd::std_specs::iter::IteratorSpec;
use crate::error::{ExecError, ParseError, SequencerError};
use crate::event::{events_view, Event, EventView};
use crate::machine::Machine;
use crate::memory::{splice, write_error};
use crate::message::{messages_view, Message, MessageView};
use crate::parser::{assemble, assemble_spec};
use crate::program::{parsed_view, Program, ProgramView};
use crate::semantics::{
    load_error, loaded, readied, receive_spec, run_spec, slept, MachineView,
};
use crate::status::MachineStatus;

verus! {

/// Number of steps that a machine may wait for a message while no peer can
/// send one.
pub const MAX_WAIT_CYCLES: u16 = 3;

/// The first place at or after `from` at which a machine with the given id
/// stands.
pub open spec fn find_from(machines: Seq<MachineView>, id: u16, from: int) -> Option<int>
    decreases machines.len() - from,
{
    if from < 0 || from >= machines.len() {
        None
    } else if machines[from].id == Some(id) {
        Some(from)
    } else {
        find_from(machines, id, from + 1)
    }
}

/// The status of each id: that of the last machine that has the id.
pub open spec fn statuses_spec(machines: Seq<MachineView>) -> Map<u16, MachineStatus>
    decreases machines.len(),
{
    if machines.len() == 0 {
        Map::empty()
    } else {
        let before = statuses_spec(machines.drop_last());
        match machines.last().id {
            Some(id) => before.insert(id, machines.last().status),
            None => before,
        }
    }
}

/// The machines without those that have the given id, in their order.
pub open spec fn without(machines: Seq<MachineView>, id: u16) -> Seq<MachineView>
    decreases machines.len(),
{
    if machines.len() == 0 {
        machines
    } else if machines.last().id == Some(id) {
        without(machines.drop_last(), id)
    } else {
        without(machines.drop_last(), id).push(machines.last())
    }
}

/// Whether every id has a terminal status: halted, errored or invalid.
pub open spec fn all_terminal(statuses: Map<u16, MachineStatus>) -> bool {
    forall|k: u16| #[trigger] statuses.contains_key(k) ==> statuses[k].is_terminal_spec()
}

/// Whether every machine that has an id is halted, errored or invalid.
pub open spec fn all_done(machines: Seq<MachineView>) -> bool {
    forall|j: int|
        0 <= j < machines.len() && (#[trigger] machines[j]).id is Some
            ==> machines[j].status.is_terminal_spec()
}

/// Whether no machine other than those with the id `id` can still send a
/// message: none of them is running or ready.
pub open spec fn peers_idle_spec(machines: Seq<MachineView>, id: u16) -> bool {
    forall|j: int|
        0 <= j < machines.len() && (#[trigger] machines[j]).id != Some(id)
            ==> !machines[j].status.is_active_spec()
}

/// What a step gives: the machine after it, the watchdog counter after it,
/// and what is reported.
pub ghost struct StepOutcome {
    pub machine: MachineView,
    pub counter: u16,
    pub result: Result<(), SequencerError>,
}

/// What the watchdog does to a machine that still waits for a message.
/// While the watchdog is on and no peer can send any more, each step counts
/// the counter down by one; when it is at zero, the machine is errored and
/// the step reports that the message never came. Otherwise nothing changes.
pub open spec fn watched(
    m: MachineView,
    peers_idle: bool,
    watchdog: bool,
    counter: u16,
    id: u16,
) -> StepOutcome {
    if watchdog && peers_idle {
        let left = if counter > 0 {
            (counter - 1) as u16
        } else {
            0
        };
        if left == 0 {
            StepOutcome {
                machine: m.with_status(MachineStatus::Errored),
                counter: left,
                result: Err(SequencerError::MessageNeverReceived { id }),
            }
        } else {
            StepOutcome { machine: m, counter: left, result: Ok(()) }
        }
    } else {
        StepOutcome { machine: m, counter, result: Ok(()) }
    }
}

/// What running a machine for a step gives.
pub open spec fn ran(m: MachineView, counter: u16, id: u16, count: u16) -> StepOutcome {
    let (after, failure) = run_spec(m, count as nat);
    StepOutcome {
        machine: after,
        counter,
        result: match failure {
            Some(error) => Err(SequencerError::ExecutionFailed { id, error }),
            None => Ok(()),
        },
    }
}

/// What a step does to the machine that it is for.
///
/// A halted, invalid, loaded or errored machine is left alone. A sleeping
/// one counts its sleep down. Any other drains its inbox first, and a
/// delivery that fails ends the step with the status as it was. A machine
/// that still waits for a message is left to the watchdog; one whose wait is
/// over halts at the end of its program; every other runs for up to `count`
/// ticks.
pub open spec fn step_one_spec(
    m: MachineView,
    peers_idle: bool,
    watchdog: bool,
    counter: u16,
    id: u16,
    count: u16,
) -> StepOutcome {
    if m.status.is_inert_spec() {
        StepOutcome { machine: m, counter, result: Ok(()) }
    } else if m.status == MachineStatus::Sleeping {
        StepOutcome { machine: slept(m), counter, result: Ok(()) }
    } else {
        let started = if m.status == MachineStatus::Ready {
            m.with_status(MachineStatus::Running)
        } else {
            m
        };
        let (received, failure) = receive_spec(started);
        match failure {
            Some(error) => StepOutcome {
                machine: received,
                counter,
                result: Err(SequencerError::ReceiveFailed { error }),
            },
            None => if received.status == MachineStatus::Awaiting {
                if received.expected_receives > 0 {
                    watched(received, peers_idle, watchdog, counter, id)
                } else if received.should_halt() {
                    StepOutcome {
                        machine: received.with_status(MachineStatus::Halted),
                        counter,
                        result: Ok(()),
                    }
                } else {
                    ran(received.with_status(MachineStatus::Running), counter, id, count)
                }
            } else {
                ran(received, counter, id, count)
            },
        }
    }
}

/// The sequencer as a mathematical value.
pub ghost struct SequencerView {
    pub machines: Seq<MachineView>,
    pub await_watchdog: bool,
    pub await_watchdog_counter: u16,
}

impl SequencerView {
    /// Every machine is well formed.
    pub open spec fn wf(self) -> bool {
        forall|i: int| 0 <= i < self.machines.len() ==> (#[trigger] self.machines[i]).wf()
    }

    /// A sequencer without machines, its watchdog on and wound up.
    pub open spec fn initial() -> SequencerView {
        SequencerView {
            machines: Seq::empty(),
            await_watchdog: true,
            await_watchdog_counter: MAX_WAIT_CYCLES,
        }
    }

    /// The place of the first machine with the given id.
    pub open spec fn find(self, id: u16) -> Option<int> {
        find_from(self.machines, id, 0)
    }

    /// The sequencer with another machine at a place.
    pub open spec fn with_machine(self, place: int, m: MachineView) -> SequencerView {
        SequencerView { machines: self.machines.update(place, m), ..self }
    }

    /// The sequencer with one more machine, newly made, at the end.
    pub open spec fn added(self, id: u16) -> SequencerView {
        SequencerView { machines: self.machines.push(MachineView::fresh(Some(id))), ..self }
    }

    /// The sequencer without the machines that have the given id.
    pub open spec fn removed(self, id: u16) -> SequencerView {
        SequencerView { machines: without(self.machines, id), ..self }
    }

    /// The sequencer with all its machines made ready and the watchdog wound
    /// up.
    pub open spec fn all_readied(self) -> SequencerView {
        SequencerView {
            machines: self.machines.map_values(|m: MachineView| readied(m)),
            await_watchdog_counter: MAX_WAIT_CYCLES,
            ..self
        }
    }

    /// The sequencer after the machine with the given id has been woken; as
    /// it is where there is none.
    pub open spec fn woken(self, id: u16) -> SequencerView {
        match self.find(id) {
            Some(i) => self.with_machine(i, self.machines[i].woken()),
            None => self,
        }
    }

    /// The sequencer after `data` has been written from `address` on into
    /// the memory of the machine with the given id: as it is without such a
    /// machine or where the memory refuses the write.
    pub open spec fn memory_set(self, id: u16, address: u16, data: Seq<u16>) -> SequencerView {
        match self.find(id) {
            Some(i) if write_error(address, data.len() as int) is None => self.with_machine(
                i,
                MachineView {
                    mem: splice(self.machines[i].mem, address as int, data),
                    ..self.machines[i]
                },
            ),
            _ => self,
        }
    }

    /// The sequencer with every machine stripped of what is large.
    pub open spec fn stripped(self) -> SequencerView {
        SequencerView { machines: self.machines.map_values(|m: MachineView| m.stripped()), ..self }
    }

    /// Whether no machine other than those with the id `id` is running or
    /// ready. Every machine counts, also one that shares its id with
    /// another.
    pub open spec fn peers_halted(self, id: u16) -> bool {
        peers_idle_spec(self.machines, id)
    }

    /// Whether every machine with an id is halted, errored or invalid.
    /// Every machine counts, also one that shares its id with another.
    pub open spec fn is_halted(self) -> bool {
        all_done(self.machines)
    }

    /// The sequencer after a step of the machine with the given id, and what
    /// the step reports.
    pub open spec fn stepped(self, id: u16, count: u16) -> (
        SequencerView,
        Result<(), SequencerError>,
    ) {
        match self.find(id) {
            None => (self, Err(SequencerError::MachineDoesNotExist { id })),
            Some(i) => {
                let outcome = step_one_spec(
                    self.machines[i],
                    self.peers_halted(id),
                    self.await_watchdog,
                    self.await_watchdog_counter,
                    id,
                    count,
                );
                (
                    SequencerView {
                        machines: self.machines.update(i, outcome.machine),
                        await_watchdog_counter: outcome.counter,
                        ..self
                    },
                    outcome.result,
                )
            },
        }
    }

    /// The sequencer after the machine with the given id has been given what
    /// the assembler made of its source, and what is reported.
    pub open spec fn program_loaded(self, id: u16, parsed: Result<ProgramView, ParseError>) -> (
        SequencerView,
        Result<(), SequencerError>,
    ) {
        match self.find(id) {
            None => (self, Err(SequencerError::MachineDoesNotExist { id })),
            Some(i) => (
                self.with_machine(i, loaded(self.machines[i], parsed)),
                match load_error(parsed) {
                    Some(error) => Err(SequencerError::CannotParse { id, error }),
                    None => Ok(()),
                },
            ),
        }
    }

    /// The sequencer after a message has been put in the inbox of the
    /// machine with the given id, and whether there is such a machine.
    pub open spec fn message_sent(self, id: u16, message: MessageView) -> (SequencerView, bool) {
        match self.find(id) {
            None => (self, false),
            Some(i) => (
                self.with_machine(
                    i,
                    MachineView {
                        inbox: self.machines[i].inbox.push(message),
                        ..self.machines[i]
                    },
                ),
                true,
            ),
        }
    }

    /// The sequencer after the outbox of the machine with the given id has
    /// been emptied, and the messages that were in it.
    pub open spec fn messages_consumed(self, id: u16) -> (SequencerView, Seq<MessageView>) {
        match self.find(id) {
            None => (self, Seq::empty()),
            Some(i) => (
                self.with_machine(i, MachineView { outbox: Seq::empty(), ..self.machines[i] }),
                self.machines[i].outbox,
            ),
        }
    }

    /// The sequencer after the events of the machine with the given id have
    /// been taken, and the events that were queued.
    pub open spec fn side_effects_consumed(self, id: u16) -> (SequencerView, Seq<EventView>) {
        match self.find(id) {
            None => (self, Seq::empty()),
            Some(i) => (
                self.with_machine(i, MachineView { events: Seq::empty(), ..self.machines[i] }),
                self.machines[i].events,
            ),
        }
    }
}

/// The views of a sequence of machines, in order.
pub open spec fn machines_view(s: Seq<Machine>) -> Seq<MachineView> {
    s.map_values(|m: Machine| m@)
}

/// Owns the machines and steps them, one machine and one call at a time.
#[derive(Clone, Debug, PartialEq, Eq)]
pub struct Sequencer {
    pub machines: Vec<Machine>,
    /// Whether a machine that waits for a message is failed once no peer can
    /// send one any more. Turn it off where messages come by other means.
    pub await_watchdog: bool,
    /// Steps that a machine may still wait while no peer can send.
    pub await_watchdog_counter: u16,
}

impl View for Sequencer {
    type V = SequencerView;

    open spec fn view(&self) -> SequencerView {
        SequencerView {
            machines: machines_view(self.machines@),
            await_watchdog: self.await_watchdog,
            await_watchdog_counter: self.await_watchdog_counter,
        }
    }
}

/// Whether none of the ids other than `id` has a status in which a machine
/// can still send a message: none of them is running or ready.
pub open spec fn peers_halted_spec(statuses: Map<u16, MachineStatus>, id: u16) -> bool {
    forall|k: u16| #[trigger]
        statuses.contains_key(k) && k != id ==> !statuses[k].is_active_spec()
}

/// Tells whether none of the ids other than `id` is running or ready, by
/// the status that a map gives to each id.
pub fn peers_halted(statuses: HashMap<u16, MachineStatus>, id: u16) -> (b: bool)
    ensures
        b == peers_halted_spec(statuses@, id),
{
    broadcast use vstd::std_specs::hash::group_hash_axioms;

    let ghost entries = vstd::std_specs::hash::spec_hash_map_iter(&statuses).remaining();
    proof {
        vstd::std_specs::hash::axiom_spec_hash_map_iter(&statuses);
    }
    let mut idle = true;
    for entry in it: statuses.iter()
        invariant
            it.seq() == entries,
            idle == (forall|j: int|
                0 <= j < it.index() ==> !(*(#[trigger] entries[j]).0 != id && (
                *entries[j].1).is_active_spec())),
    {
        let (k, status) = entry;
        if *k != id && status.is_active() {
            idle = false;
        }
    }
    proof {
        if idle {
            assert forall|k: u16| #[trigger] statuses@.contains_key(k) && k != id implies !statuses@[k].is_active_spec() by {
                assert(entries.contains((&k, &statuses@[k])));
                let j = choose|j: int| 0 <= j < entries.len() && entries[j] == (&k, &statuses@[k]);
                assert(!(*entries[j].0 != id && (*entries[j].1).is_active_spec()));
            }
        } else {
            let j = choose|j: int|
                0 <= j < entries.len() && (*(#[trigger] entries[j]).0 != id && (
                *entries[j].1).is_active_spec());
            let k = *entries[j].0;
            assert(statuses@.contains_key(k) && statuses@[k] == *entries[j].1);
        }
    }
    idle
}

/// Putting a machine in place of another changes the view at that place
/// only.
pub proof fn lemma_view_update(machines: Seq<Machine>, place: int, m: Machine)
    requires
        0 <= place < machines.len(),
    ensures
        machines_view(machines.update(place, m)) == machines_view(machines).update(place, m@),
{
    assert(machines_view(machines.update(place, m)) =~= machines_view(machines).update(
        place,
        m@,
    ));
}

/// A well-formed sequencer stays so when a well-formed machine takes the
/// place of another.
pub proof fn lemma_with_machine_wf(s: SequencerView, place: int, m: MachineView)
    requires
        s.wf(),
        m.wf(),
        0 <= place < s.machines.len(),
    ensures
        s.with_machine(place, m).wf(),
{
    let t = s.with_machine(place, m);
    assert forall|i: int| 0 <= i < t.machines.len() implies (#[trigger] t.machines[i]).wf() by {
        if i != place {
            assert(s.machines[i].wf());
        }
    }
}

/// Two sequencers that differ in one machine only, which is well formed in
/// both or in neither, are both well formed or both not.
pub proof fn lemma_same_wf(s: SequencerView, t: SequencerView, place: int)
    requires
        0 <= place < s.machines.len(),
        t.machines == s.machines.update(place, t.machines[place]),
        t.machines[place].wf() == s.machines[place].wf(),
    ensures
        t.wf() == s.wf(),
{
    if s.wf() {
        assert forall|i: int| 0 <= i < t.machines.len() implies (#[trigger] t.machines[i]).wf() by {
            assert(s.machines[i].wf());
        }
    }
    if t.wf() {
        assert forall|i: int| 0 <= i < s.machines.len() implies (#[trigger] s.machines[i]).wf() by {
            assert(t.machines[i].wf());
        }
    }
}

/// A machine that takes the place of another with the same id changes
/// nothing in where the machines are found.
pub proof fn lemma_find_keeps(
    machines: Seq<MachineView>,
    place: int,
    m: MachineView,
    id: u16,
    from: int,
)
    requires
        0 <= place < machines.len(),
        m.id == machines[place].id,
        0 <= from,
    ensures
        find_from(machines.update(place, m), id, from) == find_from(machines, id, from),
    decreases machines.len() - from,
{
    if from < machines.len() {
        lemma_find_keeps(machines, place, m, id, from + 1);
    }
}

/// The machine that is found has the id that was looked for, and no machine
/// before it has; where none is found, no machine has the id.
pub proof fn lemma_find_from(machines: Seq<MachineView>, id: u16, from: int)
    requires
        0 <= from,
    ensures
        match find_from(machines, id, from) {
            Some(i) => {
                &&& from <= i < machines.len()
                &&& machines[i].id == Some(id)
                &&& forall|j: int| from <= j < i ==> (#[trigger] machines[j]).id != Some(id)
            },
            None => forall|j: int|
                from <= j < machines.len() ==> (#[trigger] machines[j]).id != Some(id),
        },
    decreases machines.len() - from,
{
    if from < machines.len() && machines[from].id != Some(id) {
        lemma_find_from(machines, id, from + 1);
    }
}

impl Sequencer {
    /// Every machine is well formed.
    pub open spec fn wf(&self) -> bool {
        self@.wf()
    }

    /// Makes a sequencer without machines, its watchdog on and wound up.
    pub fn new() -> (s: Sequencer)
        ensures
            s.wf(),
            s@ == SequencerView::initial(),
            s.machines@.len() == 0,
    {
        let s = Sequencer {
            machines: Vec::new(),
            await_watchdog: true,
            await_watchdog_counter: MAX_WAIT_CYCLES,
        };
        assert(s@.machines =~= Seq::empty());
        s
    }

    /// Tells whether every machine is well formed.
    pub fn is_wf(&self) -> (b: bool)
        ensures
            b == self.wf(),
    {
        let mut i: usize = 0;
        while i < self.machines.len()
            invariant
                i <= self.machines.len(),
                forall|j: int| 0 <= j < i ==> (#[trigger] self@.machines[j]).wf(),
            decreases self.machines.len() - i,
        {
            if !self.machines[i].is_wf() {
                assert(!self@.machines[i as int].wf());
                return false;
            }
            i += 1;
        }
        true
    }

    /// Adds a newly made machine with the given id at the end.
    pub fn add(&mut self, id: u16)
        ensures
            final(self).wf() == old(self).wf(),
            final(self)@ == old(self)@.added(id),
    {
        let mut machine = Machine::new();
        machine.id = Some(id);
        self.machines.push(machine);
        assert(self@.machines =~= old(self)@.machines.push(MachineView::fresh(Some(id))));
        proof {
            if old(self).wf() {
                assert forall|i: int| 0 <= i < self@.machines.len() implies (
                #[trigger] self@.machines[i]).wf() by {
                    if i < old(self)@.machines.len() {
                        assert(old(self)@.machines[i].wf());
                    }
                }
            } else {
                let i = choose|i: int|
                    0 <= i < old(self)@.machines.len() && !(#[trigger] old(self)@.machines[i]).wf();
                assert(!self@.machines[i].wf());
            }
        }
    }

    /// Finds the place of the first machine with the given id.
    pub fn position(&self, id: u16) -> (r: Option<usize>)
        ensures
            match r {
                Some(i) => self@.find(id) == Some(i as int) && i < self.machines@.len(),
                None => self@.find(id) is None,
            },
    {
        let mut i: usize = 0;
        while i < self.machines.len()
            invariant
                i <= self.machines.len(),
                self@.find(id) == find_from(self@.machines, id, i as int),
            decreases self.machines.len() - i,
        {
            match self.machines[i].id {
                Some(other) if other == id => {
                    return Some(i);
                },
                _ => {},
            }
            i += 1;
        }
        None
    }

    /// Gives the first machine with the given id.
    pub fn get(&self, id: u16) -> (r: Option<&Machine>)
        ensures
            match r {
                Some(m) => self@.find(id) is Some && *m == self.machines@[self@.find(id)->0],
                None => self@.find(id) is None,
            },
    {
        match self.position(id) {
            Some(i) => Some(&self.machines[i]),
            None => None,
        }
    }

    /// Gives the first machine with the given id, to be changed in place.
    pub fn get_mut(&mut self, id: u16) -> (r: Option<&mut Machine>)
        ensures
            match r {
                Some(m) => {
                    &&& old(self)@.find(id) is Some
                    &&& *m == old(self).machines@[old(self)@.find(id)->0]
                    &&& final(self).machines@ == old(self).machines@.update(
                        old(self)@.find(id)->0,
                        *final(m),
                    )
                    &&& final(self).await_watchdog == old(self).await_watchdog
                    &&& final(self).await_watchdog_counter == old(self).await_watchdog_counter
                },
                None => old(self)@.find(id) is None && *final(self) == *old(self),
            },
    {
        match self.position(id) {
            Some(i) => Some(&mut self.machines[i]),
            None => None,
        }
    }

    /// Removes every machine with the given id. The others keep their order.
    pub fn remove(&mut self, id: u16)
        ensures
            old(self).wf() ==> final(self).wf(),
            final(self)@ == old(self)@.removed(id),
    {
        let mut i: usize = 0;
        let ghost mut k: int = 0;
        while i < self.machines.len()
            invariant
                i <= self.machines.len(),
                0 <= k <= old(self).machines@.len(),
                self.machines@.len() - i == old(self).machines@.len() - k,
                self.await_watchdog == old(self).await_watchdog,
                self.await_watchdog_counter == old(self).await_watchdog_counter,
                machines_view(self.machines@.subrange(0, i as int)) == without(
                    old(self)@.machines.subrange(0, k),
                    id,
                ),
                self.machines@.subrange(i as int, self.machines@.len() as int) == old(
                    self,
                ).machines@.subrange(k, old(self).machines@.len() as int),
                old(self).wf() ==> self.wf(),
            decreases self.machines.len() - i,
        {
            let ghost before = self.machines@;
            let ghost before_view = self@;
            let ghost tail = before.subrange(i as int, before.len() as int);
            let ghost seen = old(self)@.machines.subrange(0, k + 1);
            proof {
                assert(tail[0] == before[i as int]);
                assert(before[i as int] == old(self).machines@[k]);
                assert(seen.drop_last() =~= old(self)@.machines.subrange(0, k));
                assert(seen.last() == before[i as int]@);
            }
            let found = match self.machines[i].id {
                Some(other) => other == id,
                None => false,
            };
            if found {
                self.machines.remove(i);
                proof {
                    assert(self.machines@.subrange(0, i as int) =~= before.subrange(0, i as int));
                    assert(self.machines@.subrange(i as int, self.machines@.len() as int)
                        =~= tail.subrange(1, tail.len() as int));
                    assert(tail.subrange(1, tail.len() as int) =~= old(self).machines@.subrange(
                        k + 1,
                        old(self).machines@.len() as int,
                    ));
                    if old(self).wf() {
                        assert forall|j: int| 0 <= j < self@.machines.len() implies (
                        #[trigger] self@.machines[j]).wf() by {
                            if j < i {
                                assert(before_view.machines[j].wf());
                            } else {
                                assert(before_view.machines[j + 1].wf());
                            }
                        }
                    }
                }
            } else {
                proof {
                    assert(machines_view(self.machines@.subrange(0, i + 1)) =~= machines_view(
                        self.machines@.subrange(0, i as int),
                    ).push(before[i as int]@));
                    assert(self.machines@.subrange(i + 1, self.machines@.len() as int)
                        =~= tail.subrange(1, tail.len() as int));
                    assert(tail.subrange(1, tail.len() as int) =~= old(self).machines@.subrange(
                        k + 1,
                        old(self).machines@.len() as int,
                    ));
                }
                i += 1;
            }
            proof {
                k = k + 1;
            }
        }
        proof {
            assert(self.machines@.subrange(0, i as int) =~= self.machines@);
            assert(old(self)@.machines.subrange(0, k) =~= old(self)@.machines);
        }
    }

    /// Makes every machine ready to run its program from the start, and
    /// winds the watchdog up. Machines without id or without valid program
    /// stay as they are; inboxes are kept.
    pub fn ready(&mut self)
        requires
            old(self).wf(),
        ensures
            final(self).wf(),
            final(self)@ == old(self)@.all_readied(),
    {
        let mut i: usize = 0;
        while i < self.machines.len()
            invariant
                i <= self.machines.len(),
                self.wf(),
                self.machines@.len() == old(self).machines@.len(),
                self.await_watchdog == old(self).await_watchdog,
                forall|j: int| 0 <= j < i ==> #[trigger] self@.machines[j] == readied(old(self)@.machines[j]),
                forall|j: int|
                    i <= j < self.machines@.len() ==> #[trigger] self@.machines[j] == old(
                        self,
                    )@.machines[j],
            decreases self.machines.len() - i,
        {
            let ghost before = *self;
            assert(before@.machines[i as int].wf());
            self.machines[i].make_ready();
            proof {
                lemma_view_update(before.machines@, i as int, self.machines@[i as int]);
                lemma_with_machine_wf(before@, i as int, self@.machines[i as int]);
                assert forall|j: int| 0 <= j < i + 1 implies #[trigger] self@.machines[j] == readied(
                    old(self)@.machines[j],
                ) by {
                    if j < i {
                        assert(before@.machines[j] == readied(old(self)@.machines[j]));
                    } else {
                        assert(before@.machines[j] == old(self)@.machines[j]);
                    }
                }
                assert forall|j: int| i + 1 <= j < self.machines@.len() implies #[trigger] self@.machines[j]
                    == old(self)@.machines[j] by {
                    assert(before@.machines[j] == old(self)@.machines[j]);
                }
            }
            i += 1;
        }
        let ghost done = self@;
        self.await_watchdog_counter = MAX_WAIT_CYCLES;
        proof {
            let goal = old(self)@.all_readied().machines;
            assert forall|j: int| 0 <= j < goal.len() implies self@.machines[j] == goal[j] by {
                assert(done.machines[j] == readied(old(self)@.machines[j]));
            }
            assert(self@.machines =~= goal);
            assert forall|j: int| 0 <= j < self@.machines.len() implies (
            #[trigger] self@.machines[j]).wf() by {
                assert(done.machines[j].wf());
            }
        }
    }

    /// Makes the first machine with the given id ready to run its program
    /// from the start, as `ready` does for all. Without such a machine
    /// nothing happens.
    pub fn reset_machine(&mut self, id: u16)
        requires
            old(self).wf(),
        ensures
            final(self).wf(),
            final(self)@ == match old(self)@.find(id) {
                Some(i) => old(self)@.with_machine(i, readied(old(self)@.machines[i])),
                None => old(self)@,
            },
    {
        if let Some(i) = self.position(id) {
            assert(old(self)@.machines[i as int].wf());
            self.machines[i].make_ready();
            proof {
                lemma_view_update(old(self).machines@, i as int, self.machines@[i as int]);
                lemma_with_machine_wf(old(self)@, i as int, self@.machines[i as int]);
            }
        }
    }

    /// Tells whether every machine with an id is halted, errored or invalid.
    /// Every machine counts, also one that shares its id with another.
    pub fn is_halted(&self) -> (b: bool)
        ensures
            b == self@.is_halted(),
    {
        let mut i: usize = 0;
        while i < self.machines.len()
            invariant
                i <= self.machines.len(),
                forall|j: int|
                    0 <= j < i && (#[trigger] self@.machines[j]).id is Some
                        ==> self@.machines[j].status.is_terminal_spec(),
            decreases self.machines.len() - i,
        {
            if self.machines[i].id.is_some() && !self.machines[i].status.is_terminal() {
                assert(self@.machines[i as int].id is Some);
                return false;
            }
            i += 1;
        }
        true
    }

    /// Tells whether no machine other than those with the id `id` is running
    /// or ready. Every machine counts, also one that shares its id with
    /// another.
    pub fn peers_idle(&self, id: u16) -> (b: bool)
        ensures
            b == self@.peers_halted(id),
    {
        let mut i: usize = 0;
        while i < self.machines.len()
            invariant
                i <= self.machines.len(),
                forall|j: int|
                    0 <= j < i && (#[trigger] self@.machines[j]).id != Some(id)
                        ==> !self@.machines[j].status.is_active_spec(),
            decreases self.machines.len() - i,
        {
            let same = match self.machines[i].id {
                Some(other) => other == id,
                None => false,
            };
            if !same && self.machines[i].status.is_active() {
                assert(self@.machines[i as int].id != Some(id));
                return false;
            }
            i += 1;
        }
        true
    }

    /// Puts a message at the end of the inbox of the first machine with the
    /// given id, and tells whether there is such a machine. Without one the
    /// message is dropped.
    pub fn send_message(&mut self, id: u16, message: Message) -> (delivered: bool)
        ensures
            final(self).wf() == old(self).wf(),
            final(self)@ == old(self)@.message_sent(id, message@).0,
            delivered == old(self)@.message_sent(id, message@).1,
    {
        match self.position(id) {
            None => false,
            Some(i) => {
                self.machines[i].accept(message);
                proof {
                    lemma_view_update(old(self).machines@, i as int, self.machines@[i as int]);
                    lemma_same_wf(old(self)@, self@, i as int);
                }
                true
            },
        }
    }

    /// Takes the messages out of the outbox of the first machine with the
    /// given id, oldest first. Without such a machine there are none.
    pub fn consume_messages(&mut self, id: u16) -> (messages: Vec<Message>)
        ensures
            final(self).wf() == old(self).wf(),
            final(self)@ == old(self)@.messages_consumed(id).0,
            messages_view(messages@) == old(self)@.messages_consumed(id).1,
    {
        match self.position(id) {
            None => {
                let messages: Vec<Message> = Vec::new();
                assert(messages_view(messages@) =~= Seq::empty());
                messages
            },
            Some(i) => {
                let messages = self.machines[i].take_messages();
                proof {
                    lemma_view_update(old(self).machines@, i as int, self.machines@[i as int]);
                    lemma_same_wf(old(self)@, self@, i as int);
                }
                messages
            },
        }
    }

    /// Takes the events of the first machine with the given id out of its
    /// queue, oldest first. Without such a machine there are none.
    pub fn consume_side_effects(&mut self, id: u16) -> (events: Vec<Event>)
        ensures
            final(self).wf() == old(self).wf(),
            final(self)@ == old(self)@.side_effects_consumed(id).0,
            events_view(events@) == old(self)@.side_effects_consumed(id).1,
    {
        match self.position(id) {
            None => {
                let events: Vec<Event> = Vec::new();
                assert(events_view(events@) =~= Seq::empty());
                events
            },
            Some(i) => {
                let events = self.machines[i].take_events();
                proof {
                    lemma_view_update(old(self).machines@, i as int, self.machines@[i as int]);
                    lemma_same_wf(old(self)@, self@, i as int);
                }
                events
            },
        }
    }

    /// Assembles a source and loads the program into the first machine with
    /// the given id. The machine is reset first. With a source that is a
    /// program that fits in memory the machine is loaded; otherwise it is
    /// invalid, and the error of the assembler is reported with the id.
    pub fn load(&mut self, id: u16, source: &str) -> (r: Result<(), SequencerError>)
        ensures
            old(self).wf() ==> final(self).wf(),
            final(self)@ == old(self)@.program_loaded(id, assemble_spec(source@)).0,
            r == old(self)@.program_loaded(id, assemble_spec(source@)).1,
    {
        if self.position(id).is_none() {
            return Err(SequencerError::MachineDoesNotExist { id });
        }
        self.load_program(id, assemble(source))
    }

    /// Gives the first machine with the given id what the assembler made of
    /// its source. The machine is reset first. With a program that fits in
    /// memory the machine is loaded; with an error of the assembler, or a
    /// program that is too large, the machine is invalid and the error is
    /// reported.
    pub fn load_program(&mut self, id: u16, parsed: Result<Program, ParseError>) -> (r: Result<
        (),
        SequencerError,
    >)
        ensures
            old(self).wf() ==> final(self).wf(),
            final(self)@ == old(self)@.program_loaded(id, parsed_view(parsed)).0,
            r == old(self)@.program_loaded(id, parsed_view(parsed)).1,
    {
        let i = match self.position(id) {
            Some(i) => i,
            None => {
                return Err(SequencerError::MachineDoesNotExist { id });
            },
        };
        let r = self.machines[i].load(parsed);
        proof {
            lemma_view_update(old(self).machines@, i as int, self.machines@[i as int]);
            if old(self).wf() {
                lemma_with_machine_wf(old(self)@, i as int, self@.machines[i as int]);
            }
        }
        match r {
            Ok(_) => Ok(()),
            Err(error) => Err(SequencerError::CannotParse { id, error }),
        }
    }

    /// Makes a copy of the sequencer with all that its machines hold.
    pub fn duplicate(&self) -> (r: Sequencer)
        ensures
            r@ == self@,
    {
        let mut machines: Vec<Machine> = Vec::new();
        let mut i: usize = 0;
        while i < self.machines.len()
            invariant
                i <= self.machines@.len(),
                machines@.len() == i,
                forall|j: int| 0 <= j < i ==> machines@[j]@ == self.machines@[j]@,
            decreases self.machines@.len() - i,
        {
            machines.push(self.machines[i].duplicate());
            i += 1;
        }
        let r = Sequencer {
            machines,
            await_watchdog: self.await_watchdog,
            await_watchdog_counter: self.await_watchdog_counter,
        };
        assert(r@.machines =~= self@.machines);
        r
    }

    /// Makes a copy of the sequencer for cheap polling: every machine is
    /// there with its id, status, counters, outbox and events, but without
    /// its inbox, memory words and registers.
    pub fn summary(&self) -> (r: Sequencer)
        ensures
            r@ == self@.stripped(),
    {
        let mut machines: Vec<Machine> = Vec::new();
        let mut i: usize = 0;
        while i < self.machines.len()
            invariant
                i <= self.machines@.len(),
                machines@.len() == i,
                forall|j: int| 0 <= j < i ==> machines@[j]@ == self.machines@[j]@.stripped(),
            decreases self.machines@.len() - i,
        {
            machines.push(self.machines[i].summary());
            i += 1;
        }
        let r = Sequencer {
            machines,
            await_watchdog: self.await_watchdog,
            await_watchdog_counter: self.await_watchdog_counter,
        };
        assert(r@.machines =~= self@.stripped().machines);
        r
    }

    /// Writes `data` from `address` on into the memory of the first machine
    /// with the given id, under the rules for writes, and gives what the
    /// memory says to it; nothing without such a machine. A write that the
    /// memory refuses changes nothing.
    pub fn write_memory(&mut self, id: u16, address: u16, data: &Vec<u16>) -> (r: Option<
        Result<(), ExecError>,
    >)
        requires
            old(self).wf(),
        ensures
            final(self).wf(),
            final(self)@ == old(self)@.memory_set(id, address, data@),
            match old(self)@.find(id) {
                None => r is None,
                Some(_) => r is Some && match write_error(address, data@.len() as int) {
                    Some(e) => r->0 == Err::<(), ExecError>(e),
                    None => r->0 is Ok,
                },
            },
    {
        match self.position(id) {
            None => None,
            Some(i) => {
                assert(old(self)@.machines[i as int].wf());
                let r = self.machines[i].mem.write(address, data);
                proof {
                    lemma_find_from(old(self)@.machines, id, 0);
                    lemma_view_update(old(self).machines@, i as int, self.machines@[i as int]);
                    lemma_with_machine_wf(old(self)@, i as int, self@.machines[i as int]);
                    if r is Err {
                        assert(self@.machines[i as int] == old(self)@.machines[i as int]);
                        assert(self@.machines =~= old(self)@.machines);
                    }
                }
                Some(r)
            },
        }
    }

    /// Wakes the first machine with the given id: it runs, and its sleep is
    /// over. Without such a machine nothing happens.
    pub fn wake(&mut self, machine_id: u16)
        ensures
            final(self).wf() == old(self).wf(),
            final(self)@ == old(self)@.woken(machine_id),
    {
        if let Some(i) = self.position(machine_id) {
            self.machines[i].wake();
            proof {
                lemma_view_update(old(self).machines@, i as int, self.machines@[i as int]);
                lemma_same_wf(old(self)@, self@, i as int);
            }
        }
    }

    /// Steps the first machine with the given id, for up to `count`
    /// instructions. The messages for the machine must be in its inbox
    /// before the call.
    pub fn step_machine(&mut self, id: u16, count: u16) -> (r: Result<(), SequencerError>)
        requires
            old(self).wf(),
        ensures
            final(self).wf(),
            final(self)@ == old(self)@.stepped(id, count).0,
            r == old(self)@.stepped(id, count).1,
    {
        let i = match self.position(id) {
            Some(i) => i,
            None => {
                return Err(SequencerError::MachineDoesNotExist { id });
            },
        };
        let peers_idle = self.peers_idle(id);
        let watchdog = self.await_watchdog;
        let counter = self.await_watchdog_counter;
        proof {
            assert(old(self)@.machines[i as int].wf());
        }
        let (left, r) = step_one(&mut self.machines[i], peers_idle, watchdog, counter, id, count);
        self.await_watchdog_counter = left;
        proof {
            lemma_view_update(old(self).machines@, i as int, self.machines@[i as int]);
            lemma_with_machine_wf(old(self)@, i as int, self@.machines[i as int]);
            assert(self@.machines =~= old(self)@.machines.update(i as int, self@.machines[i as int]));
        }
        r
    }

    /// Gives the status of each id: that of the last machine that has it.
    pub fn get_statuses(&self) -> (statuses: HashMap<u16, MachineStatus>)
        ensures
            statuses@ == statuses_spec(self@.machines),
    {
        broadcast use vstd::std_specs::hash::group_hash_axioms;

        let mut statuses: HashMap<u16, MachineStatus> = HashMap::new();
        let mut i: usize = 0;
        while i < self.machines.len()
            invariant
                i <= self.machines.len(),
                statuses@ == statuses_spec(self@.machines.subrange(0, i as int)),
            decreases self.machines.len() - i,
        {
            proof {
                let next = self@.machines.subrange(0, i + 1);
                assert(next.drop_last() =~= self@.machines.subrange(0, i as int));
                assert(next.last() == self@.machines[i as int]);
            }
            if let Some(id) = self.machines[i].id {
                statuses.insert(id, self.machines[i].status);
            }
            i += 1;
        }
        assert(self@.machines.subrange(0, i as int) =~= self@.machines);
        statuses
    }
}

/// Steps one machine. `peers_idle` says whether no other machine can still
/// send, `counter` is the watchdog counter; the counter after the step is
/// given back with what the step reports.
fn step_one(
    machine: &mut Machine,
    peers_idle: bool,
    watchdog: bool,
    counter: u16,
    id: u16,
    count: u16,
) -> (r: (u16, Result<(), SequencerError>))
    requires
        old(machine).wf(),
    ensures
        final(machine).wf(),
        ({
            let outcome = step_one_spec(
                old(machine)@,
                peers_idle,
                watchdog,
                counter,
                id,
                count,
            );
            &&& final(machine)@ == outcome.machine
            &&& r.0 == outcome.counter
            &&& r.1 == outcome.result
        }),
{
    match machine.status {
        MachineStatus::Halted | MachineStatus::Invalid | MachineStatus::Loaded
        | MachineStatus::Errored => {
            return (counter, Ok(()));
        },
        MachineStatus::Sleeping => {
            machine.sleep_on();
            return (counter, Ok(()));
        },
        MachineStatus::Ready => {
            machine.status = MachineStatus::Running;
        },
        _ => {},
    }
    if let Err(error) = machine.receive_messages() {
        return (counter, Err(SequencerError::ReceiveFailed { error }));
    }
    if machine.status == MachineStatus::Awaiting {
        if machine.expected_receives > 0 {
            if watchdog && peers_idle {
                let left: u16 = if counter > 0 {
                    counter - 1
                } else {
                    0
                };
                if left == 0 {
                    machine.status = MachineStatus::Errored;
                    return (left, Err(SequencerError::MessageNeverReceived { id }));
                }
                return (left, Ok(()));
            }
            return (counter, Ok(()));
        }
        if machine.should_halt() {
            machine.status = MachineStatus::Halted;
            return (counter, Ok(()));
        }
        machine.status = MachineStatus::Running;
    }
    match machine.run(count) {
        Err(error) => (counter, Err(SequencerError::ExecutionFailed { id, error })),
        Ok(_) => (counter, Ok(())),
    }
}

} // verus!
