//! Laws of the runtime: what holds of every machine and every sequencer.

use vstd::prelude::*;
use crate::error::{ExecError, SequencerError};
use crate::message::{ActionView, MessageView, Port};
use crate::op::{
    decode_spec, encode_all, lemma_encoding_is_faithful, lemma_program_decodes, offset_of, Op,
};
use crate::program::ProgramView;
use crate::register::initial_registers;
use crate::segments::{
    is_mapped_spec, outlet_of_spec, outlet_offset_spec, DATA_START, MAPPED_START,
};
use crate::semantics::{
    deliver_spec, execute_spec, loaded, receive_spec, run_spec, slept, tick_spec,
    write_request, MachineView,
};
use crate::sequencer::{
    all_terminal, lemma_find_from, lemma_find_keeps, peers_halted_spec, statuses_spec,
    step_one_spec, without, SequencerView, MAX_WAIT_CYCLES,
};
use crate::status::MachineStatus;

verus! {

/// The sequencer after one step of the machine `id` for each of the given
/// counts, in order.
pub open spec fn after_steps(s: SequencerView, id: u16, counts: Seq<u16>) -> SequencerView
    decreases counts.len(),
{
    if counts.len() == 0 {
        s
    } else {
        after_steps(s, id, counts.drop_last()).stepped(id, counts.last()).0
    }
}

/// Whether each of the steps of `after_steps` reports success.
pub open spec fn steps_succeed(s: SequencerView, id: u16, counts: Seq<u16>) -> bool
    decreases counts.len(),
{
    counts.len() == 0 || (steps_succeed(s, id, counts.drop_last()) && after_steps(
        s,
        id,
        counts.drop_last(),
    ).stepped(id, counts.last()).1 is Ok)
}

/// A step of a machine that is halted, invalid, errored or loaded changes
/// nothing and succeeds, whatever the count.
pub proof fn lemma_inert_step_is_noop(s: SequencerView, id: u16, count: u16)
    requires
        s.find(id) is Some,
        s.machines[s.find(id)->0].status.is_inert_spec(),
    ensures
        s.stepped(id, count) == (s, Ok::<(), SequencerError>(())),
{
    lemma_find_from(s.machines, id, 0);
    let i = s.find(id)->0;
    assert(s.machines.update(i, s.machines[i]) =~= s.machines);
}

/// Any number of steps of a machine that is halted, invalid, errored or
/// loaded, with any counts, change nothing, and all of them succeed.
pub proof fn lemma_inert_steps_are_noops(s: SequencerView, id: u16, counts: Seq<u16>)
    requires
        s.find(id) is Some,
        s.machines[s.find(id)->0].status.is_inert_spec(),
    ensures
        after_steps(s, id, counts) == s,
        steps_succeed(s, id, counts),
    decreases counts.len(),
{
    if counts.len() > 0 {
        lemma_inert_steps_are_noops(s, id, counts.drop_last());
        lemma_inert_step_is_noop(s, id, counts.last());
    }
}

/// A run of a running machine that neither fails nor ends waiting for a
/// message or asleep ends halted exactly if the program counter has reached
/// the end of the program; otherwise the machine still runs.
pub proof fn lemma_run_halts_at_end(m: MachineView, count: nat)
    requires
        m.status == MachineStatus::Running,
        count > 0,
    ensures
        ({
            let (after, failure) = run_spec(m, count);
            &&& after.status == MachineStatus::Halted ==> failure is None && after.should_halt()
            &&& failure is None && after.expected_receives == 0 && !after.sleeping ==> (
            after.status == MachineStatus::Halted <==> after.should_halt())
            &&& failure is None && after.expected_receives == 0 && !after.sleeping ==> (
            after.status == MachineStatus::Running <==> !after.should_halt())
        }),
    decreases count,
{
    lemma_tick_keeps_status(m);
    match tick_spec(m) {
        Err(_) => {},
        Ok(next) => {
            if next.expected_receives == 0 && !next.sleeping && !next.should_halt() && count > 1 {
                lemma_run_halts_at_end(next, (count - 1) as nat);
            }
        },
    }
}

/// A run that has stopped before its count was used up gives the same with
/// any larger count: the ticks that are left are dropped.
pub proof fn lemma_run_overshoot(m: MachineView, count: nat, more: nat)
    requires
        m.status == MachineStatus::Running,
        run_spec(m, count).0.status != MachineStatus::Running,
    ensures
        run_spec(m, count + more) == run_spec(m, count),
    decreases count,
{
    lemma_tick_keeps_status(m);
    if count > 0 {
        match tick_spec(m) {
            Err(_) => {},
            Ok(next) => {
                if next.expected_receives == 0 && !next.sleeping && !next.should_halt() {
                    lemma_run_overshoot(next, (count - 1) as nat, more);
                }
            },
        }
    }
}

/// A tick changes neither the id nor the status of a machine, nor its
/// inbox, nor the number of words of its program.
pub proof fn lemma_tick_keeps_status(m: MachineView)
    ensures
        tick_spec(m) matches Ok(next) ==> {
            &&& next.status == m.status
            &&& next.id == m.id
            &&& next.inbox == m.inbox
            &&& next.code_len == m.code_len
        },
{
}

/// After the machines with an id are removed, no machine has the id: a
/// message for it is dropped and changes nothing, and a step for it reports
/// that the machine does not exist.
pub proof fn lemma_removed_is_gone(s: SequencerView, id: u16, message: MessageView, count: u16)
    ensures
        s.removed(id).find(id) is None,
        s.removed(id).message_sent(id, message) == (s.removed(id), false),
        s.removed(id).stepped(id, count) == (
            s.removed(id),
            Err::<(), SequencerError>(SequencerError::MachineDoesNotExist { id }),
        ),
{
    lemma_without_has_no(s.machines, id);
    lemma_find_from(s.removed(id).machines, id, 0);
}

/// No machine that is left after a removal has the removed id, and every
/// machine that is left was there before.
pub proof fn lemma_without_has_no(machines: Seq<MachineView>, id: u16)
    ensures
        forall|j: int|
            0 <= j < without(machines, id).len() ==> (#[trigger] without(machines, id)[j]).id
                != Some(id),
        forall|j: int|
            0 <= j < without(machines, id).len() ==> machines.contains(
                #[trigger] without(machines, id)[j],
            ),
        without(machines, id).len() <= machines.len(),
    decreases machines.len(),
{
    if machines.len() > 0 {
        lemma_without_has_no(machines.drop_last(), id);
        let rest = without(machines.drop_last(), id);
        assert forall|j: int| 0 <= j < without(machines, id).len() implies machines.contains(
            #[trigger] without(machines, id)[j],
        ) by {
            if j < rest.len() {
                assert(machines.drop_last().contains(rest[j]));
                let k = choose|k: int|
                    0 <= k < machines.drop_last().len() && machines.drop_last()[k] == rest[j];
                assert(machines[k] == rest[j]);
            } else {
                assert(machines[machines.len() - 1] == without(machines, id)[j]);
            }
        }
    }
}

/// An id that was removed can be used again: the machine that is added
/// under it is found, and it is newly made.
pub proof fn lemma_id_can_be_reused(s: SequencerView, id: u16)
    ensures
        s.removed(id).added(id).find(id) == Some(s.removed(id).machines.len() as int),
        s.removed(id).added(id).machines[s.removed(id).machines.len() as int]
            == MachineView::fresh(Some(id)),
{
    lemma_without_has_no(s.machines, id);
    let t = s.removed(id).added(id);
    lemma_find_from(t.machines, id, 0);
}

/// A step of a sleeping machine counts its sleep down by one, whatever the
/// count, and executes nothing; the machine runs again exactly when no step
/// of sleep is left.
pub proof fn lemma_sleeping_step(s: SequencerView, id: u16, count: u16)
    requires
        s.find(id) is Some,
        s.machines[s.find(id)->0].status == MachineStatus::Sleeping,
        s.machines[s.find(id)->0].remaining_sleep_ticks > 0,
    ensures
        ({
            let i = s.find(id)->0;
            let m = s.machines[i];
            let (t, r) = s.stepped(id, count);
            &&& r is Ok
            &&& t.find(id) == Some(i)
            &&& t.machines[i] == slept(m)
            &&& t.machines[i].remaining_sleep_ticks == m.remaining_sleep_ticks - 1
            &&& t.machines[i].reg == m.reg
            &&& t.machines[i].mem == m.mem
            &&& t.machines[i].status == if m.remaining_sleep_ticks == 1 {
                MachineStatus::Running
            } else {
                MachineStatus::Sleeping
            }
        }),
{
    lemma_find_from(s.machines, id, 0);
    let t = s.stepped(id, count).0;
    lemma_find_from(t.machines, id, 0);
}

/// A machine that sleeps for `n` more steps is still asleep after fewer
/// than `n` steps and runs again after exactly `n`, whatever their counts.
pub proof fn lemma_sleep_takes_its_steps(s: SequencerView, id: u16, counts: Seq<u16>)
    requires
        s.find(id) is Some,
        s.machines[s.find(id)->0].status == MachineStatus::Sleeping,
        0 < counts.len() <= s.machines[s.find(id)->0].remaining_sleep_ticks,
    ensures
        ({
            let i = s.find(id)->0;
            let m = s.machines[i];
            let t = after_steps(s, id, counts);
            &&& steps_succeed(s, id, counts)
            &&& t.find(id) == Some(i)
            &&& t.machines[i].remaining_sleep_ticks == m.remaining_sleep_ticks - counts.len()
            &&& t.machines[i].status == if counts.len() == m.remaining_sleep_ticks {
                MachineStatus::Running
            } else {
                MachineStatus::Sleeping
            }
        }),
    decreases counts.len(),
{
    lemma_find_from(s.machines, id, 0);
    let before = after_steps(s, id, counts.drop_last());
    if counts.len() == 1 {
        assert(counts.drop_last().len() == 0);
        assert(before == s);
        assert(steps_succeed(s, id, counts.drop_last()));
    } else {
        lemma_sleep_takes_its_steps(s, id, counts.drop_last());
    }
    lemma_sleeping_step(before, id, counts.last());
    assert(after_steps(s, id, counts) == before.stepped(id, counts.last()).0);
    assert(steps_succeed(s, id, counts));
}

/// A machine that waits for a message that is not in its inbox, while the
/// watchdog is on and no peer can send, is counted down by each step and
/// failed by the step that brings the counter to zero.
pub proof fn lemma_watchdog_step(s: SequencerView, id: u16, count: u16)
    requires
        s.find(id) is Some,
        s.machines[s.find(id)->0].status == MachineStatus::Awaiting,
        s.machines[s.find(id)->0].expected_receives > 0,
        s.machines[s.find(id)->0].inbox.len() == 0,
        s.await_watchdog,
        s.peers_halted(id),
    ensures
        ({
            let i = s.find(id)->0;
            let m = s.machines[i];
            let (t, r) = s.stepped(id, count);
            if s.await_watchdog_counter <= 1 {
                &&& r == Err::<(), SequencerError>(SequencerError::MessageNeverReceived { id })
                &&& t.machines[i] == m.with_status(MachineStatus::Errored)
                &&& t.await_watchdog_counter == 0
            } else {
                &&& r is Ok
                &&& t.machines[i] == m
                &&& t.await_watchdog_counter == s.await_watchdog_counter - 1
            }
        }),
{
    lemma_find_from(s.machines, id, 0);
}

/// A store to a mapped address leaves the memory as it is and puts exactly
/// one message in the outbox: a write of the stored word, sent from the
/// outlet of the address.
pub proof fn lemma_mapped_store(m: MachineView, address: u16)
    requires
        is_mapped_spec(address),
        m.has_depth(1),
    ensures
        execute_spec(m, Op::Store(address)) matches Ok(after) && {
            &&& after.mem == m.mem
            &&& after.outbox == m.outbox.push(write_request(m, address, m.top(0)))
            &&& after.outbox.len() == m.outbox.len() + 1
            &&& after.outbox.last().action == (ActionView::Write {
                address: outlet_offset_spec(address) as u16,
                data: seq![m.top(0)],
            })
            &&& after.outbox.last().sender == (Port {
                block: m.block(),
                port: outlet_of_spec(address) as u16,
            })
            &&& address == MAPPED_START ==> after.outbox.last().sender.port == 0
                && outlet_offset_spec(address) == 0
        },
{
}

/// A tick at a store to a mapped address leaves the memory as it is and
/// puts exactly one message in the outbox.
pub proof fn lemma_mapped_store_tick(m: MachineView, address: u16)
    requires
        !m.should_halt(),
        decode_spec(m.mem, m.pc() as int, m.code_len as int) == Some(Op::Store(address)),
        is_mapped_spec(address),
        m.has_depth(1),
    ensures
        tick_spec(m) matches Ok(after) && {
            &&& after.mem == m.mem
            &&& after.outbox == m.outbox.push(write_request(m, address, m.top(0)))
        },
{
    lemma_mapped_store(m, address);
}

/// A step of one instruction of a ready or running machine with an empty
/// inbox, whose next instruction is a store to a mapped address, leaves the
/// memory as it is and puts exactly one message in the outbox: the write of
/// the stored word. If the outbox was empty, that message is all that the
/// host then takes out of it, and it takes it once.
pub proof fn lemma_mapped_store_step(s: SequencerView, id: u16, address: u16)
    requires
        s.find(id) is Some,
        ({
            let m = s.machines[s.find(id)->0];
            &&& m.status == MachineStatus::Ready || m.status == MachineStatus::Running
            &&& m.inbox.len() == 0
            &&& !m.should_halt()
            &&& decode_spec(m.mem, m.pc() as int, m.code_len as int) == Some(Op::Store(address))
            &&& is_mapped_spec(address)
            &&& m.has_depth(1)
        }),
    ensures
        ({
            let i = s.find(id)->0;
            let m = s.machines[i];
            let (t, r) = s.stepped(id, 1);
            let sent = write_request(m, address, m.top(0));
            &&& r is Ok
            &&& t.find(id) == Some(i)
            &&& t.machines[i].mem == m.mem
            &&& t.machines[i].outbox == m.outbox.push(sent)
            &&& m.outbox.len() == 0 ==> t.messages_consumed(id).1 == seq![sent]
                && t.messages_consumed(id).0.messages_consumed(id).1.len() == 0
        }),
{
    lemma_find_from(s.machines, id, 0);
    let i = s.find(id)->0;
    let m = s.machines[i];
    let started = m.with_status(MachineStatus::Running);
    assert(receive_spec(started) == (started, None::<ExecError>));
    lemma_mapped_store_tick(started, address);
    assert(write_request(started, address, started.top(0)) == write_request(
        m,
        address,
        m.top(0),
    ));
    let after = tick_spec(started)->Ok_0;
    assert(run_spec(after, 0) == (after, None::<ExecError>));
    let t = s.stepped(id, 1).0;
    lemma_step_keeps_places(s, id, 1);
    lemma_find_from(t.machines, id, 0);
    lemma_taken_once(t, id);
    if m.outbox.len() == 0 {
        assert(m.outbox.push(write_request(m, address, m.top(0))) =~= seq![
            write_request(m, address, m.top(0)),
        ]);
    }
}

/// No instruction that addresses the mapped region changes the memory.
pub proof fn lemma_mapped_access_keeps_memory(m: MachineView, address: u16)
    requires
        is_mapped_spec(address),
    ensures
        execute_spec(m, Op::Store(address)) matches Ok(after) ==> after.mem == m.mem,
        execute_spec(m, Op::Load(address)) matches Ok(after) && after.mem == m.mem
            && after.outbox.len() == m.outbox.len() + 1,
{
}

/// The watchdog counter of a new sequencer is the number of steps that a
/// machine may wait.
pub proof fn lemma_initial_watchdog()
    ensures
        SequencerView::initial().await_watchdog_counter == MAX_WAIT_CYCLES,
        SequencerView::initial().await_watchdog,
        SequencerView::initial().all_readied().await_watchdog_counter == MAX_WAIT_CYCLES,
{
}

/// The statuses of the ids other than `id` do not depend on the machines
/// that have the id `id`.
pub proof fn lemma_statuses_of_others(
    machines: Seq<MachineView>,
    place: int,
    m: MachineView,
    id: u16,
    other: u16,
)
    requires
        0 <= place < machines.len(),
        machines[place].id == Some(id),
        m.id == Some(id),
        other != id,
    ensures
        statuses_spec(machines.update(place, m)).contains_key(other) == statuses_spec(
            machines,
        ).contains_key(other),
        statuses_spec(machines.update(place, m)).contains_key(other) ==> statuses_spec(
            machines.update(place, m),
        )[other] == statuses_spec(machines)[other],
    decreases machines.len(),
{
    let changed = machines.update(place, m);
    if place == machines.len() - 1 {
        assert(changed.drop_last() =~= machines.drop_last());
    } else {
        assert(changed.drop_last() =~= machines.drop_last().update(place, m));
        assert(changed.last() == machines.last());
        lemma_statuses_of_others(machines.drop_last(), place, m, id, other);
    }
}

/// Whether the peers of a machine can still send does not change when the
/// machine itself changes.
pub proof fn lemma_peers_stay(s: SequencerView, place: int, m: MachineView, id: u16)
    requires
        0 <= place < s.machines.len(),
        s.machines[place].id == Some(id),
        m.id == Some(id),
    ensures
        s.with_machine(place, m).peers_halted(id) == s.peers_halted(id),
{
    let before = s.machines;
    let after = s.with_machine(place, m).machines;
    if s.peers_halted(id) {
        assert forall|j: int| 0 <= j < after.len() && (#[trigger] after[j]).id != Some(
            id,
        ) implies !after[j].status.is_active_spec() by {
            assert(before[j].id != Some(id));
        }
    }
    if s.with_machine(place, m).peers_halted(id) {
        assert forall|j: int| 0 <= j < before.len() && (#[trigger] before[j]).id != Some(
            id,
        ) implies !before[j].status.is_active_spec() by {
            assert(after[j].id != Some(id));
        }
    }
}

/// Every status that the map of statuses holds is that of a machine with
/// the id.
pub proof fn lemma_statuses_come_from_machines(machines: Seq<MachineView>, id: u16)
    requires
        statuses_spec(machines).contains_key(id),
    ensures
        exists|i: int|
            0 <= i < machines.len() && (#[trigger] machines[i]).id == Some(id)
                && machines[i].status == statuses_spec(machines)[id],
    decreases machines.len(),
{
    if machines.len() > 0 {
        if machines.last().id == Some(id) {
            assert(machines[machines.len() - 1].id == Some(id));
        } else {
            let front = machines.drop_last();
            lemma_statuses_come_from_machines(front, id);
            let i = choose|i: int|
                0 <= i < front.len() && (#[trigger] front[i]).id == Some(id) && front[i].status
                    == statuses_spec(front)[id];
            assert(machines[i].id == Some(id));
        }
    }
}

/// What holds of all machines holds of the map of statuses: where every
/// machine is done, every id is, and where no peer of a machine can send,
/// no other id can.
pub proof fn lemma_statuses_follow_machines(s: SequencerView, id: u16)
    ensures
        s.is_halted() ==> all_terminal(statuses_spec(s.machines)),
        s.peers_halted(id) ==> peers_halted_spec(statuses_spec(s.machines), id),
{
    let statuses = statuses_spec(s.machines);
    assert forall|k: u16| #[trigger] statuses.contains_key(k) implies (s.is_halted()
        ==> statuses[k].is_terminal_spec()) && (s.peers_halted(id) && k != id
        ==> !statuses[k].is_active_spec()) by {
        lemma_statuses_come_from_machines(s.machines, k);
        let i = choose|i: int|
            0 <= i < s.machines.len() && (#[trigger] s.machines[i]).id == Some(k)
                && s.machines[i].status == statuses[k];
        assert(s.machines[i].id is Some);
        if k != id {
            assert(s.machines[i].id != Some(id));
        }
    }
}

/// Whether every machine has an id and no two machines share one.
pub open spec fn ids_distinct(machines: Seq<MachineView>) -> bool {
    &&& forall|i: int| 0 <= i < machines.len() ==> (#[trigger] machines[i]).id is Some
    &&& forall|i: int, j: int|
        0 <= i < j < machines.len() ==> (#[trigger] machines[i]).id != (#[trigger] machines[j]).id
}

/// Where every machine has an id of its own, the map of statuses says of
/// the machines what the machines say themselves: whether all are done, and
/// whether the peers of a machine can still send.
pub proof fn lemma_statuses_agree(s: SequencerView, id: u16)
    requires
        ids_distinct(s.machines),
    ensures
        s.is_halted() == all_terminal(statuses_spec(s.machines)),
        s.peers_halted(id) == peers_halted_spec(statuses_spec(s.machines), id),
{
    lemma_statuses_follow_machines(s, id);
    let statuses = statuses_spec(s.machines);
    assert forall|j: int| 0 <= j < s.machines.len() implies statuses.contains_key(
        (#[trigger] s.machines[j]).id->0,
    ) && statuses[s.machines[j].id->0] == s.machines[j].status by {
        let k = s.machines[j].id->0;
        assert(s.machines[j].id is Some);
        assert forall|later: int| j < later < s.machines.len() implies (
        #[trigger] s.machines[later]).id != Some(k) by {
            assert(s.machines[j].id != s.machines[later].id);
        }
        lemma_statuses_value(s.machines, k, j);
    }
    if all_terminal(statuses) {
        assert forall|j: int| 0 <= j < s.machines.len() && (#[trigger] s.machines[j]).id
            is Some implies s.machines[j].status.is_terminal_spec() by {
            assert(statuses.contains_key(s.machines[j].id->0));
        }
    }
    if peers_halted_spec(statuses, id) {
        assert forall|j: int| 0 <= j < s.machines.len() && (#[trigger] s.machines[j]).id
            != Some(id) implies !s.machines[j].status.is_active_spec() by {
            assert(s.machines[j].id is Some);
            assert(statuses.contains_key(s.machines[j].id->0));
        }
    }
}

/// A machine that waits for a message that does not come, while the
/// watchdog is on and no peer can send, is left waiting by fewer steps than
/// the watchdog counter counts: each of them succeeds and only counts the
/// counter down by one.
pub proof fn lemma_watchdog_waits(s: SequencerView, id: u16, counts: Seq<u16>)
    requires
        s.find(id) is Some,
        s.machines[s.find(id)->0].status == MachineStatus::Awaiting,
        s.machines[s.find(id)->0].expected_receives > 0,
        s.machines[s.find(id)->0].inbox.len() == 0,
        s.await_watchdog,
        s.peers_halted(id),
        counts.len() < s.await_watchdog_counter,
    ensures
        steps_succeed(s, id, counts),
        after_steps(s, id, counts) == (SequencerView {
            await_watchdog_counter: (s.await_watchdog_counter - counts.len()) as u16,
            ..s
        }),
    decreases counts.len(),
{
    if counts.len() > 0 {
        lemma_watchdog_waits(s, id, counts.drop_last());
        let before = after_steps(s, id, counts.drop_last());
        lemma_find_from(s.machines, id, 0);
        lemma_watchdog_step(before, id, counts.last());
        let after = before.stepped(id, counts.last()).0;
        assert(after.machines =~= s.machines);
    }
}

/// Such a machine is failed by the step that uses the watchdog counter up:
/// with a counter of `c`, step `c` reports that the message never came and
/// leaves the machine errored and the counter at zero.
pub proof fn lemma_watchdog_fails(s: SequencerView, id: u16, counts: Seq<u16>, last: u16)
    requires
        s.find(id) is Some,
        s.machines[s.find(id)->0].status == MachineStatus::Awaiting,
        s.machines[s.find(id)->0].expected_receives > 0,
        s.machines[s.find(id)->0].inbox.len() == 0,
        s.await_watchdog,
        s.peers_halted(id),
        counts.len() + 1 == s.await_watchdog_counter,
    ensures
        steps_succeed(s, id, counts),
        after_steps(s, id, counts).stepped(id, last) == (
            SequencerView { await_watchdog_counter: 0, ..s }.with_machine(
                s.find(id)->0,
                s.machines[s.find(id)->0].with_status(MachineStatus::Errored),
            ),
            Err::<(), SequencerError>(SequencerError::MessageNeverReceived { id }),
        ),
{
    lemma_watchdog_waits(s, id, counts);
    lemma_find_from(s.machines, id, 0);
    lemma_watchdog_step(after_steps(s, id, counts), id, last);
}

/// A step changes no id: every machine is found where it was, and the
/// watchdog stays on or off. At most the machine that is stepped changes.
pub proof fn lemma_step_keeps_places(s: SequencerView, id: u16, count: u16)
    ensures
        ({
            let t = s.stepped(id, count).0;
            &&& t.machines.len() == s.machines.len()
            &&& t.await_watchdog == s.await_watchdog
            &&& forall|other: u16| t.find(other) == s.find(other)
            &&& forall|j: int|
                0 <= j < s.machines.len() ==> (#[trigger] t.machines[j]).id == s.machines[j].id
            &&& forall|j: int|
                0 <= j < s.machines.len() && Some(j) != s.find(id) ==> #[trigger] t.machines[j]
                    == s.machines[j]
        }),
{
    lemma_find_from(s.machines, id, 0);
    if let Some(i) = s.find(id) {
        let m = s.machines[i];
        let outcome = step_one_spec(
            m,
            s.peers_halted(id),
            s.await_watchdog,
            s.await_watchdog_counter,
            id,
            count,
        );
        lemma_step_keeps_id(m, s.peers_halted(id), s.await_watchdog, s.await_watchdog_counter, id, count);
        assert forall|other: u16| s.stepped(id, count).0.find(other) == s.find(other) by {
            lemma_find_keeps(s.machines, i, outcome.machine, other, 0);
        }
    }
}

/// Steps change no id: every machine is found where it was, and the
/// watchdog stays on or off.
pub proof fn lemma_steps_keep_places(s: SequencerView, id: u16, counts: Seq<u16>)
    ensures
        ({
            let t = after_steps(s, id, counts);
            &&& t.machines.len() == s.machines.len()
            &&& t.await_watchdog == s.await_watchdog
            &&& forall|other: u16| t.find(other) == s.find(other)
            &&& forall|j: int|
                0 <= j < s.machines.len() && Some(j) != s.find(id) ==> #[trigger] t.machines[j]
                    == s.machines[j]
        }),
    decreases counts.len(),
{
    if counts.len() > 0 {
        lemma_steps_keep_places(s, id, counts.drop_last());
        lemma_step_keeps_places(after_steps(s, id, counts.drop_last()), id, counts.last());
    }
}

/// Draining the inbox changes neither the id nor the status of a machine.
pub proof fn lemma_receive_keeps_status(m: MachineView)
    ensures
        receive_spec(m).0.id == m.id,
        receive_spec(m).0.status == m.status,
        receive_spec(m).1 is None ==> receive_spec(m).0.inbox.len() == 0,
    decreases m.inbox.len(),
{
    if m.inbox.len() > 0 {
        let rest = MachineView { inbox: m.inbox.drop_first(), ..m };
        match deliver_spec(rest, m.inbox[0]) {
            Err(_) => {},
            Ok(next) => {
                lemma_receive_keeps_status(MachineView { inbox: rest.inbox, ..next });
            },
        }
    }
}

/// A run changes no id, and leaves a running machine running, awaiting,
/// sleeping, halted or errored: errored exactly if a tick failed.
pub proof fn lemma_run_status(m: MachineView, count: nat)
    requires
        m.status == MachineStatus::Running,
    ensures
        run_spec(m, count).0.id == m.id,
        run_spec(m, count).1 is Some <==> run_spec(m, count).0.status == MachineStatus::Errored,
        ({
            let status = run_spec(m, count).0.status;
            status == MachineStatus::Running || status == MachineStatus::Awaiting || status
                == MachineStatus::Sleeping || status == MachineStatus::Halted || status
                == MachineStatus::Errored
        }),
        run_spec(m, count).0.status == MachineStatus::Awaiting ==> run_spec(
            m,
            count,
        ).0.expected_receives > 0,
        run_spec(m, count).0.status == MachineStatus::Sleeping ==> run_spec(m, count).0.sleeping,
    decreases count,
{
    lemma_tick_keeps_status(m);
    if count > 0 {
        match tick_spec(m) {
            Err(_) => {},
            Ok(next) => {
                if next.expected_receives == 0 && !next.sleeping && !next.should_halt() {
                    lemma_run_status(next, (count - 1) as nat);
                }
            },
        }
    }
}

/// A step changes the id of no machine.
pub proof fn lemma_step_keeps_id(
    m: MachineView,
    peers_idle: bool,
    watchdog: bool,
    counter: u16,
    id: u16,
    count: u16,
)
    ensures
        step_one_spec(m, peers_idle, watchdog, counter, id, count).machine.id == m.id,
{
    lemma_step_transitions(m, peers_idle, watchdog, counter, id, count);
}

/// Whether a step may lead a machine from one status to another. An
/// invalid, halted, errored or loaded machine stays as it is. A sleeping
/// machine sleeps on or runs. A ready, running or awaiting machine may run,
/// wait, sleep, halt or fail; only a machine that waited may wait on without
/// having run, and no step leaves a machine ready.
pub open spec fn step_may_lead(from: MachineStatus, to: MachineStatus) -> bool {
    match from {
        MachineStatus::Invalid | MachineStatus::Halted | MachineStatus::Errored
        | MachineStatus::Loaded => to == from,
        MachineStatus::Sleeping => to == MachineStatus::Sleeping || to == MachineStatus::Running,
        MachineStatus::Ready | MachineStatus::Running | MachineStatus::Awaiting => to
            == MachineStatus::Running || to == MachineStatus::Awaiting || to
            == MachineStatus::Sleeping || to == MachineStatus::Halted || to
            == MachineStatus::Errored,
    }
}

/// Every step keeps to the transitions between statuses, and changes no id.
/// A step fails exactly with a machine that it leaves errored, or with a
/// delivery that failed, which leaves the status as it was once the machine
/// had started.
pub proof fn lemma_step_transitions(
    m: MachineView,
    peers_idle: bool,
    watchdog: bool,
    counter: u16,
    id: u16,
    count: u16,
)
    ensures
        ({
            let outcome = step_one_spec(m, peers_idle, watchdog, counter, id, count);
            &&& outcome.machine.id == m.id
            &&& step_may_lead(m.status, outcome.machine.status)
            &&& outcome.counter <= counter
            &&& match outcome.result {
                Ok(_) => outcome.machine.status == MachineStatus::Errored ==> m.status
                    == MachineStatus::Errored,
                Err(SequencerError::ReceiveFailed { .. }) => outcome.machine.status == (if m.status
                    == MachineStatus::Ready {
                    MachineStatus::Running
                } else {
                    m.status
                }),
                Err(SequencerError::ExecutionFailed { id: failed, .. }) => failed == id
                    && outcome.machine.status == MachineStatus::Errored,
                Err(SequencerError::MessageNeverReceived { id: failed }) => failed == id
                    && outcome.machine.status == MachineStatus::Errored && outcome.counter == 0,
                Err(_) => false,
            }
        }),
{
    if !m.status.is_inert_spec() && m.status != MachineStatus::Sleeping {
        let started = if m.status == MachineStatus::Ready {
            m.with_status(MachineStatus::Running)
        } else {
            m
        };
        lemma_receive_keeps_status(started);
        let received = receive_spec(started).0;
        if receive_spec(started).1 is None {
            if received.status == MachineStatus::Awaiting {
                if received.expected_receives == 0 && !received.should_halt() {
                    lemma_run_status(received.with_status(MachineStatus::Running), count as nat);
                }
            } else {
                lemma_run_status(received, count as nat);
            }
        }
    }
}

/// Events and messages are taken once: after they have been taken, there
/// are none to take.
pub proof fn lemma_taken_once(s: SequencerView, id: u16)
    ensures
        s.side_effects_consumed(id).0.side_effects_consumed(id).1.len() == 0,
        s.messages_consumed(id).0.messages_consumed(id).1.len() == 0,
        s.side_effects_consumed(id).0.side_effects_consumed(id).0 == s.side_effects_consumed(
            id,
        ).0,
        s.messages_consumed(id).0.messages_consumed(id).0 == s.messages_consumed(id).0,
{
    lemma_find_from(s.machines, id, 0);
    if let Some(i) = s.find(id) {
        let e = s.side_effects_consumed(id).0;
        lemma_find_keeps(s.machines, i, e.machines[i], id, 0);
        assert(e.machines.update(i, e.machines[i]) =~= e.machines);
        let o = s.messages_consumed(id).0;
        lemma_find_keeps(s.machines, i, o.machines[i], id, 0);
        assert(o.machines.update(i, o.machines[i]) =~= o.machines);
    }
}

/// Messages are delivered in the order in which they were sent: a message
/// that is sent to a machine stands behind those that its inbox holds.
pub proof fn lemma_inbox_is_fifo(s: SequencerView, id: u16, first: MessageView, second: MessageView)
    requires
        s.find(id) is Some,
    ensures
        ({
            let i = s.find(id)->0;
            let t = s.message_sent(id, first).0.message_sent(id, second).0;
            &&& s.message_sent(id, first).1
            &&& t.find(id) == Some(i)
            &&& t.machines[i].inbox == s.machines[i].inbox.push(first).push(second)
        }),
{
    lemma_find_from(s.machines, id, 0);
    let i = s.find(id)->0;
    let u = s.message_sent(id, first).0;
    lemma_find_keeps(s.machines, i, u.machines[i], id, 0);
    let t = u.message_sent(id, second).0;
    lemma_find_keeps(u.machines, i, t.machines[i], id, 0);
}

/// A step that leaves a machine halted gives the same with any larger
/// count: the instructions that are left are not executed, and nothing is
/// reported for them.
pub proof fn lemma_step_overshoot(
    m: MachineView,
    peers_idle: bool,
    watchdog: bool,
    counter: u16,
    id: u16,
    count: u16,
    more: u16,
)
    requires
        count + more <= u16::MAX,
        step_one_spec(m, peers_idle, watchdog, counter, id, count).machine.status
            == MachineStatus::Halted,
    ensures
        step_one_spec(m, peers_idle, watchdog, counter, id, (count + more) as u16)
            == step_one_spec(m, peers_idle, watchdog, counter, id, count),
{
    if !m.status.is_inert_spec() && m.status != MachineStatus::Sleeping {
        let started = if m.status == MachineStatus::Ready {
            m.with_status(MachineStatus::Running)
        } else {
            m
        };
        lemma_receive_keeps_status(started);
        let received = receive_spec(started).0;
        if receive_spec(started).1 is None {
            if received.status == MachineStatus::Awaiting {
                if received.expected_receives == 0 && !received.should_halt() {
                    lemma_run_overshoot(
                        received.with_status(MachineStatus::Running),
                        count as nat,
                        more as nat,
                    );
                }
            } else {
                lemma_run_overshoot(received, count as nat, more as nat);
            }
        }
    }
}

/// A step that runs a machine, succeeds and leaves it neither waiting for a
/// message nor asleep leaves it halted exactly if its program counter has
/// reached the end of the program.
pub proof fn lemma_step_halts_at_end(
    m: MachineView,
    peers_idle: bool,
    watchdog: bool,
    counter: u16,
    id: u16,
    count: u16,
)
    requires
        m.status == MachineStatus::Ready || m.status == MachineStatus::Running,
        count > 0,
    ensures
        ({
            let outcome = step_one_spec(m, peers_idle, watchdog, counter, id, count);
            outcome.result is Ok && outcome.machine.expected_receives == 0
                && !outcome.machine.sleeping ==> (outcome.machine.status == MachineStatus::Halted
                <==> outcome.machine.should_halt())
        }),
{
    let started = m.with_status(MachineStatus::Running);
    lemma_receive_keeps_status(started);
    let received = receive_spec(started).0;
    if receive_spec(started).1 is None {
        lemma_run_halts_at_end(received, count as nat);
    }
}

/// A machine that was given a program that fits is well formed and loaded,
/// whatever it was before: its memory starts with the code words of the
/// program, its data segment starts with the data, its registers are at
/// their initial values and its queues are empty.
pub proof fn lemma_loaded_holds_program(m: MachineView, program: ProgramView)
    requires
        program.code_fits(),
        program.data_fits(),
    ensures
        ({
            let l = loaded(m, Ok(program));
            let code = encode_all(program.ops);
            &&& l.wf()
            &&& l.id == m.id
            &&& l.status == MachineStatus::Loaded
            &&& l.code_len == code.len()
            &&& l.mem.subrange(0, code.len() as int) == code
            &&& l.mem.subrange(DATA_START as int, DATA_START + program.data.len())
                == program.data
            &&& l.reg == initial_registers()
            &&& l.inbox.len() == 0 && l.outbox.len() == 0 && l.events.len() == 0
            &&& !l.sleeping && l.expected_receives == 0
        }),
{
    let l = loaded(m, Ok(program));
    let code = encode_all(program.ops);
    assert(l.mem.subrange(0, code.len() as int) =~= code);
    assert(l.mem.subrange(DATA_START as int, DATA_START + program.data.len())
        =~= program.data);
}

/// A loaded machine executes the instructions of its program: with the
/// program counter at the place of an instruction, a tick does what that
/// instruction does.
pub proof fn lemma_loaded_executes_program(m: MachineView, program: ProgramView, index: int)
    requires
        program.code_fits(),
        program.data_fits(),
        0 <= index < program.ops.len(),
    ensures
        ({
            let at = offset_of(program.ops, index);
            let l = loaded(m, Ok(program)).with_pc(at as u16);
            &&& 0 <= at < encode_all(program.ops).len()
            &&& tick_spec(l) == execute_spec(l, program.ops[index])
        }),
{
    lemma_loaded_holds_program(m, program);
    let l = loaded(m, Ok(program));
    lemma_program_decodes(program.ops, index, l.mem);
    lemma_encoding_is_faithful(program.ops[index]);
}

/// Removing the machines with an id keeps exactly the machines with another
/// id or none, in their order.
pub proof fn lemma_without_is_filter(machines: Seq<MachineView>, id: u16)
    ensures
        without(machines, id) == machines.filter(|m: MachineView| m.id != Some(id)),
    decreases machines.len(),
{
    reveal(Seq::filter);
    if machines.len() > 0 {
        lemma_without_is_filter(machines.drop_last(), id);
    }
}

/// An id has a status exactly if some machine has the id.
pub proof fn lemma_statuses_domain(machines: Seq<MachineView>, id: u16)
    ensures
        statuses_spec(machines).contains_key(id) <==> exists|i: int|
            0 <= i < machines.len() && (#[trigger] machines[i]).id == Some(id),
    decreases machines.len(),
{
    if machines.len() > 0 {
        let front = machines.drop_last();
        lemma_statuses_domain(front, id);
        if statuses_spec(machines).contains_key(id) {
            if machines.last().id == Some(id) {
                assert(machines[machines.len() - 1].id == Some(id));
            } else {
                let i = choose|i: int| 0 <= i < front.len() && (#[trigger] front[i]).id == Some(id);
                assert(machines[i].id == Some(id));
            }
        }
        if exists|i: int| 0 <= i < machines.len() && (#[trigger] machines[i]).id == Some(id) {
            let i = choose|i: int|
                0 <= i < machines.len() && (#[trigger] machines[i]).id == Some(id);
            if i < front.len() {
                assert(front[i].id == Some(id));
            }
        }
    }
}

/// The status of an id is that of the last machine that has the id.
pub proof fn lemma_statuses_value(machines: Seq<MachineView>, id: u16, last: int)
    requires
        0 <= last < machines.len(),
        machines[last].id == Some(id),
        forall|j: int| last < j < machines.len() ==> (#[trigger] machines[j]).id != Some(id),
    ensures
        statuses_spec(machines).contains_key(id),
        statuses_spec(machines)[id] == machines[last].status,
    decreases machines.len(),
{
    if last < machines.len() - 1 {
        let front = machines.drop_last();
        assert(machines[machines.len() - 1].id != Some(id));
        assert forall|j: int| last < j < front.len() implies (#[trigger] front[j]).id != Some(
            id,
        ) by {
            assert(machines[j].id != Some(id));
        }
        lemma_statuses_value(front, id, last);
    }
}

} // verus!
