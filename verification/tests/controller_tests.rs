use vasm::controller::{Controller, InspectedRegister};
use vasm::error::{ExecError, ParseError, SequencerError};
use vasm::event::Event;
use vasm::message::{Action, Message, Port};
use vasm::status::MachineStatus;

fn data_message(body: Vec<u16>) -> Message {
    Message { action: Action::Data { body }, sender: Port { block: 9, port: 2 }, recipient: Some(0) }
}

#[test]
fn test_controller_creation() {
    let controller = Controller::create();
    assert_eq!(controller.seq.machines.len(), 0);
}

#[test]
fn test_add_machine() {
    let mut controller = Controller::create();
    let id = controller.add_machine();
    assert_eq!(id, 0);
    assert_eq!(controller.seq.machines.len(), 1);
}

#[test]
fn add_machine_numbers_machines_in_order() {
    let mut controller = Controller::create();
    assert_eq!(controller.add_machine(), 0);
    assert_eq!(controller.add_machine(), 1);
    assert_eq!(controller.add_machine(), 2);
    assert_eq!(controller.seq.machines[2].id, Some(2));
}

#[test]
fn add_machine_with_id_uses_the_id() {
    let mut controller = Controller::create();
    controller.add_machine_with_id(42);
    assert_eq!(controller.seq.machines[0].id, Some(42));
    assert_eq!(controller.statuses().get(&42), Some(&MachineStatus::Invalid));
}

#[test]
fn load_reports_the_line_of_a_bad_source() {
    let mut controller = Controller::create();
    controller.add_machine_with_id(3);
    let r = controller.load(3, "push 1\nfrobnicate\n");
    assert_eq!(
        r,
        Err(SequencerError::CannotParse { id: 3, error: ParseError::UnknownInstruction { line: 2 } })
    );
    assert_eq!(controller.seq.machines[0].status, MachineStatus::Invalid);
}

#[test]
fn load_of_an_unknown_machine_fails() {
    let mut controller = Controller::create();
    assert_eq!(controller.load(5, "noop"), Err(SequencerError::MachineDoesNotExist { id: 5 }));
}

#[test]
fn inspect_shows_registers_queues_and_status() {
    let mut controller = Controller::create();
    let id = controller.add_machine();
    controller.load(id, "push 7\nprint\nsleep 2\nhalt").unwrap();
    controller.ready();
    controller.step_machine(id, 2).unwrap();
    assert!(controller.send_message_to_machine(id, data_message(vec![1])));
    let seen = controller.inspect_machine(id).unwrap();
    assert_eq!(seen.registers, InspectedRegister { pc: 3, sp: 0x340, fp: 0x300 });
    assert_eq!(seen.effects, vec![Event::Print { text: "7".to_string() }]);
    assert_eq!(seen.inbox_size, 1);
    assert_eq!(seen.outbox_size, 0);
    assert_eq!(seen.status, MachineStatus::Running);
    // Inspecting takes nothing out.
    assert_eq!(controller.seq.machines[0].events.len(), 1);
    assert!(controller.inspect_machine(77).is_none());
}

#[test]
fn side_effects_are_consumed_once() {
    let mut controller = Controller::create();
    let id = controller.add_machine();
    controller.load(id, "push 65535\nprint\nsleep 3").unwrap();
    controller.ready();
    controller.step_machine(id, 10).unwrap();
    let events = controller.consume_machine_side_effects(id);
    assert_eq!(
        events,
        vec![Event::Print { text: "65535".to_string() }, Event::Sleep { ms: 3 }]
    );
    assert_eq!(controller.consume_machine_side_effects(id), vec![]);
    assert_eq!(controller.consume_machine_side_effects(99), vec![]);
}

#[test]
fn messages_are_consumed_once() {
    let mut controller = Controller::create();
    controller.add_machine_with_id(4);
    controller.load(4, "push 10\npush 20\nsend 3 2\nhalt").unwrap();
    controller.ready();
    controller.step_machine(4, 10).unwrap();
    let messages = controller.consume_messages(4);
    assert_eq!(
        messages,
        vec![Message {
            action: Action::Data { body: vec![10, 20] },
            sender: Port { block: 4, port: 3 },
            recipient: None,
        }]
    );
    assert_eq!(controller.consume_messages(4), vec![]);
    assert_eq!(controller.consume_messages(5), vec![]);
}

#[test]
fn sending_to_a_removed_machine_is_refused() {
    let mut controller = Controller::create();
    controller.add_machine_with_id(1);
    controller.add_machine_with_id(2);
    controller.remove_machine(1);
    let before = controller.seq.clone();
    assert!(!controller.send_message_to_machine(1, data_message(vec![5])));
    assert_eq!(controller.seq, before);
    assert_eq!(
        controller.step_machine(1, 1),
        Err(SequencerError::MachineDoesNotExist { id: 1 })
    );
    // The id can be used again.
    controller.add_machine_with_id(1);
    assert!(controller.send_message_to_machine(1, data_message(vec![5])));
    assert_eq!(controller.seq.machines.len(), 2);
    assert_eq!(controller.seq.machines[1].id, Some(1));
    assert_eq!(controller.seq.machines[1].inbox.len(), 1);
    assert_eq!(controller.seq.machines[0].inbox.len(), 0);
}

#[test]
fn read_functions_give_memory_words() {
    let mut controller = Controller::create();
    let id = controller.add_machine();
    controller.load(id, "push 5\npush 6\n.word 9\n.word 0x10").unwrap();
    controller.ready();
    controller.step_machine(id, 2).unwrap();
    assert_eq!(controller.read_code(id, 4), Some(Ok(vec![1, 5, 1, 6])));
    assert_eq!(controller.read_stack(id, 3), Some(Ok(vec![5, 6, 0])));
    assert_eq!(controller.read_mem(id, 0x200, 3), Some(Ok(vec![9, 16, 0])));
    assert_eq!(
        controller.read_mem(id, 0x0FFF, 2),
        Some(Err(ExecError::OutOfRange { address: 0x0FFF }))
    );
    assert_eq!(controller.read_code(id, 0x201), Some(Err(ExecError::OutOfRange { address: 0 })));
    assert_eq!(
        controller.read_stack(id, 0x0CC1),
        Some(Err(ExecError::OutOfRange { address: 0x340 }))
    );
    assert_eq!(controller.read_code(9, 1), None);
    assert_eq!(controller.read_mem(9, 0, 1), None);
    assert_eq!(controller.read_stack(9, 1), None);
}

#[test]
fn set_mem_writes_where_writes_are_allowed() {
    let mut controller = Controller::create();
    let id = controller.add_machine();
    assert!(controller.set_mem(id, 0x0F00, vec![1, 2, 3]));
    assert_eq!(controller.read_mem(id, 0x0F00, 3), Some(Ok(vec![1, 2, 3])));
    // A write into the code segment is refused and changes nothing.
    let before = controller.seq.clone();
    assert!(controller.set_mem(id, 0x0000, vec![1]));
    assert_eq!(controller.seq, before);
    assert!(!controller.set_mem(8, 0x0F00, vec![1]));
}

#[test]
fn clear_starts_over() {
    let mut controller = Controller::create();
    controller.add_machine();
    controller.seq.await_watchdog = false;
    controller.clear();
    assert_eq!(controller.seq.machines.len(), 0);
    assert!(controller.seq.await_watchdog);
    assert_eq!(controller.seq.await_watchdog_counter, 3);
}

#[test]
fn full_state_is_a_faithful_copy() {
    let mut controller = Controller::create();
    let id = controller.add_machine();
    controller.load(id, "push 1\nsend 0 1\nprint").unwrap();
    controller.send_message_to_machine(id, data_message(vec![4, 5]));
    let state = controller.full_serialize_sequencer_state();
    assert_eq!(state, controller.seq);
    assert_eq!(state.machines[0].status, MachineStatus::Loaded);
    assert_eq!(state.machines[0].mem.buffer[0..5], [1, 1, 13, 0, 1]);
    assert_eq!(state.machines[0].mem.code_len, 6);
}

#[test]
fn partial_state_leaves_the_buffers_out() {
    let mut controller = Controller::create();
    let id = controller.add_machine();
    controller.load(id, "push 8\nprint\npush 1\nsend 0 1\nsleep 9").unwrap();
    controller.ready();
    controller.step_machine(id, 10).unwrap();
    controller.send_message_to_machine(id, data_message(vec![4, 5]));
    let state = controller.partial_serialize_sequencer_state();
    assert_eq!(state.machines.len(), 1);
    let m = &state.machines[0];
    let full = &controller.seq.machines[0];
    assert_eq!(m.id, Some(0));
    assert_eq!(m.status, MachineStatus::Sleeping);
    assert!(m.inbox.is_empty());
    assert!(m.mem.buffer.is_empty());
    assert!(m.reg.buffer.is_empty());
    assert_eq!(m.outbox, full.outbox);
    assert_eq!(m.events, full.events);
    assert_eq!(m.remaining_sleep_ticks, 9);
    assert!(m.sleeping);
    // The controller's own state keeps everything.
    assert_eq!(full.inbox.len(), 1);
    assert_eq!(full.mem.buffer.len(), 0x1000);
    assert_eq!(full.reg.buffer.len(), 7);
}

#[test]
fn snapshot_shows_and_drains() {
    let mut controller = Controller::create();
    let id = controller.add_machine();
    controller.load(id, "push 8\nprint\npush 1\nsend 2 1\nhalt").unwrap();
    controller.ready();
    controller.step_machine(id, 10).unwrap();
    let snapshot = controller.get_snapshot(id);
    let seen = snapshot.machine.unwrap();
    assert_eq!(seen.status, MachineStatus::Halted);
    assert_eq!(seen.outbox_size, 1);
    assert_eq!(seen.effects, vec![Event::Print { text: "8".to_string() }]);
    assert_eq!(snapshot.effects, vec![Event::Print { text: "8".to_string() }]);
    assert_eq!(snapshot.messages.len(), 1);
    assert_eq!(snapshot.messages[0].action, Action::Data { body: vec![1] });
    let again = controller.get_snapshot(id);
    assert_eq!(again.effects, vec![]);
    assert_eq!(again.messages, vec![]);
    assert_eq!(again.machine.unwrap().outbox_size, 0);
    let none = controller.get_snapshot(50);
    assert!(none.machine.is_none());
    assert_eq!(none.effects, vec![]);
    assert_eq!(none.messages, vec![]);
}

#[test]
fn wake_ends_a_sleep() {
    let mut controller = Controller::create();
    let id = controller.add_machine();
    controller.load(id, "sleep 100\nnoop").unwrap();
    controller.ready();
    controller.step_machine(id, 1).unwrap();
    assert_eq!(controller.seq.machines[0].status, MachineStatus::Sleeping);
    controller.wake(id);
    let m = &controller.seq.machines[0];
    assert_eq!(m.status, MachineStatus::Running);
    assert!(!m.sleeping);
    assert_eq!(m.remaining_sleep_ticks, 0);
    controller.wake(31);
}

#[test]
fn reset_machine_readies_one_machine() {
    let mut controller = Controller::create();
    let a = controller.add_machine();
    let b = controller.add_machine();
    controller.load(a, "push 1\nhalt").unwrap();
    controller.load(b, "push 1\nhalt").unwrap();
    controller.ready();
    controller.step_machine(a, 5).unwrap();
    assert_eq!(controller.seq.machines[0].status, MachineStatus::Halted);
    controller.reset_machine(a);
    assert_eq!(controller.seq.machines[0].status, MachineStatus::Ready);
    assert_eq!(controller.seq.machines[0].reg.buffer, vec![0, 0x340, 0x300, 0, 0, 0, 0]);
    assert_eq!(controller.seq.machines[1].status, MachineStatus::Ready);
    assert!(!controller.is_halted());
}

#[test]
fn is_halted_sees_a_machine_whose_id_was_given_twice() {
    let mut controller = Controller::create();
    assert_eq!(controller.add_machine(), 0);
    assert_eq!(controller.add_machine(), 1);
    controller.remove_machine(0);
    // Ids go by the number of machines, so 1 is given again.
    assert_eq!(controller.add_machine(), 1);
    controller.load(1, "noop\nnoop").unwrap();
    controller.ready();
    controller.step_machine(1, 1).unwrap();
    assert_eq!(controller.seq.machines[0].status, MachineStatus::Running);
    assert_eq!(controller.seq.machines[1].status, MachineStatus::Invalid);
    assert_eq!(controller.statuses().get(&1), Some(&MachineStatus::Invalid));
    assert!(!controller.is_halted());
    controller.step_machine(1, 1).unwrap();
    assert_eq!(controller.seq.machines[0].status, MachineStatus::Halted);
    assert!(controller.is_halted());
}
