use vasm::error::{ExecError, ParseError};
use vasm::event::Event;
use vasm::machine::Machine;
use vasm::message::{Action, Message, Port};
use vasm::op::Op;
use vasm::program::Program;
use vasm::register::Register;
use vasm::status::MachineStatus;

fn machine_with(ops: Vec<Op>) -> Machine {
    let mut m = Machine::new();
    m.id = Some(7);
    m.load(Ok(Program::from_ops(ops))).unwrap();
    m
}

fn stack(m: &Machine) -> Vec<u16> {
    let sp = m.reg.get(Register::SP) as usize;
    m.mem.buffer[0x340..sp].to_vec()
}

#[test]
fn new_machine_is_blank() {
    let m = Machine::new();
    assert_eq!(m.id, None);
    assert_eq!(m.status, MachineStatus::Invalid);
    assert_eq!(m.reg.buffer, vec![0, 0x340, 0x300, 0, 0, 0, 0]);
    assert_eq!(m.mem.buffer, vec![0u16; 0x1000]);
    assert_eq!(m.mem.code_len, 0);
    assert!(m.inbox.is_empty() && m.outbox.is_empty() && m.events.is_empty());
    assert!(!m.sleeping);
    assert_eq!(m.remaining_sleep_ticks, 0);
    assert_eq!(m.expected_receives, 0);
    assert!(m.is_wf());
}

#[test]
fn load_puts_code_and_data_in_memory() {
    let mut m = Machine::new();
    let mut program = Program::from_ops(vec![Op::Push(3), Op::Send(1, 2), Op::Halt]);
    program.symbols.data = vec![11, 12];
    assert_eq!(m.load(Ok(program)), Ok(()));
    assert_eq!(m.status, MachineStatus::Loaded);
    assert_eq!(m.mem.code_len, 6);
    assert_eq!(m.mem.buffer[0..7], [1, 3, 13, 1, 2, 17, 0]);
    assert_eq!(m.mem.buffer[0x200..0x203], [11, 12, 0]);
}

#[test]
fn load_refuses_what_does_not_fit() {
    let mut m = machine_with(vec![Op::Noop]);
    m.id = Some(1);
    assert_eq!(m.load(Ok(Program::from_ops(vec![Op::Noop; 513]))), Err(ParseError::CodeTooLarge));
    assert_eq!(m.status, MachineStatus::Invalid);
    assert_eq!(m.mem.code_len, 0);
    assert_eq!(m.mem.buffer, vec![0u16; 0x1000]);
    assert_eq!(m.id, Some(1));

    let mut program = Program::from_ops(vec![Op::Noop]);
    program.symbols.data = vec![0; 257];
    assert_eq!(m.load(Ok(program)), Err(ParseError::DataTooLarge));
    assert_eq!(m.status, MachineStatus::Invalid);
    assert_eq!(m.mem.code_len, 0);
    assert_eq!(m.mem.buffer, vec![0u16; 0x1000]);

    assert_eq!(
        m.load(Err(ParseError::MissingOperand { line: 4 })),
        Err(ParseError::MissingOperand { line: 4 })
    );
    assert_eq!(m.status, MachineStatus::Invalid);

    assert_eq!(m.load(Ok(Program::from_ops(vec![Op::Noop; 512]))), Ok(()));
    assert_eq!(m.mem.code_len, 512);
}

#[test]
fn push_pop_add_sub() {
    let mut m = machine_with(vec![
        Op::Push(5),
        Op::Push(9),
        Op::Add,
        Op::Push(20),
        Op::Sub,
        Op::Push(1),
        Op::Pop,
    ]);
    m.tick().unwrap();
    m.tick().unwrap();
    assert_eq!(stack(&m), vec![5, 9]);
    m.tick().unwrap();
    assert_eq!(stack(&m), vec![14]);
    m.tick().unwrap();
    m.tick().unwrap();
    // 14 - 20 modulo 2^16
    assert_eq!(stack(&m), vec![65530]);
    m.tick().unwrap();
    m.tick().unwrap();
    assert_eq!(stack(&m), vec![65530]);
    assert_eq!(m.reg.get(Register::PC), 11);
    assert!(m.should_halt());
}

#[test]
fn add_wraps_around() {
    let mut m = machine_with(vec![Op::Push(0xFFFF), Op::Push(3), Op::Add]);
    for _ in 0..3 {
        m.tick().unwrap();
    }
    assert_eq!(stack(&m), vec![2]);
}

#[test]
fn tick_at_the_end_does_nothing() {
    let mut m = machine_with(vec![Op::Noop]);
    m.tick().unwrap();
    let before = m.clone();
    assert_eq!(m.tick(), Ok(()));
    assert_eq!(m, before);
}

#[test]
fn stack_errors_change_nothing() {
    let mut m = machine_with(vec![Op::Add]);
    let before = m.clone();
    assert_eq!(m.tick(), Err(ExecError::StackUnderflow));
    assert_eq!(m, before);

    let mut m = machine_with(vec![Op::Push(1), Op::Add]);
    m.tick().unwrap();
    let before = m.clone();
    assert_eq!(m.tick(), Err(ExecError::StackUnderflow));
    assert_eq!(m, before);

    let mut m = machine_with(vec![Op::Push(1)]);
    m.reg.set(Register::SP, 0x1000);
    let before = m.clone();
    assert_eq!(m.tick(), Err(ExecError::StackOverflow));
    assert_eq!(m, before);

    let mut m = machine_with(vec![Op::Push(1)]);
    m.reg.set(Register::SP, 0x0FFF);
    assert_eq!(m.tick(), Ok(()));
    assert_eq!(m.mem.buffer[0x0FFF], 1);
    assert_eq!(m.reg.get(Register::SP), 0x1000);
}

#[test]
fn load_and_store_in_memory() {
    let mut m = machine_with(vec![Op::Push(77), Op::Store(0x0F00), Op::Load(0x0F00), Op::Load(1)]);
    for _ in 0..4 {
        m.tick().unwrap();
    }
    assert_eq!(m.mem.buffer[0x0F00], 77);
    assert_eq!(stack(&m), vec![77, 77]);
    assert!(m.outbox.is_empty());
}

#[test]
fn store_into_protected_segments_is_refused() {
    for address in [0x0000u16, 0x01FF, 0x0300, 0x033F] {
        let mut m = machine_with(vec![Op::Push(1), Op::Store(address)]);
        m.tick().unwrap();
        let before = m.clone();
        assert_eq!(m.tick(), Err(ExecError::ProtectedSegment { address }));
        assert_eq!(m, before);
    }
    for address in [0x0200u16, 0x02FF, 0x0340, 0x0FFF] {
        let mut m = machine_with(vec![Op::Push(6), Op::Store(address)]);
        m.tick().unwrap();
        assert_eq!(m.tick(), Ok(()));
        assert_eq!(m.mem.buffer[address as usize], 6);
    }
}

#[test]
fn mapped_store_sends_a_write_and_keeps_memory() {
    let mut m = machine_with(vec![Op::Push(0xBEEF), Op::Store(0x1000)]);
    m.tick().unwrap();
    let memory = m.mem.buffer.clone();
    m.tick().unwrap();
    assert_eq!(m.mem.buffer, memory);
    assert_eq!(
        m.outbox,
        vec![Message {
            action: Action::Write { address: 0, data: vec![0xBEEF] },
            sender: Port { block: 7, port: 0 },
            recipient: None,
        }]
    );
    assert_eq!(stack(&m), Vec::<u16>::new());
    assert_eq!(m.reg.get(Register::PC), 4);
}

#[test]
fn mapped_addresses_choose_the_outlet() {
    let cases = [(0x1000u16, 0u16, 0u16), (0x11FF, 0, 0x1FF), (0x1200, 1, 0), (0x1405, 2, 5), (0x17FF, 3, 0x1FF)];
    for (address, outlet, offset) in cases {
        let mut m = machine_with(vec![Op::Push(1), Op::Store(address)]);
        m.tick().unwrap();
        m.tick().unwrap();
        assert_eq!(m.outbox[0].sender, Port { block: 7, port: outlet });
        assert_eq!(m.outbox[0].action, Action::Write { address: offset, data: vec![1] });
    }
}

#[test]
fn mapped_load_asks_and_waits() {
    let mut m = machine_with(vec![Op::Load(0x1203)]);
    let memory = m.mem.buffer.clone();
    m.tick().unwrap();
    assert_eq!(m.mem.buffer, memory);
    assert_eq!(
        m.outbox,
        vec![Message {
            action: Action::Read { address: 3, count: 1 },
            sender: Port { block: 7, port: 1 },
            recipient: None,
        }]
    );
    assert_eq!(m.expected_receives, 1);
    assert_eq!(stack(&m), Vec::<u16>::new());
}

#[test]
fn registers_by_number() {
    let mut m = machine_with(vec![Op::Push(12), Op::SetReg(3), Op::GetReg(3), Op::GetReg(1)]);
    for _ in 0..4 {
        m.tick().unwrap();
    }
    assert_eq!(m.reg.get(Register::R0), 12);
    // The stack pointer is read before the push.
    assert_eq!(stack(&m), vec![12, 0x341]);

    let mut m = machine_with(vec![Op::GetReg(7)]);
    assert_eq!(m.tick(), Err(ExecError::InvalidRegister { number: 7 }));
    let mut m = machine_with(vec![Op::Push(1), Op::SetReg(9)]);
    m.tick().unwrap();
    assert_eq!(m.tick(), Err(ExecError::InvalidRegister { number: 9 }));
}

#[test]
fn jumps() {
    let mut m = machine_with(vec![Op::Jump(4), Op::Push(1), Op::Push(0), Op::JumpZero(0), Op::Noop]);
    m.tick().unwrap();
    assert_eq!(m.reg.get(Register::PC), 4);
    m.tick().unwrap();
    m.tick().unwrap();
    assert_eq!(m.reg.get(Register::PC), 0);
    assert_eq!(stack(&m), Vec::<u16>::new());

    let mut m = machine_with(vec![Op::Push(5), Op::JumpZero(0), Op::Noop]);
    m.tick().unwrap();
    m.tick().unwrap();
    assert_eq!(m.reg.get(Register::PC), 4);

    let mut m = machine_with(vec![Op::Jump(3)]);
    assert_eq!(m.tick(), Err(ExecError::InvalidJump { target: 3 }));
    let mut m = machine_with(vec![Op::Jump(2)]);
    assert_eq!(m.tick(), Ok(()));
    assert!(m.should_halt());
}

#[test]
fn call_and_return() {
    let mut m = machine_with(vec![Op::Call(3), Op::Halt, Op::Push(4), Op::Return]);
    m.tick().unwrap();
    assert_eq!(m.reg.get(Register::PC), 3);
    assert_eq!(m.reg.get(Register::FP), 0x301);
    assert_eq!(m.mem.buffer[0x300], 2);
    m.tick().unwrap();
    m.tick().unwrap();
    assert_eq!(m.reg.get(Register::PC), 2);
    assert_eq!(m.reg.get(Register::FP), 0x300);
    m.tick().unwrap();
    assert!(m.should_halt());
    assert_eq!(stack(&m), vec![4]);

    let mut m = machine_with(vec![Op::Return]);
    assert_eq!(m.tick(), Err(ExecError::CallStackUnderflow));
    let mut m = machine_with(vec![Op::Call(0)]);
    m.reg.set(Register::FP, 0x340);
    assert_eq!(m.tick(), Err(ExecError::CallStackOverflow));
    let mut m = machine_with(vec![Op::Call(9)]);
    assert_eq!(m.tick(), Err(ExecError::InvalidJump { target: 9 }));
}

#[test]
fn send_takes_words_from_the_stack() {
    let mut m = machine_with(vec![Op::Push(1), Op::Push(2), Op::Push(3), Op::Send(5, 2)]);
    for _ in 0..4 {
        m.tick().unwrap();
    }
    assert_eq!(stack(&m), vec![1]);
    assert_eq!(
        m.outbox,
        vec![Message {
            action: Action::Data { body: vec![2, 3] },
            sender: Port { block: 7, port: 5 },
            recipient: None,
        }]
    );
    let mut m = machine_with(vec![Op::Push(1), Op::Send(5, 2)]);
    m.tick().unwrap();
    assert_eq!(m.tick(), Err(ExecError::StackUnderflow));
}

#[test]
fn receive_print_sleep_halt() {
    let mut m = machine_with(vec![Op::Receive, Op::Push(1234), Op::Print, Op::Sleep(5), Op::Halt, Op::Noop]);
    m.tick().unwrap();
    assert_eq!(m.expected_receives, 1);
    m.tick().unwrap();
    m.tick().unwrap();
    assert_eq!(m.events, vec![Event::Print { text: "1234".to_string() }]);
    m.tick().unwrap();
    assert!(m.sleeping);
    assert_eq!(m.remaining_sleep_ticks, 5);
    assert_eq!(m.events[1], Event::Sleep { ms: 5 });
    m.tick().unwrap();
    assert_eq!(m.reg.get(Register::PC), m.mem.code_len);
    assert!(m.should_halt());
    let mut m = machine_with(vec![Op::Print]);
    assert_eq!(m.tick(), Err(ExecError::StackUnderflow));
}

#[test]
fn print_writes_decimal() {
    for (value, text) in [(0u16, "0"), (9, "9"), (10, "10"), (709, "709"), (65535, "65535")] {
        let mut m = machine_with(vec![Op::Push(value), Op::Print]);
        m.tick().unwrap();
        m.tick().unwrap();
        assert_eq!(m.events, vec![Event::Print { text: text.to_string() }]);
    }
}

#[test]
fn bad_code_words_are_reported() {
    let mut m = machine_with(vec![Op::Noop]);
    m.mem.buffer[0] = 18;
    let before = m.clone();
    assert_eq!(m.tick(), Err(ExecError::InvalidOpcode { word: 18 }));
    assert_eq!(m, before);
    // A push whose operand lies past the end of the program.
    m.mem.buffer[0] = 1;
    assert_eq!(m.tick(), Err(ExecError::TruncatedInstruction { address: 0 }));
}

#[test]
fn deliver_data_pushes_and_counts() {
    let mut m = machine_with(vec![Op::Receive]);
    m.tick().unwrap();
    let message = Message {
        action: Action::Data { body: vec![4, 5, 6] },
        sender: Port { block: 1, port: 0 },
        recipient: Some(7),
    };
    m.accept(message.clone());
    m.accept(message);
    assert_eq!(m.inbox.len(), 2);
    assert_eq!(m.receive_messages(), Ok(()));
    assert!(m.inbox.is_empty());
    assert_eq!(stack(&m), vec![4, 5, 6, 4, 5, 6]);
    assert_eq!(m.expected_receives, 0);
}

#[test]
fn deliver_write_override_and_read() {
    let mut m = machine_with(vec![Op::Noop]);
    let port = Port { block: 3, port: 6 };
    assert_eq!(
        m.deliver(Message {
            action: Action::Write { address: 0x0210, data: vec![1, 2] },
            sender: port,
            recipient: None,
        }),
        Ok(())
    );
    assert_eq!(m.mem.buffer[0x0210..0x0212], [1, 2]);
    assert_eq!(
        m.deliver(Message {
            action: Action::Override { data: vec![9] },
            sender: port,
            recipient: None,
        }),
        Ok(())
    );
    assert_eq!(m.mem.buffer[0x0200], 9);
    assert_eq!(m.mem.buffer[0x0201..0x0300], [0u16; 255]);
    assert_eq!(
        m.deliver(Message {
            action: Action::Read { address: 0x0200, count: 2 },
            sender: port,
            recipient: None,
        }),
        Ok(())
    );
    assert_eq!(
        m.outbox,
        vec![Message {
            action: Action::Data { body: vec![9, 0] },
            sender: Port { block: 7, port: 6 },
            recipient: Some(3),
        }]
    );
}

#[test]
fn failed_delivery_stops_the_draining() {
    let mut m = machine_with(vec![Op::Noop]);
    let port = Port { block: 3, port: 6 };
    let good = Message { action: Action::Data { body: vec![1] }, sender: port, recipient: None };
    let bad = Message {
        action: Action::Write { address: 0x0100, data: vec![1] },
        sender: port,
        recipient: None,
    };
    m.accept(good.clone());
    m.accept(bad);
    m.accept(good.clone());
    assert_eq!(m.receive_messages(), Err(ExecError::ProtectedSegment { address: 0x0100 }));
    assert_eq!(stack(&m), vec![1]);
    assert_eq!(m.inbox.len(), 1);
    assert_eq!(m.inbox[0], good);
    assert_eq!(m.mem.buffer[0x0100], 0);

    let mut m = machine_with(vec![Op::Noop]);
    assert_eq!(
        m.deliver(Message {
            action: Action::Read { address: 0x0FFF, count: 2 },
            sender: port,
            recipient: None,
        }),
        Err(ExecError::OutOfRange { address: 0x0FFF })
    );
    assert_eq!(
        m.deliver(Message {
            action: Action::Override { data: vec![0; 257] },
            sender: port,
            recipient: None,
        }),
        Err(ExecError::DataTooLarge)
    );
    assert_eq!(
        m.deliver(Message {
            action: Action::Data { body: vec![0; 0x0CC1] },
            sender: port,
            recipient: None,
        }),
        Err(ExecError::StackOverflow)
    );
    assert_eq!(
        m.deliver(Message {
            action: Action::Write { address: 0x02FF, data: vec![1, 2] },
            sender: port,
            recipient: None,
        }),
        Err(ExecError::ProtectedSegment { address: 0x0300 })
    );
    assert_eq!(
        m.deliver(Message {
            action: Action::Write { address: 0x0FFF, data: vec![1, 2] },
            sender: port,
            recipient: None,
        }),
        Err(ExecError::OutOfRange { address: 0x0FFF })
    );
}

#[test]
fn resets() {
    let mut m = machine_with(vec![Op::Push(1), Op::Print, Op::Sleep(4), Op::Receive]);
    m.status = MachineStatus::Running;
    for _ in 0..4 {
        m.tick().unwrap();
    }
    m.deliver(Message {
        action: Action::Read { address: 0, count: 1 },
        sender: Port { block: 0, port: 0 },
        recipient: None,
    })
    .unwrap();
    m.accept(Message {
        action: Action::Data { body: vec![] },
        sender: Port { block: 0, port: 0 },
        recipient: None,
    });
    let memory = m.mem.clone();
    m.partial_reset();
    assert_eq!(m.reg.buffer, vec![0, 0x340, 0x300, 0, 0, 0, 0]);
    assert!(m.outbox.is_empty() && m.events.is_empty());
    assert!(!m.sleeping);
    assert_eq!(m.remaining_sleep_ticks, 0);
    assert_eq!(m.expected_receives, 0);
    assert_eq!(m.mem, memory);
    assert_eq!(m.inbox.len(), 1);
    assert_eq!(m.status, MachineStatus::Running);
    assert_eq!(m.id, Some(7));

    m.full_reset();
    let mut blank = Machine::new();
    blank.id = Some(7);
    assert_eq!(m, blank);
}

#[test]
fn run_stops_for_receive_sleep_and_end() {
    let mut m = machine_with(vec![Op::Noop, Op::Receive, Op::Noop]);
    m.status = MachineStatus::Running;
    assert_eq!(m.run(10), Ok(()));
    assert_eq!(m.status, MachineStatus::Awaiting);
    assert_eq!(m.reg.get(Register::PC), 2);

    let mut m = machine_with(vec![Op::Sleep(2), Op::Noop]);
    m.status = MachineStatus::Running;
    assert_eq!(m.run(10), Ok(()));
    assert_eq!(m.status, MachineStatus::Sleeping);
    assert_eq!(m.reg.get(Register::PC), 2);

    let mut m = machine_with(vec![Op::Noop, Op::Noop]);
    m.status = MachineStatus::Running;
    assert_eq!(m.run(1), Ok(()));
    assert_eq!(m.status, MachineStatus::Running);
    assert_eq!(m.run(0), Ok(()));
    assert_eq!(m.status, MachineStatus::Running);
    assert_eq!(m.run(1), Ok(()));
    assert_eq!(m.status, MachineStatus::Halted);

    let mut m = machine_with(vec![Op::Noop, Op::Pop, Op::Noop]);
    m.status = MachineStatus::Running;
    assert_eq!(m.run(10), Err(ExecError::StackUnderflow));
    assert_eq!(m.status, MachineStatus::Errored);
    assert_eq!(m.reg.get(Register::PC), 1);
}
