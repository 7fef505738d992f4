use vasm::error::ExecError;
use vasm::memory::Memory;
use vasm::op::{arity, build, encode_program, Op};
use vasm::program::Symbols;
use vasm::register::{Register, Registers, REGISTER_COUNT};
use vasm::segments::{
    is_mapped, outlet_of, outlet_offset, segment_of, Segment, CALL_STACK_END, CALL_STACK_SIZE,
    CALL_STACK_START, CODE_END, CODE_SIZE, CODE_START, DATA_END, DATA_SIZE, DATA_START,
    MAPPED_END, MAPPED_SIZE, MAPPED_START, MEMORY_SIZE, OUTLET_COUNT, OUTLET_SIZE, STACK_END,
    STACK_SIZE, STACK_START,
};
use vasm::status::MachineStatus::{
    self, Awaiting, Errored, Halted, Invalid, Loaded, Ready, Running, Sleeping,
};
use vasm::text::decimal_string;

#[test]
fn segments_fill_the_memory() {
    assert_eq!(MEMORY_SIZE, 0x1000);
    assert_eq!(CODE_SIZE + DATA_SIZE + CALL_STACK_SIZE + STACK_SIZE, MEMORY_SIZE);
    assert_eq!((CODE_START, CODE_END), (0x000, 0x1FF));
    assert_eq!((DATA_START, DATA_END), (0x200, 0x2FF));
    assert_eq!((CALL_STACK_START, CALL_STACK_END), (0x300, 0x33F));
    assert_eq!((STACK_START, STACK_END), (0x340, 0xFFF));
    assert_eq!((MAPPED_START, MAPPED_END), (0x1000, 0xFFFF));
    assert_eq!(MAPPED_SIZE, 0xEFFF);
    assert_eq!(OUTLET_SIZE, 0x200);
    assert_eq!(OUTLET_COUNT, 4);
    assert_eq!(CODE_END - CODE_START + 1, CODE_SIZE);
    assert_eq!(DATA_END - DATA_START + 1, DATA_SIZE);
    assert_eq!(CALL_STACK_END - CALL_STACK_START + 1, CALL_STACK_SIZE);
    assert_eq!(STACK_END - STACK_START + 1, STACK_SIZE);
}

#[test]
fn every_address_has_its_segment() {
    assert_eq!(segment_of(0x0000), Segment::Code);
    assert_eq!(segment_of(0x01FF), Segment::Code);
    assert_eq!(segment_of(0x0200), Segment::Data);
    assert_eq!(segment_of(0x02FF), Segment::Data);
    assert_eq!(segment_of(0x0300), Segment::CallStack);
    assert_eq!(segment_of(0x033F), Segment::CallStack);
    assert_eq!(segment_of(0x0340), Segment::Stack);
    assert_eq!(segment_of(0x0FFF), Segment::Stack);
    assert_eq!(segment_of(0x1000), Segment::Mapped);
    assert_eq!(segment_of(0xFFFF), Segment::Mapped);
    assert!(!is_mapped(0x0FFF));
    assert!(is_mapped(0x1000));
}

#[test]
fn outlets() {
    assert_eq!(outlet_of(0x1000), 0);
    assert_eq!(outlet_of(0x11FF), 0);
    assert_eq!(outlet_of(0x1200), 1);
    assert_eq!(outlet_of(0x1400), 2);
    assert_eq!(outlet_of(0x1600), 3);
    assert_eq!(outlet_of(0x17FF), 3);
    assert_eq!(outlet_of(0xFFFF), 119);
    assert_eq!(outlet_offset(0x1000), 0);
    assert_eq!(outlet_offset(0x13FE), 0x1FE);
    assert_eq!(outlet_offset(0xFFFF), 0x1FF);
}

#[test]
fn status_predicates() {
    for s in [Halted, Errored, Invalid] {
        assert!(s.is_terminal() && s.is_inert() && !s.is_active());
    }
    assert!(Loaded.is_inert() && !Loaded.is_terminal() && !Loaded.is_active());
    for s in [Ready, Running] {
        assert!(s.is_active() && !s.is_inert() && !s.is_terminal());
    }
    for s in [Awaiting, Sleeping] {
        assert!(!s.is_active() && !s.is_inert() && !s.is_terminal());
    }
}

#[test]
fn registers_get_and_set() {
    let mut reg = Registers::new();
    assert_eq!(REGISTER_COUNT, 7);
    assert_eq!(reg.get(Register::PC), 0);
    assert_eq!(reg.get(Register::SP), 0x340);
    assert_eq!(reg.get(Register::FP), 0x300);
    reg.set(Register::R2, 99);
    reg.set(Register::PC, 4);
    assert_eq!(reg.buffer, vec![4, 0x340, 0x300, 0, 0, 99, 0]);
    assert_eq!(reg.get(Register::R2), 99);
    reg.reset();
    assert_eq!(reg.buffer, vec![0, 0x340, 0x300, 0, 0, 0, 0]);
    assert!(reg.is_wf());
    assert_eq!(Register::from_index(6), Some(Register::R3));
    assert_eq!(Register::from_index(7), None);
    assert_eq!(Register::R1.index(), 4);
    reg.buffer.pop();
    assert!(!reg.is_wf());
}

#[test]
fn memory_reads_are_bounds_checked() {
    let mut mem = Memory::new();
    assert!(mem.is_wf());
    assert_eq!(mem.buffer.len(), 0x1000);
    mem.write(0x0FFE, &vec![7, 8]).unwrap();
    assert_eq!(mem.read(0x0FFE, 2), Ok(vec![7, 8]));
    assert_eq!(mem.read(0x0FFF, 1), Ok(vec![8]));
    assert_eq!(mem.read(0x1000, 0), Ok(vec![]));
    assert_eq!(mem.read(0x0FFF, 2), Err(ExecError::OutOfRange { address: 0x0FFF }));
    assert_eq!(mem.read(0x1000, 1), Err(ExecError::OutOfRange { address: 0x1000 }));
    assert_eq!(mem.read(0xFFFF, 0xFFFF), Err(ExecError::OutOfRange { address: 0xFFFF }));
    assert_eq!(mem.read(0, 0x1000).map(|w| w.len()), Ok(0x1000));
}

#[test]
fn memory_writes_keep_to_data_and_stack() {
    let mut mem = Memory::new();
    assert_eq!(mem.write(0x0200, &vec![1; 0x100]), Ok(()));
    assert_eq!(mem.write(0x0340, &vec![2; 0xCC0]), Ok(()));
    assert_eq!(mem.read(0x02FF, 1), Ok(vec![1]));
    assert_eq!(mem.read(0x0300, 1), Ok(vec![0]));
    assert_eq!(mem.read(0x033F, 2), Ok(vec![0, 2]));
    let before = mem.clone();
    assert_eq!(mem.write(0x0000, &vec![1]), Err(ExecError::ProtectedSegment { address: 0 }));
    assert_eq!(mem.write(0x01FF, &vec![1, 2]), Err(ExecError::ProtectedSegment { address: 0x01FF }));
    assert_eq!(mem.write(0x0300, &vec![1]), Err(ExecError::ProtectedSegment { address: 0x0300 }));
    assert_eq!(mem.write(0x02FF, &vec![1, 2]), Err(ExecError::ProtectedSegment { address: 0x0300 }));
    assert_eq!(mem.write(0x0200, &vec![1; 0x141]), Err(ExecError::ProtectedSegment { address: 0x0300 }));
    assert_eq!(mem.write(0x0FFF, &vec![1, 2]), Err(ExecError::OutOfRange { address: 0x0FFF }));
    assert_eq!(mem.write(0x1000, &vec![1]), Err(ExecError::OutOfRange { address: 0x1000 }));
    assert_eq!(mem.write(0x0000, &vec![0; 0x1001]), Err(ExecError::OutOfRange { address: 0 }));
    assert_eq!(mem, before);
    // An empty write touches nothing and is accepted anywhere in memory.
    assert_eq!(mem.write(0x0000, &vec![]), Ok(()));
    assert_eq!(mem.write(0x1000, &vec![]), Ok(()));
    assert_eq!(mem.write(0x1001, &vec![]), Err(ExecError::OutOfRange { address: 0x1001 }));
    assert_eq!(mem, before);
}

#[test]
fn code_and_symbols_are_loaded() {
    let mut mem = Memory::new();
    assert_eq!(mem.load_code(&vec![Op::Push(2), Op::Halt]), Ok(()));
    assert_eq!(mem.code_len, 3);
    assert_eq!(mem.read_code(4), Ok(vec![1, 2, 17, 0]));
    assert_eq!(mem.read_code(0x200).map(|w| w.len()), Ok(0x200));
    assert_eq!(mem.read_code(0x201), Err(ExecError::OutOfRange { address: 0 }));
    let mut symbols = Symbols::new();
    symbols.data = vec![5, 6, 7];
    assert_eq!(mem.load_symbols(&symbols), Ok(()));
    assert_eq!(mem.read(0x200, 4), Ok(vec![5, 6, 7, 0]));
    symbols.data = vec![1; 257];
    let before = mem.clone();
    assert_eq!(mem.load_symbols(&symbols), Err(ExecError::DataTooLarge));
    assert_eq!(mem.load_code(&vec![Op::Send(1, 1); 171]), Err(ExecError::CodeTooLarge));
    assert_eq!(mem, before);
    assert_eq!(mem.read_stack(2), Ok(vec![0, 0]));
    assert_eq!(mem.read_stack(0x0CC0).map(|w| w.len()), Ok(0x0CC0));
    assert_eq!(mem.read_stack(0x0CC1), Err(ExecError::OutOfRange { address: 0x340 }));
}

#[test]
fn every_instruction_is_built_from_its_code_words() {
    let ops = vec![
        Op::Noop,
        Op::Push(1),
        Op::Pop,
        Op::Add,
        Op::Sub,
        Op::Load(2),
        Op::Store(3),
        Op::GetReg(4),
        Op::SetReg(5),
        Op::Jump(6),
        Op::JumpZero(7),
        Op::Call(8),
        Op::Return,
        Op::Send(9, 10),
        Op::Receive,
        Op::Print,
        Op::Sleep(11),
        Op::Halt,
    ];
    for (opcode, op) in ops.iter().enumerate() {
        let words = op.encode();
        assert_eq!(words[0], opcode as u16);
        assert_eq!(op.opcode(), opcode as u16);
        assert_eq!(arity(words[0]), Some(words.len() as u16 - 1));
        let a = words.get(1).copied().unwrap_or(0);
        let b = words.get(2).copied().unwrap_or(0);
        assert_eq!(build(words[0], a, b), *op);
    }
    assert_eq!(arity(18), None);
    assert_eq!(Op::Send(9, 10).encode(), vec![13, 9, 10]);
    assert_eq!(
        encode_program(&ops),
        vec![
            0, 1, 1, 2, 3, 4, 5, 2, 6, 3, 7, 4, 8, 5, 9, 6, 10, 7, 11, 8, 12, 13, 9, 10, 14, 15,
            16, 11, 17
        ]
    );
}

#[test]
fn decimal_strings() {
    assert_eq!(decimal_string(0), "0");
    assert_eq!(decimal_string(7), "7");
    assert_eq!(decimal_string(10), "10");
    assert_eq!(decimal_string(4096), "4096");
    assert_eq!(decimal_string(65535), "65535");
}
