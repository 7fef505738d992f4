//! The memory of a machine.
//!
//! Reads may touch any physical address. Writes may touch the data and the
//! stack segment only: a write that reaches into the code or the call stack
//! segment is refused. The code segment is filled when a program is loaded,
//! the call stack by calls.

use vstd::prelude::*;
use crate::error::ExecError;
use crate::op::{encode_all, encode_program, Op};
use crate::program::Symbols;
use crate::segments::{
    in_physical, CALL_STACK_START, CODE_SIZE, DATA_END, DATA_SIZE, DATA_START, MEMORY_SIZE,
    STACK_SIZE, STACK_START,
};

verus! {

/// A memory of zeros.
pub open spec fn zeroed() -> Seq<u16> {
    Seq::new(MEMORY_SIZE as nat, |i: int| 0u16)
}

/// The words `words` with `data` laid over them from `at` on.
pub open spec fn splice(words: Seq<u16>, at: int, data: Seq<u16>) -> Seq<u16> {
    Seq::new(
        words.len(),
        |i: int|
            if at <= i < at + data.len() {
                data[i - at]
            } else {
                words[i]
            },
    )
}

/// Whether a write of `len` words from `address` on is accepted: the range
/// lies in physical memory and, unless it is empty, within the data segment
/// or within the stack segment.
pub open spec fn writable(address: int, len: int) -> bool {
    in_physical(address, len) && (len == 0 || (DATA_START <= address && address + len <= DATA_END
        + 1) || STACK_START <= address)
}

/// The first address of a range in physical memory that a write may not
/// touch.
pub open spec fn first_protected(address: int) -> int {
    if DATA_START <= address <= DATA_END {
        CALL_STACK_START as int
    } else {
        address
    }
}

/// What a write of `len` words from `address` on is refused with, if it is.
pub open spec fn write_error(address: u16, len: int) -> Option<ExecError> {
    if !in_physical(address as int, len) {
        Some(ExecError::OutOfRange { address })
    } else if !writable(address as int, len) {
        Some(ExecError::ProtectedSegment { address: first_protected(address as int) as u16 })
    } else {
        None
    }
}

/// Whether an address lies in the data or in the stack segment.
pub open spec fn in_data_or_stack(a: int) -> bool {
    (DATA_START <= a <= DATA_END) || (STACK_START <= a < MEMORY_SIZE)
}

/// A write is accepted exactly if its range is physical and all its
/// addresses lie in the data or the stack segment; the address that a refused write in physical memory is
/// reported with is one of the range that lies in neither.
pub proof fn lemma_writable_means_data_or_stack(address: int, len: int)
    requires
        0 <= address,
        0 <= len,
    ensures
        writable(address, len) <==> in_physical(address, len) && (forall|a: int|
            address <= a < address + len ==> #[trigger] in_data_or_stack(a)),
        in_physical(address, len) && !writable(address, len) ==> {
            let p = first_protected(address);
            &&& address <= p < address + len
            &&& !in_data_or_stack(p)
        },
{
    let all_free = forall|a: int| address <= a < address + len ==> #[trigger] in_data_or_stack(a);
    if len > 0 && all_free {
        let first = address;
        let last = address + len - 1;
        assert(in_data_or_stack(first));
        assert(in_data_or_stack(last));
        if first <= DATA_END && last >= STACK_START {
            assert(in_data_or_stack(CALL_STACK_START as int));
        }
    }
}

/// The memory of a machine: its words, and how many of them hold the code of
/// the loaded program.
#[derive(Clone, Debug, PartialEq, Eq)]
pub struct Memory {
    pub buffer: Vec<u16>,
    /// Number of code words of the loaded program.
    pub code_len: u16,
}

impl View for Memory {
    type V = Seq<u16>;

    open spec fn view(&self) -> Seq<u16> {
        self.buffer@
    }
}

impl Memory {
    /// The memory has all its words, and the code lies in the code segment.
    pub open spec fn wf(&self) -> bool {
        self.buffer@.len() == MEMORY_SIZE && self.code_len <= CODE_SIZE
    }

    /// Makes a memory of zeros without a program.
    pub fn new() -> (m: Memory)
        ensures
            m.wf(),
            m@ == zeroed(),
            m.code_len == 0,
    {
        let mut buffer: Vec<u16> = Vec::new();
        let mut i: u16 = 0;
        while i < MEMORY_SIZE
            invariant
                i <= MEMORY_SIZE,
                buffer@.len() == i,
                forall|j: int| 0 <= j < i ==> buffer@[j] == 0,
            decreases MEMORY_SIZE - i,
        {
            buffer.push(0);
            i += 1;
        }
        assert(buffer@ =~= zeroed());
        Memory { buffer, code_len: 0 }
    }

    /// Tells whether the memory has all its words and its code lies in the
    /// code segment.
    pub fn is_wf(&self) -> (b: bool)
        ensures
            b == self.wf(),
    {
        self.buffer.len() == MEMORY_SIZE as usize && self.code_len <= CODE_SIZE
    }

    /// Copies `len` words from `address` on, which the caller knows to be
    /// physical.
    pub(crate) fn copy_range(&self, address: u16, len: u16) -> (words: Vec<u16>)
        requires
            self.wf(),
            in_physical(address as int, len as int),
        ensures
            words@ == self@.subrange(address as int, address + len),
    {
        let mut words: Vec<u16> = Vec::new();
        let mut i: u16 = 0;
        while i < len
            invariant
                self.wf(),
                in_physical(address as int, len as int),
                i <= len,
                words@ == self@.subrange(address as int, address + i),
            decreases len - i,
        {
            words.push(self.buffer[(address + i) as usize]);
            assert(words@ =~= self@.subrange(address as int, address + i + 1));
            i += 1;
        }
        words
    }

    /// Lays `data` over the words from `address` on, whatever segment they
    /// are in.
    pub(crate) fn fill(&mut self, address: u16, data: &Vec<u16>)
        requires
            old(self).wf(),
            in_physical(address as int, data@.len() as int),
        ensures
            final(self).wf(),
            final(self)@ == splice(old(self)@, address as int, data@),
            final(self).code_len == old(self).code_len,
    {
        let mut i: usize = 0;
        while i < data.len()
            invariant
                self.wf(),
                in_physical(address as int, data@.len() as int),
                i <= data.len(),
                self.code_len == old(self).code_len,
                self@ == splice(old(self)@, address as int, data@.subrange(0, i as int)),
            decreases data.len() - i,
        {
            self.buffer.set(address as usize + i, data[i]);
            assert(self@ =~= splice(old(self)@, address as int, data@.subrange(0, i + 1)));
            i += 1;
        }
        assert(data@.subrange(0, i as int) =~= data@);
    }

    /// Reads `len` words from `address` on. Fails, and reads nothing, unless
    /// the whole range lies in physical memory.
    pub fn read(&self, address: u16, len: u16) -> (r: Result<Vec<u16>, ExecError>)
        requires
            self.wf(),
        ensures
            match r {
                Ok(words) => in_physical(address as int, len as int) && words@
                    == self@.subrange(address as int, address + len),
                Err(e) => !in_physical(address as int, len as int) && e
                    == (ExecError::OutOfRange { address }),
            },
    {
        if address as u32 + len as u32 > MEMORY_SIZE as u32 {
            return Err(ExecError::OutOfRange { address });
        }
        Ok(self.copy_range(address, len))
    }

    /// Writes `data` from `address` on. Fails, and writes nothing, unless the
    /// whole range lies in physical memory and within the data or the stack
    /// segment.
    pub fn write(&mut self, address: u16, data: &Vec<u16>) -> (r: Result<(), ExecError>)
        requires
            old(self).wf(),
        ensures
            final(self).wf(),
            final(self).code_len == old(self).code_len,
            match r {
                Ok(_) => write_error(address, data@.len() as int) is None && final(self)@
                    == splice(old(self)@, address as int, data@),
                Err(e) => write_error(address, data@.len() as int) == Some(e) && final(self)@
                    == old(self)@,
            },
    {
        let len = data.len();
        if len > MEMORY_SIZE as usize || address as usize + len > MEMORY_SIZE as usize {
            return Err(ExecError::OutOfRange { address });
        }
        if len > 0 && address < STACK_START {
            if address < DATA_START || address > DATA_END {
                return Err(ExecError::ProtectedSegment { address });
            }
            if address as usize + len > DATA_END as usize + 1 {
                return Err(ExecError::ProtectedSegment { address: CALL_STACK_START });
            }
        }
        self.fill(address, data);
        Ok(())
    }

    /// Reads the first `len` words of the code segment. Fails unless the
    /// segment has that many.
    pub fn read_code(&self, len: u16) -> (r: Result<Vec<u16>, ExecError>)
        requires
            self.wf(),
        ensures
            match r {
                Ok(words) => len <= CODE_SIZE && words@ == self@.subrange(0, len as int),
                Err(e) => len > CODE_SIZE && e == (ExecError::OutOfRange { address: 0 }),
            },
    {
        if len > CODE_SIZE {
            return Err(ExecError::OutOfRange { address: 0 });
        }
        Ok(self.copy_range(0, len))
    }

    /// Reads the first `len` words of the stack segment. Fails unless the
    /// segment has that many.
    pub fn read_stack(&self, len: u16) -> (r: Result<Vec<u16>, ExecError>)
        requires
            self.wf(),
        ensures
            match r {
                Ok(words) => len <= STACK_SIZE && words@ == self@.subrange(
                    STACK_START as int,
                    STACK_START + len,
                ),
                Err(e) => len > STACK_SIZE && e == (ExecError::OutOfRange {
                    address: STACK_START,
                }),
            },
    {
        if len > STACK_SIZE {
            return Err(ExecError::OutOfRange { address: STACK_START });
        }
        Ok(self.copy_range(STACK_START, len))
    }

    /// Puts the code words of a program at the start of the code segment and
    /// records their number. Fails, and changes nothing, if the code segment
    /// is too small for them.
    pub fn load_code(&mut self, ops: &Vec<Op>) -> (r: Result<(), ExecError>)
        requires
            old(self).wf(),
        ensures
            final(self).wf(),
            match r {
                Ok(_) => {
                    &&& encode_all(ops@).len() <= CODE_SIZE
                    &&& final(self)@ == splice(old(self)@, 0, encode_all(ops@))
                    &&& final(self).code_len == encode_all(ops@).len()
                },
                Err(e) => {
                    &&& encode_all(ops@).len() > CODE_SIZE
                    &&& e == ExecError::CodeTooLarge
                    &&& final(self)@ == old(self)@
                    &&& final(self).code_len == old(self).code_len
                },
            },
    {
        let words = encode_program(ops);
        if words.len() > CODE_SIZE as usize {
            return Err(ExecError::CodeTooLarge);
        }
        self.fill(0, &words);
        self.code_len = words.len() as u16;
        Ok(())
    }

    /// Puts the data of a program at the start of the data segment. Fails,
    /// and changes nothing, if the data segment is too small for it.
    pub fn load_symbols(&mut self, symbols: &Symbols) -> (r: Result<(), ExecError>)
        requires
            old(self).wf(),
        ensures
            final(self).wf(),
            final(self).code_len == old(self).code_len,
            match r {
                Ok(_) => {
                    &&& symbols.data@.len() <= DATA_SIZE
                    &&& final(self)@ == splice(old(self)@, DATA_START as int, symbols.data@)
                },
                Err(e) => {
                    &&& symbols.data@.len() > DATA_SIZE
                    &&& e == ExecError::DataTooLarge
                    &&& final(self)@ == old(self)@
                },
            },
    {
        if symbols.data.len() > DATA_SIZE as usize {
            return Err(ExecError::DataTooLarge);
        }
        self.fill(DATA_START, &symbols.data);
        Ok(())
    }
}

} // verus!
