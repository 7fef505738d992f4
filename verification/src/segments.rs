//! Layout of the address space of one machine.
//!
//! The physical memory of a machine holds `MEMORY_SIZE` words and is split
//! into four contiguous segments: code, data, call stack and stack. Addresses
//! from `MAPPED_START` upwards are virtual: they are never stored, but are
//! routed to the host through numbered outlets.

use vstd::prelude::*;

verus! {

/// Number of words of physical memory.
pub const MEMORY_SIZE: u16 = 0x1000;

/// Number of words of the code segment.
pub const CODE_SIZE: u16 = 0x0200;

/// Number of words of the data segment.
pub const DATA_SIZE: u16 = 0x0100;

/// Number of words of the call stack segment.
pub const CALL_STACK_SIZE: u16 = 0x0040;

/// Number of words of the stack segment.
pub const STACK_SIZE: u16 = 0x0CC0;

/// First address of the code segment.
pub const CODE_START: u16 = 0x0000;

/// Last address of the code segment.
pub const CODE_END: u16 = 0x01FF;

/// First address of the data segment.
pub const DATA_START: u16 = 0x0200;

/// Last address of the data segment.
pub const DATA_END: u16 = 0x02FF;

/// First address of the call stack segment.
pub const CALL_STACK_START: u16 = 0x0300;

/// Last address of the call stack segment.
pub const CALL_STACK_END: u16 = 0x033F;

/// First address of the stack segment.
pub const STACK_START: u16 = 0x0340;

/// Last address of the stack segment, and of physical memory.
pub const STACK_END: u16 = 0x0FFF;

/// First address of the mapped region.
pub const MAPPED_START: u16 = 0x1000;

/// Number of addresses of the mapped region past its first one.
pub const MAPPED_SIZE: u16 = 0xEFFF;

/// Last address of the mapped region.
pub const MAPPED_END: u16 = 0xFFFF;

/// Number of addresses that one outlet of the mapped region covers.
pub const OUTLET_SIZE: u16 = 0x0200;

/// Number of outlets that the host wires up.
pub const OUTLET_COUNT: u16 = 4;

/// The segments of the address space.
#[derive(Clone, Copy, Debug, PartialEq, Eq, Structural)]
pub enum Segment {
    Code,
    Data,
    CallStack,
    Stack,
    Mapped,
}

/// First address of a segment.
pub open spec fn segment_start(s: Segment) -> int {
    match s {
        Segment::Code => CODE_START as int,
        Segment::Data => DATA_START as int,
        Segment::CallStack => CALL_STACK_START as int,
        Segment::Stack => STACK_START as int,
        Segment::Mapped => MAPPED_START as int,
    }
}

/// Last address of a segment.
pub open spec fn segment_end(s: Segment) -> int {
    match s {
        Segment::Code => CODE_END as int,
        Segment::Data => DATA_END as int,
        Segment::CallStack => CALL_STACK_END as int,
        Segment::Stack => STACK_END as int,
        Segment::Mapped => MAPPED_END as int,
    }
}

/// Number of physical words of a segment; the mapped region has none.
pub open spec fn segment_size(s: Segment) -> int {
    match s {
        Segment::Code => CODE_SIZE as int,
        Segment::Data => DATA_SIZE as int,
        Segment::CallStack => CALL_STACK_SIZE as int,
        Segment::Stack => STACK_SIZE as int,
        Segment::Mapped => 0,
    }
}

/// The segment that an address lies in.
pub open spec fn segment_of_spec(address: u16) -> Segment {
    if address <= CODE_END {
        Segment::Code
    } else if address <= DATA_END {
        Segment::Data
    } else if address <= CALL_STACK_END {
        Segment::CallStack
    } else if address <= STACK_END {
        Segment::Stack
    } else {
        Segment::Mapped
    }
}

/// Whether an address lies in the mapped region.
pub open spec fn is_mapped_spec(address: u16) -> bool {
    address >= MAPPED_START
}

/// The outlet that a mapped address is routed to.
pub open spec fn outlet_of_spec(address: u16) -> int
    recommends
        is_mapped_spec(address),
{
    (address - MAPPED_START) / (OUTLET_SIZE as int)
}

/// The position of a mapped address within its outlet.
pub open spec fn outlet_offset_spec(address: u16) -> int
    recommends
        is_mapped_spec(address),
{
    (address - MAPPED_START) % (OUTLET_SIZE as int)
}

/// Whether the `len` words from `address` on all lie in physical memory.
pub open spec fn in_physical(address: int, len: int) -> bool {
    0 <= address && 0 <= len && address + len <= MEMORY_SIZE
}

/// Finds the segment that an address lies in.
pub fn segment_of(address: u16) -> (s: Segment)
    ensures
        s == segment_of_spec(address),
        segment_start(s) <= address <= segment_end(s),
{
    if address <= CODE_END {
        Segment::Code
    } else if address <= DATA_END {
        Segment::Data
    } else if address <= CALL_STACK_END {
        Segment::CallStack
    } else if address <= STACK_END {
        Segment::Stack
    } else {
        Segment::Mapped
    }
}

/// Tells whether an address lies in the mapped region.
pub fn is_mapped(address: u16) -> (b: bool)
    ensures
        b == is_mapped_spec(address),
        b == (segment_of_spec(address) == Segment::Mapped),
{
    address >= MAPPED_START
}

/// Computes the outlet that a mapped address is routed to.
pub fn outlet_of(address: u16) -> (outlet: u16)
    requires
        is_mapped_spec(address),
    ensures
        outlet == outlet_of_spec(address),
        outlet * OUTLET_SIZE <= address - MAPPED_START < (outlet + 1) * OUTLET_SIZE,
{
    (address - MAPPED_START) / OUTLET_SIZE
}

/// Computes the position of a mapped address within its outlet.
pub fn outlet_offset(address: u16) -> (offset: u16)
    requires
        is_mapped_spec(address),
    ensures
        offset == outlet_offset_spec(address),
        offset < OUTLET_SIZE,
        outlet_of_spec(address) * OUTLET_SIZE + offset == address - MAPPED_START,
{
    (address - MAPPED_START) % OUTLET_SIZE
}

/// The four physical segments follow one another without a gap, starting at
/// address zero, and their sizes add up to the size of the memory. The mapped
/// region starts right after them.
pub proof fn lemma_segments_partition_memory()
    ensures
        CODE_SIZE + DATA_SIZE + CALL_STACK_SIZE + STACK_SIZE == MEMORY_SIZE,
        CODE_START == 0,
        DATA_START == CODE_END + 1,
        CALL_STACK_START == DATA_END + 1,
        STACK_START == CALL_STACK_END + 1,
        MAPPED_START == STACK_END + 1,
        MAPPED_START == MEMORY_SIZE,
        forall|s: Segment|
            s != Segment::Mapped ==> #[trigger] segment_end(s) - segment_start(s) + 1
                == segment_size(s),
        MAPPED_END - MAPPED_START == MAPPED_SIZE,
{
}

/// Two different segments share no address, and every address lies in
/// exactly one segment.
pub proof fn lemma_segments_disjoint(a: Segment, b: Segment, address: u16)
    ensures
        a != b ==> segment_end(a) < segment_start(b) || segment_end(b) < segment_start(a),
        (segment_start(a) <= address <= segment_end(a)) <==> segment_of_spec(address) == a,
{
}

/// The first mapped address belongs to outlet zero, and the outlets that the
/// host wires up cover the addresses below `0x1800`.
pub proof fn lemma_outlet_layout(address: u16)
    requires
        is_mapped_spec(address),
    ensures
        outlet_of_spec(MAPPED_START) == 0,
        outlet_of_spec(address) < OUTLET_COUNT <==> address < 0x1800,
        0 <= outlet_of_spec(address) < 120,
{
}

} // verus!
