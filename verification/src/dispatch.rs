//! Host-side provisioning of one dispatch batch.
//!
//! Every kernel invocation addresses the same arena through two resources
//! bound at fixed slots: the heap storage region and the 4-byte
//! remaining-unit counter cell. The host provisions both before
//! submitting a batch; writing the initial counter value here is the only
//! counter write that ever happens outside the allocator.

use vstd::prelude::*;

use crate::arena::MAX_CAPACITY_UNITS;
use crate::layout::UNIT_SIZE_BYTES;
use crate::readback::{encode_word_le, spec_word_from_le};

verus! {

/// Binding slot of the heap storage region.
pub const HEAP_BINDING_SLOT: u32 = 0;

/// Binding slot of the remaining-unit counter cell.
pub const COUNTER_BINDING_SLOT: u32 = 1;

/// Timestamps written around one batch: one before, one after.
pub const TIMESTAMP_COUNT: u32 = 2;

/// Heap size provisioned for a batch unless a caller chooses otherwise.
pub const DEFAULT_HEAP_SIZE_BYTES: u32 = 32 * 1024;

/// Sizes and initial contents of the two shared resources of one batch.
pub struct Provisioning {
    /// Byte size of the heap storage region at slot 0.
    pub heap_size_bytes: u32,
    /// Byte size of the counter cell at slot 1.
    pub counter_size_bytes: u32,
    /// Initial contents of the counter cell: the capacity, little-endian.
    pub counter_init: Vec<u8>,
}

/// Lays out the shared resources for an arena of `capacity_units` units:
/// one heap byte region of 4 bytes per unit, and the counter cell
/// initialized to the full capacity.
pub fn provision(capacity_units: u32) -> (r: Provisioning)
    requires
        capacity_units <= MAX_CAPACITY_UNITS,
    ensures
        r.heap_size_bytes == capacity_units as nat * (UNIT_SIZE_BYTES as nat),
        r.counter_size_bytes == UNIT_SIZE_BYTES,
        r.counter_init@.len() == r.counter_size_bytes,
        spec_word_from_le(r.counter_init@) == capacity_units as nat,
{
    proof {
        assert(UNIT_SIZE_BYTES == 4);
        assert(capacity_units as int * 4 <= 0xFFFF_FFFC);
    }
    Provisioning {
        heap_size_bytes: capacity_units * UNIT_SIZE_BYTES as u32,
        counter_size_bytes: UNIT_SIZE_BYTES as u32,
        counter_init: encode_word_le(capacity_units),
    }
}

} // verus!
