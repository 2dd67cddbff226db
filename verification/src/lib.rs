//! A bump allocator over a fixed-capacity arena, together with the host-side
//! helpers that provision the arena and decode its final state.
//!
//! The arena is a byte region addressed in fixed 4-byte allocation units,
//! with a single remaining-capacity counter. `allocate` claims ranges by moving
//! the counter downward; nothing is ever reclaimed. In the concurrent
//! setting the counter is updated only by atomic compare-and-swap, so every
//! execution linearizes into a sequence of successful claims; the `batch`
//! module states and proves the allocator's guarantees over such sequences.

pub mod arena;
pub mod batch;
pub mod dispatch;
pub mod hexdump;
pub mod layout;
pub mod readback;
