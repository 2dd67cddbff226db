//! The arena and its bump allocator.
//!
//! An [`Arena`] is a fixed-capacity byte region addressed in 4-byte
//! allocation units, plus a remaining-capacity counter. `allocate` claims the
//! range just below the counter, rounded down to the requested alignment;
//! the counter only ever moves downward and nothing is reclaimed.
//!
//! In the concurrent setting the counter is a single shared word updated
//! only by compare-and-swap, so each successful `allocate` is one atomic
//! transition of the counter. The methods here perform exactly one such
//! transition; the `batch` module reasons about arbitrary sequences of
//! them, which is what any interleaving of concurrent callers linearizes
//! to.

use vstd::prelude::*;

use crate::layout::{
    Layout, MAX_ALIGN_BYTES, UNIT_SIZE_BYTES, lemma_align_units_power_of_two,
    lemma_mask_rounds_down, spec_align_down, spec_units_of_bytes,
};

verus! {

/// Largest capacity, in units, that an arena may be provisioned with; keeps
/// every byte index of the storage region within `u32` range.
pub const MAX_CAPACITY_UNITS: u32 = 0x3FFF_FFFF;

/// Why an allocation request was refused.
#[derive(Clone, Copy, PartialEq, Eq, Structural, Debug)]
pub enum AllocError {
    /// The request's unit count exceeds the counter value that was observed.
    OutOfMemory,
    /// The request's alignment exceeds the supported maximum.
    UnsupportedAlignment,
}

/// Whether a request can be satisfied against counter value `rem`.
pub open spec fn spec_can_claim(rem: nat, l: Layout) -> bool {
    l.align_supported() && l.spec_size_units() <= rem
}

/// The counter value left by a successful claim against counter value
/// `rem`: the request's units are subtracted and the result is rounded
/// down to the request's alignment. The claimed range starts at this very
/// value, so the rounding slack is donated to the claim.
pub open spec fn spec_claim(rem: nat, l: Layout) -> nat {
    spec_align_down((rem - l.spec_size_units()) as nat, l.spec_align_units())
}

/// Number of whole units copied by a successful `realloc`.
pub open spec fn spec_copy_units(old_layout: Layout, new_size: u64) -> nat {
    let ou = old_layout.spec_size_units();
    let nu = spec_units_of_bytes(new_size as nat);
    if ou <= nu {
        ou
    } else {
        nu
    }
}

/// A successful `realloc` preserves at least the first
/// `min(old_layout.size_bytes, new_size)` bytes of the payload: that many
/// bytes always fit within the whole units it copies.
pub proof fn lemma_copy_covers_min_bytes(old_layout: Layout, new_size: u64)
    ensures
        (if old_layout.size_bytes <= new_size {
            old_layout.size_bytes as nat
        } else {
            new_size as nat
        }) <= spec_copy_units(old_layout, new_size) * (UNIT_SIZE_BYTES as nat),
{
    let os = old_layout.size_bytes as int;
    let ns = new_size as int;
    let mb = if os <= ns {
        os
    } else {
        ns
    };
    assert(UNIT_SIZE_BYTES == 4);
    vstd::arithmetic::div_mod::lemma_fundamental_div_mod(mb + 3, 4);
    vstd::arithmetic::div_mod::lemma_mod_bound(mb + 3, 4);
    if os <= ns {
        vstd::arithmetic::div_mod::lemma_div_is_ordered(os + 3, ns + 3, 4);
    } else {
        vstd::arithmetic::div_mod::lemma_div_is_ordered(ns + 3, os + 3, 4);
    }
}

/// A fixed-capacity allocation arena: backing storage and the remaining
/// unit counter.
pub struct Arena {
    storage: Vec<u8>,
    remaining: u32,
    capacity_units: u32,
}

impl Arena {
    /// The remaining-capacity counter, in units.
    pub closed spec fn spec_remaining(self) -> nat {
        self.remaining as nat
    }

    /// The arena's total capacity, in units.
    pub closed spec fn spec_capacity_units(self) -> nat {
        self.capacity_units as nat
    }

    /// The bytes of the backing storage region.
    pub closed spec fn spec_storage(self) -> Seq<u8> {
        self.storage@
    }

    /// Arena invariant: the counter never exceeds the capacity, and the
    /// storage holds one 4-byte unit per capacity unit.
    pub open spec fn wf(self) -> bool {
        &&& self.spec_remaining() <= self.spec_capacity_units()
        &&& self.spec_capacity_units() <= MAX_CAPACITY_UNITS as nat
        &&& self.spec_storage().len() == self.spec_capacity_units() * (UNIT_SIZE_BYTES as nat)
    }

    /// Provisions an arena with `capacity_units` units of zeroed storage
    /// and the counter initialized to the full capacity.
    pub fn new(capacity_units: u32) -> (r: Arena)
        requires
            capacity_units <= MAX_CAPACITY_UNITS,
        ensures
            r.wf(),
            r.spec_capacity_units() == capacity_units as nat,
            r.spec_remaining() == capacity_units as nat,
            forall|j: int| 0 <= j < r.spec_storage().len() ==> r.spec_storage()[j] == 0u8,
    {
        proof {
            assert(UNIT_SIZE_BYTES == 4);
            assert(capacity_units as int * 4 <= 0xFFFF_FFFC);
        }
        let total_bytes: u32 = capacity_units * UNIT_SIZE_BYTES as u32;
        let total: usize = total_bytes as usize;
        let mut storage: Vec<u8> = Vec::new();
        while storage.len() < total
            invariant
                storage@.len() <= total,
                forall|j: int| 0 <= j < storage@.len() ==> storage@[j] == 0u8,
            decreases total - storage@.len(),
        {
            storage.push(0u8);
        }
        Arena { storage, remaining: capacity_units, capacity_units }
    }

    /// The current value of the remaining-unit counter.
    pub fn remaining(&self) -> (r: u32)
        ensures
            r as nat == self.spec_remaining(),
    {
        self.remaining
    }

    /// The arena's capacity in units.
    pub fn capacity_units(&self) -> (r: u32)
        ensures
            r as nat == self.spec_capacity_units(),
    {
        self.capacity_units
    }

    /// One byte of the storage region.
    pub fn read_byte(&self, index: usize) -> (r: u8)
        requires
            index < self.spec_storage().len(),
        ensures
            r == self.spec_storage()[index as int],
    {
        self.storage[index]
    }

    /// Stores one byte of the storage region. Callers are expected to stay
    /// within a range they have claimed through `allocate`; the arena itself
    /// only demands that the index is in bounds.
    pub fn write_byte(&mut self, index: usize, v: u8)
        requires
            old(self).wf(),
            index < old(self).spec_storage().len(),
        ensures
            final(self).wf(),
            final(self).spec_remaining() == old(self).spec_remaining(),
            final(self).spec_capacity_units() == old(self).spec_capacity_units(),
            final(self).spec_storage() == old(self).spec_storage().update(index as int, v),
    {
        self.storage.set(index, v);
    }

    /// Claims a range of units for `layout` by one counter transition.
    ///
    /// On success the result is the claimed offset in units: the counter
    /// moves down to exactly that offset, so the claim covers every unit
    /// from the offset up to the counter value that was observed. On
    /// failure the arena is left unchanged.
    pub fn allocate(&mut self, layout: Layout) -> (r: Result<u32, AllocError>)
        requires
            old(self).wf(),
            layout.wf(),
        ensures
            final(self).wf(),
            final(self).spec_capacity_units() == old(self).spec_capacity_units(),
            final(self).spec_storage() == old(self).spec_storage(),
            final(self).spec_remaining() <= old(self).spec_remaining(),
            r is Ok <==> spec_can_claim(old(self).spec_remaining(), layout),
            r matches Ok(off) ==> {
                &&& off as nat == spec_claim(old(self).spec_remaining(), layout)
                &&& final(self).spec_remaining() == off as nat
                &&& off as nat % layout.spec_align_units() == 0
                &&& off as nat + layout.spec_size_units() <= old(self).spec_remaining()
            },
            !layout.align_supported() ==> r == Err::<u32, AllocError>(
                AllocError::UnsupportedAlignment,
            ),
            layout.align_supported() && layout.spec_size_units() > old(self).spec_remaining()
                ==> r == Err::<u32, AllocError>(AllocError::OutOfMemory),
            r is Err ==> *final(self) == *old(self),
    {
        if layout.align_bytes > MAX_ALIGN_BYTES {
            return Err(AllocError::UnsupportedAlignment);
        }
        let size_units: u64 = layout.size_units();
        if size_units > self.remaining as u64 {
            return Err(AllocError::OutOfMemory);
        }
        let align_units64: u64 = layout.align_units();
        proof {
            // the alignment passed the maximum check, so its unit count
            // fits comfortably in the counter's width
            vstd::arithmetic::div_mod::lemma_div_is_ordered(
                layout.align_bytes as int + (UNIT_SIZE_BYTES - 1),
                MAX_ALIGN_BYTES as int + (UNIT_SIZE_BYTES - 1),
                UNIT_SIZE_BYTES as int,
            );
        }
        let align_units: u32 = align_units64 as u32;
        let candidate: u32 = self.remaining - size_units as u32;
        proof {
            lemma_align_units_power_of_two(layout);
            lemma_mask_rounds_down(candidate, align_units);
        }
        let off: u32 = candidate & !(align_units - 1);
        self.remaining = off;
        Ok(off)
    }

    /// Releases a claim. The arena has no reclamation path, so this is a
    /// no-op kept for bookkeeping symmetry; the counter stays where it is.
    pub fn dealloc(&mut self, ptr: u32, layout: Layout)
        ensures
            *final(self) == *old(self),
    {
        let _unused = ptr;
        let _unused2 = layout;
    }

    /// Moves an allocation to a freshly claimed range for `new_size` bytes
    /// at the old alignment, copying the payload one unit at a time. The
    /// old range is abandoned, never reclaimed; on failure the arena,
    /// including the old range, is unchanged.
    pub fn realloc(&mut self, ptr: u32, old_layout: Layout, new_size: u64) -> (r: Result<
        u32,
        AllocError,
    >)
        requires
            old(self).wf(),
            old_layout.wf(),
            // `ptr` designates a live claim: at or above the counter, with
            // its whole range inside the storage region
            old(self).spec_remaining() <= ptr as nat,
            ptr as nat + old_layout.spec_size_units() <= old(self).spec_capacity_units(),
        ensures
            final(self).wf(),
            final(self).spec_capacity_units() == old(self).spec_capacity_units(),
            final(self).spec_remaining() <= old(self).spec_remaining(),
            r is Ok <==> spec_can_claim(
                old(self).spec_remaining(),
                Layout { size_bytes: new_size, align_bytes: old_layout.align_bytes },
            ),
            r is Err ==> *final(self) == *old(self),
            r matches Ok(off) ==> {
                let new_layout = Layout {
                    size_bytes: new_size,
                    align_bytes: old_layout.align_bytes,
                };
                let copy_bytes = spec_copy_units(old_layout, new_size) * (UNIT_SIZE_BYTES as nat);
                &&& off as nat == spec_claim(old(self).spec_remaining(), new_layout)
                &&& final(self).spec_remaining() == off as nat
                &&& off as nat % new_layout.spec_align_units() == 0
                &&& off as nat + new_layout.spec_size_units() <= old(self).spec_remaining()
                &&& forall|j: int|
                    off as int * 4 <= j < off as int * 4 + copy_bytes
                        ==> #[trigger] final(self).spec_storage()[j] == old(self).spec_storage()[j
                        - off as int * 4 + ptr as int * 4]
                &&& forall|j: int|
                    0 <= j < old(self).spec_storage().len() && !(off as int * 4 <= j < off as int
                        * 4 + copy_bytes) ==> #[trigger] final(self).spec_storage()[j] == old(
                        self,
                    ).spec_storage()[j]
            },
    {
        let new_layout = Layout { size_bytes: new_size, align_bytes: old_layout.align_bytes };
        let allocated = self.allocate(new_layout);
        match allocated {
            Err(e) => Err(e),
            Ok(off) => {
                let old_units: u64 = old_layout.size_units();
                let new_units: u64 = new_layout.size_units();
                let copy_units: u64 = if old_units < new_units {
                    old_units
                } else {
                    new_units
                };
                let ghost snapshot = *old(self);
                let mut i: u64 = 0;
                while i < copy_units
                    invariant
                        0 <= i <= copy_units,
                        copy_units == spec_copy_units(old_layout, new_size),
                        self.wf(),
                        self.spec_remaining() == off as nat,
                        self.spec_capacity_units() == snapshot.spec_capacity_units(),
                        self.spec_storage().len() == snapshot.spec_storage().len(),
                        off as nat + copy_units as nat <= snapshot.spec_remaining(),
                        snapshot.spec_remaining() <= ptr as nat,
                        ptr as nat + copy_units as nat <= snapshot.spec_capacity_units(),
                        forall|j: int|
                            off as int * 4 <= j < off as int * 4 + i as int * 4
                                ==> #[trigger] self.spec_storage()[j]
                                == snapshot.spec_storage()[j - off as int * 4 + ptr as int * 4],
                        forall|j: int|
                            0 <= j < snapshot.spec_storage().len() && !(off as int * 4 <= j < off
                                as int * 4 + i as int * 4) ==> #[trigger] self.spec_storage()[j]
                                == snapshot.spec_storage()[j],
                    decreases copy_units - i,
                {
                    let src: usize = (ptr as u64 * UNIT_SIZE_BYTES + i * UNIT_SIZE_BYTES) as usize;
                    let dst: usize = (off as u64 * UNIT_SIZE_BYTES + i * UNIT_SIZE_BYTES) as usize;
                    let b0 = self.read_byte(src);
                    let b1 = self.read_byte(src + 1);
                    let b2 = self.read_byte(src + 2);
                    let b3 = self.read_byte(src + 3);
                    self.write_byte(dst, b0);
                    self.write_byte(dst + 1, b1);
                    self.write_byte(dst + 2, b2);
                    self.write_byte(dst + 3, b3);
                    i = i + 1;
                }
                self.dealloc(ptr, old_layout);
                Ok(off)
            },
        }
    }
}

} // verus!
