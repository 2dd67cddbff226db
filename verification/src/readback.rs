//! Decoding the arena's state as it is read back from the device.
//!
//! After a dispatch batch completes, the host copies three little-endian
//! byte regions into its own memory: the heap storage, the 4-byte
//! remaining-unit counter cell, and a pair of 8-byte timestamps. The
//! functions here turn those bytes into values: the counter word, the
//! heap's allocator-touched words (everything at or above the final
//! counter offset; the units below it were never claimed), the allocated
//! byte total and the elapsed tick count.

use vstd::prelude::*;

use crate::arena::MAX_CAPACITY_UNITS;
use crate::layout::UNIT_SIZE_BYTES;

verus! {

/// The value of four little-endian bytes.
pub open spec fn spec_word_from_le(b: Seq<u8>) -> nat {
    (b[0] + 0x100 * b[1] + 0x1_0000 * b[2] + 0x100_0000 * b[3]) as nat
}

/// The value of eight little-endian bytes.
pub open spec fn spec_qword_from_le(b: Seq<u8>) -> nat {
    (b[0] + 0x100 * b[1] + 0x1_0000 * b[2] + 0x100_0000 * b[3] + 0x1_0000_0000 * b[4]
        + 0x100_0000_0000 * b[5] + 0x1_0000_0000_0000 * b[6] + 0x100_0000_0000_0000 * b[7]) as nat
}

/// Decodes one 32-bit word, such as the remaining-unit counter cell, from
/// its four little-endian bytes.
pub fn decode_word_le(bytes: &[u8]) -> (r: u32)
    requires
        bytes@.len() == 4,
    ensures
        r as nat == spec_word_from_le(bytes@),
{
    bytes[0] as u32 + 0x100 * bytes[1] as u32 + 0x1_0000 * bytes[2] as u32 + 0x100_0000
        * bytes[3] as u32
}

/// Encodes one 32-bit word, such as the initial counter value, into its
/// four little-endian bytes.
pub fn encode_word_le(w: u32) -> (r: Vec<u8>)
    ensures
        r@.len() == 4,
        spec_word_from_le(r@) == w as nat,
{
    let b0: u8 = (w % 0x100) as u8;
    let b1: u8 = (w / 0x100 % 0x100) as u8;
    let b2: u8 = (w / 0x1_0000 % 0x100) as u8;
    let b3: u8 = (w / 0x100_0000) as u8;
    let mut r: Vec<u8> = Vec::new();
    r.push(b0);
    r.push(b1);
    r.push(b2);
    r.push(b3);
    proof {
        vstd::arithmetic::div_mod::lemma_fundamental_div_mod(w as int, 0x100);
        vstd::arithmetic::div_mod::lemma_fundamental_div_mod(w as int / 0x100, 0x100);
        vstd::arithmetic::div_mod::lemma_fundamental_div_mod(w as int / 0x1_0000, 0x100);
        vstd::arithmetic::div_mod::lemma_div_denominator(w as int, 0x100, 0x100);
        vstd::arithmetic::div_mod::lemma_div_denominator(w as int, 0x1_0000, 0x100);
    }
    r
}

/// Decodes one 64-bit timestamp from its eight little-endian bytes.
pub fn decode_qword_le(bytes: &[u8]) -> (r: u64)
    requires
        bytes@.len() == 8,
    ensures
        r as nat == spec_qword_from_le(bytes@),
{
    bytes[0] as u64 + 0x100 * bytes[1] as u64 + 0x1_0000 * bytes[2] as u64 + 0x100_0000
        * bytes[3] as u64 + 0x1_0000_0000 * bytes[4] as u64 + 0x100_0000_0000 * bytes[5] as u64
        + 0x1_0000_0000_0000 * bytes[6] as u64 + 0x100_0000_0000_0000 * bytes[7] as u64
}

/// Decodes the two timestamps bracketing a batch from their 16-byte
/// readback region: first the start marker, then the end marker.
pub fn decode_timestamps(bytes: &[u8]) -> (r: (u64, u64))
    requires
        bytes@.len() == 16,
    ensures
        r.0 as nat == spec_qword_from_le(bytes@.subrange(0, 8)),
        r.1 as nat == spec_qword_from_le(bytes@.subrange(8, 16)),
{
    let start = vstd::slice::slice_subrange(bytes, 0, 8);
    let end = vstd::slice::slice_subrange(bytes, 8, 16);
    (decode_qword_le(start), decode_qword_le(end))
}

/// Ticks elapsed between the two timestamps of a batch.
pub fn elapsed_ticks(start: u64, end: u64) -> (r: u64)
    requires
        start <= end,
    ensures
        r == end - start,
{
    end - start
}

/// Bytes claimed by the batch: the distance the counter travelled, in
/// bytes.
pub fn allocated_bytes(capacity_units: u32, remaining: u32) -> (r: u32)
    requires
        remaining <= capacity_units,
        capacity_units <= MAX_CAPACITY_UNITS,
    ensures
        r as nat == (capacity_units - remaining) * (UNIT_SIZE_BYTES as nat),
{
    proof {
        assert(UNIT_SIZE_BYTES == 4);
        assert((capacity_units - remaining) * 4 <= 0xFFFF_FFFC);
    }
    (capacity_units - remaining) * UNIT_SIZE_BYTES as u32
}

/// Decodes the allocator-touched words of the heap: the storage region is
/// read as 4-byte little-endian words, the unclaimed prefix below the
/// final counter offset is skipped, and the rest are returned in order.
/// A counter at or past the end of storage yields no words.
pub fn decode_heap_words(heap: &[u8], remaining: u32) -> (r: Vec<u32>)
    requires
        heap@.len() % 4 == 0,
    ensures
        remaining as int >= heap@.len() / 4 ==> r@.len() == 0,
        remaining as int <= heap@.len() / 4 ==> r@.len() == heap@.len() / 4 - remaining as int,
        forall|i: int|
            0 <= i < r@.len() ==> (#[trigger] r@[i]) as nat == spec_word_from_le(
                heap@.subrange(
                    (remaining as int + i) * 4,
                    (remaining as int + i) * 4 + 4,
                ),
            ),
{
    let total_units: usize = heap.len() / 4;
    proof {
        vstd::arithmetic::div_mod::lemma_fundamental_div_mod(heap@.len() as int, 4);
    }
    let mut r: Vec<u32> = Vec::new();
    if remaining as u64 >= total_units as u64 {
        return r;
    }
    let mut u: usize = remaining as usize;
    while u < total_units
        invariant
            remaining as int <= u as int <= total_units as int,
            total_units as int == heap@.len() / 4,
            heap@.len() <= usize::MAX,
            heap@.len() % 4 == 0,
            heap@.len() == total_units as int * 4,
            r@.len() == u as int - remaining as int,
            forall|i: int|
                0 <= i < r@.len() ==> (#[trigger] r@[i]) as nat == spec_word_from_le(
                    heap@.subrange(
                        (remaining as int + i) * 4,
                        (remaining as int + i) * 4 + 4,
                    ),
                ),
        decreases total_units - u,
    {
        let word_bytes = vstd::slice::slice_subrange(heap, 4 * u, 4 * u + 4);
        let word = decode_word_le(word_bytes);
        r.push(word);
        u = u + 1;
    }
    r
}

} // verus!
