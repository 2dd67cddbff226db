//! Layout requests and the unit arithmetic shared by the allocator.

use vstd::prelude::*;

verus! {

/// Number of bytes in one allocation unit: the granularity in which the
/// arena's storage and its remaining-capacity counter are addressed.
pub const UNIT_SIZE_BYTES: u64 = 4;

/// Largest supported alignment in bytes; requests above this are rejected
/// as unsupported rather than treated as undefined.
pub const MAX_ALIGN_BYTES: u64 = 0x8000_0000;

/// A memory request: a byte size and a power-of-two byte alignment.
#[derive(Clone, Copy, PartialEq, Eq, Structural, Debug)]
pub struct Layout {
    pub size_bytes: u64,
    pub align_bytes: u64,
}

/// `n` is a power of two.
pub open spec fn is_power_of_two(n: nat) -> bool
    decreases n,
{
    if n == 0 {
        false
    } else if n == 1 {
        true
    } else {
        n % 2 == 0 && is_power_of_two(n / 2)
    }
}

/// `n` bytes rounded up to a whole number of allocation units.
pub open spec fn spec_units_of_bytes(n: nat) -> nat {
    (n + (UNIT_SIZE_BYTES - 1) as nat) / (UNIT_SIZE_BYTES as nat)
}

impl Layout {
    /// A well-formed request has a power-of-two alignment.
    pub open spec fn wf(self) -> bool {
        is_power_of_two(self.align_bytes as nat)
    }

    /// The request's size in whole allocation units.
    pub open spec fn spec_size_units(self) -> nat {
        spec_units_of_bytes(self.size_bytes as nat)
    }

    /// The request's alignment in whole allocation units.
    pub open spec fn spec_align_units(self) -> nat {
        spec_units_of_bytes(self.align_bytes as nat)
    }

    /// The alignment is within the supported range.
    pub open spec fn align_supported(self) -> bool {
        self.align_bytes <= MAX_ALIGN_BYTES
    }

    /// A request for `size_bytes` bytes at the power-of-two alignment
    /// `align_bytes`.
    pub fn new(size_bytes: u64, align_bytes: u64) -> (r: Layout)
        requires
            is_power_of_two(align_bytes as nat),
        ensures
            r == (Layout { size_bytes, align_bytes }),
    {
        Layout { size_bytes, align_bytes }
    }

    /// Whether the alignment is a power of two, i.e. the request is
    /// well-formed. Callers outside verified code use this to screen a
    /// request before handing it to the allocator.
    pub fn is_valid(&self) -> (r: bool)
        ensures
            r == self.wf(),
    {
        power_of_two_check(self.align_bytes)
    }

    /// The request's size in whole allocation units (rounded up).
    pub fn size_units(&self) -> (r: u64)
        ensures
            r == self.spec_size_units(),
    {
        units_of_bytes(self.size_bytes)
    }

    /// The request's alignment in whole allocation units (rounded up).
    pub fn align_units(&self) -> (r: u64)
        ensures
            r == self.spec_align_units(),
    {
        units_of_bytes(self.align_bytes)
    }
}

/// Rounds a byte count up to a whole number of allocation units.
pub fn units_of_bytes(n: u64) -> (r: u64)
    ensures
        r == spec_units_of_bytes(n as nat),
{
    let q: u64 = n / UNIT_SIZE_BYTES;
    let rem: u64 = n % UNIT_SIZE_BYTES;
    proof {
        vstd::arithmetic::div_mod::lemma_fundamental_div_mod(n as int, UNIT_SIZE_BYTES as int);
        vstd::arithmetic::div_mod::lemma_fundamental_div_mod(
            n as int + (UNIT_SIZE_BYTES - 1),
            UNIT_SIZE_BYTES as int,
        );
    }
    if rem == 0 {
        q
    } else {
        q + 1
    }
}

/// Whether `n` is a power of two, decided by the usual bit trick.
pub fn power_of_two_check(n: u64) -> (r: bool)
    ensures
        r == is_power_of_two(n as nat),
{
    let r = n != 0 && n & (n - 1) == 0;
    proof {
        if r {
            lemma_mask_zero_implies_power_of_two(n);
        } else if is_power_of_two(n as nat) {
            lemma_power_of_two_mask_zero(n);
        }
    }
    r
}

/// A nonzero value whose `n & (n - 1)` vanishes is a power of two.
proof fn lemma_mask_zero_implies_power_of_two(n: u64)
    requires
        n != 0,
        n & ((n - 1) as u64) == 0,
    ensures
        is_power_of_two(n as nat),
    decreases n,
{
    if n == 1 {
        assert(is_power_of_two(1));
    } else {
        let h = (n / 2) as u64;
        assert(n % 2 == 0 && h != 0 && h & ((h - 1) as u64) == 0) by (bit_vector)
            requires
                n > 1,
                n & ((n - 1) as u64) == 0,
                h == n / 2,
        ;
        lemma_mask_zero_implies_power_of_two(h);
    }
}

/// For a power of two `n`, the bit trick `n & (n - 1)` vanishes.
proof fn lemma_power_of_two_mask_zero(n: u64)
    requires
        is_power_of_two(n as nat),
    ensures
        n >= 1,
        n & ((n - 1) as u64) == 0,
    decreases n,
{
    if n == 1 {
        assert(1u64 & 0u64 == 0) by (bit_vector);
    } else {
        let h = (n / 2) as u64;
        lemma_power_of_two_mask_zero(h);
        assert(n & ((n - 1) as u64) == 0) by (bit_vector)
            requires
                n > 1,
                n % 2 == 0,
                h == n / 2,
                h & ((h - 1) as u64) == 0,
        ;
    }
}

/// `x` rounded down to the nearest multiple of `a`.
pub open spec fn spec_align_down(x: nat, a: nat) -> nat {
    (x / a) * a
}

/// Rounding down to a multiple of `a` stays within one `a` of the start
/// and lands on a multiple of `a`.
pub proof fn lemma_align_down_properties(x: nat, a: nat)
    requires
        a >= 1,
    ensures
        spec_align_down(x, a) <= x,
        spec_align_down(x, a) % a == 0,
        x - spec_align_down(x, a) < a,
{
    vstd::arithmetic::div_mod::lemma_fundamental_div_mod(x as int, a as int);
    vstd::arithmetic::div_mod::lemma_mod_bound(x as int, a as int);
    vstd::arithmetic::div_mod::lemma_mod_multiples_basic(x as int / a as int, a as int);
    assert(x as int == a as int * (x as int / a as int) + x as int % a as int);
    assert(spec_align_down(x, a) == a as int * (x as int / a as int)) by {
        vstd::arithmetic::mul::lemma_mul_is_commutative(x as int / a as int, a as int);
    }
}

/// For a power-of-two `a`, masking with the complement of `a - 1` rounds
/// down to a multiple of `a`.
#[verifier::rlimit(60)]
pub proof fn lemma_mask_rounds_down(x: u32, a: u32)
    requires
        is_power_of_two(a as nat),
    ensures
        1 <= a,
        x & !((a - 1) as u32) == spec_align_down(x as nat, a as nat),
        spec_align_down(x as nat, a as nat) <= x,
        spec_align_down(x as nat, a as nat) % (a as nat) == 0,
{
    lemma_power_of_two_mask_zero_u32(a);
    assert(x & !((a - 1) as u32) == x - x % a) by (bit_vector)
        requires
            1 <= a && a & ((a - 1) as u32) == 0,
    ;
    vstd::arithmetic::div_mod::lemma_fundamental_div_mod(x as int, a as int);
    vstd::arithmetic::div_mod::lemma_mod_multiples_basic(x as int / a as int, a as int);
}

/// The power-of-two bit trick, carried down to `u32` width.
proof fn lemma_power_of_two_mask_zero_u32(n: u32)
    requires
        is_power_of_two(n as nat),
    ensures
        n >= 1,
        n & ((n - 1) as u32) == 0,
{
    lemma_power_of_two_mask_zero(n as u64);
    let w = n as u64;
    assert(n & ((n - 1) as u32) == 0) by (bit_vector)
        requires
            w == n as u64 && w >= 1 && w & ((w - 1) as u64) == 0,
    ;
}

/// A power-of-two alignment rounds up to a power-of-two unit count.
pub proof fn lemma_align_units_power_of_two(l: Layout)
    requires
        l.wf(),
    ensures
        is_power_of_two(l.spec_align_units()),
{
    let a = l.align_bytes as nat;
    if a <= 4 {
        assert(spec_units_of_bytes(a) == 1);
    } else {
        // a power of two above 4 is divisible by 4, and a / 4 is again one
        let h = a / 2;
        let q = a / 4;
        assert(a % 2 == 0 && is_power_of_two(h));
        assert(h % 2 == 0 && is_power_of_two(h / 2));
        assert(h / 2 == q) by {
            vstd::arithmetic::div_mod::lemma_div_denominator(a as int, 2, 2);
        }
        assert(a == 4 * q) by {
            vstd::arithmetic::div_mod::lemma_fundamental_div_mod(a as int, 2);
            vstd::arithmetic::div_mod::lemma_fundamental_div_mod(h as int, 2);
        }
        assert(spec_units_of_bytes(a) == q) by {
            vstd::arithmetic::div_mod::lemma_div_multiples_vanish_fancy(q as int, 3, 4);
        }
    }
}

} // verus!
