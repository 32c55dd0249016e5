//! Virtual register allocator.
//!
//! Tracks a bounded pool of 64 virtual register slots through a 64-bit
//! bitmask: bit `i` set means virtual register `i` is in use. Allocation
//! always hands out the lowest clear bit, which deterministically reuses
//! freed low indices before high ones.

use vstd::prelude::*;

verus! {

/// True when bit `i` of `bits` is set (register `i` is allocated).
pub open spec fn bit_set(bits: u64, i: int) -> bool {
    0 <= i < 64 && (bits >> (i as u64)) & 1u64 == 1u64
}

/// Number of set bits of `bits` among the bit positions `[0, n)`.
pub open spec fn count_set(bits: u64, n: int) -> nat
    decreases n,
{
    if n <= 0 {
        0
    } else {
        count_set(bits, n - 1) + if bit_set(bits, n - 1) {
            1nat
        } else {
            0nat
        }
    }
}

proof fn lemma_set_bit(bits: u64, r: u64, j: u64)
    requires
        r < 64,
        j < 64,
    ensures
        ((bits | (1u64 << r)) >> j) & 1u64 == if j == r {
            1u64
        } else {
            (bits >> j) & 1u64
        },
{
    assert(((bits | (1u64 << r)) >> j) & 1u64 == if j == r {
        1u64
    } else {
        (bits >> j) & 1u64
    }) by (bit_vector)
        requires
            r < 64,
            j < 64,
    ;
}

proof fn lemma_clear_bit(bits: u64, r: u64, j: u64)
    requires
        r < 64,
        j < 64,
    ensures
        ((bits & !(1u64 << r)) >> j) & 1u64 == if j == r {
            0u64
        } else {
            (bits >> j) & 1u64
        },
{
    assert(((bits & !(1u64 << r)) >> j) & 1u64 == if j == r {
        0u64
    } else {
        (bits >> j) & 1u64
    }) by (bit_vector)
        requires
            r < 64,
            j < 64,
    ;
}

/// Virtual register allocator over a pool of 64 fungible slots.
pub struct RegisterAlloc {
    /// Bit `i` set means virtual register `i` is in use.
    pub bitset: u64,
}

impl Default for RegisterAlloc {
    /// A fresh allocator with every register free.
    fn default() -> (r: Self)
        ensures
            r.bitset == 0u64,
    {
        RegisterAlloc { bitset: 0 }
    }
}

impl RegisterAlloc {
    /// Returns the number of currently allocated registers: the count of set
    /// bits of the mask.
    pub fn len(&self) -> (n: u32)
        ensures
            n == count_set(self.bitset, 64),
    {
        let mut n: u32 = 0;
        let mut i: u64 = 0;
        while i < 64
            invariant
                i <= 64,
                n <= i,
                n == count_set(self.bitset, i as int),
            decreases 64 - i,
        {
            if (self.bitset >> i) & 1 == 1 {
                n = n + 1;
            }
            i = i + 1;
        }
        n
    }

    /// Reserves the lowest free slot and returns its index.
    ///
    /// The pool must not be full; running out of registers is a contract
    /// violation of the lowering pass, not a runtime condition.
    pub fn allocate(&mut self) -> (r: usize)
        requires
            old(self).bitset != u64::MAX,
        ensures
            r < 64,
            !bit_set(old(self).bitset, r as int),
            forall|j: int| 0 <= j < r ==> bit_set(old(self).bitset, j),
            final(self).bitset == old(self).bitset | (1u64 << (r as u64)),
            forall|j: int|
                0 <= j < 64 ==> (bit_set(final(self).bitset, j) <==> (j == r || bit_set(
                    old(self).bitset,
                    j,
                ))),
    {
        let min = self.min();
        self.set(min, true);
        proof {
            assert forall|j: int| 0 <= j < 64 implies (bit_set(self.bitset, j) <==> (j == min
                || bit_set(old(self).bitset, j))) by {
                lemma_set_bit(old(self).bitset, min as u64, j as u64);
            }
        }
        min
    }

    /// Releases a previously allocated slot. Freeing a slot that is not
    /// allocated is a contract violation of the lowering pass.
    pub fn free(&mut self, index: usize)
        requires
            index < 64,
            bit_set(old(self).bitset, index as int),
        ensures
            final(self).bitset == old(self).bitset & !(1u64 << (index as u64)),
            forall|j: int|
                0 <= j < 64 ==> (bit_set(final(self).bitset, j) <==> (j != index && bit_set(
                    old(self).bitset,
                    j,
                ))),
    {
        self.set(index, false);
        proof {
            assert forall|j: int| 0 <= j < 64 implies (bit_set(self.bitset, j) <==> (j != index
                && bit_set(old(self).bitset, j))) by {
                lemma_clear_bit(old(self).bitset, index as u64, j as u64);
            }
        }
    }

    /// Returns the lowest free slot without reserving it.
    pub fn min(&self) -> (r: usize)
        requires
            self.bitset != u64::MAX,
        ensures
            r < 64,
            !bit_set(self.bitset, r as int),
            forall|j: int| 0 <= j < r ==> bit_set(self.bitset, j),
    {
        let mut i: u64 = 0;
        let ghost mut mask: u64 = 0;
        proof {
            let bits = self.bitset;
            assert(bits & 0u64 == 0u64 && (1u64 << 0u64) - 1 == 0) by (bit_vector);
        }
        while i < 64
            invariant
                i <= 64,
                forall|j: int| 0 <= j < i ==> bit_set(self.bitset, j),
                self.bitset & mask == mask,
                i < 64 ==> mask == (1u64 << i) - 1,
                i == 64 ==> mask == u64::MAX,
                self.bitset != u64::MAX,
            decreases 64 - i,
        {
            if (self.bitset >> i) & 1 != 1 {
                return i as usize;
            }
            proof {
                let bits = self.bitset;
                assert(bits & (mask | (1u64 << i)) == (mask | (1u64 << i)) && (i != 63 ==> (mask
                    | (1u64 << i)) == (1u64 << (i + 1)) - 1) && (i == 63 ==> (mask | (1u64 << i))
                    == u64::MAX)) by (bit_vector)
                    requires
                        i < 64,
                        (bits >> i) & 1u64 == 1u64,
                        bits & mask == mask,
                        mask == (1u64 << i) - 1,
                ;
                mask = mask | (1u64 << i);
            }
            i = i + 1;
        }
        proof {
            let bits = self.bitset;
            assert(bits & u64::MAX == u64::MAX ==> bits == u64::MAX) by (bit_vector);
        }
        0
    }

    /// True when slot `index` is currently allocated.
    pub fn get(&self, index: usize) -> (r: bool)
        requires
            index < 64,
        ensures
            r == bit_set(self.bitset, index as int),
    {
        let bit: u64 = 1u64 << (index as u64);
        proof {
            let bits = self.bitset;
            let idx = index as u64;
            assert((bits & (1u64 << idx)) != 0 <==> (bits >> idx) & 1u64 == 1u64) by (bit_vector)
                requires
                    idx < 64,
            ;
        }
        (self.bitset & bit) != 0
    }

    /// Writes slot `index` of the mask: reserved when `value` is true, free
    /// when it is false. Returns whether the mask, with that bit set, is
    /// nonzero (which is always the case).
    pub fn set(&mut self, index: usize, value: bool) -> (r: bool)
        requires
            index < 64,
        ensures
            final(self).bitset == if value {
                old(self).bitset | (1u64 << (index as u64))
            } else {
                old(self).bitset & !(1u64 << (index as u64))
            },
            r == ((old(self).bitset | (1u64 << (index as u64))) != 0),
    {
        let bit: u64 = 1u64 << (index as u64);
        let old_bits: bool = (self.bitset | bit) != 0;
        if value {
            self.bitset = self.bitset | bit;
        } else {
            self.bitset = self.bitset & !bit;
        }
        old_bits
    }
}

} // verus!
