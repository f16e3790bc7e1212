//! The register file: an unbounded address space of 64-bit words.

use vstd::prelude::*;

verus! {

/// A linear address space of raw 64-bit words. Indices below
/// [`Registers::FIXED_COUNT`] live in an inline array; higher indices live in a
/// spill vector that grows on demand and never shrinks. A register that was
/// never written reads as zero.
pub struct Registers {
    fixed: [u64; 256],
    spill: Vec<u64>,
}

impl Registers {
    /// Number of registers held in inline storage.
    pub const FIXED_COUNT: usize = 256;

    /// Number of spill registers for which room is reserved at creation.
    pub const SPILL_INIT: usize = 256;

    /// The word stored at index `i`; zero where nothing was ever written.
    pub closed spec fn word(&self, i: int) -> u64 {
        if 0 <= i < 256 {
            self.fixed@[i]
        } else if 256 <= i < 256 + self.spill@.len() {
            self.spill@[i - 256]
        } else {
            0
        }
    }

    /// The number of indices that are backed by storage: every index below
    /// this bound can be written without growing the spill region.
    pub closed spec fn backed(&self) -> nat {
        (256 + self.spill@.len()) as nat
    }

    /// `self` holds `value` at `index` and, everywhere else, what `before`
    /// holds.
    pub open spec fn is_update_of(&self, before: &Registers, index: int, value: u64) -> bool {
        forall|j: int| #[trigger]
            self.word(j) == if j == index {
                value
            } else {
                before.word(j)
            }
    }

    /// `self` and `other` hold the same word at every index.
    pub open spec fn same_words(&self, other: &Registers) -> bool {
        forall|j: int| #[trigger] self.word(j) == other.word(j)
    }

    /// A register file in which every word is zero.
    pub fn new() -> (r: Self)
        ensures
            forall|i: int| #[trigger] r.word(i) == 0,
            r.backed() == 256,
    {
        Registers { fixed: [0u64; 256], spill: Vec::with_capacity(Self::SPILL_INIT) }
    }

    /// Reads the word at `index`.
    pub fn get(&self, index: usize) -> (w: u64)
        ensures
            w == self.word(index as int),
    {
        if index < Self::FIXED_COUNT {
            self.fixed[index]
        } else {
            let spill_index: usize = index - Self::FIXED_COUNT;
            if spill_index < self.spill.len() {
                self.spill[spill_index]
            } else {
                0
            }
        }
    }

    /// Writes `value` at `index`, growing the spill region with zeros when
    /// `index` lies beyond it. No other register changes.
    pub fn set(&mut self, index: usize, value: u64)
        ensures
            final(self).word(index as int) == value,
            forall|j: int| j != index ==> #[trigger] final(self).word(j) == old(self).word(j),
            final(self).backed() == if index < old(self).backed() {
                old(self).backed()
            } else {
                (index + 1) as nat
            },
    {
        if index < Self::FIXED_COUNT {
            self.fixed[index] = value;
        } else {
            let spill_index: usize = index - Self::FIXED_COUNT;
            if spill_index >= self.spill.len() {
                self.spill.resize(spill_index + 1, 0);
            }
            self.spill.set(spill_index, value);
        }
    }

    /// Grows the spill region so that every index below `len` is backed by
    /// storage. No register changes its value, and the file never shrinks.
    pub fn ensure_len(&mut self, len: usize)
        ensures
            forall|j: int| #[trigger] final(self).word(j) == old(self).word(j),
            final(self).backed() == if len <= old(self).backed() {
                old(self).backed()
            } else {
                len as nat
            },
    {
        if len <= Self::FIXED_COUNT {
            return ;
        }
        let spill_needed: usize = len - Self::FIXED_COUNT;
        if spill_needed > self.spill.len() {
            self.spill.resize(spill_needed, 0);
        }
    }
}

impl Default for Registers {
    fn default() -> (r: Self)
        ensures
            forall|i: int| #[trigger] r.word(i) == 0,
            r.backed() == 256,
    {
        Registers::new()
    }
}

} // verus!
