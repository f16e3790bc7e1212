//! Optional per-register type tags for tooling. The tags have no effect on
//! execution: every register is a raw word.

use vstd::prelude::*;
use crate::global_vars::GlobalVarType;

verus! {

/// What a register is used for.
#[derive(Debug, Clone, Copy, PartialEq, Eq)]
pub enum RegisterType {
    /// An ordinary value.
    ValueRegister,
    /// The main register of an allocated pointer variable, with its type.
    AllocatedPtrVarMain(GlobalVarType),
    /// A further register of an allocated pointer variable, such as a length.
    AllocatedPtrVarOther,
    /// The address of a constant slice.
    ConstSliceVarMain,
    /// The length of a constant slice.
    ConstSliceVarLen,
}

impl Default for RegisterType {
    fn default() -> (r: Self)
        ensures
            r == RegisterType::ValueRegister,
    {
        RegisterType::ValueRegister
    }
}

/// A tag for every register index, laid out as the register file is. An
/// index that was never tagged is a [`RegisterType::ValueRegister`].
pub struct RegisterTypes {
    fixed: [RegisterType; 256],
    spill: Vec<RegisterType>,
}

impl RegisterTypes {
    /// Number of tags held in inline storage.
    pub const FIXED_COUNT: usize = 256;

    /// Number of spill tags for which room is reserved at creation.
    pub const SPILL_INIT: usize = 256;

    /// The tag of index `i`.
    pub closed spec fn tag(&self, i: int) -> RegisterType {
        if 0 <= i < 256 {
            self.fixed@[i]
        } else if 256 <= i < 256 + self.spill@.len() {
            self.spill@[i - 256]
        } else {
            RegisterType::ValueRegister
        }
    }

    /// The number of indices that are backed by storage.
    pub closed spec fn backed(&self) -> nat {
        (256 + self.spill@.len()) as nat
    }

    /// `self` and `other` hold the same tag at every index.
    pub open spec fn same_tags(&self, other: &RegisterTypes) -> bool {
        forall|j: int| #[trigger] self.tag(j) == other.tag(j)
    }

    /// A table in which every index is a value register.
    pub fn new() -> (r: Self)
        ensures
            forall|i: int| #[trigger] r.tag(i) == RegisterType::ValueRegister,
            r.backed() == 256,
    {
        RegisterTypes {
            fixed: [RegisterType::ValueRegister; 256],
            spill: Vec::with_capacity(Self::SPILL_INIT),
        }
    }

    /// The tag of `index`.
    pub fn get(&self, index: usize) -> (t: RegisterType)
        ensures
            t == self.tag(index as int),
    {
        if index < Self::FIXED_COUNT {
            self.fixed[index]
        } else {
            let spill_index: usize = index - Self::FIXED_COUNT;
            if spill_index < self.spill.len() {
                self.spill[spill_index]
            } else {
                RegisterType::ValueRegister
            }
        }
    }

    /// Tags `index` with `value`. No other tag changes.
    pub fn set(&mut self, index: usize, value: RegisterType)
        ensures
            final(self).tag(index as int) == value,
            forall|j: int| j != index ==> #[trigger] final(self).tag(j) == old(self).tag(j),
            final(self).backed() == if index < old(self).backed() {
                old(self).backed()
            } else {
                (index + 1) as nat
            },
    {
        if index < Self::FIXED_COUNT {
            self.fixed[index] = value;
        } else {
            let spill_index: usize = index - Self::FIXED_COUNT;
            if spill_index >= self.spill.len() {
                self.spill.resize(spill_index + 1, RegisterType::ValueRegister);
            }
            self.spill.set(spill_index, value);
        }
    }

    /// Grows the table so that every index below `len` is backed by storage.
    /// No tag changes.
    pub fn ensure_len(&mut self, len: usize)
        ensures
            forall|j: int| #[trigger] final(self).tag(j) == old(self).tag(j),
            final(self).backed() == if len <= old(self).backed() {
                old(self).backed()
            } else {
                len as nat
            },
    {
        if len <= Self::FIXED_COUNT {
            return ;
        }
        let spill_needed: usize = len - Self::FIXED_COUNT;
        if spill_needed > self.spill.len() {
            self.spill.resize(spill_needed, RegisterType::ValueRegister);
        }
    }
}

impl Default for RegisterTypes {
    fn default() -> (r: Self)
        ensures
            forall|i: int| #[trigger] r.tag(i) == RegisterType::ValueRegister,
            r.backed() == 256,
    {
        RegisterTypes::new()
    }
}

} // verus!
