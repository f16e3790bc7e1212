//! The constant pool: append-only tables of named scalar words and named
//! byte slices, the latter stored in an arena that outlives the pool.

use vstd::prelude::*;
use crate::text::str_eq;

verus! {

/// `bumpalo::Bump`, the arena that holds the names and the slices. Nothing
/// is known of what is inside it.
#[verifier::external_type_specification]
#[verifier::external_body]
pub struct ExBump<const MIN_ALIGN: usize>(bumpalo::Bump<MIN_ALIGN>);

/// Interpretation tag of a scalar constant.
#[derive(Debug, Clone, Copy, PartialEq, Eq, Structural)]
pub enum ValueType {
    I64,
    F64,
    Bool,
    FuncHost,
}

/// Description of one scalar constant.
#[derive(Debug)]
pub struct ValueConstMeta<'a> {
    pub name: &'a str,
    pub typ: ValueType,
    pub index: usize,
}

/// Interpretation tag of a slice constant.
#[derive(Debug, Clone, Copy, PartialEq, Eq, Structural)]
pub enum SliceType {
    Utf8Str,
    Binary,
}

/// Description of one slice constant.
#[derive(Debug)]
pub struct SliceConstMeta<'a> {
    pub name: &'a str,
    pub typ: SliceType,
    pub index: usize,
}

/// Why a constant was not added.
#[derive(Debug, Clone, Copy, PartialEq, Eq, Structural)]
pub enum PoolError {
    /// The arena could not get the memory for the name or the bytes.
    OutOfMemory,
}

/// Calls `bumpalo::Bump::try_alloc_str`: where it succeeds, the returned
/// string lives in the arena and holds the same characters as `s`.
#[verifier::external_body]
fn arena_str<'a>(arena: &'a bumpalo::Bump, s: &str) -> (r: Option<&'a str>)
    ensures
        r matches Some(kept) ==> kept@ == s@,
{
    match arena.try_alloc_str(s) {
        Ok(kept) => Some(&*kept),
        Err(_) => None,
    }
}

/// Calls `bumpalo::Bump::try_alloc_slice_copy`: where it succeeds, the
/// returned slice lives in the arena and holds a copy of the bytes of
/// `data`.
#[verifier::external_body]
fn arena_bytes<'a>(arena: &'a bumpalo::Bump, data: &[u8]) -> (r: Option<&'a [u8]>)
    ensures
        r matches Some(kept) ==> kept@ == data@,
{
    match arena.try_alloc_slice_copy(data) {
        Ok(kept) => Some(&*kept),
        Err(_) => None,
    }
}

/// The index that a lookup of `name` resolves to among `names`: the latest
/// entry that carries this name. The empty name is never resolved.
pub open spec fn latest_named(names: Seq<Seq<char>>, name: Seq<char>) -> Option<int>
    decreases names.len(),
{
    if name.len() == 0 || names.len() == 0 {
        None
    } else if names.last() == name {
        Some(names.len() - 1)
    } else {
        latest_named(names.drop_last(), name)
    }
}

/// The constant pool. Both tables are append-only: an index, once handed
/// out, refers to the same entry for the life of the pool.
pub struct ConstPool<'a> {
    pub arena: &'a bumpalo::Bump,
    pub values: Vec<u64>,
    pub value_metadata: Vec<ValueConstMeta<'a>>,
    pub slices: Vec<&'a [u8]>,
    pub slice_metadata: Vec<SliceConstMeta<'a>>,
}

impl<'a> ConstPool<'a> {
    /// Each table has one metadata record per entry, and each record knows
    /// its own index.
    pub open spec fn wf(&self) -> bool {
        &&& self.values@.len() == self.value_metadata@.len()
        &&& self.slices@.len() == self.slice_metadata@.len()
        &&& forall|i: int|
            0 <= i < self.value_metadata@.len() ==> (#[trigger] self.value_metadata@[i]).index == i
        &&& forall|i: int|
            0 <= i < self.slice_metadata@.len() ==> (#[trigger] self.slice_metadata@[i]).index == i
    }

    /// The names of the value table, in index order.
    pub open spec fn value_names(&self) -> Seq<Seq<char>> {
        Seq::new(self.value_metadata@.len(), |i: int| self.value_metadata@[i].name@)
    }

    /// The names of the slice table, in index order.
    pub open spec fn slice_names(&self) -> Seq<Seq<char>> {
        Seq::new(self.slice_metadata@.len(), |i: int| self.slice_metadata@[i].name@)
    }

    /// The bytes of each slice constant, in index order.
    pub open spec fn slice_bytes(&self) -> Seq<Seq<u8>> {
        Seq::new(self.slices@.len(), |i: int| self.slices@[i]@)
    }

    /// `self` holds every entry of `before` at its index, unchanged, and
    /// uses the same arena.
    pub open spec fn extends(&self, before: &Self) -> bool {
        &&& self.arena == before.arena
        &&& before.values@.is_prefix_of(self.values@)
        &&& before.value_metadata@.is_prefix_of(self.value_metadata@)
        &&& before.slices@.is_prefix_of(self.slices@)
        &&& before.slice_metadata@.is_prefix_of(self.slice_metadata@)
    }

    /// An empty pool that stores its names and slices in `arena`.
    pub fn new(arena: &'a bumpalo::Bump) -> (pool: Self)
        ensures
            pool.wf(),
            pool.arena == arena,
            pool.values@.len() == 0,
            pool.slices@.len() == 0,
    {
        ConstPool {
            arena,
            values: Vec::new(),
            value_metadata: Vec::new(),
            slices: Vec::new(),
            slice_metadata: Vec::new(),
        }
    }

    /// Appends a scalar constant under a name that the arena holds, and
    /// returns its index. Every earlier entry keeps its index, word, name
    /// and tag. Without a name, because the arena could not hold it, nothing
    /// is added.
    pub fn insert_value(&mut self, name: Option<&'a str>, value: u64, typ: ValueType) -> (res:
        Result<usize, PoolError>)
        requires
            old(self).wf(),
        ensures
            final(self).wf(),
            final(self).extends(old(self)),
            final(self).slices@ == old(self).slices@,
            final(self).slice_metadata@ == old(self).slice_metadata@,
            match name {
                Some(kept) => {
                    &&& res == Ok::<usize, PoolError>(old(self).values@.len() as usize)
                    &&& final(self).values@ == old(self).values@.push(value)
                    &&& final(self).value_metadata@.len() == old(self).values@.len() + 1
                    &&& final(self).value_metadata@.last().name@ == kept@
                    &&& final(self).value_metadata@.last().typ == typ
                    &&& final(self).value_names() == old(self).value_names().push(kept@)
                },
                None => {
                    &&& res == Err::<usize, PoolError>(PoolError::OutOfMemory)
                    &&& final(self).values@ == old(self).values@
                    &&& final(self).value_metadata@ == old(self).value_metadata@
                },
            },
    {
        match name {
            None => Err(PoolError::OutOfMemory),
            Some(kept) => {
                let index: usize = self.values.len();
                self.values.push(value);
                self.value_metadata.push(ValueConstMeta { name: kept, typ, index });
                assert(self.value_names() =~= old(self).value_names().push(kept@));
                Ok(index)
            },
        }
    }

    /// Copies `name` into the arena, appends a scalar constant under it and
    /// returns its index. Every earlier entry keeps its index, word, name
    /// and tag. Where the arena cannot hold the name, nothing is added.
    pub fn add_value(&mut self, name: &str, value: u64, typ: ValueType) -> (res: Result<
        usize,
        PoolError,
    >)
        requires
            old(self).wf(),
        ensures
            final(self).wf(),
            final(self).extends(old(self)),
            final(self).slices@ == old(self).slices@,
            final(self).slice_metadata@ == old(self).slice_metadata@,
            match res {
                Ok(index) => {
                    &&& index == old(self).values@.len()
                    &&& final(self).values@ == old(self).values@.push(value)
                    &&& final(self).value_metadata@.len() == index + 1
                    &&& final(self).value_metadata@[index as int].name@ == name@
                    &&& final(self).value_metadata@[index as int].typ == typ
                    &&& final(self).value_names() == old(self).value_names().push(name@)
                },
                Err(e) => {
                    &&& e == PoolError::OutOfMemory
                    &&& final(self).values@ == old(self).values@
                    &&& final(self).value_metadata@ == old(self).value_metadata@
                },
            },
    {
        let kept = arena_str(self.arena, name);
        self.insert_value(kept, value, typ)
    }

    /// Appends a slice constant whose name and bytes the arena holds, and
    /// returns its index. Every earlier entry keeps its index, bytes, name
    /// and tag. Without a name or without bytes, because the arena could
    /// not hold them, nothing is added.
    pub fn insert_slice(
        &mut self,
        name: Option<&'a str>,
        data: Option<&'a [u8]>,
        typ: SliceType,
    ) -> (res: Result<usize, PoolError>)
        requires
            old(self).wf(),
        ensures
            final(self).wf(),
            final(self).extends(old(self)),
            final(self).values@ == old(self).values@,
            final(self).value_metadata@ == old(self).value_metadata@,
            match (name, data) {
                (Some(kept), Some(bytes)) => {
                    &&& res == Ok::<usize, PoolError>(old(self).slices@.len() as usize)
                    &&& final(self).slices@ == old(self).slices@.push(bytes)
                    &&& final(self).slice_bytes() == old(self).slice_bytes().push(bytes@)
                    &&& final(self).slice_metadata@.len() == old(self).slices@.len() + 1
                    &&& final(self).slice_metadata@.last().name@ == kept@
                    &&& final(self).slice_metadata@.last().typ == typ
                    &&& final(self).slice_names() == old(self).slice_names().push(kept@)
                },
                _ => {
                    &&& res == Err::<usize, PoolError>(PoolError::OutOfMemory)
                    &&& final(self).slices@ == old(self).slices@
                    &&& final(self).slice_metadata@ == old(self).slice_metadata@
                },
            },
    {
        match (name, data) {
            (Some(kept), Some(bytes)) => {
                let index: usize = self.slices.len();
                self.slices.push(bytes);
                self.slice_metadata.push(SliceConstMeta { name: kept, typ, index });
                assert(self.slice_names() =~= old(self).slice_names().push(kept@));
                assert(self.slice_bytes() =~= old(self).slice_bytes().push(bytes@));
                Ok(index)
            },
            _ => Err(PoolError::OutOfMemory),
        }
    }

    /// Copies `name` and `data` into the arena, appends the copy as a slice
    /// constant and returns its index. Every earlier entry keeps its index,
    /// bytes, name and tag. Where the arena cannot hold the copies, nothing
    /// is added.
    pub fn add_slice(&mut self, name: &str, data: &[u8], typ: SliceType) -> (res: Result<
        usize,
        PoolError,
    >)
        requires
            old(self).wf(),
        ensures
            final(self).wf(),
            final(self).extends(old(self)),
            final(self).values@ == old(self).values@,
            final(self).value_metadata@ == old(self).value_metadata@,
            match res {
                Ok(index) => {
                    &&& index == old(self).slices@.len()
                    &&& final(self).slices@.len() == index + 1
                    &&& final(self).slices@[index as int]@ == data@
                    &&& final(self).slice_bytes() == old(self).slice_bytes().push(data@)
                    &&& final(self).slice_metadata@.len() == index + 1
                    &&& final(self).slice_metadata@[index as int].name@ == name@
                    &&& final(self).slice_metadata@[index as int].typ == typ
                    &&& final(self).slice_names() == old(self).slice_names().push(name@)
                },
                Err(e) => {
                    &&& e == PoolError::OutOfMemory
                    &&& final(self).slices@ == old(self).slices@
                    &&& final(self).slice_metadata@ == old(self).slice_metadata@
                },
            },
    {
        let name_kept = arena_str(self.arena, name);
        let data_kept = arena_bytes(self.arena, data);
        self.insert_slice(name_kept, data_kept, typ)
    }

    /// The word of the latest value constant added under `name`.
    pub fn get_value(&self, name: &str) -> (r: Option<u64>)
        requires
            self.wf(),
        ensures
            r == match latest_named(self.value_names(), name@) {
                Some(i) => Some(self.values@[i]),
                None => None,
            },
    {
        match self.value_index(name) {
            Some(i) => Some(self.values[i]),
            None => None,
        }
    }

    /// The bytes of the latest slice constant added under `name`.
    pub fn get_slice(&self, name: &str) -> (r: Option<&'a [u8]>)
        requires
            self.wf(),
        ensures
            match latest_named(self.slice_names(), name@) {
                Some(i) => r == Some(self.slices@[i]),
                None => r.is_none(),
            },
    {
        match self.slice_index(name) {
            Some(i) => Some(self.slices[i]),
            None => None,
        }
    }

    /// The index of the latest value constant added under `name`.
    pub fn value_index(&self, name: &str) -> (r: Option<usize>)
        requires
            self.wf(),
        ensures
            match latest_named(self.value_names(), name@) {
                Some(i) => r == Some(i as usize) && 0 <= i < self.values@.len(),
                None => r.is_none(),
            },
    {
        proof {
            latest_named_is_latest(self.value_names(), name@);
        }
        if name.is_empty() {
            return None;
        }
        let mut i: usize = self.value_metadata.len();
        assert(self.value_names().take(i as int) =~= self.value_names());
        while i > 0
            invariant
                self.wf(),
                name@.len() > 0,
                i <= self.value_metadata@.len(),
                latest_named(self.value_names(), name@) == latest_named(
                    self.value_names().take(i as int),
                    name@,
                ),
            decreases i,
        {
            proof {
                let names = self.value_names().take(i as int);
                assert(names.drop_last() =~= self.value_names().take(i - 1));
            }
            if str_eq(self.value_metadata[i - 1].name, name) {
                return Some(i - 1);
            }
            i = i - 1;
        }
        None
    }

    /// The index of the latest slice constant added under `name`.
    pub fn slice_index(&self, name: &str) -> (r: Option<usize>)
        requires
            self.wf(),
        ensures
            match latest_named(self.slice_names(), name@) {
                Some(i) => r == Some(i as usize) && 0 <= i < self.slices@.len(),
                None => r.is_none(),
            },
    {
        proof {
            latest_named_is_latest(self.slice_names(), name@);
        }
        if name.is_empty() {
            return None;
        }
        let mut i: usize = self.slice_metadata.len();
        assert(self.slice_names().take(i as int) =~= self.slice_names());
        while i > 0
            invariant
                self.wf(),
                name@.len() > 0,
                i <= self.slice_metadata@.len(),
                latest_named(self.slice_names(), name@) == latest_named(
                    self.slice_names().take(i as int),
                    name@,
                ),
            decreases i,
        {
            proof {
                let names = self.slice_names().take(i as int);
                assert(names.drop_last() =~= self.slice_names().take(i - 1));
            }
            if str_eq(self.slice_metadata[i - 1].name, name) {
                return Some(i - 1);
            }
            i = i - 1;
        }
        None
    }
}

/// Index stability: whatever is added, in however many steps, an index
/// that was handed out refers to the entry that it was handed out for. A
/// pool that extends a pool that extends a third extends the third, and in
/// a pool that extends another every entry of the other stands unchanged
/// at its index.
pub proof fn indices_are_stable<'a>(
    first: &ConstPool<'a>,
    second: &ConstPool<'a>,
    third: &ConstPool<'a>,
)
    requires
        second.extends(first),
        third.extends(second),
    ensures
        third.extends(first),
        forall|k: int|
            0 <= k < first.values@.len() ==> third.values@[k] == first.values@[k],
        forall|k: int|
            0 <= k < first.value_metadata@.len() ==> third.value_metadata@[k]
                == first.value_metadata@[k],
        forall|k: int|
            0 <= k < first.slices@.len() ==> third.slices@[k] == first.slices@[k],
        forall|k: int|
            0 <= k < first.slice_metadata@.len() ==> third.slice_metadata@[k]
                == first.slice_metadata@[k],
{
}

/// A lookup resolves to an entry that carries the name asked for, and no
/// later entry carries it.
pub proof fn latest_named_is_latest(names: Seq<Seq<char>>, name: Seq<char>)
    ensures
        match latest_named(names, name) {
            Some(i) => {
                &&& 0 <= i < names.len()
                &&& names[i] == name
                &&& name.len() > 0
                &&& forall|j: int| i < j < names.len() ==> names[j] != name
            },
            None => name.len() == 0 || forall|j: int| 0 <= j < names.len() ==> names[j] != name,
        },
    decreases names.len(),
{
    if name.len() != 0 && names.len() != 0 && names.last() != name {
        latest_named_is_latest(names.drop_last(), name);
        assert forall|j: int| 0 <= j < names.len() - 1 implies names[j] == names.drop_last()[j] by {}
    }
}

/// Adding an entry never changes what an earlier index refers to: once a
/// name is added, a lookup of it resolves to the new entry, and a lookup of
/// any other name resolves as before.
pub proof fn adding_keeps_other_names(names: Seq<Seq<char>>, added: Seq<char>, name: Seq<char>)
    ensures
        latest_named(names.push(added), name) == if name == added && name.len() > 0 {
            Some(names.len() as int)
        } else {
            latest_named(names, name)
        },
{
    assert(names.push(added).drop_last() =~= names);
}

} // verus!
