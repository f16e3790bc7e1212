//! Named global variables and the registers that hold them.

use vstd::prelude::*;
use crate::const_pool::{SliceType, ValueType};
use crate::text::str_eq;

verus! {

/// What a pointer variable points to.
#[derive(Debug, Clone, Copy, PartialEq, Eq)]
pub enum PtrType {
    Slice(SliceType),
}

/// The type of a global variable.
#[derive(Debug, Clone, Copy, PartialEq, Eq)]
pub enum GlobalVarType {
    Value(ValueType),
    Ptr(PtrType),
}

/// What is known of a global variable besides its register.
#[derive(Debug, Clone, Copy)]
pub struct GlobalVarMeta {
    pub typ: GlobalVarType,
}

/// A global variable: the register that holds it, and its type.
#[derive(Debug, Clone, Copy)]
pub struct GlobalVar {
    pub register_id: usize,
    pub meta: GlobalVarMeta,
}

/// One named variable of the table.
#[derive(Debug)]
pub struct GlobalVarEntry {
    pub name: String,
    pub var: GlobalVar,
}

/// The position of the first entry called `name`, if there is one.
pub open spec fn position_of(entries: Seq<GlobalVarEntry>, name: Seq<char>) -> Option<int>
    decreases entries.len(),
{
    if entries.len() == 0 {
        None
    } else {
        match position_of(entries.drop_last(), name) {
            Some(i) => Some(i),
            None => if entries.last().name@ == name {
                Some(entries.len() - 1)
            } else {
                None
            },
        }
    }
}

/// `position_of` finds an entry of the given name, and finds one whenever
/// there is one.
pub proof fn position_of_finds(entries: Seq<GlobalVarEntry>, name: Seq<char>)
    ensures
        match position_of(entries, name) {
            Some(i) => 0 <= i < entries.len() && entries[i].name@ == name && forall|j: int|
                0 <= j < i ==> entries[j].name@ != name,
            None => forall|j: int| 0 <= j < entries.len() ==> entries[j].name@ != name,
        },
    decreases entries.len(),
{
    if entries.len() > 0 {
        position_of_finds(entries.drop_last(), name);
        assert forall|j: int| 0 <= j < entries.len() - 1 implies entries[j]
            == entries.drop_last()[j] by {}
    }
}

/// The first entry of a given name is the one that `position_of` finds.
pub proof fn position_of_first(entries: Seq<GlobalVarEntry>, name: Seq<char>, i: int)
    requires
        0 <= i < entries.len(),
        entries[i].name@ == name,
        forall|j: int| 0 <= j < i ==> entries[j].name@ != name,
    ensures
        position_of(entries, name) == Some(i),
{
    position_of_finds(entries, name);
}

/// Where no entry has the given name, `position_of` finds none.
pub proof fn position_of_absent(entries: Seq<GlobalVarEntry>, name: Seq<char>)
    requires
        forall|j: int| 0 <= j < entries.len() ==> entries[j].name@ != name,
    ensures
        position_of(entries, name).is_none(),
{
    position_of_finds(entries, name);
}

/// A table from names to global variables. A name has at most one variable:
/// inserting under a name that is present replaces its variable.
#[derive(Debug)]
pub struct GlobalVars {
    pub vars: Vec<GlobalVarEntry>,
}

impl View for GlobalVars {
    type V = Map<Seq<char>, GlobalVar>;

    open spec fn view(&self) -> Map<Seq<char>, GlobalVar> {
        Map::new(
            |name: Seq<char>| position_of(self.vars@, name).is_some(),
            |name: Seq<char>| self.vars@[position_of(self.vars@, name).unwrap()].var,
        )
    }
}

impl GlobalVars {
    /// An empty table.
    pub fn new() -> (r: Self)
        ensures
            r@ == Map::<Seq<char>, GlobalVar>::empty(),
    {
        let r = GlobalVars { vars: Vec::new() };
        assert(r@ =~= Map::<Seq<char>, GlobalVar>::empty());
        r
    }

    fn find(&self, name: &str) -> (r: Option<usize>)
        ensures
            match r {
                Some(i) => i < self.vars@.len() && position_of(self.vars@, name@) == Some(i as int),
                None => position_of(self.vars@, name@).is_none(),
            },
    {
        let mut i: usize = 0;
        while i < self.vars.len()
            invariant
                i <= self.vars@.len(),
                forall|j: int| 0 <= j < i ==> self.vars@[j].name@ != name@,
            decreases self.vars@.len() - i,
        {
            if str_eq(self.vars[i].name.as_str(), name) {
                proof {
                    position_of_first(self.vars@, name@, i as int);
                }
                return Some(i);
            }
            i = i + 1;
        }
        proof {
            position_of_absent(self.vars@, name@);
        }
        None
    }

    /// Binds `name` to the register `register_id` with type `typ`,
    /// replacing what the name was bound to before.
    pub fn insert(&mut self, name: &str, register_id: usize, typ: GlobalVarType)
        ensures
            final(self)@ == old(self)@.insert(
                name@,
                (GlobalVar { register_id, meta: GlobalVarMeta { typ } }),
            ),
    {
        let var = GlobalVar { register_id, meta: GlobalVarMeta { typ } };
        let found = self.find(name);
        match found {
            Some(i) => {
                let owned = name.to_owned();
                self.vars.set(i, GlobalVarEntry { name: owned, var });
            },
            None => {
                let owned = name.to_owned();
                self.vars.push(GlobalVarEntry { name: owned, var });
            },
        }
        proof {
            let a = old(self).vars@;
            let b = self.vars@;
            assert forall|k: Seq<char>|
                position_of(b, k).is_some() == (k == name@ || position_of(a, k).is_some()) && (
                position_of(b, k).is_some() ==> b[position_of(b, k).unwrap()].var == if k
                    == name@ {
                    var
                } else {
                    a[position_of(a, k).unwrap()].var
                }) by {
                position_of_finds(a, k);
                position_of_finds(a, name@);
                match position_of(a, k) {
                    Some(x) => {
                        assert(b[x].name@ == k);
                        assert forall|j: int| 0 <= j < x implies b[j].name@ != k by {
                            assert(a[j].name@ != k);
                        }
                        position_of_first(b, k, x);
                    },
                    None => {
                        if k == name@ {
                            let n = a.len() as int;
                            assert(b[n].name@ == k);
                            assert forall|j: int| 0 <= j < n implies b[j].name@ != k by {
                                assert(a[j].name@ != k);
                            }
                            position_of_first(b, k, n);
                        } else {
                            assert forall|j: int| 0 <= j < b.len() implies b[j].name@ != k by {
                                if j < a.len() {
                                    assert(a[j].name@ != k);
                                }
                            }
                            position_of_absent(b, k);
                        }
                    },
                }
            }
            assert(self@ =~= old(self)@.insert(name@, var));
        }
    }

    /// The variable bound to `name`, if there is one.
    pub fn get(&self, name: &str) -> (r: Option<&GlobalVar>)
        ensures
            r == if self@.contains_key(name@) {
                Some(&self@[name@])
            } else {
                None
            },
    {
        match self.find(name) {
            Some(i) => Some(&self.vars[i].var),
            None => None,
        }
    }

    /// Whether no name is bound.
    pub fn is_empty(&self) -> (r: bool)
        ensures
            r == (self@ == Map::<Seq<char>, GlobalVar>::empty()),
    {
        let r = self.vars.len() == 0;
        proof {
            if r {
                assert(self@ =~= Map::<Seq<char>, GlobalVar>::empty());
            } else {
                position_of_finds(self.vars@, self.vars@[0].name@);
                assert(self@.contains_key(self.vars@[0].name@));
            }
        }
        r
    }
}

impl Default for GlobalVars {
    fn default() -> (r: Self)
        ensures
            r@ == Map::<Seq<char>, GlobalVar>::empty(),
    {
        GlobalVars::new()
    }
}

} // verus!
