//! The names under which tools are registered.
//!
//! Each name owns one slot; the tool itself is kept by the caller in that
//! slot. Registering a known name again keeps its slot, so the later tool
//! replaces the earlier one, as an insertion into a map by name does.
use vstd::prelude::*;

use crate::error::AgentForgeError;
use crate::text::{chars_eq, chars_of, string_of};

verus! {

/// Registered tool names, one slot each, in the order of first registration.
#[derive(Debug)]
pub struct ToolNames {
    names: Vec<String>,
}

/// The position of `name` in `names`, if it occurs.
pub open spec fn slot_of(names: Seq<Seq<char>>, name: Seq<char>) -> Option<int> {
    if names.contains(name) {
        Some(names.index_of(name))
    } else {
        None
    }
}

impl ToolNames {
    /// The names, slot by slot.
    pub closed spec fn view(&self) -> Seq<Seq<char>> {
        self.names@.map_values(|s: String| s@)
    }

    #[verifier::type_invariant]
    closed spec fn distinct(&self) -> bool {
        self@.no_duplicates()
    }

    pub fn new() -> (res: ToolNames)
        ensures
            res@ == Seq::<Seq<char>>::empty(),
    {
        let res = ToolNames { names: Vec::new() };
        assert(res@ =~= Seq::<Seq<char>>::empty());
        res
    }

    /// How many names are registered.
    pub fn len(&self) -> (res: usize)
        ensures
            res == self@.len(),
    {
        self.names.len()
    }

    /// The slot of `name`, if it is registered.
    pub fn slot(&self, name: &str) -> (res: Option<usize>)
        ensures
            match res {
                Some(i) => slot_of(self@, name@) == Some(i as int),
                None => slot_of(self@, name@) is None,
            },
    {
        proof {
            use_type_invariant(self);
        }
        let wanted = chars_of(name);
        let mut i: usize = 0;
        while i < self.names.len()
            invariant
                0 <= i <= self.names.len(),
                self@.len() == self.names.len(),
                self@.no_duplicates(),
                wanted@ == name@,
                forall|j: int| 0 <= j < i ==> self@[j] != name@,
            decreases self.names.len() - i,
        {
            let key = chars_of(self.names[i].as_str());
            assert(self@[i as int] == self.names@[i as int]@);
            if chars_eq(&key, &wanted) {
                proof {
                    assert(self@.contains(name@));
                    let k = self@.index_of(name@);
                    assert(self@[k] == name@);
                    assert(k == i as int);
                }
                return Some(i);
            }
            i = i + 1;
        }
        proof {
            assert(!self@.contains(name@)) by {
                if self@.contains(name@) {
                    let k = choose|k: int| 0 <= k < self@.len() && self@[k] == name@;
                    assert(self@[k] == name@);
                }
            }
        }
        None
    }

    /// Registers `name` and gives its slot: the slot it already has, or a new
    /// last one.
    pub fn register(&mut self, name: &str) -> (slot: usize)
        ensures
            match slot_of(old(self)@, name@) {
                Some(i) => slot == i && final(self)@ == old(self)@,
                None => slot == old(self)@.len() && final(self)@ == old(self)@.push(name@),
            },
    {
        proof {
            use_type_invariant(&*self);
        }
        match self.slot(name) {
            Some(i) => i,
            None => {
                let n = self.names.len();
                let ghost before = self@;
                proof {
                    assert(before.push(name@).no_duplicates()) by {
                        assert forall|a: int, b: int|
                            0 <= a < b < before.push(name@).len() implies before.push(name@)[a]
                            != before.push(name@)[b] by {
                            if b == before.len() {
                                assert(before.push(name@)[a] == before[a]);
                                assert(!before.contains(name@));
                            } else {
                                assert(before.push(name@)[a] == before[a]);
                                assert(before.push(name@)[b] == before[b]);
                            }
                        }
                    }
                }
                let s = string_of(&chars_of(name));
                let mut names: Vec<String> = Vec::new();
                std::mem::swap(&mut names, &mut self.names);
                names.push(s);
                assert(names@.map_values(|s: String| s@) =~= before.push(name@));
                self.names = names;
                n
            },
        }
    }

    /// A copy holding the same names in the same slots.
    pub fn duplicate(&self) -> (res: ToolNames)
        ensures
            res@ == self@,
    {
        proof {
            use_type_invariant(self);
        }
        let mut names: Vec<String> = Vec::new();
        let mut i: usize = 0;
        while i < self.names.len()
            invariant
                0 <= i <= self.names.len(),
                self@.len() == self.names.len(),
                names@.map_values(|s: String| s@) == self@.take(i as int),
            decreases self.names.len() - i,
        {
            let s = string_of(&chars_of(self.names[i].as_str()));
            let ghost before = names@;
            names.push(s);
            assert(self@[i as int] == self.names@[i as int]@);
            assert(names@.map_values(|s: String| s@) =~= before.map_values(|s: String| s@).push(s@));
            assert(self@.take(i + 1) =~= self@.take(i as int).push(self@[i as int]));
            i = i + 1;
        }
        assert(self@.take(self.names.len() as int) =~= self@);
        ToolNames { names }
    }

    /// The name held in slot `i`.
    pub fn name(&self, i: usize) -> (res: &str)
        requires
            i < self@.len(),
        ensures
            res@ == self@[i as int],
    {
        self.names[i].as_str()
    }
}

/// The slot of the tool to run for `name`, or the error that says no tool
/// of that name is registered.
pub fn tool_slot(names: &ToolNames, name: &str) -> (res: Result<usize, AgentForgeError>)
    ensures
        match slot_of(names@, name@) {
            Some(i) => res == Ok::<usize, AgentForgeError>(i as usize),
            None => res matches Err(AgentForgeError::ToolNotFound(n)) && n@ == name@,
        },
{
    match names.slot(name) {
        Some(i) => Ok(i),
        None => Err(AgentForgeError::ToolNotFound(string_of(&chars_of(name)))),
    }
}

/// Registering a name gives it a slot that finds it, and leaves the slot of
/// every other name as it was.
pub proof fn lemma_register_then_slot(names: Seq<Seq<char>>, name: Seq<char>, other: Seq<char>)
    requires
        names.no_duplicates(),
    ensures
        ({
            let after = if names.contains(name) { names } else { names.push(name) };
            &&& slot_of(after, name) == Some(
                if names.contains(name) { names.index_of(name) } else { names.len() as int },
            )
            &&& other != name ==> slot_of(after, other) == slot_of(names, other)
        }),
{
    if !names.contains(name) {
        let after = names.push(name);
        assert(after[names.len() as int] == name);
        assert(after.contains(name));
        let k = after.index_of(name);
        if k < names.len() {
            assert(after[k] == names[k]);
            assert(names.contains(name));
        }
        if other != name {
            if names.contains(other) {
                let j = names.index_of(other);
                assert(after[j] == other);
                assert(after.contains(other));
                let k2 = after.index_of(other);
                if k2 < names.len() {
                    assert(after[k2] == names[k2]);
                }
                assert(names[j] == other);
                assert(names[k2] == other);
            } else {
                assert(!after.contains(other)) by {
                    if after.contains(other) {
                        let k3 = choose|k3: int| 0 <= k3 < after.len() && after[k3] == other;
                        if k3 < names.len() {
                            assert(after[k3] == names[k3]);
                        }
                    }
                }
            }
        }
    }
}

} // verus!
