//! The frame binder: which stack slot each variable of a function has.

use vstd::hash_map::StringHashMap;
use vstd::prelude::*;

verus! {

/// The size of a stack slot, in bytes.
pub const SLOT_SIZE: usize = 8;

/// The offset of the first slot of a function's frame, just past the saved registers.
pub const FIRST_SLOT: usize = 8;

/// A map from the names of the declared variables to the offsets of their slots. A name is
/// entered when its declaration is emitted and stays for the rest of the function.
pub struct VarMap {
    slots: StringHashMap<usize>,
}

impl View for VarMap {
    type V = Map<Seq<char>, usize>;

    closed spec fn view(&self) -> Map<Seq<char>, usize> {
        self.slots@
    }
}

impl VarMap {
    /// A frame without variables.
    pub fn new() -> (vmap: VarMap)
        ensures
            vmap@ == Map::<Seq<char>, usize>::empty(),
    {
        VarMap { slots: StringHashMap::new() }
    }

    /// Whether the name has a slot.
    pub fn contains_key(&self, name: &str) -> (b: bool)
        ensures
            b == self@.contains_key(name@),
    {
        self.slots.contains_key(name)
    }

    /// The offset of the name's slot, if it has one.
    pub fn get(&self, name: &str) -> (slot: Option<usize>)
        ensures
            slot == if self@.contains_key(name@) {
                Some(self@[name@])
            } else {
                None
            },
    {
        match self.slots.get(name) {
            Some(offset) => Some(*offset),
            None => None,
        }
    }

    /// Gives the name the slot at `offset`, in place of any slot that it had.
    pub fn insert(&mut self, name: String, offset: usize)
        ensures
            final(self)@ == old(self)@.insert(name@, offset),
    {
        self.slots.insert(name, offset);
    }

    /// The number of names that have a slot.
    pub fn len(&self) -> (n: usize)
        ensures
            n == self@.len(),
    {
        self.slots.len()
    }
}

} // verus!
