//! The table of live processes: which ids are registered, and the handle that
//! each entry owns.

use vstd::prelude::*;
use std::collections::HashMap;
use crate::ids::ProcessId;

verus! {

broadcast use vstd::std_specs::hash::group_hash_axioms;

/// The processes that have been spawned and neither exited nor been killed,
/// each with the handle through which it can be terminated. `H` is the
/// handle: the registry moves it in and out and never looks inside.
///
/// The model is a finite map from the id's number to the handle.
pub struct Registry<H> {
    entries: HashMap<u32, H>,
}

impl<H> View for Registry<H> {
    type V = Map<u32, H>;

    closed spec fn view(&self) -> Map<u32, H> {
        self.entries@
    }
}

impl<H> Registry<H> {
    /// A registry with no process in it.
    pub fn new() -> (r: Self)
        ensures
            r@ == Map::<u32, H>::empty(),
    {
        Registry { entries: HashMap::new() }
    }

    /// The number of registered processes.
    pub fn len(&self) -> (n: usize)
        ensures
            self@.dom().finite(),
            n == self@.len(),
    {
        self.entries.len()
    }

    /// Whether `id` is registered.
    pub fn contains(&self, id: ProcessId) -> (b: bool)
        ensures
            b == self@.contains_key(id@),
    {
        self.entries.contains_key(&id.0)
    }

    /// Registers `handle` under `id`. If the id was still registered, its old
    /// handle leaves the table and is returned.
    pub fn register(&mut self, id: ProcessId, handle: H) -> (displaced: Option<H>)
        ensures
            final(self)@ == old(self)@.insert(id@, handle),
            displaced == (if old(self)@.contains_key(id@) {
                Some(old(self)@[id@])
            } else {
                None
            }),
    {
        self.entries.insert(id.0, handle)
    }

    /// Takes the entry of `id` out of the table, if there is one, and hands
    /// its handle to the caller. An id that is not registered leaves the
    /// table as it was.
    pub fn remove(&mut self, id: ProcessId) -> (handle: Option<H>)
        ensures
            final(self)@ == old(self)@.remove(id@),
            !old(self)@.contains_key(id@) ==> final(self)@ == old(self)@,
            handle == (if old(self)@.contains_key(id@) {
                Some(old(self)@[id@])
            } else {
                None
            }),
    {
        let handle = self.entries.remove(&id.0);
        proof {
            if !old(self)@.contains_key(id@) {
                assert(old(self)@.remove(id@) =~= old(self)@);
            }
        }
        handle
    }
}

} // verus!
