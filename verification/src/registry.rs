//! The backend registry: a process-wide set of descriptors, exactly one per
//! identifier, looked up by string id. The factories that open or clone a
//! repository run outside the library; a descriptor here carries the
//! identifier, display name and capabilities that the consumer lists.

use vstd::prelude::*;
use crate::backend_id::BackendId;
use crate::models::Capabilities;

verus! {

/// Metadata of one registered backend.
pub struct BackendDescriptor {
    pub id: BackendId,
    pub name: String,
    pub caps: Capabilities,
}

/// Identifiers are pairwise distinct.
pub open spec fn registry_wf(entries: Seq<BackendDescriptor>) -> bool {
    forall|i: int, j: int|
        0 <= i < j < entries.len() ==> (#[trigger] entries[i]).id.chars() != (
        #[trigger] entries[j]).id.chars()
}

/// The registered backends.
pub struct Registry {
    pub entries: Vec<BackendDescriptor>,
}

impl Registry {
    pub open spec fn wf(&self) -> bool {
        registry_wf(self.entries@)
    }

    pub fn new() -> (r: Registry)
        ensures
            r.wf(),
            r.entries@.len() == 0,
    {
        Registry { entries: Vec::new() }
    }

    /// Index of the descriptor with the given id, if one is registered.
    pub fn find(&self, id: &str) -> (r: Option<usize>)
        ensures
            match r {
                Some(i) => i < self.entries@.len() && self.entries@[i as int].id.chars() == id@,
                None => forall|j: int|
                    0 <= j < self.entries@.len() ==> (#[trigger] self.entries@[j]).id.chars()
                        != id@,
            },
    {
        let mut i: usize = 0;
        while i < self.entries.len()
            invariant
                i <= self.entries@.len(),
                forall|j: int|
                    0 <= j < i ==> (#[trigger] self.entries@[j]).id.chars() != id@,
            decreases self.entries@.len() - i,
        {
            if self.entries[i].id.is_named(id) {
                return Some(i);
            }
            i += 1;
        }
        None
    }

    /// Register a descriptor. Exactly one descriptor may hold an id: a
    /// second registration under the same id is refused.
    pub fn register(&mut self, d: BackendDescriptor) -> (r: bool)
        requires
            old(self).wf(),
        ensures
            final(self).wf(),
            r ==> final(self).entries@ == old(self).entries@.push(d) && (forall|j: int|
                0 <= j < old(self).entries@.len() ==> (#[trigger] old(
                    self,
                ).entries@[j]).id.chars() != d.id.chars()),
            !r ==> final(self).entries@ == old(self).entries@ && (exists|j: int|
                0 <= j < old(self).entries@.len() && (#[trigger] old(
                    self,
                ).entries@[j]).id.chars() == d.id.chars()),
    {
        match self.find(d.id.as_str()) {
            Some(_) => false,
            None => {
                self.entries.push(d);
                proof {
                    assert forall|i: int, j: int|
                        0 <= i < j < self.entries@.len() implies (
                    #[trigger] self.entries@[i]).id.chars() != (
                    #[trigger] self.entries@[j]).id.chars() by {
                        if j < self.entries@.len() - 1 {
                        } else {
                            assert(self.entries@[i] == old(self).entries@[i]);
                        }
                    }
                }
                true
            },
        }
    }

    /// How many backends are registered.
    pub fn count(&self) -> (r: usize)
        ensures
            r == self.entries@.len(),
    {
        self.entries.len()
    }

    /// The descriptor at an index, for enumeration; the order carries no
    /// meaning.
    pub fn at(&self, i: usize) -> (r: &BackendDescriptor)
        requires
            i < self.entries@.len(),
        ensures
            r == &self.entries@[i as int],
    {
        &self.entries[i]
    }

    /// The descriptor registered under an id, if any.
    pub fn get_backend(&self, id: &str) -> (r: Option<&BackendDescriptor>)
        ensures
            match r {
                Some(d) => exists|i: int|
                    0 <= i < self.entries@.len() && self.entries@[i] == *d && d.id.chars() == id@,
                None => forall|j: int|
                    0 <= j < self.entries@.len() ==> (#[trigger] self.entries@[j]).id.chars()
                        != id@,
            },
    {
        match self.find(id) {
            Some(i) => {
                let d = &self.entries[i];
                proof {
                    assert(self.entries@[i as int] == *d);
                }
                Some(d)
            },
            None => None,
        }
    }
}

} // verus!
