//! The drivers that may open a dataset.

use crate::transfer::texts;
use vstd::prelude::*;

verus! {

/// The short names of the drivers that are at hand, in the order in which
/// they are registered, and their number.
#[derive(Debug)]
pub struct DriverList {
    count: usize,
    list: Vec<String>,
}

impl DriverList {
    /// The count is the length of the list.
    #[verifier::type_invariant]
    spec fn counted(self) -> bool {
        self.count == self.list@.len()
    }

    /// The names of the drivers, in their order.
    pub closed spec fn names(self) -> Seq<Seq<char>> {
        texts(self.list@)
    }

    /// The list of the drivers with these names.
    pub fn new(list: Vec<String>) -> (drivers: DriverList)
        ensures
            drivers.names() == texts(list@),
    {
        DriverList { count: list.len(), list }
    }

    /// How many drivers there are.
    pub fn count(&self) -> (n: usize)
        ensures
            n == self.names().len(),
    {
        proof {
            use_type_invariant(self);
        }
        self.count
    }

    /// The names of the drivers.
    pub fn list(&self) -> (list: &Vec<String>)
        ensures
            texts(list@) == self.names(),
    {
        &self.list
    }

    /// Whether a driver of this name is in the list.
    pub fn contains(&self, name: &str) -> (r: bool)
        ensures
            r == self.names().contains(name@),
    {
        let mut i: usize = 0;
        while i < self.list.len()
            invariant
                i <= self.list.len(),
                forall|k: int| 0 <= k < i ==> texts(self.list@)[k] != name@,
            decreases self.list.len() - i,
        {
            if self.list[i].as_str().eq(name) {
                assert(texts(self.list@)[i as int] == name@);
                return true;
            }
            i += 1;
        }
        false
    }
}

} // verus!
