//! The configuration: the processes of an installation, found by their ids.

use crate::keyed::{
    all_distinct, discard, distinct, find, find_all, find_all_mut, find_mut, first_at, keys, positions, select, take_out,
    targets, without,
};
pub use crate::json::ParseError;
pub use crate::process::{Process, ProcessError, ProcessView};
pub use crate::transfer::{Destination, EndpointView, Operation, Source, Transfer, TransferView};
use vstd::prelude::*;

verus! {

/// The root of the model: the processes, in the order in which they were
/// read or pushed.
#[derive(Debug, Clone)]
pub struct Configuration {
    pub process: Vec<Process>,
}

/// Why a configuration could not be changed or stored.
#[derive(Debug, Clone, PartialEq, Eq)]
pub enum ConfigurationError {
    /// The process could not be pushed.
    PushError(Process),
    /// The configuration could not be written.
    WriteError,
}

/// The mathematical value of a [`Configuration`].
pub struct ConfigurationView {
    pub process: Seq<ProcessView>,
}

impl ConfigurationView {
    /// No two processes of a configuration share an id, and each process is
    /// valid.
    pub open spec fn valid(self) -> bool {
        &&& forall|i: int, j: int|
            0 <= i < j < self.process.len() ==> self.process[i].id != self.process[j].id
        &&& forall|i: int| 0 <= i < self.process.len() ==> self.process[i].valid()
    }
}

/// The value of each process, process by process.
pub open spec fn process_views(processes: Seq<Process>) -> Seq<ProcessView> {
    Seq::new(processes.len(), |i: int| processes[i]@)
}

impl View for Configuration {
    type V = ConfigurationView;

    open spec fn view(&self) -> ConfigurationView {
        ConfigurationView { process: process_views(self.process@) }
    }
}

impl PartialEq for Configuration {
    /// Whether the two hold the same values, field for field.
    fn eq(&self, other: &Configuration) -> (r: bool) {
        if self.process.len() != other.process.len() {
            assert(self@.process.len() == self.process@.len());
            assert(other@.process.len() == other.process@.len());
            return false;
        }
        let mut i: usize = 0;
        while i < self.process.len()
            invariant
                i <= self.process.len(),
                self.process.len() == other.process.len(),
                forall|k: int| 0 <= k < i ==> self.process@[k]@ == other.process@[k]@,
            decreases self.process.len() - i,
        {
            if self.process[i] != other.process[i] {
                assert(self@.process[i as int] != other@.process[i as int]);
                return false;
            }
            i += 1;
        }
        assert(self@.process =~= other@.process);
        true
    }
}

impl Eq for Configuration {

}

/// `==` compares by value.
impl vstd::std_specs::cmp::PartialEqSpecImpl for Configuration {
    open spec fn obeys_eq_spec() -> bool {
        true
    }

    open spec fn eq_spec(&self, other: &Configuration) -> bool {
        self@ == other@
    }
}

impl Configuration {
    /// The ids of the processes, in the order of the processes.
    pub open spec fn process_ids(&self) -> Seq<u32> {
        keys(self.process@)
    }

    /// Whether no two processes share an id and each process is valid.
    pub fn is_valid(&self) -> (r: bool)
        ensures
            r == self@.valid(),
    {
        proof {
            assert forall|i: int| 0 <= i < self.process@.len() implies #[trigger] keys(
                self.process@,
            )[i] == self@.process[i].id by {}
        }
        if !all_distinct(&self.process) {
            return false;
        }
        let mut i: usize = 0;
        while i < self.process.len()
            invariant
                i <= self.process.len(),
                distinct(keys(self.process@)),
                forall|k: int|
                    0 <= k < self.process@.len() ==> #[trigger] keys(self.process@)[k]
                        == self@.process[k].id,
                forall|k: int| 0 <= k < i ==> self@.process[k].valid(),
            decreases self.process.len() - i,
        {
            if !self.process[i].is_valid() {
                assert(!self@.process[i as int].valid());
                return false;
            }
            i += 1;
        }
        proof {
            assert forall|a: int, b: int| 0 <= a < b < self@.process.len() implies self@.process[a].id
                != self@.process[b].id by {
                assert(keys(self.process@)[a] != keys(self.process@)[b]);
            }
        }
        true
    }

    /// The ids of the processes, in the order of the processes.
    pub fn get_process_id_list(&self) -> (ids: Vec<u32>)
        ensures
            ids@ == self.process_ids(),
    {
        let mut ids: Vec<u32> = Vec::new();
        let mut i: usize = 0;
        while i < self.process.len()
            invariant
                i <= self.process.len(),
                ids@ == self.process_ids().take(i as int),
            decreases self.process.len() - i,
        {
            ids.push(self.process[i].id);
            assert(ids@ =~= self.process_ids().take(i + 1));
            i += 1;
        }
        assert(self.process_ids().take(i as int) =~= self.process_ids());
        ids
    }

    /// Appends a process. Nothing is checked: the result is always `Ok`.
    pub fn push(&mut self, p: Process) -> (r: Result<(), ConfigurationError>)
        ensures
            r is Ok,
            final(self).process@ == old(self).process@.push(p),
    {
        self.process.push(p);
        Ok(())
    }

    /// The first process with this id, or `None` where no process has it.
    pub fn get_process(&self, id: u32) -> (r: Option<&Process>)
        ensures
            match r {
                Some(p) => exists|i: int|
                    first_at(self.process_ids(), id, i) && *p == self.process@[i],
                None => !self.process_ids().contains(id),
            },
    {
        find(&self.process, id)
    }

    /// The first process with this id, for the caller to change in place, or
    /// `None` where no process has it. What the caller leaves in the
    /// reference is the process at that position afterwards; nothing else
    /// changes.
    pub fn get_process_as_mut(&mut self, id: u32) -> (r: Option<&mut Process>)
        ensures
            match r {
                Some(p) => exists|i: int|
                    first_at(old(self).process_ids(), id, i) && *p == old(self).process@[i]
                        && final(self).process@ == old(self).process@.update(i, *final(p)),
                None => !old(self).process_ids().contains(id) && final(self).process@ == old(self).process@,
            },
    {
        find_mut(&mut self.process, id)
    }

    /// The processes whose id is in the list, each once, in the order of the
    /// configuration (not of the list). Ids that no process has are passed
    /// over. The result is always `Some`.
    pub fn get_process_by_list(&self, id_list: Vec<u32>) -> (r: Option<Vec<&Process>>)
        ensures
            r matches Some(found) && targets(found@) == select(
                self.process@,
                positions(self.process_ids(), id_list@, true),
            ),
    {
        Some(find_all(&self.process, &id_list))
    }

    /// The processes whose id is in the list, each once, in the order of the
    /// configuration, for the caller to change in place. The references are
    /// disjoint; what the caller leaves in each is the process at its
    /// position afterwards, and every other process stays as it is. The
    /// result is always `Some`.
    pub fn get_process_by_list_as_mut(&mut self, id_list: Vec<u32>) -> (r: Option<
        Vec<&mut Process>,
    >)
        ensures
            final(self).process@.len() == old(self).process@.len(),
            r matches Some(found) && {
                let at = positions(old(self).process_ids(), id_list@, true);
                &&& found@.len() == at.len()
                &&& forall|k: int|
                    0 <= k < at.len() ==> *found@[k] == old(self).process@[#[trigger] at[k]]
                &&& forall|k: int|
                    0 <= k < at.len() ==> *final(found@[k]) == final(self).process@[#[trigger] at[k]]
            },
            forall|i: int|
                0 <= i < old(self).process@.len() && !id_list@.contains(
                    #[trigger] old(self).process_ids()[i],
                ) ==> final(self).process@[i] == old(self).process@[i],
    {
        Some(find_all_mut(&mut self.process, &id_list))
    }

    /// Takes the first process with this id out of the configuration and
    /// returns it, or returns `None` and changes nothing where no process has
    /// the id. The last process moves into the place of the removed one: the
    /// order of the others is not kept.
    pub fn remove_process(&mut self, id: u32) -> (r: Option<Process>)
        ensures
            match r {
                Some(p) => exists|i: int|
                    first_at(old(self).process_ids(), id, i) && p == old(self).process@[i]
                        && final(self).process@ == old(self).process@.update(
                        i,
                        old(self).process@.last(),
                    ).drop_last(),
                None => !old(self).process_ids().contains(id) && final(self).process@ == old(self).process@,
            },
    {
        take_out(&mut self.process, id)
    }

    /// Removes every process whose id is in the list. The processes that
    /// stay keep their order. The result is always `Some`.
    pub fn remove_process_by_list(&mut self, id_list: Vec<u32>) -> (r: Option<()>)
        ensures
            r is Some,
            final(self).process@ == without(old(self).process@, id_list@),
    {
        discard(&mut self.process, &id_list);
        Some(())
    }
}

} // verus!
