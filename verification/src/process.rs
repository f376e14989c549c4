//! A process: a group of transfers, found by their ids.

use crate::keyed::{
    all_distinct, discard, distinct, find, find_all, find_all_mut, find_mut, first_at, keys, positions, select, take_out,
    targets, without, Keyed,
};
use crate::transfer::{Transfer, TransferView};
use vstd::prelude::*;

verus! {

/// A group of transfers. `parallel` advises whoever runs the transfers that
/// they may run at the same time; nothing here acts on it.
#[derive(Debug, Clone)]
pub struct Process {
    pub id: u32,
    pub parallel: bool,
    pub transfer: Vec<Transfer>,
}

/// Why a process could not be changed.
#[derive(Debug, Clone, PartialEq, Eq)]
pub enum ProcessError {
    /// The transfer could not be pushed.
    PushError(Transfer),
}

/// The mathematical value of a [`Process`].
pub struct ProcessView {
    pub id: u32,
    pub parallel: bool,
    pub transfer: Seq<TransferView>,
}

impl ProcessView {
    /// No two transfers of a process share an id, and each transfer is valid.
    pub open spec fn valid(self) -> bool {
        &&& forall|i: int, j: int|
            0 <= i < j < self.transfer.len() ==> self.transfer[i].id != self.transfer[j].id
        &&& forall|i: int| 0 <= i < self.transfer.len() ==> self.transfer[i].valid()
    }
}

/// The value of each transfer, transfer by transfer.
pub open spec fn transfer_views(transfers: Seq<Transfer>) -> Seq<TransferView> {
    Seq::new(transfers.len(), |i: int| transfers[i]@)
}

impl View for Process {
    type V = ProcessView;

    open spec fn view(&self) -> ProcessView {
        ProcessView {
            id: self.id,
            parallel: self.parallel,
            transfer: transfer_views(self.transfer@),
        }
    }
}

impl PartialEq for Process {
    /// Whether the two hold the same values, field for field.
    fn eq(&self, other: &Process) -> (r: bool) {
        if self.id != other.id || self.parallel != other.parallel || self.transfer.len()
            != other.transfer.len() {
            assert(self@.transfer.len() == self.transfer@.len());
            assert(other@.transfer.len() == other.transfer@.len());
            return false;
        }
        let mut i: usize = 0;
        while i < self.transfer.len()
            invariant
                i <= self.transfer.len(),
                self.transfer.len() == other.transfer.len(),
                forall|k: int| 0 <= k < i ==> self.transfer@[k]@ == other.transfer@[k]@,
            decreases self.transfer.len() - i,
        {
            if self.transfer[i] != other.transfer[i] {
                assert(self@.transfer[i as int] != other@.transfer[i as int]);
                return false;
            }
            i += 1;
        }
        assert(self@.transfer =~= other@.transfer);
        true
    }
}

impl Eq for Process {

}

/// `==` compares by value.
impl vstd::std_specs::cmp::PartialEqSpecImpl for Process {
    open spec fn obeys_eq_spec() -> bool {
        true
    }

    open spec fn eq_spec(&self, other: &Process) -> bool {
        self@ == other@
    }
}

impl Keyed for Process {
    open spec fn key(&self) -> u32 {
        self.id
    }

    fn id(&self) -> u32 {
        self.id
    }
}

impl Process {
    /// The ids of the transfers, in the order of the transfers.
    pub open spec fn transfer_ids(&self) -> Seq<u32> {
        keys(self.transfer@)
    }

    /// Whether no two transfers share an id and each transfer is valid.
    pub fn is_valid(&self) -> (r: bool)
        ensures
            r == self@.valid(),
    {
        proof {
            assert forall|i: int| 0 <= i < self.transfer@.len() implies #[trigger] keys(
                self.transfer@,
            )[i] == self@.transfer[i].id by {}
        }
        if !all_distinct(&self.transfer) {
            return false;
        }
        let mut i: usize = 0;
        while i < self.transfer.len()
            invariant
                i <= self.transfer.len(),
                distinct(keys(self.transfer@)),
                forall|k: int|
                    0 <= k < self.transfer@.len() ==> #[trigger] keys(self.transfer@)[k]
                        == self@.transfer[k].id,
                forall|k: int| 0 <= k < i ==> self@.transfer[k].valid(),
            decreases self.transfer.len() - i,
        {
            if !self.transfer[i].is_valid() {
                assert(!self@.transfer[i as int].valid());
                return false;
            }
            i += 1;
        }
        proof {
            assert forall|a: int, b: int| 0 <= a < b < self@.transfer.len() implies self@.transfer[a].id
                != self@.transfer[b].id by {
                assert(keys(self.transfer@)[a] != keys(self.transfer@)[b]);
            }
        }
        true
    }

    /// Appends a transfer. Nothing is checked: the result is always `Ok`.
    pub fn push_transfer(&mut self, p: Transfer) -> (r: Result<(), ProcessError>)
        ensures
            r is Ok,
            final(self).transfer@ == old(self).transfer@.push(p),
            final(self).id == old(self).id,
            final(self).parallel == old(self).parallel,
    {
        self.transfer.push(p);
        Ok(())
    }

    /// The first transfer with this id, or `None` where no transfer has it.
    pub fn get_transfer(&self, id: u32) -> (r: Option<&Transfer>)
        ensures
            match r {
                Some(t) => exists|i: int|
                    first_at(self.transfer_ids(), id, i) && *t == self.transfer@[i],
                None => !self.transfer_ids().contains(id),
            },
    {
        find(&self.transfer, id)
    }

    /// The first transfer with this id, for the caller to change in place,
    /// or `None` where no transfer has it. What the caller leaves in the
    /// reference is the transfer at that position afterwards; nothing else
    /// changes.
    pub fn get_transfer_as_mut(&mut self, id: u32) -> (r: Option<&mut Transfer>)
        ensures
            final(self).id == old(self).id,
            final(self).parallel == old(self).parallel,
            match r {
                Some(t) => exists|i: int|
                    first_at(old(self).transfer_ids(), id, i) && *t == old(self).transfer@[i]
                        && final(self).transfer@ == old(self).transfer@.update(i, *final(t)),
                None => !old(self).transfer_ids().contains(id) && final(self).transfer@ == old(self).transfer@,
            },
    {
        find_mut(&mut self.transfer, id)
    }

    /// The transfers whose id is in the list, each once, in the order of the
    /// process (not of the list). Ids that no transfer has are passed over.
    /// The result is always `Some`.
    pub fn get_transfer_by_list(&self, id_list: Vec<u32>) -> (r: Option<Vec<&Transfer>>)
        ensures
            r matches Some(found) && targets(found@) == select(
                self.transfer@,
                positions(self.transfer_ids(), id_list@, true),
            ),
    {
        Some(find_all(&self.transfer, &id_list))
    }

    /// The transfers whose id is in the list, each once, in the order of the
    /// process, for the caller to change in place. The references are
    /// disjoint; what the caller leaves in each is the transfer at its
    /// position afterwards, and every other transfer stays as it is. The
    /// result is always `Some`.
    pub fn get_transfer_by_list_as_mut(&mut self, id_list: Vec<u32>) -> (r: Option<
        Vec<&mut Transfer>,
    >)
        ensures
            final(self).id == old(self).id,
            final(self).parallel == old(self).parallel,
            final(self).transfer@.len() == old(self).transfer@.len(),
            r matches Some(found) && {
                let at = positions(old(self).transfer_ids(), id_list@, true);
                &&& found@.len() == at.len()
                &&& forall|k: int|
                    0 <= k < at.len() ==> *found@[k] == old(self).transfer@[#[trigger] at[k]]
                &&& forall|k: int|
                    0 <= k < at.len() ==> *final(found@[k]) == final(self).transfer@[#[trigger] at[k]]
            },
            forall|i: int|
                0 <= i < old(self).transfer@.len() && !id_list@.contains(
                    #[trigger] old(self).transfer_ids()[i],
                ) ==> final(self).transfer@[i] == old(self).transfer@[i],
    {
        Some(find_all_mut(&mut self.transfer, &id_list))
    }

    /// Takes the first transfer with this id out of the process and returns
    /// it, or returns `None` and changes nothing where no transfer has the id.
    /// The last transfer moves into the place of the removed one: the order
    /// of the others is not kept.
    pub fn remove_transfer(&mut self, id: u32) -> (r: Option<Transfer>)
        ensures
            final(self).id == old(self).id,
            final(self).parallel == old(self).parallel,
            match r {
                Some(t) => exists|i: int|
                    first_at(old(self).transfer_ids(), id, i) && t == old(self).transfer@[i]
                        && final(self).transfer@ == old(self).transfer@.update(
                        i,
                        old(self).transfer@.last(),
                    ).drop_last(),
                None => !old(self).transfer_ids().contains(id) && final(self).transfer@ == old(self).transfer@,
            },
    {
        take_out(&mut self.transfer, id)
    }

    /// Removes every transfer whose id is in the list. The transfers that
    /// stay keep their order. The result is always `Some`.
    pub fn remove_transfer_by_list(&mut self, id_list: Vec<u32>) -> (r: Option<()>)
        ensures
            r is Some,
            final(self).id == old(self).id,
            final(self).parallel == old(self).parallel,
            final(self).transfer@ == without(old(self).transfer@, id_list@),
    {
        discard(&mut self.transfer, &id_list);
        Some(())
    }
}

} // verus!
