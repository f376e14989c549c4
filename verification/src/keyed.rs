//! Vectors of items that are found by a numeric id: lookup of one item or of
//! many, removal of one item or of many.

use vstd::prelude::*;

verus! {

/// An item that is found by its id.
pub trait Keyed {
    /// The id of the item.
    spec fn key(&self) -> u32;

    /// The id of the item, read from it.
    fn id(&self) -> (id: u32)
        ensures
            id == self.key(),
    ;
}

/// The ids of the items, position by position.
pub open spec fn keys<T: Keyed>(items: Seq<T>) -> Seq<u32> {
    Seq::new(items.len(), |i: int| items[i].key())
}

/// Whether `i` is the first position in `ids` that holds `id`.
pub open spec fn first_at(ids: Seq<u32>, id: u32, i: int) -> bool {
    &&& 0 <= i < ids.len()
    &&& ids[i] == id
    &&& forall|j: int| 0 <= j < i ==> ids[j] != id
}

/// The positions of `ids`, in ascending order, whose id is in `wanted`
/// (`member`) or is not in it (`!member`).
pub open spec fn positions(ids: Seq<u32>, wanted: Seq<u32>, member: bool) -> Seq<int>
    decreases ids.len(),
{
    if ids.len() == 0 {
        Seq::empty()
    } else {
        let front = positions(ids.drop_last(), wanted, member);
        if wanted.contains(ids.last()) == member {
            front.push(ids.len() - 1)
        } else {
            front
        }
    }
}

/// The items at the given positions, in the order of the positions.
pub open spec fn select<T>(items: Seq<T>, at: Seq<int>) -> Seq<T> {
    Seq::new(at.len(), |k: int| items[at[k]])
}

/// The items that the references point to.
pub open spec fn targets<T>(refs: Seq<&T>) -> Seq<T> {
    Seq::new(refs.len(), |k: int| *refs[k])
}

/// The items whose id is not in `unwanted`, in their order.
pub open spec fn without<T: Keyed>(items: Seq<T>, unwanted: Seq<u32>) -> Seq<T> {
    select(items, positions(keys(items), unwanted, false))
}

/// One more id at the end adds its position, or nothing.
pub proof fn lemma_positions_step(ids: Seq<u32>, wanted: Seq<u32>, member: bool, n: int)
    requires
        0 <= n < ids.len(),
    ensures
        positions(ids.take(n + 1), wanted, member) == if wanted.contains(ids[n]) == member {
            positions(ids.take(n), wanted, member).push(n)
        } else {
            positions(ids.take(n), wanted, member)
        },
{
    assert(ids.take(n + 1).drop_last() =~= ids.take(n));
}

/// Every position that `positions` lists lies in the sequence and holds an
/// id of the asked kind; the positions ascend; no position of the asked kind
/// is left out.
pub proof fn lemma_positions(ids: Seq<u32>, wanted: Seq<u32>, member: bool)
    ensures
        positions(ids, wanted, member).len() <= ids.len(),
        forall|k: int|
            0 <= k < positions(ids, wanted, member).len() ==> {
                let i = #[trigger] positions(ids, wanted, member)[k];
                0 <= i < ids.len() && wanted.contains(ids[i]) == member
            },
        forall|a: int, b: int|
            0 <= a < b < positions(ids, wanted, member).len() ==> positions(ids, wanted, member)[a]
                < positions(ids, wanted, member)[b],
        forall|i: int|
            0 <= i < ids.len() && wanted.contains(ids[i]) == member ==> positions(
                ids,
                wanted,
                member,
            ).contains(i),
    decreases ids.len(),
{
    if ids.len() > 0 {
        let front = positions(ids.drop_last(), wanted, member);
        lemma_positions(ids.drop_last(), wanted, member);
        let all = positions(ids, wanted, member);
        assert forall|i: int|
            0 <= i < ids.len() && wanted.contains(ids[i]) == member implies all.contains(i) by {
            if i < ids.len() - 1 {
                assert(ids.drop_last()[i] == ids[i]);
                assert(front.contains(i));
                let k = choose|k: int| 0 <= k < front.len() && front[k] == i;
                assert(all[k] == i);
            } else {
                assert(all[all.len() - 1] == i);
            }
        }
        assert forall|k: int| 0 <= k < all.len() implies {
            let i = #[trigger] all[k];
            0 <= i < ids.len() && wanted.contains(ids[i]) == member
        } by {
            if k < front.len() {
                assert(all[k] == front[k]);
                assert(ids.drop_last()[front[k]] == ids[front[k]]);
            }
        }
    }
}

/// An id that occurs exactly once is found at its position and nowhere
/// else; an id that does not occur is found nowhere.
pub proof fn law_unique_lookup(ids: Seq<u32>, id: u32)
    ensures
        forall|i: int|
            0 <= i < ids.len() && ids[i] == id && (forall|j: int|
                0 <= j < ids.len() && ids[j] == id ==> j == i) ==> #[trigger] first_at(ids, id, i)
                && (forall|k: int| first_at(ids, id, k) ==> k == i),
        !ids.contains(id) ==> forall|k: int| !first_at(ids, id, k),
{
}

/// A lookup by list finds exactly the items whose id is in the list, each
/// once, in the order in which the vector holds them.
pub proof fn law_bulk_lookup<T: Keyed>(items: Seq<T>, wanted: Seq<u32>)
    ensures
        ({
            let at = positions(keys(items), wanted, true);
            let found = select(items, at);
            &&& found.len() == at.len() <= items.len()
            &&& forall|k: int|
                0 <= k < found.len() ==> 0 <= at[k] < items.len() && #[trigger] found[k]
                    == items[at[k]] && wanted.contains(found[k].key())
            &&& forall|a: int, b: int| 0 <= a < b < at.len() ==> at[a] < at[b]
            &&& forall|i: int|
                0 <= i < items.len() && wanted.contains(#[trigger] items[i].key())
                    ==> at.contains(i)
        }),
{
    lemma_positions(keys(items), wanted, true);
}

/// Removal of one item puts the last item into its place and leaves every
/// other item where it was.
pub proof fn law_single_removal<T>(items: Seq<T>, i: int)
    requires
        0 <= i < items.len(),
    ensures
        ({
            let after = items.update(i, items.last()).drop_last();
            &&& after.len() == items.len() - 1
            &&& i < items.len() - 1 ==> after[i] == items.last()
            &&& forall|j: int| 0 <= j < after.len() && j != i ==> after[j] == items[j]
        }),
{
}

/// Removal by list leaves exactly the items whose id is not in the list, in
/// the order in which they stood.
pub proof fn law_bulk_removal<T: Keyed>(items: Seq<T>, unwanted: Seq<u32>)
    ensures
        ({
            let at = positions(keys(items), unwanted, false);
            let kept = without(items, unwanted);
            &&& kept.len() == at.len() <= items.len()
            &&& forall|k: int|
                0 <= k < kept.len() ==> 0 <= at[k] < items.len() && #[trigger] kept[k]
                    == items[at[k]] && !unwanted.contains(kept[k].key())
            &&& forall|a: int, b: int| 0 <= a < b < at.len() ==> at[a] < at[b]
            &&& forall|i: int|
                0 <= i < items.len() && !unwanted.contains(#[trigger] items[i].key())
                    ==> at.contains(i)
        }),
{
    lemma_positions(keys(items), unwanted, false);
}

/// Where no id is in the list, every position is kept.
proof fn lemma_positions_all(ids: Seq<u32>, unwanted: Seq<u32>)
    requires
        forall|i: int| 0 <= i < ids.len() ==> !unwanted.contains(ids[i]),
    ensures
        positions(ids, unwanted, false) == Seq::new(ids.len(), |i: int| i),
    decreases ids.len(),
{
    if ids.len() > 0 {
        lemma_positions_all(ids.drop_last(), unwanted);
        assert(positions(ids, unwanted, false) =~= Seq::new(ids.len(), |i: int| i));
    } else {
        assert(positions(ids, unwanted, false) =~= Seq::new(ids.len(), |i: int| i));
    }
}

/// Removal by list, done twice with the same list, leaves what it leaves
/// when done once.
pub proof fn law_bulk_removal_idempotent<T: Keyed>(items: Seq<T>, unwanted: Seq<u32>)
    ensures
        without(without(items, unwanted), unwanted) == without(items, unwanted),
{
    let kept = without(items, unwanted);
    law_bulk_removal(items, unwanted);
    lemma_positions_all(keys(kept), unwanted);
    assert(without(kept, unwanted) =~= kept);
}

/// Whether no id occurs twice.
pub open spec fn distinct(ids: Seq<u32>) -> bool {
    forall|i: int, j: int| 0 <= i < j < ids.len() ==> ids[i] != ids[j]
}

/// Whether no two items share an id.
pub fn all_distinct<T: Keyed>(items: &Vec<T>) -> (r: bool)
    ensures
        r == distinct(keys(items@)),
{
    let mut i: usize = 0;
    while i < items.len()
        invariant
            i <= items.len(),
            forall|a: int, b: int| 0 <= a < b < items.len() && a < i ==> keys(items@)[a] != keys(
                items@,
            )[b],
        decreases items.len() - i,
    {
        let id = items[i].id();
        let mut j: usize = i + 1;
        while j < items.len()
            invariant
                i < j <= items.len(),
                id == keys(items@)[i as int],
                forall|b: int| i < b < j ==> keys(items@)[b] != id,
            decreases items.len() - j,
        {
            if items[j].id() == id {
                assert(keys(items@)[i as int] == keys(items@)[j as int]);
                return false;
            }
            j += 1;
        }
        i += 1;
    }
    true
}

/// Whether `id` is in the list.
pub fn listed(list: &Vec<u32>, id: u32) -> (r: bool)
    ensures
        r == list@.contains(id),
{
    let mut i: usize = 0;
    while i < list.len()
        invariant
            i <= list.len(),
            forall|j: int| 0 <= j < i ==> list@[j] != id,
        decreases list.len() - i,
    {
        if list[i] == id {
            return true;
        }
        i += 1;
    }
    false
}

/// The first position that holds `id`, if there is one.
pub fn position<T: Keyed>(items: &Vec<T>, id: u32) -> (r: Option<usize>)
    ensures
        match r {
            Some(i) => first_at(keys(items@), id, i as int),
            None => !keys(items@).contains(id),
        },
{
    let mut i: usize = 0;
    while i < items.len()
        invariant
            i <= items.len(),
            forall|j: int| 0 <= j < i ==> keys(items@)[j] != id,
        decreases items.len() - i,
    {
        if items[i].id() == id {
            return Some(i);
        }
        i += 1;
    }
    None
}

/// The first item with this id, if there is one.
pub fn find<T: Keyed>(items: &Vec<T>, id: u32) -> (r: Option<&T>)
    ensures
        match r {
            Some(item) => exists|i: int| first_at(keys(items@), id, i) && *item == items@[i],
            None => !keys(items@).contains(id),
        },
{
    match position(items, id) {
        Some(i) => Some(&items[i]),
        None => None,
    }
}

/// The first item with this id, if there is one, for the caller to change in
/// place. Every other item stays as it is.
pub fn find_mut<T: Keyed>(items: &mut Vec<T>, id: u32) -> (r: Option<&mut T>)
    ensures
        match r {
            Some(item) => exists|i: int|
                first_at(keys(old(items)@), id, i) && *item == old(items)@[i] && final(items)@
                    == old(items)@.update(i, *final(item)),
            None => !keys(old(items)@).contains(id) && final(items)@ == old(items)@,
        },
{
    match position(items, id) {
        Some(i) => Some(&mut items[i]),
        None => None,
    }
}

/// Takes the first item with this id out of the vector, if there is one. The
/// last item moves into its place: the order of the others is not kept.
pub fn take_out<T: Keyed>(items: &mut Vec<T>, id: u32) -> (r: Option<T>)
    ensures
        match r {
            Some(item) => exists|i: int|
                first_at(keys(old(items)@), id, i) && item == old(items)@[i] && final(items)@
                    == old(items)@.update(i, old(items)@.last()).drop_last(),
            None => !keys(old(items)@).contains(id) && final(items)@ == old(items)@,
        },
{
    match position(items, id) {
        Some(i) => Some(items.swap_remove(i)),
        None => None,
    }
}

/// The items whose id is in `wanted`, each once, in the order in which the
/// vector holds them. Ids that no item has are passed over.
pub fn find_all<'a, T: Keyed>(items: &'a Vec<T>, wanted: &Vec<u32>) -> (r: Vec<&'a T>)
    ensures
        targets(r@) == select(
            items@,
            positions(keys(items@), wanted@, true),
        ),
{
    let mut found: Vec<&T> = Vec::new();
    let mut i: usize = 0;
    while i < items.len()
        invariant
            i <= items.len(),
            targets(found@) == select(
                items@,
                positions(keys(items@).take(i as int), wanted@, true),
            ),
        decreases items.len() - i,
    {
        let ghost before = found@;
        if listed(wanted, items[i].id()) {
            found.push(&items[i]);
        }
        proof {
            let at = positions(keys(items@).take(i as int), wanted@, true);
            lemma_positions_step(keys(items@), wanted@, true, i as int);
            assert(keys(items@)[i as int] == items@[i as int].key());
            assert(targets(before).len() == before.len());
            assert(select(items@, at).len() == at.len());
            assert forall|k: int| 0 <= k < before.len() implies *found@[k] == items@[at[k]] by {
                assert(targets(before)[k] == select(items@, at)[k]);
            }
            assert(targets(found@) =~= select(
                items@,
                positions(keys(items@).take(i + 1), wanted@, true),
            ));
        }
        i += 1;
    }
    proof {
        assert(keys(items@).take(i as int) =~= keys(items@));
    }
    found
}

/// The items whose id is in `wanted`, each once, in the order in which the
/// vector holds them, for the caller to change in place. The references are
/// disjoint: what the caller leaves in each is what the vector holds at that
/// position afterwards, and every other item stays as it is.
pub fn find_all_mut<'a, T: Keyed>(items: &'a mut Vec<T>, wanted: &Vec<u32>) -> (r: Vec<&'a mut T>)
    ensures
        r@.len() == positions(keys(old(items)@), wanted@, true).len(),
        forall|k: int|
            0 <= k < r@.len() ==> *r@[k] == old(items)@[#[trigger] positions(
                keys(old(items)@),
                wanted@,
                true,
            )[k]],
        final(items)@.len() == old(items)@.len(),
        forall|k: int|
            0 <= k < r@.len() ==> *final(r@[k]) == final(items)@[#[trigger] positions(
                keys(old(items)@),
                wanted@,
                true,
            )[k]],
        forall|i: int|
            0 <= i < old(items)@.len() && !wanted@.contains(#[trigger] keys(old(items)@)[i])
                ==> final(items)@[i] == old(items)@[i],
{
    let ghost start = items@;
    let ghost ids = keys(start);
    let mut found: Vec<&mut T> = Vec::new();
    let mut rest: &mut [T] = items.as_mut_slice();
    let ghost whole = final(rest)@;
    let ghost mut n: int = 0;
    proof {
        assert(start.subrange(0, start.len() as int) =~= start);
        assert(whole.subrange(0, whole.len() as int) =~= whole);
    }
    while rest.len() > 0
        invariant
            0 <= n <= start.len(),
            ids == keys(start),
            rest@ == start.subrange(n, start.len() as int),
            whole.len() == n + final(rest)@.len(),
            final(rest)@ == whole.subrange(n, whole.len() as int),
            found@.len() == positions(ids.take(n), wanted@, true).len(),
            forall|k: int|
                0 <= k < found@.len() ==> 0 <= #[trigger] positions(ids.take(n), wanted@, true)[k]
                    < n,
            forall|k: int|
                0 <= k < found@.len() ==> *found@[k] == start[#[trigger] positions(
                    ids.take(n),
                    wanted@,
                    true,
                )[k]],
            forall|k: int|
                0 <= k < found@.len() ==> *final(found@[k]) == whole[#[trigger] positions(
                    ids.take(n),
                    wanted@,
                    true,
                )[k]],
            forall|i: int|
                0 <= i < n && !wanted@.contains(#[trigger] ids[i]) ==> whole[i] == start[i],
        decreases rest.len(),
    {
        let ghost at = positions(ids.take(n), wanted@, true);
        let ghost rest_final = final(rest)@;
        let ghost before = found@;
        let (head, tail) = rest.split_at_mut(1);
        let ghost head_final = final(head)@;
        let ghost tail_final = final(tail)@;
        let item = &mut head[0];
        let ghost item_final = *final(item);
        proof {
            lemma_positions_step(ids, wanted@, true, n);
            assert(ids[n] == start[n].key());
            assert(*item == start[n]);
            assert(head_final.len() == 1);
            assert(rest_final == head_final + tail_final);
            assert(whole[n] == rest_final[0]);
            assert(tail_final =~= rest_final.subrange(1, rest_final.len() as int));
            assert(tail_final =~= whole.subrange(n + 1, whole.len() as int));
            assert(tail@ =~= start.subrange(n + 1, start.len() as int));
        }
        if listed(wanted, item.id()) {
            found.push(item);
            proof {
                assert forall|k: int| 0 <= k < found@.len() implies *final(found@[k])
                    == whole[#[trigger] at.push(n)[k]] by {
                    if k < before.len() {
                        assert(found@[k] == before[k]);
                        assert(at.push(n)[k] == at[k]);
                    }
                }
            }
        }
        rest = tail;
        proof {
            n = n + 1;
        }
    }
    proof {
        assert(ids.take(n) =~= ids);
    }
    found
}

/// Removes every item whose id is in `unwanted`. The items that stay keep
/// their order.
pub fn discard<T: Keyed>(items: &mut Vec<T>, unwanted: &Vec<u32>)
    ensures
        final(items)@ == without(old(items)@, unwanted@),
{
    let mut all: Vec<T> = Vec::new();
    core::mem::swap(items, &mut all);
    let ghost start = all@;
    for item in it: all
        invariant
            it.seq() == start,
            items@ == select(
                start,
                positions(keys(start).take(it.index() as int), unwanted@, false),
            ),
    {
        proof {
            lemma_positions_step(keys(start), unwanted@, false, it.index() as int);
        }
        if !listed(unwanted, item.id()) {
            items.push(item);
        }
        assert(items@ =~= select(
            start,
            positions(keys(start).take(it.index() + 1), unwanted@, false),
        ));
    }
    proof {
        assert(keys(start).take(start.len() as int) =~= keys(start));
    }
}

} // verus!
