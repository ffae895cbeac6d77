//! Sorting the flower patches by the nectar of their scouts.

use crate::bees::{Colony, FlowerPatch};
use vstd::prelude::*;

verus! {

/// `after` holds the patches of `before` in a new order: `order[k]` is the
/// place in `before` of the patch that stands at `k` in `after`, and
/// `place[i]` is the place in `after` of the patch that stood at `i` in
/// `before`. The patches stand in the order of their scouts' ranks, best
/// first, and patches of one rank stand in the order that they had in
/// `before`.
pub open spec fn arranged<const NS: usize, H: Colony<NS>>(
    before: Seq<FlowerPatch<NS, H>>,
    after: Seq<FlowerPatch<NS, H>>,
    order: Seq<int>,
    place: Seq<int>,
) -> bool {
    &&& after.len() == before.len()
    &&& order.len() == before.len()
    &&& place.len() == before.len()
    &&& forall|k: int|
        0 <= k < order.len() ==> 0 <= #[trigger] order[k] < before.len() && place[order[k]] == k
            && after[k] == before[order[k]]
    &&& forall|i: int|
        0 <= i < place.len() ==> 0 <= #[trigger] place[i] < before.len() && order[place[i]] == i
    &&& forall|a: int, b: int|
        0 <= a < b < after.len() ==> (#[trigger] after[a]).scout.rank() <= (
        #[trigger] after[b]).scout.rank()
    &&& forall|a: int, b: int|
        0 <= a < b < order.len() && after[a].scout.rank() == after[b].scout.rank()
            ==> #[trigger] order[a] < #[trigger] order[b]
}

/// `after` is `before`, sorted by the ranks of the scouts, best first, with
/// patches of one rank left in the order that they had.
pub open spec fn sorts_to<const NS: usize, H: Colony<NS>>(
    before: Seq<FlowerPatch<NS, H>>,
    after: Seq<FlowerPatch<NS, H>>,
) -> bool {
    exists|order: Seq<int>, place: Seq<int>| arranged(before, after, order, place)
}

/// Sorting keeps every patch and puts the best first: what holds of each
/// patch before holds of each patch after, and no patch has a better rank
/// than the first.
pub proof fn lemma_sorted<const NS: usize, H: Colony<NS>>(
    before: Seq<FlowerPatch<NS, H>>,
    after: Seq<FlowerPatch<NS, H>>,
)
    requires
        sorts_to(before, after),
    ensures
        after.len() == before.len(),
        forall|k: int| 0 <= k < after.len() ==> before.contains(#[trigger] after[k]),
        forall|i: int|
            0 <= i < before.len() ==> after[0].scout.rank() <= (#[trigger] before[i]).scout.rank(),
{
    let (order, place) = choose|order: Seq<int>, place: Seq<int>|
        arranged(before, after, order, place);
    assert forall|k: int| 0 <= k < after.len() implies before.contains(#[trigger] after[k]) by {
        assert(before[order[k]] == after[k]);
    }
    assert forall|i: int| 0 <= i < before.len() implies after[0].scout.rank() <= (
    #[trigger] before[i]).scout.rank() by {
        let k = place[i];
        assert(after[k] == before[order[k]]);
        if 0 < k {
            assert(after[0].scout.rank() <= after[k].scout.rank());
        }
    }
}

/// Two arrangements of the same patches agree on the patch that stands at
/// each of the first `upto` places.
proof fn lemma_arranged_alike<const NS: usize, H: Colony<NS>>(
    before: Seq<FlowerPatch<NS, H>>,
    first: Seq<FlowerPatch<NS, H>>,
    first_order: Seq<int>,
    first_place: Seq<int>,
    second: Seq<FlowerPatch<NS, H>>,
    second_order: Seq<int>,
    second_place: Seq<int>,
    upto: int,
)
    requires
        arranged(before, first, first_order, first_place),
        arranged(before, second, second_order, second_place),
        0 <= upto <= before.len(),
    ensures
        forall|k: int| 0 <= k < upto ==> first_order[k] == second_order[k],
    decreases upto,
{
    if upto > 0 {
        lemma_arranged_alike(
            before,
            first,
            first_order,
            first_place,
            second,
            second_order,
            second_place,
            upto - 1,
        );
        let k = upto - 1;
        let i = first_order[k];
        let j = second_order[k];
        if i != j {
            // Where the other arrangement puts the patch that this one puts at `k`.
            let m = second_place[i];
            let n = first_place[j];
            assert(second_order[m] == i && first_order[n] == j);
            assert(m > k) by {
                if m < k {
                    assert(first_order[m] == second_order[m]);
                    assert(first_place[first_order[m]] == m);
                    assert(first_place[first_order[k]] == k);
                }
            }
            assert(n > k) by {
                if n < k {
                    assert(first_order[n] == second_order[n]);
                    assert(second_place[second_order[n]] == n);
                    assert(second_place[second_order[k]] == k);
                }
            }
            assert(second[k] == before[j] && second[m] == before[i]);
            assert(first[k] == before[i] && first[n] == before[j]);
            assert(second[k].scout.rank() <= second[m].scout.rank());
            assert(first[k].scout.rank() <= first[n].scout.rank());
            assert(false);
        }
    }
}

/// Sorting is determined by what is sorted: the same patches sort to the
/// same sequence.
pub proof fn law_sorting_is_determined<const NS: usize, H: Colony<NS>>(
    before: Seq<FlowerPatch<NS, H>>,
    first: Seq<FlowerPatch<NS, H>>,
    second: Seq<FlowerPatch<NS, H>>,
)
    requires
        sorts_to(before, first),
        sorts_to(before, second),
    ensures
        first == second,
{
    let (first_order, first_place) = choose|order: Seq<int>, place: Seq<int>|
        arranged(before, first, order, place);
    let (second_order, second_place) = choose|order: Seq<int>, place: Seq<int>|
        arranged(before, second, order, place);
    lemma_arranged_alike(
        before,
        first,
        first_order,
        first_place,
        second,
        second_order,
        second_place,
        before.len() as int,
    );
    assert forall|k: int| 0 <= k < first.len() implies first[k] == second[k] by {
        assert(first[k] == before[first_order[k]]);
        assert(second[k] == before[second_order[k]]);
    }
    assert(first =~= second);
}

/// Sorting patches that a colony keeps leaves patches that a colony keeps.
pub proof fn lemma_sorted_keeps<const NS: usize, H: Colony<NS>>(
    before: Seq<FlowerPatch<NS, H>>,
    after: Seq<FlowerPatch<NS, H>>,
)
    requires
        sorts_to(before, after),
        forall|i: int| 0 <= i < before.len() ==> (#[trigger] before[i]).wf(),
    ensures
        forall|k: int| 0 <= k < after.len() ==> (#[trigger] after[k]).wf(),
{
    lemma_sorted(before, after);
    assert forall|k: int| 0 <= k < after.len() implies (#[trigger] after[k]).wf() by {
        let found = choose|i: int| 0 <= i < before.len() && before[i] == after[k];
        assert(before[found].wf());
    }
}

/// Sorts the patches by the nectar of their scouts, best first. Patches
/// with nectar of one rank keep their order.
pub fn sort_by_fitness<const NS: usize, H: Colony<NS>>(
    flower_patches: &mut Vec<FlowerPatch<NS, H>>,
)
    ensures
        sorts_to(old(flower_patches)@, final(flower_patches)@),
{
    let n = flower_patches.len();
    let ghost mut order: Seq<int> = Seq::new(n as nat, |k: int| k);
    let ghost mut place: Seq<int> = Seq::new(n as nat, |k: int| k);
    let mut i: usize = 0;
    while i < n
        invariant
            i <= n,
            flower_patches.len() == n,
            old(flower_patches).len() == n,
            order.len() == n,
            place.len() == n,
            forall|k: int|
                0 <= k < n ==> 0 <= #[trigger] order[k] < n && place[order[k]] == k
                    && flower_patches[k] == old(flower_patches)[order[k]],
            forall|k: int| 0 <= k < n ==> 0 <= #[trigger] place[k] < n && order[place[k]] == k,
            forall|k: int| i <= k < n ==> #[trigger] order[k] == k,
            forall|k: int| 0 <= k < i ==> #[trigger] order[k] < i,
            forall|a: int, b: int|
                0 <= a < b < i ==> (#[trigger] flower_patches[a]).scout.rank() <= (
                #[trigger] flower_patches[b]).scout.rank(),
            forall|a: int, b: int|
                0 <= a < b < i && flower_patches[a].scout.rank() == flower_patches[b].scout.rank()
                    ==> #[trigger] order[a] < #[trigger] order[b],
        decreases n - i,
    {
        let mut j: usize = i;
        while j > 0 && H::better(
            &flower_patches[j].scout.fitness,
            &flower_patches[j - 1].scout.fitness,
        )
            invariant
                j <= i < n,
                flower_patches.len() == n,
                old(flower_patches).len() == n,
                order.len() == n,
                place.len() == n,
                forall|k: int|
                    0 <= k < n ==> 0 <= #[trigger] order[k] < n && place[order[k]] == k
                        && flower_patches[k] == old(flower_patches)[order[k]],
                forall|k: int|
                    0 <= k < n ==> 0 <= #[trigger] place[k] < n && order[place[k]] == k,
                forall|k: int| i < k < n ==> #[trigger] order[k] == k,
                forall|k: int| 0 <= k <= i ==> #[trigger] order[k] <= i,
                order[j as int] == i,
                forall|a: int, b: int|
                    0 <= a < b <= i && a != j && b != j ==> (
                    #[trigger] flower_patches[a]).scout.rank() <= (
                    #[trigger] flower_patches[b]).scout.rank(),
                forall|a: int, b: int|
                    0 <= a < b <= i && a != j && b != j && flower_patches[a].scout.rank()
                        == flower_patches[b].scout.rank() ==> #[trigger] order[a]
                        < #[trigger] order[b],
                forall|b: int|
                    j < b <= i ==> flower_patches[j as int].scout.rank() < (
                    #[trigger] flower_patches[b]).scout.rank(),
            decreases j,
        {
            let moved = flower_patches[j];
            flower_patches[j] = flower_patches[j - 1];
            flower_patches[j - 1] = moved;
            proof {
                let left = order[j - 1];
                let right = order[j as int];
                order = order.update(j as int, left).update(j - 1, right);
                place = place.update(left, j as int).update(right, j - 1);
            }
            j -= 1;
        }
        i += 1;
    }
    proof {
        assert(arranged(old(flower_patches)@, flower_patches@, order, place));
    }
}

} // verus!
