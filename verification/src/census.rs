use crate::entity::Entity;
use vstd::prelude::*;

verus! {

/// The number of fish in `cells`.
pub open spec fn fish_count(cells: Seq<Entity>) -> nat {
    cells.filter(|e: Entity| e is Fish).len()
}

/// The number of sharks in `cells`.
pub open spec fn shark_count(cells: Seq<Entity>) -> nat {
    cells.filter(|e: Entity| e is Shark).len()
}

/// The number of unoccupied cells in `cells`.
pub open spec fn empty_count(cells: Seq<Entity>) -> nat {
    cells.filter(|e: Entity| e is Empty).len()
}

/// The cells that an area of `max_w` by `max_h` shows: the first
/// `max_w * max_h` cells in linear order, or all of them if there are fewer.
/// This is a prefix of the grid, not a rectangle cut out of it.
pub open spec fn area(cells: Seq<Entity>, max_w: nat, max_h: nat) -> Seq<Entity> {
    if max_w * max_h < cells.len() {
        cells.take((max_w * max_h) as int)
    } else {
        cells
    }
}

/// Filtering a sequence that ends in `last` filters what came before and
/// then keeps or drops `last`.
pub proof fn lemma_filter_push<A>(s: Seq<A>, last: A, keep: spec_fn(A) -> bool)
    ensures
        s.push(last).filter(keep) == if keep(last) {
            s.filter(keep).push(last)
        } else {
            s.filter(keep)
        },
{
    reveal(Seq::filter);
    assert(s.push(last).drop_last() =~= s);
}

/// One more cell adds one to the count of its kind and nothing to the others.
pub proof fn lemma_count_push(cells: Seq<Entity>, last: Entity)
    ensures
        fish_count(cells.push(last)) == fish_count(cells) + if last is Fish { 1nat } else { 0 },
        shark_count(cells.push(last)) == shark_count(cells) + if last is Shark { 1nat } else { 0 },
        empty_count(cells.push(last)) == empty_count(cells) + if last is Empty { 1nat } else { 0 },
{
    lemma_filter_push(cells, last, |e: Entity| e is Fish);
    lemma_filter_push(cells, last, |e: Entity| e is Shark);
    lemma_filter_push(cells, last, |e: Entity| e is Empty);
}

/// Every cell is counted exactly once: the fish, the sharks and the empty
/// cells together are all the cells there are.
pub proof fn lemma_census_total(cells: Seq<Entity>)
    ensures
        fish_count(cells) + shark_count(cells) + empty_count(cells) == cells.len(),
    decreases cells.len(),
{
    if cells.len() == 0 {
        reveal(Seq::filter);
    } else {
        lemma_census_total(cells.drop_last());
        lemma_count_push(cells.drop_last(), cells.last());
        assert(cells.drop_last().push(cells.last()) =~= cells);
    }
}

/// Counts the fish and the sharks among the first `limit` cells.
pub fn count_kinds(cells: &Vec<Entity>, limit: usize) -> (counts: (usize, usize))
    requires
        limit <= cells.len(),
    ensures
        counts.0 == fish_count(cells@.take(limit as int)),
        counts.1 == shark_count(cells@.take(limit as int)),
        counts.0 + counts.1 <= limit,
{
    let mut fish: usize = 0;
    let mut sharks: usize = 0;
    let mut i: usize = 0;
    proof {
        reveal(Seq::filter);
        assert(cells@.take(0).len() == 0);
    }
    while i < limit
        invariant
            i <= limit <= cells.len(),
            fish == fish_count(cells@.take(i as int)),
            sharks == shark_count(cells@.take(i as int)),
            fish + sharks <= i,
        decreases limit - i,
    {
        proof {
            assert(cells@.take(i as int + 1) =~= cells@.take(i as int).push(cells@[i as int]));
            lemma_count_push(cells@.take(i as int), cells@[i as int]);
        }
        if cells[i].is_fish() {
            fish += 1;
        } else if cells[i].is_shark() {
            sharks += 1;
        }
        i += 1;
    }
    (fish, sharks)
}

} // verus!
