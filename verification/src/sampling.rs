//! Drawing without replacement from a pool of node identities.
use crate::network::NodeId;
use rand::seq::IndexedRandom;
use vstd::prelude::*;

verus! {

/// `picks[i]` sits in `pool` at position `at[i]`, and no position is used twice.
pub open spec fn picked_at(pool: Seq<NodeId>, picks: Seq<NodeId>, at: Seq<int>) -> bool {
    &&& at.len() == picks.len()
    &&& at.no_duplicates()
    &&& forall|i: int|
        0 <= i < picks.len() ==> 0 <= #[trigger] at[i] < pool.len() && picks[i] == pool[at[i]]
}

/// `picks` lists entries of `pool` taken from pairwise different positions.
pub open spec fn drawn_from(pool: Seq<NodeId>, picks: Seq<NodeId>) -> bool {
    exists|at: Seq<int>| picked_at(pool, picks, at)
}

/// The number of entries a draw of `amount` from a pool of `available` yields.
pub open spec fn draw_size(amount: nat, available: nat) -> nat {
    if amount <= available {
        amount
    } else {
        available
    }
}

/// Calls `rand::seq::IndexedRandom::choose_multiple` on the pool with the
/// thread-local generator of `rand::rng`. The contract claims what the method
/// documents of every draw: it yields `min(amount, pool.len())` entries of the
/// pool, taken from pairwise different positions. Which entries, and in which
/// order, is left open.
#[verifier::external_body]
pub(crate) fn choose_multiple(pool: &Vec<NodeId>, amount: usize) -> (picks: Vec<NodeId>)
    ensures
        picks@.len() == draw_size(amount as nat, pool@.len()),
        drawn_from(pool@, picks@),
{
    let mut rng = rand::rng();
    pool.choose_multiple(&mut rng, amount).cloned().collect()
}

/// Every pick of a draw is an entry of the pool.
pub proof fn lemma_draw_is_from_pool(pool: Seq<NodeId>, picks: Seq<NodeId>)
    requires
        drawn_from(pool, picks),
    ensures
        forall|i: int| 0 <= i < picks.len() ==> pool.contains(#[trigger] picks[i]),
        picks.to_set().subset_of(pool.to_set()),
{
    let at = choose|at: Seq<int>| picked_at(pool, picks, at);
    assert forall|i: int| 0 <= i < picks.len() implies pool.contains(#[trigger] picks[i]) by {
        assert(picks[i] == pool[at[i]]);
    }
}

/// A draw from a pool without repetitions has no repetitions either, and
/// every pick is an entry of the pool.
pub proof fn lemma_draw_is_distinct(pool: Seq<NodeId>, picks: Seq<NodeId>)
    requires
        drawn_from(pool, picks),
        pool.no_duplicates(),
    ensures
        picks.no_duplicates(),
        forall|i: int| 0 <= i < picks.len() ==> pool.contains(#[trigger] picks[i]),
{
    let at = choose|at: Seq<int>| picked_at(pool, picks, at);
    assert forall|i: int, j: int| 0 <= i < picks.len() && 0 <= j < picks.len() && i != j implies picks[i]
        != picks[j] by {
        assert(at[i] != at[j]);
        assert(picks[i] == pool[at[i]]);
        assert(picks[j] == pool[at[j]]);
    }
    assert forall|i: int| 0 <= i < picks.len() implies pool.contains(#[trigger] picks[i]) by {
        assert(picks[i] == pool[at[i]]);
    }
}

} // verus!
