//! Draws by chance.
use rand::seq::SliceRandom;
use vstd::prelude::*;

verus! {

/// Calls `SliceRandom::choose_multiple` of the crate `rand` with the generator of the
/// thread, which chooses items at random without taking one twice: as many as asked for, or
/// all. Which ones and in which order is up to chance.
#[verifier::external_body]
fn choose_multiple(positions: &Vec<usize>, amount: usize) -> (r: Vec<usize>)
    ensures
        r@.len() == if amount <= positions@.len() {
            amount as nat
        } else {
            positions@.len()
        },
        r@.to_multiset().subset_of(positions@.to_multiset()),
{
    positions.choose_multiple(&mut rand::thread_rng(), amount).cloned().collect()
}

/// A choice of different places below a bound.
pub open spec fn is_choice(chosen: Seq<usize>, n: nat, amount: nat) -> bool {
    &&& chosen.len() == amount
    &&& chosen.no_duplicates()
    &&& forall|i: int| 0 <= i < chosen.len() ==> #[trigger] chosen[i] < n
}

/// Chooses different places below a bound at random.
pub fn choose_places(n: usize, amount: usize) -> (r: Vec<usize>)
    requires
        amount <= n,
    ensures
        is_choice(r@, n as nat, amount as nat),
{
    let mut positions: Vec<usize> = Vec::new();
    let mut i: usize = 0;
    while i < n
        invariant
            i <= n,
            positions.len() == i,
            forall|j: int| 0 <= j < i ==> #[trigger] positions@[j] == j,
        decreases n - i,
    {
        positions.push(i);
        i += 1;
    }
    let r = choose_multiple(&positions, amount);
    proof {
        positions@.lemma_multiset_has_no_duplicates();
        positions@.to_multiset_ensures();
        r@.to_multiset_ensures();
        assert forall|x: usize| #[trigger] r@.to_multiset().contains(x) implies r@.to_multiset().count(
            x,
        ) == 1 by {
            assert(positions@.to_multiset().contains(x));
        }
        r@.lemma_multiset_has_no_duplicates_conv();
        assert forall|j: int| 0 <= j < r@.len() implies #[trigger] r@[j] < n by {
            assert(r@.contains(r@[j]));
            assert(r@.to_multiset().count(r@[j]) > 0);
            assert(positions@.to_multiset().count(r@[j]) > 0);
            assert(positions@.contains(r@[j]));
        }
    }
    r
}

} // verus!
