use vstd::prelude::*;

use rand::seq::SliceRandom;

verus! {

/// Relies on rand's `SliceRandom::choose_multiple`: it draws
/// `min(count, candidates.len())` elements of the slice, chosen at distinct
/// positions ("without repetition"), so on a duplicate-free slice the chosen
/// values are pairwise distinct. Which elements come back is random.
#[verifier::external_body]
pub(crate) fn sample_distinct(candidates: &Vec<usize>, count: usize) -> (r: Vec<usize>)
    requires
        forall|k1: int, k2: int|
            0 <= k1 < k2 < candidates@.len() ==> candidates@[k1] != candidates@[k2],
    ensures
        r@.len() == (if count <= candidates@.len() {
            count as int
        } else {
            candidates@.len() as int
        }),
        forall|k: int| 0 <= k < r@.len() ==> candidates@.contains(#[trigger] r@[k]),
        forall|k1: int, k2: int| 0 <= k1 < k2 < r@.len() ==> r@[k1] != r@[k2],
{
    let rng = &mut rand::thread_rng();
    candidates.choose_multiple(rng, count).cloned().collect()
}

} // verus!
