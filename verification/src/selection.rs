//! Which places of a list are chosen, in order.
use vstd::prelude::*;

verus! {

/// The places of `at` are those below `n` that `keep` holds of: all of them, each once,
/// in order.
pub open spec fn is_selection(at: Seq<int>, n: int, keep: spec_fn(int) -> bool) -> bool {
    &&& forall|k: int| 0 <= k < at.len() ==> 0 <= #[trigger] at[k] < n && keep(at[k])
    &&& forall|j: int, k: int| 0 <= j < k < at.len() ==> #[trigger] at[j] < #[trigger] at[k]
    &&& forall|i: int| 0 <= i < n && #[trigger] keep(i) ==> at.contains(i)
}

/// The places below `n` that `keep` holds of.
pub open spec fn chosen(n: int, keep: spec_fn(int) -> bool) -> Seq<int>
    decreases n,
{
    if n <= 0 {
        Seq::empty()
    } else if keep(n - 1) {
        chosen(n - 1, keep).push(n - 1)
    } else {
        chosen(n - 1, keep)
    }
}

/// The places that are chosen are a selection.
pub proof fn lemma_chosen(n: int, keep: spec_fn(int) -> bool)
    ensures
        is_selection(chosen(n, keep), n, keep),
    decreases n,
{
    let at = chosen(n, keep);
    if n > 0 {
        lemma_chosen(n - 1, keep);
        let before = chosen(n - 1, keep);
        assert forall|i: int| 0 <= i < n && #[trigger] keep(i) implies at.contains(i) by {
            if i < n - 1 {
                assert(before.contains(i));
                let k = choose|k: int| 0 <= k < before.len() && before[k] == i;
                assert(at[k] == i);
            } else {
                assert(at[at.len() - 1] == i);
            }
        }
    }
}

} // verus!
