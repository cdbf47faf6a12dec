//! The least index at which a predicate holds.

use vstd::prelude::*;

verus! {

/// `k` is the least index below `n` at which `pred` holds.
pub open spec fn is_least(pred: spec_fn(int) -> bool, n: int, k: int) -> bool {
    &&& 0 <= k < n
    &&& pred(k)
    &&& forall|j: int| 0 <= j < k ==> !#[trigger] pred(j)
}

/// The least index below `n` at which `pred` holds, if there is one.
pub open spec fn least(pred: spec_fn(int) -> bool, n: int) -> Option<int> {
    if exists|k: int| is_least(pred, n, k) {
        Some(choose|k: int| is_least(pred, n, k))
    } else {
        None
    }
}

/// The least index is unique.
pub proof fn lemma_least_found(pred: spec_fn(int) -> bool, n: int, k: int)
    requires
        is_least(pred, n, k),
    ensures
        least(pred, n) == Some(k),
{
    let c = choose|c: int| is_least(pred, n, c);
    assert(is_least(pred, n, c));
    if c < k {
        assert(!pred(c));
    }
    if k < c {
        assert(!pred(k));
    }
}

/// There is no least index where the predicate holds nowhere.
pub proof fn lemma_least_absent(pred: spec_fn(int) -> bool, n: int)
    requires
        forall|j: int| 0 <= j < n ==> !#[trigger] pred(j),
    ensures
        least(pred, n) is None,
{
}

/// What `least` returns, read backwards.
pub proof fn lemma_least_result(pred: spec_fn(int) -> bool, n: int)
    ensures
        match least(pred, n) {
            Some(k) => is_least(pred, n, k),
            None => forall|j: int| 0 <= j < n ==> !#[trigger] pred(j),
        },
{
    if least(pred, n) is None {
        assert forall|j: int| 0 <= j < n implies !#[trigger] pred(j) by {
            if pred(j) {
                lemma_least_exists(pred, n, j);
            }
        }
    }
}

/// Where the predicate holds at some index below `n`, a least one exists.
pub proof fn lemma_least_exists(pred: spec_fn(int) -> bool, n: int, j: int)
    requires
        0 <= j < n,
        pred(j),
    ensures
        exists|k: int| is_least(pred, n, k),
    decreases j,
{
    if exists|i: int| 0 <= i < j && #[trigger] pred(i) {
        let i = choose|i: int| 0 <= i < j && #[trigger] pred(i);
        lemma_least_exists(pred, n, i);
    } else {
        assert(is_least(pred, n, j));
    }
}

} // verus!
