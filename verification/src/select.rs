//! Picking places of a list by a predicate.

use vstd::prelude::*;

verus! {

/// The numbers below `n` that satisfy `pred`, in ascending order.
pub open spec fn picked(n: nat, pred: spec_fn(int) -> bool) -> Seq<usize>
    decreases n,
{
    if n == 0 {
        Seq::empty()
    } else if pred(n - 1) {
        picked((n - 1) as nat, pred).push((n - 1) as usize)
    } else {
        picked((n - 1) as nat, pred)
    }
}

/// What is picked is in range, ascending and satisfies the predicate.
pub proof fn lemma_picked(n: nat, pred: spec_fn(int) -> bool)
    requires
        n <= usize::MAX,
    ensures
        picked(n, pred).len() <= n,
        forall|k: int|
            0 <= k < picked(n, pred).len() ==> (#[trigger] picked(n, pred)[k]) < n && pred(
                picked(n, pred)[k] as int,
            ),
        forall|j: int, k: int|
            0 <= j < k < picked(n, pred).len() ==> (#[trigger] picked(n, pred)[j])
                < (#[trigger] picked(n, pred)[k]),
    decreases n,
{
    if n > 0 {
        lemma_picked((n - 1) as nat, pred);
    }
}

/// Everything below `n` that satisfies the predicate is picked.
pub proof fn lemma_picked_complete(n: nat, pred: spec_fn(int) -> bool, i: int)
    requires
        n <= usize::MAX,
        0 <= i < n,
        pred(i),
    ensures
        picked(n, pred).contains(i as usize),
    decreases n,
{
    if i == n - 1 {
        assert(picked(n, pred).last() == i as usize);
    } else {
        lemma_picked_complete((n - 1) as nat, pred, i);
        let s = picked((n - 1) as nat, pred);
        let k = choose|k: int| 0 <= k < s.len() && s[k] == i as usize;
        assert(picked(n, pred)[k] == i as usize);
    }
}

/// Where everything satisfies the predicate, everything is picked.
pub proof fn lemma_picked_all(n: nat, pred: spec_fn(int) -> bool)
    requires
        n <= usize::MAX,
        forall|j: int| 0 <= j < n ==> #[trigger] pred(j),
    ensures
        picked(n, pred).len() == n,
    decreases n,
{
    if n > 0 {
        assert(pred(n - 1));
        lemma_picked_all((n - 1) as nat, pred);
    }
}

/// The first number below `n` that satisfies `pred`.
pub open spec fn first_index(n: nat, pred: spec_fn(int) -> bool) -> Option<usize> {
    let found = picked(n, pred);
    if found.len() > 0 {
        Some(found[0])
    } else {
        None
    }
}

/// A number that satisfies the predicate, with none before it that does, is the first.
pub proof fn lemma_first_found(n: nat, pred: spec_fn(int) -> bool, i: int)
    requires
        n <= usize::MAX,
        0 <= i < n,
        pred(i),
        forall|j: int| 0 <= j < i ==> !(#[trigger] pred(j)),
    ensures
        first_index(n, pred) == Some(i as usize),
{
    let found = picked(n, pred);
    lemma_picked(n, pred);
    lemma_picked_complete(n, pred, i);
    let k = choose|k: int| 0 <= k < found.len() && found[k] == i as usize;
    assert(found[0] <= found[k]);
    assert(pred(found[0] as int));
}

/// Where nothing satisfies the predicate, there is no first.
pub proof fn lemma_none_found(n: nat, pred: spec_fn(int) -> bool)
    requires
        n <= usize::MAX,
        forall|j: int| 0 <= j < n ==> !(#[trigger] pred(j)),
    ensures
        first_index(n, pred) is None,
{
    lemma_picked(n, pred);
    if picked(n, pred).len() > 0 {
        assert(pred(picked(n, pred)[0] as int));
    }
}

/// The first number satisfies the predicate and none before it does; where there is no first,
/// none does.
pub proof fn lemma_first_index(n: nat, pred: spec_fn(int) -> bool)
    requires
        n <= usize::MAX,
    ensures
        match first_index(n, pred) {
            Some(i) => i < n && pred(i as int) && forall|j: int|
                0 <= j < i ==> !(#[trigger] pred(j)),
            None => forall|j: int| 0 <= j < n ==> !(#[trigger] pred(j)),
        },
{
    let found = picked(n, pred);
    lemma_picked(n, pred);
    assert forall|j: int| 0 <= j < n && #[trigger] pred(j) implies found.len() > 0 && j
        >= found[0] by {
        lemma_picked_complete(n, pred, j);
        let k = choose|k: int| 0 <= k < found.len() && found[k] == j as usize;
        assert(found[0] <= found[k]);
    }
}

/// One number more changes the first only where there was none.
pub proof fn lemma_first_index_grows(n: nat, pred: spec_fn(int) -> bool)
    requires
        n < usize::MAX,
    ensures
        first_index(n, pred) is Some ==> first_index(n + 1, pred)
            == first_index(n, pred),
        first_index(n, pred) is None ==> first_index(n + 1, pred) == (if pred(
            n as int,
        ) {
            Some(n as usize)
        } else {
            None
        }),
{
    assert(picked((n + 1 - 1) as nat, pred) == picked(n, pred));
}

/// The first number below `n` of which `test` says yes; `pred` is what it says.
pub(crate) fn find_first<F: Fn(usize) -> bool>(
    n: usize,
    Ghost(pred): Ghost<spec_fn(int) -> bool>,
    test: F,
) -> (r: Option<usize>)
    requires
        forall|i: usize| i < n ==> #[trigger] call_requires(test, (i,)),
        forall|i: usize, b: bool|
            i < n && #[trigger] call_ensures(test, (i,), b) ==> b == pred(i as int),
    ensures
        r == first_index(n as nat, pred),
        match r {
            Some(i) => i < n && pred(i as int),
            None => forall|j: int| 0 <= j < n ==> !(#[trigger] pred(j)),
        },
{
    let mut i: usize = 0;
    while i < n
        invariant
            i <= n,
            forall|i: usize| i < n ==> #[trigger] call_requires(test, (i,)),
            forall|i: usize, b: bool|
                i < n && #[trigger] call_ensures(test, (i,), b) ==> b == pred(i as int),
            forall|j: int| 0 <= j < i ==> !(#[trigger] pred(j)),
        decreases n - i,
    {
        if test(i) {
            proof {
                lemma_first_found(n as nat, pred, i as int);
            }
            return Some(i);
        }
        i = i + 1;
    }
    proof {
        lemma_none_found(n as nat, pred);
    }
    None
}

} // verus!
