//! Lists without repetition: of items with one key the first is kept, and the keys ascend.

use vstd::prelude::*;
use crate::select;

verus! {

/// Whether `less` orders keys strictly: none comes before itself, and of two different ones one
/// comes before the other.
pub open spec fn strict_order<K>(less: spec_fn(K, K) -> bool) -> bool {
    &&& forall|a: K| !(#[trigger] less(a, a))
    &&& forall|a: K, b: K, c: K| #[trigger] less(a, b) && #[trigger] less(b, c) ==> less(a, c)
    &&& forall|a: K, b: K| #[trigger] less(a, b) || less(b, a) || a == b
}

/// The predicate of a place whose item has a key.
pub open spec fn with_key<T, K>(
    items: Seq<T>,
    key: spec_fn(T) -> K,
    k: K,
) -> spec_fn(int) -> bool {
    |i: int| key(items[i]) == k
}

/// Whether `r` lists the first `n` items: by ascending key and each key once, with the item that came
/// first of those with that key.
pub open spec fn lists_first<T, K>(
    items: Seq<T>,
    n: nat,
    key: spec_fn(T) -> K,
    less: spec_fn(K, K) -> bool,
    r: Seq<T>,
) -> bool {
    &&& forall|i: int, j: int|
        0 <= i < j < r.len() ==> less(key(#[trigger] r[i]), key(#[trigger] r[j]))
    &&& forall|k: int|
        0 <= k < r.len() ==> match select::first_index(
            n,
            with_key(items, key, key(#[trigger] r[k])),
        ) {
            Some(i) => r[k] == items[i as int],
            None => false,
        }
    &&& forall|i: int|
        0 <= i < n ==> exists|k: int| 0 <= k < r.len() && key(r[k]) == key(#[trigger] items[i])
}

/// Whether `r` lists all items.
pub open spec fn lists<T, K>(
    items: Seq<T>,
    key: spec_fn(T) -> K,
    less: spec_fn(K, K) -> bool,
    r: Seq<T>,
) -> bool {
    lists_first(items, items.len(), key, less, r)
}

/// One item more leaves the items of the list where they came first.
proof fn lemma_firsts_stay<T, K>(
    items: Seq<T>,
    n: nat,
    key: spec_fn(T) -> K,
    less: spec_fn(K, K) -> bool,
    r: Seq<T>,
)
    requires
        n < usize::MAX,
        lists_first(items, n, key, less, r),
    ensures
        forall|k: int|
            0 <= k < r.len() ==> match select::first_index(
                n + 1,
                with_key(items, key, key(#[trigger] r[k])),
            ) {
                Some(i) => r[k] == items[i as int],
                None => false,
            },
{
    assert forall|k: int| 0 <= k < r.len() implies match select::first_index(
        n + 1,
        with_key(items, key, key(#[trigger] r[k])),
    ) {
        Some(i) => r[k] == items[i as int],
        None => false,
    } by {
        select::lemma_first_index_grows(n, with_key(items, key, key(r[k])));
    }
}

/// An item whose key is listed changes nothing.
pub proof fn lemma_listed<T, K>(
    items: Seq<T>,
    n: nat,
    key: spec_fn(T) -> K,
    less: spec_fn(K, K) -> bool,
    r: Seq<T>,
    p: int,
)
    requires
        n < items.len() <= usize::MAX,
        lists_first(items, n, key, less, r),
        0 <= p < r.len(),
        key(r[p]) == key(items[n as int]),
    ensures
        lists_first(items, n + 1, key, less, r),
{
    lemma_firsts_stay(items, n, key, less, r);
    assert forall|i: int| 0 <= i < n + 1 implies exists|k: int|
        0 <= k < r.len() && key(r[k]) == key(#[trigger] items[i]) by {
        if i == n {
            assert(key(r[p]) == key(items[i]));
        }
    }
}

/// An item whose key is not listed goes where the smaller keys end.
pub proof fn lemma_insert<T, K>(
    items: Seq<T>,
    n: nat,
    key: spec_fn(T) -> K,
    less: spec_fn(K, K) -> bool,
    r: Seq<T>,
    p: int,
)
    requires
        strict_order(less),
        n < items.len() <= usize::MAX,
        lists_first(items, n, key, less, r),
        0 <= p <= r.len(),
        forall|j: int| 0 <= j < p ==> less(key(#[trigger] r[j]), key(items[n as int])),
        p < r.len() ==> !less(key(r[p]), key(items[n as int])) && key(r[p]) != key(
            items[n as int],
        ),
    ensures
        lists_first(items, n + 1, key, less, r.insert(p, items[n as int])),
{
    let x = items[n as int];
    let t = r.insert(p, x);
    lemma_firsts_stay(items, n, key, less, r);
    assert forall|j: int| p <= j < r.len() implies less(key(x), key(#[trigger] r[j])) by {
        assert(less(key(x), key(r[p])) || less(key(r[p]), key(x)) || key(x) == key(r[p]));
        if j > p {
            assert(less(key(r[p]), key(r[j])));
        }
    }
    assert forall|a: int, b: int| 0 <= a < b < t.len() implies less(
        key(#[trigger] t[a]),
        key(#[trigger] t[b]),
    ) by {
        let ra = if a < p { a } else { a - 1 };
        let rb = if b < p { b } else { b - 1 };
        if a != p {
            assert(t[a] == r[ra]);
        }
        if b != p {
            assert(t[b] == r[rb]);
        }
    }
    // The key is not listed, so no item before had it.
    assert forall|j: int| 0 <= j < r.len() implies key(#[trigger] r[j]) != key(x) by {
        assert(!less(key(x), key(x)));
    }
    let pred = with_key(items, key, key(x));
    assert forall|i: int| 0 <= i < n implies !(#[trigger] pred(i)) by {
        let k = choose|k: int| 0 <= k < r.len() && key(r[k]) == key(#[trigger] items[i]);
        assert(key(r[k]) == key(items[i]));
    }
    select::lemma_first_found(n + 1, pred, n as int);
    assert forall|j: int| 0 <= j < t.len() implies match select::first_index(
        n + 1,
        with_key(items, key, key(#[trigger] t[j])),
    ) {
        Some(i) => t[j] == items[i as int],
        None => false,
    } by {
        let rj = if j < p { j } else { j - 1 };
        if j != p {
            assert(t[j] == r[rj]);
        }
    }
    assert forall|i: int| 0 <= i < n + 1 implies exists|k: int|
        0 <= k < t.len() && key(t[k]) == key(#[trigger] items[i]) by {
        if i == n {
            assert(key(t[p]) == key(items[i]));
        } else {
            let k = choose|k: int| 0 <= k < r.len() && key(r[k]) == key(#[trigger] items[i]);
            if k < p {
                assert(key(t[k]) == key(items[i]));
            } else {
                assert(key(t[k + 1]) == key(items[i]));
            }
        }
    }
}

/// An item of the list is one of the items.
pub proof fn lemma_listed_item<T, K>(
    items: Seq<T>,
    key: spec_fn(T) -> K,
    less: spec_fn(K, K) -> bool,
    r: Seq<T>,
    k: int,
)
    requires
        items.len() <= usize::MAX,
        lists(items, key, less, r),
        0 <= k < r.len(),
    ensures
        exists|i: int| 0 <= i < items.len() && #[trigger] items[i] == r[k],
{
    let pred = with_key(items, key, key(r[k]));
    select::lemma_first_index(items.len(), pred);
    let i = select::first_index(items.len(), pred)->0;
    assert(items[i as int] == r[k]);
}

/// There is one such list: two lists of the same items are the same.
pub proof fn law_listing_is_unique<T, K>(
    items: Seq<T>,
    key: spec_fn(T) -> K,
    less: spec_fn(K, K) -> bool,
    a: Seq<T>,
    b: Seq<T>,
)
    requires
        strict_order(less),
        items.len() <= usize::MAX,
        lists(items, key, less, a),
        lists(items, key, less, b),
    ensures
        a == b,
        forall|i: int, j: int|
            0 <= i < j < a.len() ==> key(#[trigger] a[i]) != key(#[trigger] a[j]),
{
    lemma_agree(items, key, less, a, b, 0);
    if a.len() < b.len() {
        lemma_place(items, key, less, b, a, a.len() as int);
    }
    if b.len() < a.len() {
        lemma_place(items, key, less, a, b, b.len() as int);
    }
    assert(a =~= b);
}

/// An item of one list stands in the other, no further to the left than where the two agree.
proof fn lemma_place<T, K>(
    items: Seq<T>,
    key: spec_fn(T) -> K,
    less: spec_fn(K, K) -> bool,
    a: Seq<T>,
    b: Seq<T>,
    i: int,
)
    requires
        strict_order(less),
        items.len() <= usize::MAX,
        lists(items, key, less, a),
        lists(items, key, less, b),
        0 <= i < a.len(),
        i <= b.len(),
        forall|j: int| 0 <= j < i ==> a[j] == b[j],
    ensures
        exists|k: int| i <= k < b.len() && b[k] == a[i],
{
    let pred = with_key(items, key, key(a[i]));
    select::lemma_first_index(items.len(), pred);
    let m = select::first_index(items.len(), pred)->0 as int;
    assert(a[i] == items[m]);
    let k = choose|k: int| 0 <= k < b.len() && key(b[k]) == key(#[trigger] items[m]);
    assert(key(b[k]) == key(a[i]));
    assert(b[k] == a[i]);
    if k < i {
        assert(a[k] == b[k]);
        assert(less(key(a[k]), key(a[i])));
    }
}

/// From any place up to which two lists agree, they agree further, as far as both go.
proof fn lemma_agree<T, K>(
    items: Seq<T>,
    key: spec_fn(T) -> K,
    less: spec_fn(K, K) -> bool,
    a: Seq<T>,
    b: Seq<T>,
    i: int,
)
    requires
        strict_order(less),
        items.len() <= usize::MAX,
        lists(items, key, less, a),
        lists(items, key, less, b),
        0 <= i <= a.len(),
        i <= b.len(),
        forall|j: int| 0 <= j < i ==> a[j] == b[j],
    ensures
        forall|j: int| 0 <= j < a.len() && j < b.len() ==> a[j] == b[j],
    decreases a.len() - i,
{
    if i < a.len() && i < b.len() {
        lemma_place(items, key, less, a, b, i);
        lemma_place(items, key, less, b, a, i);
        let k = choose|k: int| i <= k < b.len() && b[k] == a[i];
        let m = choose|m: int| i <= m < a.len() && a[m] == b[i];
        if k > i && m > i {
            assert(less(key(b[i]), key(b[k])));
            assert(less(key(a[i]), key(a[m])));
            assert(!less(key(a[i]), key(a[i])));
        }
        assert(a[i] == b[i]);
        lemma_agree(items, key, less, a, b, i + 1);
    }
}

} // verus!
