//! The worktree list by age: the newest first, those of one age as they were.

use vstd::prelude::*;
use crate::types::WorktreeInfo;

verus! {

/// Where a worktree stands by age: later creation ranks higher, an unknown one lowest.
pub open spec fn age_rank(w: WorktreeInfo) -> int {
    match w.created_at {
        Some(t) => t as int,
        None => -1,
    }
}

/// Whether no worktree stands behind an older one.
pub open spec fn newest_first(s: Seq<WorktreeInfo>) -> bool {
    forall|i: int, j: int|
        0 <= i < j < s.len() ==> age_rank(#[trigger] s[i]) >= age_rank(#[trigger] s[j])
}

/// The worktrees of one rank, in their order.
pub open spec fn of_age(s: Seq<WorktreeInfo>, rank: int) -> Seq<WorktreeInfo> {
    s.filter(has_age(rank))
}

/// The predicate of having a rank.
pub open spec fn has_age(rank: int) -> spec_fn(WorktreeInfo) -> bool {
    |w: WorktreeInfo| age_rank(w) == rank
}

/// Whether `r` is `s` with the newest first, and those of one age in the order they have in `s`.
pub open spec fn sorted_by_age(s: Seq<WorktreeInfo>, r: Seq<WorktreeInfo>) -> bool {
    &&& newest_first(r)
    &&& forall|rank: int| #[trigger] of_age(r, rank) == of_age(s, rank)
}

/// Whether the first is older than the second, or of unknown age where that is known.
fn is_older(a: &WorktreeInfo, b: &WorktreeInfo) -> (r: bool)
    ensures
        r == (age_rank(*a) < age_rank(*b)),
{
    match (a.created_at, b.created_at) {
        (Some(x), Some(y)) => x < y,
        (None, Some(_)) => true,
        _ => false,
    }
}

proof fn lemma_split_filter(s: Seq<WorktreeInfo>, p: int, rank: int)
    requires
        0 <= p <= s.len(),
    ensures
        of_age(s, rank) == of_age(s.take(p), rank) + of_age(s.skip(p), rank),
{
    assert(s == s.take(p) + s.skip(p));
    Seq::filter_distributes_over_add(s.take(p), s.skip(p), has_age(rank));
}

proof fn lemma_push_filter(s: Seq<WorktreeInfo>, x: WorktreeInfo, rank: int)
    ensures
        of_age(s.push(x), rank) == if age_rank(x) == rank {
            of_age(s, rank).push(x)
        } else {
            of_age(s, rank)
        },
{
    reveal(Seq::filter);
    assert(s.push(x).drop_last() == s);
}

proof fn lemma_insert_by_age(s: Seq<WorktreeInfo>, r: Seq<WorktreeInfo>, x: WorktreeInfo, p: int)
    requires
        sorted_by_age(s, r),
        0 <= p <= r.len(),
        p > 0 ==> age_rank(r[p - 1]) >= age_rank(x),
        forall|i: int| p <= i < r.len() ==> age_rank(#[trigger] r[i]) < age_rank(x),
    ensures
        sorted_by_age(s.push(x), r.insert(p, x)),
{
    let t = r.insert(p, x);
    assert forall|i: int, j: int| 0 <= i < j < t.len() implies age_rank(#[trigger] t[i])
        >= age_rank(#[trigger] t[j]) by {
        let a = if i < p { i } else { i - 1 };
        let b = if j < p { j } else { j - 1 };
        if i != p {
            assert(t[i] == r[a]);
        }
        if j != p {
            assert(t[j] == r[b]);
        }
        if i == p {
            assert(age_rank(r[b]) < age_rank(x));
        } else if j == p {
            if a < p - 1 {
                assert(age_rank(r[a]) >= age_rank(r[p - 1]));
            }
        } else if a != b {
            assert(age_rank(r[a]) >= age_rank(r[b]));
        }
    }
    assert forall|rank: int| #[trigger] of_age(t, rank) == of_age(s.push(x), rank) by {
        lemma_push_filter(s, x, rank);
        lemma_push_filter(r.take(p), x, rank);
        lemma_split_filter(r, p, rank);
        assert(t.take(p + 1) == r.take(p).push(x));
        assert(t.skip(p + 1) == r.skip(p));
        lemma_split_filter(t, p + 1, rank);
        assert(of_age(r, rank) == of_age(s, rank));
        if rank == age_rank(x) {
            assert forall|i: int| 0 <= i < r.skip(p).len() implies !has_age(rank)(
                #[trigger] r.skip(p)[i],
            ) by {
                assert(age_rank(r[p + i]) < age_rank(x));
            }
            r.skip(p).lemma_all_neg_filter_empty(has_age(rank));
            assert(of_age(r.skip(p), rank) =~= Seq::empty());
            assert(of_age(r, rank) =~= of_age(r.take(p), rank));
        }
    }
}

/// Sorts the worktrees, the newest first; those of one age keep their order.
pub fn sort_by_age(worktrees: &mut Vec<WorktreeInfo>)
    ensures
        sorted_by_age(old(worktrees)@, final(worktrees)@),
{
    let mut sorted: Vec<WorktreeInfo> = Vec::new();
    let mut i: usize = 0;
    assert(worktrees@.take(0) == sorted@);
    while i < worktrees.len()
        invariant
            i <= worktrees@.len(),
            worktrees@ == old(worktrees)@,
            sorted_by_age(worktrees@.take(i as int), sorted@),
        decreases worktrees@.len() - i,
    {
        let mut p: usize = sorted.len();
        while p > 0 && is_older(&sorted[p - 1], &worktrees[i])
            invariant
                p <= sorted@.len(),
                i < worktrees@.len(),
                newest_first(sorted@),
                forall|j: int|
                    p <= j < sorted@.len() ==> age_rank(#[trigger] sorted@[j]) < age_rank(
                        worktrees@[i as int],
                    ),
            decreases p,
        {
            p = p - 1;
        }
        proof {
            lemma_insert_by_age(
                worktrees@.take(i as int),
                sorted@,
                worktrees@[i as int],
                p as int,
            );
            assert(worktrees@.take(i + 1) == worktrees@.take(i as int).push(worktrees@[i as int]));
        }
        sorted.insert(p, worktrees[i].clone());
        i = i + 1;
    }
    assert(worktrees@.take(i as int) == worktrees@);
    *worktrees = sorted;
}

/// Sorting by age loses no worktree and brings none in.
pub proof fn law_sorting_keeps_worktrees(
    s: Seq<WorktreeInfo>,
    r: Seq<WorktreeInfo>,
    w: WorktreeInfo,
)
    requires
        sorted_by_age(s, r),
    ensures
        s.contains(w) <==> r.contains(w),
{
    lemma_age_member(s, w);
    lemma_age_member(r, w);
    assert(of_age(r, age_rank(w)) == of_age(s, age_rank(w)));
}

proof fn lemma_age_member(s: Seq<WorktreeInfo>, w: WorktreeInfo)
    ensures
        s.contains(w) <==> of_age(s, age_rank(w)).contains(w),
{
    broadcast use vstd::seq_lib::group_filter_ensures;

    if s.contains(w) {
        let i = choose|i: int| 0 <= i < s.len() && s[i] == w;
        s.lemma_filter_contains(has_age(age_rank(w)), i);
    }
    if of_age(s, age_rank(w)).contains(w) {
        s.lemma_filter_contains_rev(has_age(age_rank(w)), w);
    }
}

/// There is one way to sort a list by age: two sorted forms of one list are the same.
pub proof fn law_sorted_by_age_unique(
    s: Seq<WorktreeInfo>,
    a: Seq<WorktreeInfo>,
    b: Seq<WorktreeInfo>,
)
    requires
        sorted_by_age(s, a),
        sorted_by_age(s, b),
    ensures
        a == b,
{
    assert forall|rank: int| #[trigger] of_age(a, rank) == of_age(b, rank) by {
        assert(of_age(a, rank) == of_age(s, rank));
        assert(of_age(b, rank) == of_age(s, rank));
    }
    lemma_same_ages(a, b);
}

proof fn lemma_head_filter(s: Seq<WorktreeInfo>, rank: int)
    requires
        s.len() > 0,
    ensures
        of_age(s, rank) == if age_rank(s[0]) == rank {
            seq![s[0]] + of_age(s.drop_first(), rank)
        } else {
            of_age(s.drop_first(), rank)
        },
{
    lemma_split_filter(s, 1, rank);
    assert(s.skip(1) == s.drop_first());
    assert(s.take(1) == Seq::empty().push(s[0]));
    lemma_push_filter(Seq::empty(), s[0], rank);
    reveal(Seq::filter);
    assert(of_age(Seq::empty(), rank) == Seq::<WorktreeInfo>::empty());
    assert(Seq::<WorktreeInfo>::empty().push(s[0]) == seq![s[0]]);
    assert(Seq::<WorktreeInfo>::empty() + of_age(s.drop_first(), rank) == of_age(
        s.drop_first(),
        rank,
    ));
}

proof fn lemma_head_rank(a: Seq<WorktreeInfo>, b: Seq<WorktreeInfo>)
    requires
        newest_first(b),
        a.len() > 0,
        forall|rank: int| #[trigger] of_age(a, rank) == of_age(b, rank),
    ensures
        b.len() > 0,
        age_rank(b[0]) >= age_rank(a[0]),
{
    let w = a[0];
    assert(a.contains(w));
    lemma_age_member(a, w);
    lemma_age_member(b, w);
    assert(of_age(a, age_rank(w)) == of_age(b, age_rank(w)));
    let i = choose|i: int| 0 <= i < b.len() && b[i] == w;
    if i > 0 {
        assert(age_rank(b[0]) >= age_rank(b[i]));
    }
}

proof fn lemma_same_ages(a: Seq<WorktreeInfo>, b: Seq<WorktreeInfo>)
    requires
        newest_first(a),
        newest_first(b),
        forall|rank: int| #[trigger] of_age(a, rank) == of_age(b, rank),
    ensures
        a == b,
    decreases a.len(),
{
    if a.len() == 0 {
        if b.len() > 0 {
            lemma_head_rank(b, a);
        }
        assert(a =~= b);
    } else {
        lemma_head_rank(a, b);
        lemma_head_rank(b, a);
        let rank = age_rank(a[0]);
        lemma_head_filter(a, rank);
        lemma_head_filter(b, rank);
        assert(of_age(a, rank) == of_age(b, rank));
        assert(of_age(a, rank)[0] == a[0]);
        assert(of_age(b, rank)[0] == b[0]);
        assert(a[0] == b[0]);
        let ta = a.drop_first();
        let tb = b.drop_first();
        assert forall|k: int| #[trigger] of_age(ta, k) == of_age(tb, k) by {
            lemma_head_filter(a, k);
            lemma_head_filter(b, k);
            assert(of_age(a, k) == of_age(b, k));
            if k == rank {
                assert(of_age(ta, k) == of_age(a, k).drop_first());
                assert(of_age(tb, k) == of_age(b, k).drop_first());
            }
        }
        assert forall|i: int, j: int| 0 <= i < j < ta.len() implies age_rank(#[trigger] ta[i])
            >= age_rank(#[trigger] ta[j]) by {
            assert(age_rank(a[i + 1]) >= age_rank(a[j + 1]));
        }
        assert forall|i: int, j: int| 0 <= i < j < tb.len() implies age_rank(#[trigger] tb[i])
            >= age_rank(#[trigger] tb[j]) by {
            assert(age_rank(b[i + 1]) >= age_rank(b[j + 1]));
        }
        lemma_same_ages(ta, tb);
        assert(a =~= seq![a[0]] + ta);
        assert(b =~= seq![b[0]] + tb);
    }
}

/// In a list sorted by age no worktree stands behind a younger one, and those of unknown age stand
/// last; those created at one moment stand as they stood before, and the list is as long as it was.
pub proof fn law_sorted_rows_go_by_creation(
    s: Seq<WorktreeInfo>,
    r: Seq<WorktreeInfo>,
    at: Option<u64>,
)
    requires
        sorted_by_age(s, r),
    ensures
        forall|i: int, j: int|
            0 <= i < j < r.len() ==> match (
                (#[trigger] r[i]).created_at,
                (#[trigger] r[j]).created_at,
            ) {
                (Some(x), Some(y)) => x >= y,
                (None, Some(_)) => false,
                _ => true,
            },
        r.filter(|w: WorktreeInfo| w.created_at == at) == s.filter(
            |w: WorktreeInfo| w.created_at == at,
        ),
        r.len() == s.len(),
        r.to_multiset() =~= s.to_multiset(),
{
    assert forall|i: int, j: int| 0 <= i < j < r.len() implies match (
        (#[trigger] r[i]).created_at,
        (#[trigger] r[j]).created_at,
    ) {
        (Some(x), Some(y)) => x >= y,
        (None, Some(_)) => false,
        _ => true,
    } by {
        assert(age_rank(r[i]) >= age_rank(r[j]));
    }
    let rank: int = match at {
        Some(t) => t as int,
        None => -1,
    };
    let f = |w: WorktreeInfo| w.created_at == at;
    assert forall|w: WorktreeInfo| #[trigger] f(w) == has_age(rank)(w) by {}
    assert(f =~= has_age(rank));
    assert(of_age(r, rank) == of_age(s, rank));
    lemma_same_members(s, r);
}

/// Lists with the same worktrees of every age have the same worktrees, as often.
proof fn lemma_same_members(s: Seq<WorktreeInfo>, r: Seq<WorktreeInfo>)
    requires
        forall|rank: int| #[trigger] of_age(r, rank) == of_age(s, rank),
    ensures
        r.to_multiset() =~= s.to_multiset(),
        r.len() == s.len(),
{
    assert forall|w: WorktreeInfo| #[trigger]
        r.to_multiset().count(w) == s.to_multiset().count(w) by {
        lemma_count(r, w);
        lemma_count(s, w);
        assert(of_age(r, age_rank(w)) == of_age(s, age_rank(w)));
    }
    assert(r.to_multiset() =~= s.to_multiset());
    r.to_multiset_ensures();
    s.to_multiset_ensures();
}

proof fn lemma_count(s: Seq<WorktreeInfo>, w: WorktreeInfo)
    ensures
        s.to_multiset().count(w) == of_age(s, age_rank(w)).to_multiset().count(w),
    decreases s.len(),
{
    broadcast use vstd::seq_lib::group_to_multiset_ensures;

    if s.len() == 0 {
        reveal(Seq::filter);
        assert(of_age(s, age_rank(w)) =~= s);
    } else {
        let front = s.drop_last();
        let last = s.last();
        lemma_count(front, w);
        lemma_push_filter(front, last, age_rank(w));
        assert(front.push(last) =~= s);
    }
}

} // verus!
