//! Facts about filtered sequences that the roster and the follow relation
//! both rest on.

use vstd::prelude::*;

verus! {

/// A filter that every entry passes changes nothing.
pub proof fn lemma_filter_keeps_all<A>(s: Seq<A>, pred: spec_fn(A) -> bool)
    requires
        forall|i: int| 0 <= i < s.len() ==> pred(#[trigger] s[i]),
    ensures
        s.filter(pred) == s,
    decreases s.len(),
{
    reveal(Seq::filter);
    if s.len() > 0 {
        let front = s.drop_last();
        assert forall|i: int| 0 <= i < front.len() implies pred(#[trigger] front[i]) by {
            assert(front[i] == s[i]);
        }
        lemma_filter_keeps_all(front, pred);
        assert(front.push(s.last()) =~= s);
    }
}

/// A filter that no entry passes leaves nothing.
pub proof fn lemma_filter_drops_all<A>(s: Seq<A>, pred: spec_fn(A) -> bool)
    requires
        forall|i: int| 0 <= i < s.len() ==> !pred(#[trigger] s[i]),
    ensures
        s.filter(pred) == Seq::<A>::empty(),
    decreases s.len(),
{
    reveal(Seq::filter);
    if s.len() > 0 {
        let front = s.drop_last();
        assert forall|i: int| 0 <= i < front.len() implies !pred(#[trigger] front[i]) by {
            assert(front[i] == s[i]);
        }
        lemma_filter_drops_all(front, pred);
    }
}

/// Filtering twice by the same predicate is filtering once.
pub proof fn lemma_filter_twice<A>(s: Seq<A>, pred: spec_fn(A) -> bool)
    ensures
        s.filter(pred).filter(pred) == s.filter(pred),
{
    let kept = s.filter(pred);
    assert forall|i: int| 0 <= i < kept.len() implies pred(#[trigger] kept[i]) by {
        s.lemma_filter_pred(pred, i);
    }
    lemma_filter_keeps_all(kept, pred);
}

/// Every entry that survives a filter stood in the unfiltered sequence and
/// passes the predicate.
pub proof fn lemma_filter_source<A>(s: Seq<A>, pred: spec_fn(A) -> bool, k: int) -> (a: int)
    requires
        0 <= k < s.filter(pred).len(),
    ensures
        0 <= a < s.len(),
        s[a] == s.filter(pred)[k],
        pred(s[a]),
{
    let kept = s.filter(pred);
    s.lemma_filter_pred(pred, k);
    assert(kept.contains(kept[k]));
    s.lemma_filter_contains_rev(pred, kept[k]);
    choose|a: int| 0 <= a < s.len() && s[a] == kept[k]
}

/// A filter keeps the order: two survivors stood in the same order in the
/// unfiltered sequence.
pub proof fn lemma_filter_order<A>(s: Seq<A>, pred: spec_fn(A) -> bool, i: int, j: int) -> (at: (
    int,
    int,
))
    requires
        0 <= i < j < s.filter(pred).len(),
    ensures
        0 <= at.0 < at.1 < s.len(),
        s[at.0] == s.filter(pred)[i],
        s[at.1] == s.filter(pred)[j],
    decreases s.len(),
{
    reveal(Seq::filter);
    let front = s.drop_last();
    let kept = front.filter(pred);
    if pred(s.last()) && j == kept.len() {
        let a = lemma_filter_source(front, pred, i);
        (a, s.len() - 1)
    } else {
        lemma_filter_order(front, pred, i, j)
    }
}

/// How a filter sees an insertion: the new entry is kept or dropped on its own
/// merits, and the others are filtered as before.
pub proof fn lemma_filter_insert<A>(s: Seq<A>, at: int, x: A, pred: spec_fn(A) -> bool)
    requires
        0 <= at <= s.len(),
    ensures
        s.insert(at, x).filter(pred) == if pred(x) {
            s.filter(pred).insert(s.take(at).filter(pred).len() as int, x)
        } else {
            s.filter(pred)
        },
        s.take(at).filter(pred).len() <= s.filter(pred).len(),
{
    let head = s.take(at);
    let tail = s.skip(at);
    assert(s =~= head + tail);
    assert(s.insert(at, x) =~= head.push(x) + tail);
    Seq::filter_distributes_over_add(head, tail, pred);
    Seq::filter_distributes_over_add(head.push(x), tail, pred);
    head.lemma_filter_push(x, pred);
    if pred(x) {
        assert(head.filter(pred).push(x) + tail.filter(pred) =~= (head.filter(pred) + tail.filter(
            pred,
        )).insert(head.filter(pred).len() as int, x));
    }
}

/// Filtering one entry further along a sequence.
pub proof fn lemma_filter_step<A>(s: Seq<A>, n: int, pred: spec_fn(A) -> bool)
    requires
        0 <= n < s.len(),
    ensures
        s.take(n + 1).filter(pred) == if pred(s[n]) {
            s.take(n).filter(pred).push(s[n])
        } else {
            s.take(n).filter(pred)
        },
{
    assert(s.take(n + 1) =~= s.take(n).push(s[n]));
    s.take(n).lemma_filter_push(s[n], pred);
}

/// Filtering by a predicate and then by a narrower one is filtering by the
/// narrower one.
pub proof fn lemma_filter_narrowed<A>(s: Seq<A>, wide: spec_fn(A) -> bool, narrow: spec_fn(A) -> bool)
    requires
        forall|x: A| #[trigger] narrow(x) ==> wide(x),
    ensures
        s.filter(wide).filter(narrow) == s.filter(narrow),
    decreases s.len(),
{
    reveal(Seq::filter);
    if s.len() > 0 {
        let front = s.drop_last();
        lemma_filter_narrowed(front, wide, narrow);
        if wide(s.last()) {
            front.filter(wide).lemma_filter_push(s.last(), narrow);
        }
    }
}

/// Entries that map to nothing can be filtered out before a `filter_map`
/// without changing what it yields.
pub proof fn lemma_filter_map_skips<A, B>(
    s: Seq<A>,
    keep: spec_fn(A) -> bool,
    f: spec_fn(A) -> Option<B>,
    g: spec_fn(A) -> Option<B>,
)
    requires
        forall|x: A| #[trigger] keep(x) ==> f(x) == g(x),
        forall|x: A| !(#[trigger] keep(x)) ==> f(x) is None,
    ensures
        s.filter_map(f) == s.filter(keep).filter_map(g),
    decreases s.len(),
{
    reveal(Seq::filter);
    if s.len() > 0 {
        let front = s.drop_last();
        lemma_filter_map_skips(front, keep, f, g);
        if keep(s.last()) {
            assert(front.filter(keep).push(s.last()).drop_last() =~= front.filter(keep));
        }
    }
}

} // verus!
