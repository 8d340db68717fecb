//! The order in which stored records are listed: newest first, records of
//! equal age in the order in which they were read.

use crate::storage::{StoredSummary, StoredSummaryView};
use vstd::prelude::*;

verus! {

/// The values of a list of records.
pub open spec fn views(v: Seq<StoredSummary>) -> Seq<StoredSummaryView> {
    v.map_values(|r: StoredSummary| r@)
}

/// No record comes before a newer one.
pub open spec fn newest_first(s: Seq<StoredSummaryView>) -> bool {
    forall|i: int, j: int| 0 <= i < j < s.len() ==> s[i].created_at >= s[j].created_at
}

/// The records created at `t`.
pub open spec fn created_at(t: i64) -> spec_fn(StoredSummaryView) -> bool {
    |r: StoredSummaryView| r.created_at == t
}

/// `output` is `input` sorted newest first by a stable sort: it is ordered,
/// and the records of any one creation time are the same, in the same
/// order, in both.
pub open spec fn is_listing_of(input: Seq<StoredSummaryView>, output: Seq<StoredSummaryView>) -> bool {
    &&& output.len() == input.len()
    &&& newest_first(output)
    &&& forall|t: i64| #[trigger] output.filter(created_at(t)) == input.filter(created_at(t))
}

/// Dropping the last record drops it from the records of its creation time
/// and leaves those of every other time as they are.
proof fn lemma_filter_drop_last(s: Seq<StoredSummaryView>, t: i64)
    requires
        s.len() > 0,
    ensures
        s.filter(created_at(t)) == (if s.last().created_at == t {
            s.drop_last().filter(created_at(t)).push(s.last())
        } else {
            s.drop_last().filter(created_at(t))
        }),
{
    reveal(Seq::filter);
}

/// The last record of an ordered list is not newer than any record of its
/// creation time that the list holds.
proof fn lemma_last_is_oldest(s: Seq<StoredSummaryView>, held: StoredSummaryView)
    requires
        newest_first(s),
        s.contains(held),
    ensures
        s.last().created_at <= held.created_at,
{
    let k = choose|k: int| 0 <= k < s.len() && s[k] == held;
    if k < s.len() - 1 {
        assert(s[k].created_at >= s[s.len() - 1].created_at);
    }
}

/// Two ordered lists that hold the same records of every creation time, in
/// the same order, are one list.
proof fn lemma_same_order(a: Seq<StoredSummaryView>, b: Seq<StoredSummaryView>)
    requires
        a.len() == b.len(),
        newest_first(a),
        newest_first(b),
        forall|t: i64| #[trigger] a.filter(created_at(t)) == b.filter(created_at(t)),
    ensures
        a == b,
    decreases a.len(),
{
    if a.len() == 0 {
        assert(a =~= b);
    } else {
        let x = a.last();
        let y = b.last();
        let ta = x.created_at;
        let tb = y.created_at;
        lemma_filter_drop_last(a, ta);
        lemma_filter_drop_last(b, tb);
        let fa = a.filter(created_at(ta));
        let fb = b.filter(created_at(tb));
        assert(fa.last() == x && fb.last() == y);
        assert(b.filter(created_at(ta)) == fa);
        assert(a.filter(created_at(tb)) == fb);
        assert(fa.contains(x)) by {
            assert(fa[fa.len() - 1] == x);
        }
        assert(fb.contains(y)) by {
            assert(fb[fb.len() - 1] == y);
        }
        b.lemma_filter_contains_rev(created_at(ta), x);
        a.lemma_filter_contains_rev(created_at(tb), y);
        lemma_last_is_oldest(b, x);
        lemma_last_is_oldest(a, y);
        assert(ta == tb);
        lemma_filter_drop_last(b, ta);
        assert(x == y);
        let a0 = a.drop_last();
        let b0 = b.drop_last();
        assert forall|t: i64| #[trigger] a0.filter(created_at(t)) == b0.filter(created_at(t)) by {
            lemma_filter_drop_last(a, t);
            lemma_filter_drop_last(b, t);
            assert(a.filter(created_at(t)) == b.filter(created_at(t)));
            if t == ta {
                let pa = a0.filter(created_at(t));
                let pb = b0.filter(created_at(t));
                assert(pa.push(x) == pb.push(x));
                assert(pa =~= pa.push(x).drop_last());
                assert(pb =~= pb.push(x).drop_last());
            }
        }
        assert(newest_first(a0)) by {
            assert forall|i: int, j: int| 0 <= i < j < a0.len() implies a0[i].created_at
                >= a0[j].created_at by {
                assert(a0[i] == a[i] && a0[j] == a[j]);
            }
        }
        assert(newest_first(b0)) by {
            assert forall|i: int, j: int| 0 <= i < j < b0.len() implies b0[i].created_at
                >= b0[j].created_at by {
                assert(b0[i] == b[i] && b0[j] == b[j]);
            }
        }
        lemma_same_order(a0, b0);
        assert(a =~= a0.push(x));
        assert(b =~= b0.push(y));
    }
}

/// A list has one listing only: the order newest first, with records of
/// equal age in the order in which they were read, leaves nothing open.
pub proof fn lemma_listing_is_unique(
    input: Seq<StoredSummaryView>,
    a: Seq<StoredSummaryView>,
    b: Seq<StoredSummaryView>,
)
    requires
        is_listing_of(input, a),
        is_listing_of(input, b),
    ensures
        a == b,
{
    assert forall|t: i64| #[trigger] a.filter(created_at(t)) == b.filter(created_at(t)) by {
        assert(a.filter(created_at(t)) == input.filter(created_at(t)));
        assert(b.filter(created_at(t)) == input.filter(created_at(t)));
    }
    lemma_same_order(a, b);
}

/// Every record of a listing is a record of the list, and every record of
/// the list is a record of the listing.
pub proof fn lemma_listing_holds_the_same(
    input: Seq<StoredSummaryView>,
    output: Seq<StoredSummaryView>,
    record: StoredSummaryView,
)
    requires
        is_listing_of(input, output),
    ensures
        input.contains(record) <==> output.contains(record),
{
    let pred = created_at(record.created_at);
    assert(output.filter(pred) == input.filter(pred));
    if input.contains(record) {
        let i = choose|i: int| 0 <= i < input.len() && input[i] == record;
        input.lemma_filter_contains(pred, i);
        output.lemma_filter_contains_rev(pred, record);
    }
    if output.contains(record) {
        let i = choose|i: int| 0 <= i < output.len() && output[i] == record;
        output.lemma_filter_contains(pred, i);
        input.lemma_filter_contains_rev(pred, record);
    }
}

/// The listing of a list that holds no record twice holds no record twice.
pub proof fn lemma_listing_no_duplicates(
    input: Seq<StoredSummaryView>,
    output: Seq<StoredSummaryView>,
)
    requires
        is_listing_of(input, output),
        input.no_duplicates(),
    ensures
        output.no_duplicates(),
{
    assert(input.to_set() =~= output.to_set()) by {
        assert forall|r: StoredSummaryView| input.to_set().contains(r) <==> output.to_set().contains(
            r,
        ) by {
            lemma_listing_holds_the_same(input, output, r);
        }
    }
    input.unique_seq_to_set();
    output.lemma_no_dup_set_cardinality();
}

proof fn lemma_insert_keeps_order(
    sorted: Seq<StoredSummaryView>,
    later: Seq<StoredSummaryView>,
    x: StoredSummaryView,
    p: int,
)
    requires
        is_listing_of(later, sorted),
        0 <= p <= sorted.len(),
        forall|k: int| 0 <= k < p ==> sorted[k].created_at > x.created_at,
        p < sorted.len() ==> sorted[p].created_at <= x.created_at,
    ensures
        is_listing_of(seq![x] + later, sorted.insert(p, x)),
{
    let out = sorted.insert(p, x);
    let head = sorted.subrange(0, p);
    let tail = sorted.subrange(p, sorted.len() as int);
    assert(sorted =~= head + tail);
    assert(out =~= head + seq![x] + tail);
    assert forall|i: int, j: int| 0 <= i < j < out.len() implies out[i].created_at
        >= out[j].created_at by {
        if j < p {
            assert(out[i] == sorted[i] && out[j] == sorted[j]);
        } else if j == p {
            assert(out[i] == sorted[i]);
        } else if i < p {
            assert(out[i] == sorted[i] && out[j] == sorted[j - 1]);
        } else if i == p {
            assert(out[j] == sorted[j - 1]);
            assert(p < sorted.len());
            if j - 1 > p {
                assert(sorted[p].created_at >= sorted[j - 1].created_at);
            }
        } else {
            assert(out[i] == sorted[i - 1] && out[j] == sorted[j - 1]);
        }
    }
    assert forall|t: i64| #[trigger]
        out.filter(created_at(t)) == (seq![x] + later).filter(created_at(t)) by {
        let pred = created_at(t);
        Seq::filter_distributes_over_add(head, tail, pred);
        Seq::filter_distributes_over_add(head, seq![x], pred);
        Seq::filter_distributes_over_add(head + seq![x], tail, pred);
        Seq::filter_distributes_over_add(seq![x], later, pred);
        assert(sorted.filter(pred) == later.filter(pred));
        reveal_with_fuel(Seq::filter, 2);
        assert(seq![x].drop_last() =~= Seq::<StoredSummaryView>::empty());
        if t == x.created_at {
            assert(seq![x].filter(pred) =~= seq![x]);
            assert forall|k: int| 0 <= k < head.len() implies !pred(#[trigger] head[k]) by {
                assert(head[k] == sorted[k]);
            }
            head.lemma_all_neg_filter_empty(pred);
            assert(head.filter(pred) =~= Seq::<StoredSummaryView>::empty());
            assert(out.filter(pred) =~= seq![x] + sorted.filter(pred));
        } else {
            assert(seq![x].filter(pred) =~= Seq::<StoredSummaryView>::empty());
            assert(out.filter(pred) =~= sorted.filter(pred));
            assert((seq![x] + later).filter(pred) =~= later.filter(pred));
        }
    }
}

/// Sorts records newest first, keeping records of equal age in their order.
pub fn sort_newest_first(records: Vec<StoredSummary>) -> (sorted: Vec<StoredSummary>)
    ensures
        is_listing_of(views(records@), views(sorted@)),
        sorted@.len() == records@.len(),
{
    let ghost input = views(records@);
    let mut rest = records;
    let mut out: Vec<StoredSummary> = Vec::new();
    proof {
        assert(input.subrange(input.len() as int, input.len() as int) =~= Seq::<
            StoredSummaryView,
        >::empty());
        assert(views(out@) =~= Seq::<StoredSummaryView>::empty());
    }
    while rest.len() > 0
        invariant
            views(rest@) == input.subrange(0, rest@.len() as int),
            rest@.len() <= input.len(),
            out@.len() + rest@.len() == input.len(),
            is_listing_of(input.subrange(rest@.len() as int, input.len() as int), views(out@)),
        decreases rest@.len(),
    {
        let ghost before = rest@;
        let ghost later = input.subrange(rest@.len() as int, input.len() as int);
        let x = rest.pop().unwrap();
        let mut p: usize = 0;
        while p < out.len() && out[p].created_at > x.created_at
            invariant
                p <= out@.len(),
                forall|k: int| 0 <= k < p ==> (#[trigger] views(out@)[k]).created_at > x.created_at,
            decreases out@.len() - p,
        {
            p = p + 1;
        }
        proof {
            assert(x@ == input[before.len() - 1]) by {
                assert(views(before)[before.len() - 1] == x@);
            }
            assert(views(rest@) =~= input.subrange(0, rest@.len() as int));
            assert(seq![x@] + later =~= input.subrange(rest@.len() as int, input.len() as int));
            if p < out@.len() {
                assert(views(out@)[p as int].created_at <= x.created_at);
            }
            lemma_insert_keeps_order(views(out@), later, x@, p as int);
            assert(views(out@.insert(p as int, x)) =~= views(out@).insert(p as int, x@));
        }
        out.insert(p, x);
    }
    proof {
        assert(input.subrange(0, input.len() as int) =~= input);
    }
    out
}

} // verus!
