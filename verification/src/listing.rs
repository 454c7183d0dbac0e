//! Listing rows: which rows are shown, and in what order.
//!
//! A listing keeps the rows that are shown and puts them in display order. Rows
//! that tie in that order keep the order in which the store handed them over.

use vstd::prelude::*;

verus! {

/// A row that has a place in a listing.
pub trait Listed: DeepView + Sized {
    /// Whether the row is active, and so may be shown at all.
    spec fn active(row: Self::V) -> bool;

    /// Whether `a` may stand before `b` in a listing.
    spec fn precedes(a: Self::V, b: Self::V) -> bool;

    /// Of any two rows one may stand before the other, and a row that may stand
    /// before a second may stand before every row that the second may stand
    /// before.
    proof fn lemma_precedes_orders(a: Self::V, b: Self::V, c: Self::V)
        ensures
            Self::precedes(a, b) || Self::precedes(b, a),
            Self::precedes(a, b) && Self::precedes(b, c) ==> Self::precedes(a, c),
    ;

    /// Whether the row is active.
    fn is_active(&self) -> (b: bool)
        ensures
            b == Self::active(self.deep_view()),
    ;

    /// Whether the row may stand before `other` in a listing.
    fn comes_before(&self, other: &Self) -> (b: bool)
        ensures
            b == Self::precedes(self.deep_view(), other.deep_view()),
    ;
}

/// Whether `rows` stand in display order.
pub open spec fn in_display_order<T: Listed>(rows: Seq<T::V>) -> bool {
    forall|i: int, j: int|
        0 <= i < j < rows.len() ==> T::precedes(#[trigger] rows[i], #[trigger] rows[j])
}

/// The active rows among `rows`, in the order in which `rows` holds them.
pub open spec fn active_of<T: Listed>(rows: Seq<T::V>) -> Seq<T::V> {
    rows.filter(|r: T::V| T::active(r))
}

/// Keeps the active rows, in the order in which they were given.
pub fn keep_active<T: Listed>(rows: Vec<T>) -> (kept: Vec<T>)
    ensures
        kept.deep_view() == active_of::<T>(rows.deep_view()),
{
    let ghost given = rows@;
    let ghost pred = |r: T::V| T::active(r);
    let mut kept: Vec<T> = Vec::new();
    proof {
        reveal(Seq::filter);
        assert(rows.deep_view().take(0) =~= Seq::<T::V>::empty());
        assert(kept.deep_view() =~= Seq::<T::V>::empty());
    }
    for row in it: rows.into_iter()
        invariant
            it.seq() == given,
            given == rows@,
            pred == |r: T::V| T::active(r),
            kept.deep_view() == rows.deep_view().take(it.index() as int).filter(pred),
    {
        let ghost before = kept.deep_view();
        let ghost i = it.index() as int;
        proof {
            let head = rows.deep_view().take(i + 1);
            assert(head.drop_last() =~= rows.deep_view().take(i));
            assert(head.last() == row.deep_view());
            reveal(Seq::filter);
        }
        if row.is_active() {
            kept.push(row);
            assert(kept.deep_view() =~= before.push(rows.deep_view()[i]));
        }
    }
    proof {
        assert(rows.deep_view().take(rows.deep_view().len() as int) =~= rows.deep_view());
    }
    kept
}

/// Whether neither of two rows has to stand before the other.
pub open spec fn tied<T: Listed>(a: T::V, b: T::V) -> bool {
    T::precedes(a, b) && T::precedes(b, a)
}

/// The rows among `rows` that tie with `row`, in the order in which `rows` holds them.
pub open spec fn ties_of<T: Listed>(rows: Seq<T::V>, row: T::V) -> Seq<T::V> {
    rows.filter(|r: T::V| tied::<T>(row, r))
}

/// Whether `out` is `rows` put in display order: the same rows, each as often as
/// it was given, in display order, and rows that tie in the order in which `rows`
/// holds them.
pub open spec fn arranged<T: Listed>(out: Seq<T::V>, rows: Seq<T::V>) -> bool {
    &&& in_display_order::<T>(out)
    &&& out.to_multiset() == rows.to_multiset()
    &&& forall|row: T::V| #[trigger] ties_of::<T>(out, row) == ties_of::<T>(rows, row)
}

/// The rows of `rows` that tie with `row`: those that tie among the rows behind
/// the first, with the first row in front where it ties too.
proof fn lemma_ties_of_first<T: Listed>(rows: Seq<T::V>, row: T::V)
    requires
        rows.len() > 0,
    ensures
        ties_of::<T>(rows, row) == if tied::<T>(row, rows[0]) {
            seq![rows[0]] + ties_of::<T>(rows.skip(1), row)
        } else {
            ties_of::<T>(rows.skip(1), row)
        },
{
    let pred = |r: T::V| tied::<T>(row, r);
    let first = seq![rows[0]];
    assert(rows =~= first + rows.skip(1));
    Seq::filter_distributes_over_add(first, rows.skip(1), pred);
    reveal_with_fuel(Seq::filter, 2);
    assert(first.drop_last() =~= Seq::<T::V>::empty());
    if tied::<T>(row, rows[0]) {
        assert(first.filter(pred) =~= first);
    } else {
        assert(first.filter(pred) =~= Seq::<T::V>::empty());
        assert(first.filter(pred) + rows.skip(1).filter(pred) =~= rows.skip(1).filter(pred));
    }
}

/// Two arrangements of the same rows are the same: what [`arranged`] asks of
/// a sequence, one sequence meets and no other.
pub proof fn lemma_arranged_unique<T: Listed>(a: Seq<T::V>, b: Seq<T::V>, rows: Seq<T::V>)
    requires
        arranged::<T>(a, rows),
        arranged::<T>(b, rows),
    ensures
        a == b,
    decreases a.len(),
{
    vstd::seq_lib::to_multiset_len(a);
    vstd::seq_lib::to_multiset_len(b);
    if a.len() == 0 {
        assert(a =~= b);
    } else {
        let x = a[0];
        let y = b[0];
        // the first rows tie
        vstd::seq_lib::to_multiset_contains(a, y);
        vstd::seq_lib::to_multiset_contains(b, y);
        vstd::seq_lib::to_multiset_contains(a, x);
        vstd::seq_lib::to_multiset_contains(b, x);
        assert(b.contains(y));
        assert(a.contains(x));
        let k = choose|k: int| 0 <= k < a.len() && a[k] == y;
        let m = choose|m: int| 0 <= m < b.len() && b[m] == x;
        T::lemma_precedes_orders(x, x, x);
        T::lemma_precedes_orders(y, y, y);
        assert(T::precedes(x, y)) by {
            if k > 0 {
                assert(T::precedes(a[0], a[k]));
            }
        }
        assert(T::precedes(y, x)) by {
            if m > 0 {
                assert(T::precedes(b[0], b[m]));
            }
        }
        // so they are the same row
        lemma_ties_of_first::<T>(a, x);
        lemma_ties_of_first::<T>(b, x);
        assert(ties_of::<T>(a, x) == ties_of::<T>(b, x));
        assert(ties_of::<T>(a, x)[0] == x);
        assert(ties_of::<T>(b, x)[0] == y);
        assert(x == y);
        // and what follows them is arranged alike
        let a1 = a.skip(1);
        let b1 = b.skip(1);
        assert(a1 =~= a.remove(0));
        assert(b1 =~= b.remove(0));
        vstd::seq_lib::to_multiset_remove(a, 0);
        vstd::seq_lib::to_multiset_remove(b, 0);
        assert forall|i: int, j: int| 0 <= i < j < a1.len() implies T::precedes(
            #[trigger] a1[i],
            #[trigger] a1[j],
        ) by {
            assert(T::precedes(a[i + 1], a[j + 1]));
        }
        assert forall|i: int, j: int| 0 <= i < j < b1.len() implies T::precedes(
            #[trigger] b1[i],
            #[trigger] b1[j],
        ) by {
            assert(T::precedes(b[i + 1], b[j + 1]));
        }
        assert forall|row: T::V| #[trigger] ties_of::<T>(a1, row) == ties_of::<T>(b1, row) by {
            lemma_ties_of_first::<T>(a, row);
            lemma_ties_of_first::<T>(b, row);
            assert(ties_of::<T>(a, row) == ties_of::<T>(b, row));
            let ta = ties_of::<T>(a1, row);
            let tb = ties_of::<T>(b1, row);
            if tied::<T>(row, x) {
                assert(ta.len() == tb.len()) by {
                    assert((seq![x] + ta).len() == (seq![x] + tb).len());
                }
                assert forall|i: int| 0 <= i < ta.len() implies ta[i] == tb[i] by {
                    assert((seq![x] + ta)[i + 1] == (seq![x] + tb)[i + 1]);
                }
                assert(ta =~= tb);
            }
        }
        lemma_arranged_unique::<T>(a1, b1, b1);
        assert(a =~= seq![x] + a1);
        assert(b =~= seq![y] + b1);
    }
}

/// A row that joins a listing at its place ties with the same rows, in the same
/// order, as when it joins at the end.
proof fn lemma_ties_after_insert<T: Listed>(out: Seq<T::V>, at: int, v: T::V, row: T::V)
    requires
        in_display_order::<T>(out),
        0 <= at <= out.len(),
        forall|i: int| 0 <= i < at ==> T::precedes(#[trigger] out[i], v),
        at < out.len() ==> !T::precedes(out[at], v),
    ensures
        ties_of::<T>(out.insert(at, v), row) == ties_of::<T>(out.push(v), row),
{
    let pred = |r: T::V| tied::<T>(row, r);
    let head = out.subrange(0, at);
    let tail = out.subrange(at, out.len() as int);
    assert(out.insert(at, v) =~= (head + seq![v]) + tail);
    assert(out.push(v) =~= (head + tail) + seq![v]);
    Seq::filter_distributes_over_add(head + seq![v], tail, pred);
    Seq::filter_distributes_over_add(head, seq![v], pred);
    Seq::filter_distributes_over_add(head + tail, seq![v], pred);
    Seq::filter_distributes_over_add(head, tail, pred);
    if tied::<T>(row, v) {
        assert forall|j: int| 0 <= j < tail.len() implies !pred(#[trigger] tail[j]) by {
            let x = tail[j];
            assert(x == out[at + j]);
            if pred(x) {
                T::lemma_precedes_orders(x, row, v);
                if j > 0 {
                    assert(T::precedes(out[at], out[at + j]));
                }
                T::lemma_precedes_orders(out[at], x, v);
            }
        }
        assert(tail.all(|x: T::V| !pred(x)));
        tail.lemma_all_neg_filter_empty(pred);
        assert(tail.filter(pred) =~= Seq::<T::V>::empty());
        assert((head.filter(pred) + seq![v].filter(pred)) + tail.filter(pred) =~= (head.filter(pred)
            + tail.filter(pred)) + seq![v].filter(pred));
    } else {
        assert(seq![v].all(|x: T::V| !pred(x)));
        seq![v].lemma_all_neg_filter_empty(pred);
        assert(seq![v].filter(pred) =~= Seq::<T::V>::empty());
        assert((head.filter(pred) + seq![v].filter(pred)) + tail.filter(pred) =~= (head.filter(pred)
            + tail.filter(pred)) + seq![v].filter(pred));
    }
}

/// Appending the same row to two sequences with the same ties keeps the ties the same.
proof fn lemma_ties_after_push<T: Listed>(a: Seq<T::V>, b: Seq<T::V>, v: T::V, row: T::V)
    requires
        ties_of::<T>(a, row) == ties_of::<T>(b, row),
    ensures
        ties_of::<T>(a.push(v), row) == ties_of::<T>(b.push(v), row),
{
    let pred = |r: T::V| tied::<T>(row, r);
    assert(a.push(v) =~= a + seq![v]);
    assert(b.push(v) =~= b + seq![v]);
    Seq::filter_distributes_over_add(a, seq![v], pred);
    Seq::filter_distributes_over_add(b, seq![v], pred);
}

/// Puts `rows` in display order.
///
/// The result holds the same rows, each as often as it was given, and stands in
/// display order; rows that tie keep the order in which they were given.
pub fn arrange<T: Listed>(rows: Vec<T>) -> (out: Vec<T>)
    ensures
        arranged::<T>(out.deep_view(), rows.deep_view()),
{
    let mut rest = rows;
    let mut out: Vec<T> = Vec::new();
    let ghost mut done: Seq<T::V> = Seq::empty();
    proof {
        assert(out.deep_view() =~= Seq::<T::V>::empty());
        assert(done + rest.deep_view() =~= rows.deep_view());
    }
    while rest.len() > 0
        invariant
            arranged::<T>(out.deep_view(), done),
            done + rest.deep_view() == rows.deep_view(),
        decreases rest.len(),
    {
        let ghost rest_before = rest.deep_view();
        let ghost out_before = out.deep_view();
        let row = rest.remove(0);
        assert(rest.deep_view() =~= rest_before.remove(0));
        assert(row.deep_view() == rest_before[0]);
        let at = place_of(&out, &row);
        out.insert(at, row);
        proof {
            let v = rest_before[0];
            assert(out.deep_view() =~= out_before.insert(at as int, v));
            vstd::seq_lib::to_multiset_insert(out_before, at as int, v);
            vstd::seq_lib::to_multiset_build(done, v);
            assert(done.push(v) + rest.deep_view() =~= done + rest_before);
            assert forall|row: T::V| #[trigger]
                ties_of::<T>(out.deep_view(), row) == ties_of::<T>(done.push(v), row) by {
                lemma_ties_after_insert::<T>(out_before, at as int, v, row);
                lemma_ties_after_push::<T>(out_before, done, v, row);
            }
            done = done.push(v);
            assert forall|i: int, j: int| 0 <= i < j < out.deep_view().len() implies T::precedes(
                #[trigger] out.deep_view()[i],
                #[trigger] out.deep_view()[j],
            ) by {
                let s = out.deep_view();
                if i == at && j > at {
                    assert(s[j] == out_before[j - 1]);
                    assert(T::precedes(v, out_before[at as int])) by {
                        T::lemma_precedes_orders(v, out_before[at as int], v);
                    }
                    if j - 1 > at {
                        assert(T::precedes(out_before[at as int], out_before[j - 1]));
                    }
                    T::lemma_precedes_orders(v, out_before[at as int], out_before[j - 1]);
                } else if j == at {
                    assert(s[i] == out_before[i]);
                } else if j < at {
                    assert(s[i] == out_before[i]);
                    assert(s[j] == out_before[j]);
                } else if i < at {
                    assert(s[i] == out_before[i]);
                    assert(s[j] == out_before[j - 1]);
                } else {
                    assert(s[i] == out_before[i - 1]);
                    assert(s[j] == out_before[j - 1]);
                }
            }
        }
    }
    proof {
        assert(rest.deep_view() =~= Seq::<T::V>::empty());
        assert(done + rest.deep_view() =~= done);
    }
    out
}

/// Whether `out` is the listing of `rows`: the active rows among them, put in
/// display order.
pub open spec fn is_listing<T: Listed>(out: Seq<T::V>, rows: Seq<T::V>) -> bool {
    arranged::<T>(out, active_of::<T>(rows))
}

/// A listing holds the active rows that were given, and no others: no row that
/// is not active is ever listed, and no active row is left out.
pub proof fn lemma_listing_holds_active_rows<T: Listed>(out: Seq<T::V>, rows: Seq<T::V>, row: T::V)
    requires
        is_listing::<T>(out, rows),
    ensures
        out.contains(row) <==> rows.contains(row) && T::active(row),
{
    let pred = |r: T::V| T::active(r);
    let kept = rows.filter(pred);
    vstd::seq_lib::to_multiset_contains(out, row);
    vstd::seq_lib::to_multiset_contains(kept, row);
    if kept.contains(row) {
        rows.lemma_filter_contains_rev(pred, row);
        let i = choose|i: int| 0 <= i < kept.len() && kept[i] == row;
        rows.lemma_filter_pred(pred, i);
    }
    if rows.contains(row) && T::active(row) {
        let i = choose|i: int| 0 <= i < rows.len() && rows[i] == row;
        rows.lemma_filter_contains(pred, i);
    }
}

/// The rows given have one listing and no other.
pub proof fn lemma_listing_unique<T: Listed>(a: Seq<T::V>, b: Seq<T::V>, rows: Seq<T::V>)
    requires
        is_listing::<T>(a, rows),
        is_listing::<T>(b, rows),
    ensures
        a == b,
{
    lemma_arranged_unique::<T>(a, b, active_of::<T>(rows));
}

/// A listing holds each active row as often as it was given.
pub proof fn lemma_listing_counts_rows<T: Listed>(out: Seq<T::V>, rows: Seq<T::V>)
    requires
        is_listing::<T>(out, rows),
    ensures
        out.to_multiset() == active_of::<T>(rows).to_multiset(),
        out.len() == active_of::<T>(rows).len(),
        out.len() <= rows.len(),
{
    vstd::seq_lib::to_multiset_len(out);
    vstd::seq_lib::to_multiset_len(active_of::<T>(rows));
    rows.lemma_filter_len(|r: T::V| T::active(r));
}

/// Lists `rows`: drops the rows that are not active and puts the others in
/// display order.
pub fn list<T: Listed>(rows: Vec<T>) -> (out: Vec<T>)
    ensures
        is_listing::<T>(out.deep_view(), rows.deep_view()),
{
    arrange(keep_active(rows))
}

/// The place at which `row` joins `rows`: behind every row that may stand before
/// it, and in front of the first row that may not.
fn place_of<T: Listed>(rows: &Vec<T>, row: &T) -> (at: usize)
    requires
        in_display_order::<T>(rows.deep_view()),
    ensures
        at <= rows.len(),
        forall|i: int| 0 <= i < at ==> T::precedes(#[trigger] rows.deep_view()[i], row.deep_view()),
        at < rows.len() ==> !T::precedes(rows.deep_view()[at as int], row.deep_view()),
{
    let mut at: usize = 0;
    while at < rows.len() && rows[at].comes_before(row)
        invariant
            at <= rows.len(),
            forall|i: int| 0 <= i < at ==> T::precedes(#[trigger] rows.deep_view()[i], row.deep_view()),
        decreases rows.len() - at,
    {
        at = at + 1;
    }
    at
}

} // verus!
