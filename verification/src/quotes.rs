//! Ordering raw quotes into a chronological price series.
//!
//! A quote pairs a trading day's timestamp with the adjusted closing price
//! of that day, the price as a bit pattern (see [`crate::price`]). The data
//! source hands quotes in arbitrary order; [`closing_prices`] sorts them by
//! ascending timestamp — stably, so that quotes of one timestamp keep their
//! arrival order — and extracts the closing prices.

use vstd::prelude::*;
use vstd::assert_seqs_equal;

verus! {

/// One day's quote: the timestamp of the trading day, in seconds, and the
/// adjusted closing price as a bit pattern.
#[derive(Clone, Copy, Debug, PartialEq, Eq, Structural)]
pub struct Quote {
    /// Seconds since the epoch of the trading day.
    pub timestamp: u64,
    /// Bit pattern of the adjusted closing price.
    pub adjclose: u64,
}

/// Inserts a quote into a run of quotes, behind every quote whose timestamp
/// does not exceed its own: into a sorted run this keeps the run sorted,
/// and a new quote lands behind its equals.
pub open spec fn insert_by_time(q: Quote, s: Seq<Quote>) -> Seq<Quote>
    decreases s.len(),
{
    if s.len() == 0 {
        seq![q]
    } else if q.timestamp < s[0].timestamp {
        seq![q] + s
    } else {
        seq![s[0]] + insert_by_time(q, s.drop_first())
    }
}

/// The stable sort by ascending timestamp: each quote in series order is
/// inserted behind its equals.
pub open spec fn sort_by_time(s: Seq<Quote>) -> Seq<Quote>
    decreases s.len(),
{
    if s.len() == 0 {
        Seq::empty()
    } else {
        insert_by_time(s.last(), sort_by_time(s.drop_last()))
    }
}

/// A run of quotes is sorted when no later quote has an earlier timestamp.
pub open spec fn sorted_by_time(s: Seq<Quote>) -> bool {
    forall|i: int, j: int| 0 <= i <= j < s.len() ==> s[i].timestamp <= s[j].timestamp
}

/// Inserting at the first position whose quote is strictly later is what
/// [`insert_by_time`] does.
proof fn lemma_insert_at(q: Quote, s: Seq<Quote>, j: int)
    requires
        0 <= j <= s.len(),
        forall|k: int| 0 <= k < j ==> s[k].timestamp <= q.timestamp,
        j < s.len() ==> q.timestamp < s[j].timestamp,
    ensures
        insert_by_time(q, s) == s.insert(j, q),
    decreases j,
{
    if j == 0 {
        assert_seqs_equal!(insert_by_time(q, s), s.insert(0, q));
    } else {
        assert(s[0].timestamp <= q.timestamp);
        lemma_insert_at(q, s.drop_first(), j - 1);
        assert_seqs_equal!(seq![s[0]] + s.drop_first().insert(j - 1, q), s.insert(j, q));
    }
}

/// Every quote of an insertion is the inserted quote or one of the run.
proof fn lemma_insert_elems(q: Quote, s: Seq<Quote>)
    ensures
        insert_by_time(q, s).len() == s.len() + 1,
        forall|k: int|
            0 <= k < insert_by_time(q, s).len() ==> insert_by_time(q, s)[k] == q || (exists|m: int|
                0 <= m < s.len() && s[m] == #[trigger] insert_by_time(q, s)[k]),
    decreases s.len(),
{
    if s.len() == 0 {
    } else if q.timestamp < s[0].timestamp {
        assert forall|k: int| 0 <= k < insert_by_time(q, s).len() implies insert_by_time(q, s)[k]
            == q || (exists|m: int|
            0 <= m < s.len() && s[m] == insert_by_time(q, s)[k]) by {
            if k > 0 {
                assert(s[k - 1] == insert_by_time(q, s)[k]);
            }
        }
    } else {
        lemma_insert_elems(q, s.drop_first());
        assert forall|k: int| 0 <= k < insert_by_time(q, s).len() implies insert_by_time(q, s)[k]
            == q || (exists|m: int|
            0 <= m < s.len() && s[m] == insert_by_time(q, s)[k]) by {
            if k > 0 {
                let inner = insert_by_time(q, s.drop_first());
                assert(insert_by_time(q, s)[k] == inner[k - 1]);
                if inner[k - 1] != q {
                    let m = choose|m: int| 0 <= m < s.drop_first().len() && s.drop_first()[m]
                        == inner[k - 1];
                    assert(s[m + 1] == insert_by_time(q, s)[k]);
                }
            } else {
                assert(s[0] == insert_by_time(q, s)[0]);
            }
        }
    }
}

/// Inserting into a sorted run keeps it sorted.
proof fn lemma_insert_sorted(q: Quote, s: Seq<Quote>)
    requires
        sorted_by_time(s),
    ensures
        sorted_by_time(insert_by_time(q, s)),
    decreases s.len(),
{
    if s.len() == 0 {
    } else if q.timestamp < s[0].timestamp {
    } else {
        assert(sorted_by_time(s.drop_first()));
        lemma_insert_sorted(q, s.drop_first());
        lemma_insert_elems(q, s.drop_first());
        let r = insert_by_time(q, s);
        let inner = insert_by_time(q, s.drop_first());
        assert forall|i: int, j: int| 0 <= i <= j < r.len() implies r[i].timestamp
            <= r[j].timestamp by {
            if i == 0 && j > 0 {
                assert(r[j] == inner[j - 1]);
                if inner[j - 1] != q {
                    let m = choose|m: int| 0 <= m < s.drop_first().len() && s.drop_first()[m]
                        == inner[j - 1];
                    assert(s[0].timestamp <= s[m + 1].timestamp);
                }
            }
        }
    }
}

/// An insertion adds the one quote to the run and drops none.
proof fn lemma_insert_multiset(q: Quote, s: Seq<Quote>)
    ensures
        insert_by_time(q, s).to_multiset() == s.to_multiset().insert(q),
    decreases s.len(),
{
    broadcast use vstd::multiset::group_multiset_axioms;

    if s.len() == 0 || q.timestamp < s[0].timestamp {
        assert(insert_by_time(q, s) =~= s.insert(0, q));
        vstd::seq_lib::to_multiset_insert(s, 0, q);
    } else {
        let rest = s.drop_first();
        let inner = insert_by_time(q, rest);
        lemma_insert_multiset(q, rest);
        assert(insert_by_time(q, s) =~= inner.insert(0, s[0]));
        vstd::seq_lib::to_multiset_insert(inner, 0, s[0]);
        assert(s =~= rest.insert(0, s[0]));
        vstd::seq_lib::to_multiset_insert(rest, 0, s[0]);
        assert(rest.to_multiset().insert(q).insert(s[0]) =~= rest.to_multiset().insert(
            s[0],
        ).insert(q));
    }
}

/// The sort is a permutation: it neither invents nor drops a quote.
pub proof fn lemma_sort_by_time_multiset(s: Seq<Quote>)
    ensures
        sort_by_time(s).to_multiset() == s.to_multiset(),
    decreases s.len(),
{
    broadcast use vstd::seq_lib::group_to_multiset_ensures;

    if s.len() == 0 {
        assert(s =~= Seq::<Quote>::empty());
    } else {
        lemma_sort_by_time_multiset(s.drop_last());
        lemma_insert_multiset(s.last(), sort_by_time(s.drop_last()));
        assert(s =~= s.drop_last().push(s.last()));
        assert(s.drop_last().push(s.last()).to_multiset() == s.drop_last().to_multiset().insert(
            s.last(),
        ));
    }
}

/// The sort is sorted: the closing prices come out in chronological order.
pub proof fn lemma_sort_by_time_sorted(s: Seq<Quote>)
    ensures
        sorted_by_time(sort_by_time(s)),
        sort_by_time(s).len() == s.len(),
    decreases s.len(),
{
    if s.len() > 0 {
        lemma_sort_by_time_sorted(s.drop_last());
        lemma_insert_sorted(s.last(), sort_by_time(s.drop_last()));
        lemma_insert_elems(s.last(), sort_by_time(s.drop_last()));
    }
}

/// Produces the closing prices of the quotes in chronological order: the
/// adjusted closes read off the stable sort by timestamp.
pub fn closing_prices(quotes: &Vec<Quote>) -> (r: Vec<u64>)
    ensures
        r@ == sort_by_time(quotes@).map_values(|q: Quote| q.adjclose),
        r@.len() == quotes@.len(),
{
    proof {
        lemma_sort_by_time_sorted(quotes@);
    }
    let mut sorted: Vec<Quote> = Vec::new();
    for i in 0..quotes.len()
        invariant
            sorted@ == sort_by_time(quotes@.take(i as int)),
    {
        let q: Quote = quotes[i];
        let mut j: usize = 0;
        while j < sorted.len() && sorted[j].timestamp <= q.timestamp
            invariant
                j <= sorted@.len(),
                forall|k: int| 0 <= k < j ==> sorted@[k].timestamp <= q.timestamp,
            decreases sorted@.len() - j,
        {
            j = j + 1;
        }
        proof {
            lemma_insert_at(q, sorted@, j as int);
            assert(quotes@.take(i + 1).drop_last() =~= quotes@.take(i as int));
            assert(quotes@.take(i + 1).last() == quotes@[i as int]);
        }
        sorted.insert(j, q);
    }
    proof {
        assert(quotes@.take(quotes@.len() as int) =~= quotes@);
    }
    let mut out: Vec<u64> = Vec::new();
    for i in 0..sorted.len()
        invariant
            sorted@ == sort_by_time(quotes@),
            out@.len() == i,
            forall|k: int| 0 <= k < i ==> out@[k] == sorted@[k].adjclose,
    {
        out.push(sorted[i].adjclose);
    }
    proof {
        assert_seqs_equal!(out@, sort_by_time(quotes@).map_values(|q: Quote| q.adjclose));
    }
    out
}

} // verus!
