//! The four signal calculations over a price series.
//!
//! A series is a chronologically ordered `Vec<u64>` of price bit patterns
//! (see [`crate::price`]). Every calculation is a pure function of its input
//! and returns `None` — never an error — when the input is semantically
//! invalid for it: an empty series, or a window of fewer than two elements.
//!
//! The minimum and the maximum are computed here in full, as folds of the
//! pointwise NaN-ignoring min/max over the order on bit patterns. The price
//! difference and the windowed simple moving average are computed up to the
//! raw floating-point arithmetic, which cannot be carried out on bit
//! patterns: [`price_diff`] returns the exact operands of the subtraction
//! and the division, and [`n_window_sma`] returns every window whose
//! unweighted mean (sum divided by count) forms one entry of the average
//! sequence. The caller finishes with three float operations and no
//! decisions of its own.

use vstd::prelude::*;

use crate::price::is_nan_bits;
use crate::price::is_zero_bits;
use crate::price::max_bits;
use crate::price::min_bits;
use crate::price::price_key;
use crate::price::price_max;
use crate::price::price_min;
use crate::price::F64_MAX_BITS;
use crate::price::F64_MIN_BITS;
use crate::price::ONE_BITS;

verus! {

/// The minimum of a series: the fold of [`min_bits`] seeded with the
/// largest finite double, as a left fold in series order.
pub open spec fn fold_min(s: Seq<u64>) -> u64
    decreases s.len(),
{
    if s.len() == 0 {
        F64_MAX_BITS
    } else {
        min_bits(fold_min(s.drop_last()), s.last())
    }
}

/// The maximum of a series: the fold of [`max_bits`] seeded with the most
/// negative finite double, as a left fold in series order.
pub open spec fn fold_max(s: Seq<u64>) -> u64
    decreases s.len(),
{
    if s.len() == 0 {
        F64_MIN_BITS
    } else {
        max_bits(fold_max(s.drop_last()), s.last())
    }
}

/// Finds the minimum price of the series; `None` exactly on the empty one.
pub fn min(series: &Vec<u64>) -> (r: Option<u64>)
    ensures
        match r {
            Some(m) => series@.len() > 0 && m == fold_min(series@),
            None => series@.len() == 0,
        },
{
    if series.len() > 0 {
        let mut acc: u64 = F64_MAX_BITS;
        for i in 0..series.len()
            invariant
                acc == fold_min(series@.take(i as int)),
        {
            acc = price_min(acc, series[i]);
            proof {
                assert(series@.take(i + 1).drop_last() =~= series@.take(i as int));
                assert(series@.take(i + 1).last() == series@[i as int]);
            }
        }
        proof {
            assert(series@.take(series@.len() as int) =~= series@);
        }
        Some(acc)
    } else {
        None
    }
}

/// Finds the maximum price of the series; `None` exactly on the empty one.
pub fn max(series: &Vec<u64>) -> (r: Option<u64>)
    ensures
        match r {
            Some(m) => series@.len() > 0 && m == fold_max(series@),
            None => series@.len() == 0,
        },
{
    if series.len() > 0 {
        let mut acc: u64 = F64_MIN_BITS;
        for i in 0..series.len()
            invariant
                acc == fold_max(series@.take(i as int)),
        {
            acc = price_max(acc, series[i]);
            proof {
                assert(series@.take(i + 1).drop_last() =~= series@.take(i as int));
                assert(series@.take(i + 1).last() == series@[i as int]);
            }
        }
        proof {
            assert(series@.take(series@.len() as int) =~= series@);
        }
        Some(acc)
    } else {
        None
    }
}

/// The minimum fold is never NaN: its seed is a number and [`min_bits`]
/// never prefers a NaN over a number.
pub proof fn lemma_fold_min_is_number(s: Seq<u64>)
    ensures
        !is_nan_bits(fold_min(s)),
    decreases s.len(),
{
    crate::price::lemma_seeds_are_numbers();
    if s.len() > 0 {
        lemma_fold_min_is_number(s.drop_last());
    }
}

/// The maximum fold is never NaN.
pub proof fn lemma_fold_max_is_number(s: Seq<u64>)
    ensures
        !is_nan_bits(fold_max(s)),
    decreases s.len(),
{
    crate::price::lemma_seeds_are_numbers();
    if s.len() > 0 {
        lemma_fold_max_is_number(s.drop_last());
    }
}

/// The minimum fold is a lower bound of every element that is a number.
pub proof fn lemma_fold_min_le(s: Seq<u64>, i: int)
    requires
        0 <= i < s.len(),
        !is_nan_bits(s[i]),
    ensures
        price_key(fold_min(s)) <= price_key(s[i]),
    decreases s.len(),
{
    lemma_fold_min_is_number(s.drop_last());
    if i < s.len() - 1 {
        lemma_fold_min_le(s.drop_last(), i);
    }
}

/// The maximum fold is an upper bound of every element that is a number.
pub proof fn lemma_fold_max_ge(s: Seq<u64>, i: int)
    requires
        0 <= i < s.len(),
        !is_nan_bits(s[i]),
    ensures
        price_key(fold_max(s)) >= price_key(s[i]),
    decreases s.len(),
{
    lemma_fold_max_is_number(s.drop_last());
    if i < s.len() - 1 {
        lemma_fold_max_ge(s.drop_last(), i);
    }
}

/// The operands of the price-difference arithmetic: the absolute change is
/// `last - first`, the relative change is the absolute change divided by
/// `denominator`.
#[derive(Clone, Copy, Debug, PartialEq, Eq, Structural)]
pub struct PriceDiffTerms {
    /// The earliest price of the series.
    pub first: u64,
    /// The latest price of the series.
    pub last: u64,
    /// The earliest price, with either zero replaced by `1.0` so that the
    /// division cannot blow up; the relative change then degrades to the
    /// absolute one.
    pub denominator: u64,
}

/// The denominator policy: `1.0` for a zero first price, else the first
/// price itself.
pub open spec fn denominator_bits(first: u64) -> u64 {
    if is_zero_bits(first) {
        ONE_BITS
    } else {
        first
    }
}

/// The price-difference operands of a non-empty series.
pub open spec fn diff_terms(s: Seq<u64>) -> PriceDiffTerms {
    PriceDiffTerms { first: s[0], last: s.last(), denominator: denominator_bits(s[0]) }
}

/// Selects the operands of the price change over the period; `None` exactly
/// on the empty series.
pub fn price_diff(series: &Vec<u64>) -> (r: Option<PriceDiffTerms>)
    ensures
        match r {
            Some(t) => series@.len() > 0 && t == diff_terms(series@),
            None => series@.len() == 0,
        },
{
    if series.len() > 0 {
        let first: u64 = series[0];
        let last: u64 = series[series.len() - 1];
        let denominator: u64 = if crate::price::is_zero(first) {
            ONE_BITS
        } else {
            first
        };
        Some(PriceDiffTerms { first, last, denominator })
    } else {
        None
    }
}

/// A single-element series compares its one price with itself: both
/// operands of the subtraction coincide, so the absolute change and with it
/// the relative change vanish.
pub proof fn lemma_diff_terms_single(s: Seq<u64>)
    requires
        s.len() == 1,
    ensures
        diff_terms(s).first == diff_terms(s).last,
{
}

/// A series that starts at zero divides by `1.0`: the relative change is
/// numerically the absolute change.
pub proof fn lemma_diff_terms_zero_first(s: Seq<u64>)
    requires
        s.len() > 0,
        is_zero_bits(s[0]),
    ensures
        diff_terms(s).denominator == ONE_BITS,
{
}

/// How many windows of length `n` fit into a series of length `len`.
pub open spec fn window_count(n: int, len: int) -> int {
    if n <= len {
        len - n + 1
    } else {
        0
    }
}

/// Every contiguous window of length `n`, in order of its starting
/// position.
pub open spec fn windows_spec(n: int, s: Seq<u64>) -> Seq<Seq<u64>> {
    Seq::new(window_count(n, s.len() as int) as nat, |i: int| s.subrange(i, i + n))
}

/// Slices the series into the windows whose unweighted means form the
/// simple moving average; `None` exactly on the empty series or a window
/// size below two. A series shorter than the window yields `Some` of the
/// empty sequence.
pub fn n_window_sma(n: usize, series: &Vec<u64>) -> (r: Option<Vec<Vec<u64>>>)
    ensures
        match r {
            Some(w) => series@.len() > 0 && n > 1 && w@.len() == window_count(
                n as int,
                series@.len() as int,
            ) && w.deep_view() == windows_spec(n as int, series@),
            None => series@.len() == 0 || n <= 1,
        },
{
    if series.len() > 0 && n > 1 {
        let mut out: Vec<Vec<u64>> = Vec::new();
        if n <= series.len() {
            let count: usize = series.len() - n + 1;
            for i in 0..count
                invariant
                    n > 1,
                    n <= series@.len(),
                    series@.len() <= usize::MAX,
                    count == series@.len() - n + 1,
                    out@.len() == i,
                    forall|k: int|
                        0 <= k < i ==> #[trigger] out@[k]@ == series@.subrange(k, k + n),
            {
                let mut w: Vec<u64> = Vec::new();
                for j in 0..n
                    invariant
                        n <= series@.len(),
                        series@.len() <= usize::MAX,
                        i < count,
                        count == series@.len() - n + 1,
                        w@ == series@.subrange(i as int, i + j),
                {
                    w.push(series[i + j]);
                    proof {
                        assert(series@.subrange(i as int, i + j + 1) =~= series@.subrange(
                            i as int,
                            i + j,
                        ).push(series@[i + j]));
                    }
                }
                out.push(w);
            }
        }
        proof {
            assert(out.deep_view() =~~= windows_spec(n as int, series@));
        }
        Some(out)
    } else {
        None
    }
}

/// Every element of a series that is a number lies between the computed
/// minimum and the computed maximum, in the order on price keys.
pub proof fn lemma_min_max_bound(s: Seq<u64>, i: int)
    requires
        0 <= i < s.len(),
        !is_nan_bits(s[i]),
    ensures
        price_key(fold_min(s)) <= price_key(s[i]),
        price_key(s[i]) <= price_key(fold_max(s)),
{
    lemma_fold_min_le(s, i);
    lemma_fold_max_ge(s, i);
}

/// The minimum fold never invents a price: it returns its seed or an
/// element of the series.
pub proof fn lemma_fold_min_is_seed_or_element(s: Seq<u64>)
    ensures
        fold_min(s) == F64_MAX_BITS || exists|i: int| 0 <= i < s.len() && s[i] == fold_min(s),
    decreases s.len(),
{
    if s.len() > 0 {
        let rest = s.drop_last();
        lemma_fold_min_is_seed_or_element(rest);
        if fold_min(s) == s.last() {
            assert(s[s.len() - 1] == fold_min(s));
        } else {
            assert(fold_min(s) == fold_min(rest));
            if fold_min(rest) != F64_MAX_BITS {
                let i = choose|i: int| 0 <= i < rest.len() && rest[i] == fold_min(rest);
                assert(s[i] == fold_min(s));
            }
        }
    }
}

/// The maximum fold never invents a price: it returns its seed or an
/// element of the series.
pub proof fn lemma_fold_max_is_seed_or_element(s: Seq<u64>)
    ensures
        fold_max(s) == F64_MIN_BITS || exists|i: int| 0 <= i < s.len() && s[i] == fold_max(s),
    decreases s.len(),
{
    if s.len() > 0 {
        let rest = s.drop_last();
        lemma_fold_max_is_seed_or_element(rest);
        if fold_max(s) == s.last() {
            assert(s[s.len() - 1] == fold_max(s));
        } else {
            assert(fold_max(s) == fold_max(rest));
            if fold_max(rest) != F64_MIN_BITS {
                let i = choose|i: int| 0 <= i < rest.len() && rest[i] == fold_max(rest);
                assert(s[i] == fold_max(s));
            }
        }
    }
}

/// The common interface of the signal calculations: a pure, stateless
/// computation from a price series to an optional result, absent whenever
/// the series is semantically invalid for the signal. A signal holds no
/// mutable state, so one instance is safe to share across concurrent
/// invocations, typically one per symbol being fetched.
pub trait AsyncStockSignal {
    /// The signal's data type.
    type SignalType;

    /// Pins down the result that `calculate` returns on a given series.
    spec fn signal_holds(&self, series: Seq<u64>, result: Option<Self::SignalType>) -> bool;

    /// Every signal is absent on the empty series.
    proof fn absent_on_empty(&self, result: Option<Self::SignalType>)
        requires
            self.signal_holds(Seq::empty(), result),
        ensures
            result is None,
    ;

    /// Calculates the signal on the provided series.
    fn calculate(&self, series: &Vec<u64>) -> (result: Option<Self::SignalType>)
        ensures
            self.signal_holds(series@, result),
    ;
}

/// The signal that finds the minimum price of the series.
pub struct MinPrice;

impl AsyncStockSignal for MinPrice {
    type SignalType = u64;

    open spec fn signal_holds(&self, series: Seq<u64>, result: Option<u64>) -> bool {
        match result {
            Some(m) => series.len() > 0 && m == fold_min(series),
            None => series.len() == 0,
        }
    }

    proof fn absent_on_empty(&self, result: Option<u64>) {
    }

    fn calculate(&self, series: &Vec<u64>) -> (result: Option<u64>) {
        min(series)
    }
}

/// The signal that finds the maximum price of the series.
pub struct MaxPrice;

impl AsyncStockSignal for MaxPrice {
    type SignalType = u64;

    open spec fn signal_holds(&self, series: Seq<u64>, result: Option<u64>) -> bool {
        match result {
            Some(m) => series.len() > 0 && m == fold_max(series),
            None => series.len() == 0,
        }
    }

    proof fn absent_on_empty(&self, result: Option<u64>) {
    }

    fn calculate(&self, series: &Vec<u64>) -> (result: Option<u64>) {
        max(series)
    }
}

/// The signal that selects the operands of the price change over the
/// period.
pub struct PriceDifference;

impl AsyncStockSignal for PriceDifference {
    type SignalType = PriceDiffTerms;

    open spec fn signal_holds(&self, series: Seq<u64>, result: Option<PriceDiffTerms>) -> bool {
        match result {
            Some(t) => series.len() > 0 && t == diff_terms(series),
            None => series.len() == 0,
        }
    }

    proof fn absent_on_empty(&self, result: Option<PriceDiffTerms>) {
    }

    fn calculate(&self, series: &Vec<u64>) -> (result: Option<PriceDiffTerms>) {
        price_diff(series)
    }
}

/// The signal that slices the series into the windows of the simple moving
/// average.
pub struct WindowedSMA {
    /// How many prices each window holds; at least two for a result.
    pub window_size: usize,
}

impl AsyncStockSignal for WindowedSMA {
    type SignalType = Vec<Vec<u64>>;

    open spec fn signal_holds(&self, series: Seq<u64>, result: Option<Vec<Vec<u64>>>) -> bool {
        match result {
            Some(w) => series.len() > 0 && self.window_size > 1 && w.deep_view() == windows_spec(
                self.window_size as int,
                series,
            ),
            None => series.len() == 0 || self.window_size <= 1,
        }
    }

    proof fn absent_on_empty(&self, result: Option<Vec<Vec<u64>>>) {
    }

    fn calculate(&self, series: &Vec<u64>) -> (result: Option<Vec<Vec<u64>>>) {
        n_window_sma(self.window_size, series)
    }
}

} // verus!
