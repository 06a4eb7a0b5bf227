//! [`FrequencySpectrum`]: the frequencies of a signal with their values, a few
//! statistics of the values, and lookups by frequency.
use crate::arithmetic::{Arithmetic, Operation};
use crate::error::SpectrumAnalyzerError;
use crate::frequency::{Frequency, FrequencyValue, OrderableF32};
use crate::ieee::{
    approx_eq, equal, greater_or_equal, greater_than, is_finite, less_or_equal, less_than,
    spec_approx_eq, spec_equal, spec_greater_or_equal, spec_greater_than, spec_is_finite,
    spec_is_nan, spec_less_or_equal, spec_less_than, spec_truncate, truncate, HALF, ONE, TEN, TWO,
    ZERO,
};
use crate::scaling::SpectrumDataStats;
use std::collections::BTreeMap;
use vstd::prelude::*;

verus! {

/// The values of a sequence of entries, as encoded numbers.
pub open spec fn values_of(entries: Seq<(Frequency, FrequencyValue)>) -> Seq<u32> {
    Seq::new(entries.len(), |i: int| entries[i].1.bits)
}

/// `sorted` holds the entries of `data`, each one once: the entry at `j`
/// comes from `origin[j]` in `data`, and the entry at `i` in `data` went to
/// `position[i]`.
pub open spec fn is_rearrangement(
    data: Seq<(Frequency, FrequencyValue)>,
    sorted: Seq<(Frequency, FrequencyValue)>,
    origin: Seq<int>,
    position: Seq<int>,
) -> bool {
    &&& sorted.len() == data.len()
    &&& origin.len() == data.len()
    &&& position.len() == data.len()
    &&& forall|j: int|
        0 <= j < sorted.len() ==> 0 <= #[trigger] origin[j] < data.len() && sorted[j]
            == data[origin[j]] && position[origin[j]] == j
    &&& forall|i: int|
        0 <= i < data.len() ==> 0 <= #[trigger] position[i] < sorted.len() && origin[position[i]]
            == i
}

/// `sorted` holds the entries of `data` in ascending order of their values
/// and, where values are equal, in the order in which `data` holds them.
pub open spec fn is_sorted_by_value(
    data: Seq<(Frequency, FrequencyValue)>,
    sorted: Seq<(Frequency, FrequencyValue)>,
) -> bool {
    &&& forall|j: int, k: int|
        0 <= j < k < sorted.len() ==> (#[trigger] sorted[j]).1.key() <= (#[trigger] sorted[k]).1.key()
    &&& exists|origin: Seq<int>, position: Seq<int>|
        {
            &&& #[trigger] is_rearrangement(data, sorted, origin, position)
            &&& forall|j: int, k: int|
                0 <= j < k < sorted.len() && sorted[j].1.key() == sorted[k].1.key()
                    ==> #[trigger] origin[j] < #[trigger] origin[k]
        }
}

/// `slice::sort_by` of std, with [`OrderableF32::cmp`] on the values as the
/// comparison. The slice is sorted in place in ascending order, and the sort
/// is stable: it keeps the order of what compares as equal. The comparison
/// is total, which the sort asks for.
#[verifier::external_body]
fn sort_by_value(buffer: &mut Vec<(Frequency, FrequencyValue)>)
    ensures
        is_sorted_by_value(old(buffer)@, final(buffer)@),
{
    buffer.sort_by(|l, r| l.1.cmp(&r.1));
}

/// What a [`FrequencySpectrum`] holds.
pub struct SpectrumView {
    /// The entries, from the lowest frequency to the highest.
    pub data: Seq<(Frequency, FrequencyValue)>,
    /// The distance between two neighbouring frequencies in Hertz.
    pub frequency_resolution: u32,
    /// The number of samples that were analysed.
    pub samples_len: u32,
    /// The mean of the values.
    pub average: FrequencyValue,
    /// The median of the values.
    pub median: FrequencyValue,
    /// The entry with the lowest value.
    pub min: (Frequency, FrequencyValue),
    /// The entry with the highest value.
    pub max: (Frequency, FrequencyValue),
}

impl SpectrumView {
    /// There are two entries at least.
    pub open spec fn wf(self) -> bool {
        self.data.len() >= 2
    }

    /// `min` and `max` are entries, and no value is below that of `min` or
    /// above that of `max`. This holds of a spectrum whose statistics were
    /// computed from the entries that it holds now. It need not hold after
    /// a scaling that failed: the entries that were scaled by then stay
    /// scaled, and the statistics stay those of before the call.
    pub open spec fn extremes_are_current(self) -> bool {
        &&& self.data.contains(self.min)
        &&& self.data.contains(self.max)
        &&& forall|i: int|
            0 <= i < self.data.len() ==> self.min.1.key() <= (#[trigger] self.data[i]).1.key()
                <= self.max.1.key()
    }

    /// The statistics are those of the entries, computed with `arith` over
    /// `sorted`, which holds the entries in the order of their values:
    /// - `min` is the first entry of `sorted` and `max` the last one;
    /// - `average` is the mean of the values, added up in the order of
    ///   `sorted`;
    /// - `median` is the mean of the two entries in the middle of `sorted`,
    ///   at `len / 2 - 1` and at `len / 2`. With an odd number of entries
    ///   these are the one in the middle and the one before it.
    pub open spec fn has_statistics<A: Fn(Operation) -> u32>(
        self,
        sorted: Seq<(Frequency, FrequencyValue)>,
        arith: &Arithmetic<A>,
    ) -> bool {
        &&& is_sorted_by_value(self.data, sorted)
        &&& self.min == sorted[0]
        &&& self.max == sorted[sorted.len() - 1]
        &&& self.average.bits == arith.mean_of(values_of(sorted))
        &&& self.median.bits == arith.over(
            arith.plus(
                sorted[sorted.len() / 2 - 1].1.bits,
                sorted[sorted.len() as int / 2].1.bits,
            ),
            TWO,
        )
    }

    /// The lowest frequency: that of the first entry.
    pub open spec fn min_fr(self) -> Frequency {
        self.data[0].0
    }

    /// The highest frequency: that of the last entry.
    pub open spec fn max_fr(self) -> Frequency {
        self.data[self.data.len() - 1].0
    }

    /// The statistics that a scaling function is given: those that the
    /// spectrum holds, as encoded numbers, and the number of samples as a
    /// number.
    pub open spec fn stats<A: Fn(Operation) -> u32>(self, arith: &Arithmetic<A>) -> SpectrumDataStats {
        SpectrumDataStats {
            min: self.min.1.bits,
            max: self.max.1.bits,
            average: self.average.bits,
            median: self.median.bits,
            n: arith.from_int(self.samples_len as u64),
        }
    }

    /// `scaled` holds the entries of this spectrum with every value scaled:
    /// the frequencies are the same, and each value is what `scaling_fn`
    /// made of the value in this spectrum and of the statistics of this
    /// spectrum, and is neither a NaN nor infinite.
    pub open spec fn is_scaled_to<S: Fn(u32, &SpectrumDataStats) -> u32, A: Fn(Operation) -> u32>(
        self,
        scaled: Seq<(Frequency, FrequencyValue)>,
        scaling_fn: S,
        arith: &Arithmetic<A>,
    ) -> bool {
        &&& scaled.len() == self.data.len()
        &&& forall|i: int|
            0 <= i < scaled.len() ==> {
                &&& (#[trigger] scaled[i]).0 == self.data[i].0
                &&& spec_is_finite(scaled[i].1.bits)
                &&& call_ensures(
                    scaling_fn,
                    (self.data[i].1.bits, &self.stats(arith)),
                    scaled[i].1.bits,
                )
            }
    }

    /// `after` is what a scaling of this spectrum leaves of its entries
    /// when it fails with `error` at the entry `k`:
    /// - `scaling_fn` turned the value of the entry at `k` into a NaN or
    ///   into an infinite number, and `error` holds that value and what was
    ///   made of it;
    /// - the entries before `k` are scaled: their frequencies are the same,
    ///   and each value is what `scaling_fn` made of the value in this
    ///   spectrum and of the statistics of this spectrum, and is neither a
    ///   NaN nor infinite;
    /// - the entry at `k` and the entries after it are as they were.
    pub open spec fn is_scaling_failure_at<
        S: Fn(u32, &SpectrumDataStats) -> u32,
        A: Fn(Operation) -> u32,
    >(
        self,
        after: Seq<(Frequency, FrequencyValue)>,
        error: SpectrumAnalyzerError,
        k: int,
        scaling_fn: S,
        arith: &Arithmetic<A>,
    ) -> bool {
        &&& 0 <= k < self.data.len()
        &&& after.len() == self.data.len()
        &&& error matches SpectrumAnalyzerError::ScalingError(value, produced)
        &&& value == self.data[k].1.bits
        &&& !spec_is_finite(produced)
        &&& call_ensures(scaling_fn, (value, &self.stats(arith)), produced)
        &&& forall|i: int|
            0 <= i < k ==> {
                &&& (#[trigger] after[i]).0 == self.data[i].0
                &&& spec_is_finite(after[i].1.bits)
                &&& call_ensures(
                    scaling_fn,
                    (self.data[i].1.bits, &self.stats(arith)),
                    after[i].1.bits,
                )
            }
        &&& forall|i: int| k <= i < after.len() ==> #[trigger] after[i] == self.data[i]
    }

    /// `after` is what a scaling of this spectrum leaves of its entries
    /// when it fails with `error`: the scaling stopped at the first entry
    /// whose value `scaling_fn` turned into a NaN or into an infinite
    /// number. See [`SpectrumView::is_scaling_failure_at`].
    pub open spec fn is_scaling_failure<
        S: Fn(u32, &SpectrumDataStats) -> u32,
        A: Fn(Operation) -> u32,
    >(
        self,
        after: Seq<(Frequency, FrequencyValue)>,
        error: SpectrumAnalyzerError,
        scaling_fn: S,
        arith: &Arithmetic<A>,
    ) -> bool {
        exists|k: int| #[trigger] self.is_scaling_failure_at(after, error, k, scaling_fn, arith)
    }

    /// `scaling_fn` makes one number only of each value of this spectrum
    /// and of the statistics of this spectrum: asked twice, it answers the
    /// same.
    pub open spec fn is_scaled_in_one_way<
        S: Fn(u32, &SpectrumDataStats) -> u32,
        A: Fn(Operation) -> u32,
    >(self, scaling_fn: S, arith: &Arithmetic<A>) -> bool {
        forall|i: int, r1: u32, r2: u32|
            0 <= i < self.data.len() && #[trigger] call_ensures(
                scaling_fn,
                (self.data[i].1.bits, &self.stats(arith)),
                r1,
            ) && #[trigger] call_ensures(
                scaling_fn,
                (self.data[i].1.bits, &self.stats(arith)),
                r2,
            ) ==> r1 == r2
    }

    /// The frequencies ascend: each entry has a lower frequency than every
    /// entry after it.
    pub open spec fn is_ascending(self) -> bool {
        forall|i: int, j: int|
            0 <= i < j < self.data.len() ==> spec_less_than(
                (#[trigger] self.data[i]).0.bits,
                (#[trigger] self.data[j]).0.bits,
            )
    }

    /// Whether the spectrum can be asked for the frequency `search_fr`: it
    /// lies between the lowest and the highest frequency of the spectrum,
    /// which are included. The bound is a hard one: a frequency beside the
    /// band is not covered, however close it is to an end, and a NaN lies
    /// nowhere.
    pub open spec fn covers(self, search_fr: u32) -> bool {
        &&& spec_greater_or_equal(search_fr, self.min_fr().bits)
        &&& spec_less_or_equal(search_fr, self.max_fr().bits)
    }

    /// The first pair of neighbours, counted from the pair at `from`, whose
    /// upper frequency `search_fr` does not exceed; the last pair where
    /// there is none. A pair is named by the index of its lower entry.
    pub open spec fn window_from(self, search_fr: u32, from: int) -> int
        decreases self.data.len() - from,
    {
        if from + 2 >= self.data.len() || !spec_greater_than(search_fr, self.data[from + 1].0.bits) {
            from
        } else {
            self.window_from(search_fr, from + 1)
        }
    }

    /// The pair of neighbours in which `search_fr` is looked up: the first
    /// one whose upper frequency `search_fr` does not exceed.
    pub open spec fn window(self, search_fr: u32) -> int {
        self.window_from(search_fr, 0)
    }

    /// The value at the frequency `search_fr`. An entry at that very
    /// frequency is looked for first, then one close by, and only where
    /// there is neither is a value computed:
    /// - the value of the lower entry of its window, where `search_fr` is
    ///   equal to the frequency of that entry;
    /// - else the value of the upper entry of its window, where `search_fr`
    ///   is equal to the frequency of that entry;
    /// - else the first value, where `search_fr` is approximately equal to
    ///   the lowest frequency;
    /// - else the last value, where it is approximately equal to the highest
    ///   frequency;
    /// - else the value of the lower entry of its window, where `search_fr`
    ///   is approximately equal to the frequency of that entry;
    /// - else the value at `search_fr` on the line through the two entries
    ///   of its window.
    pub open spec fn exact_value<A: Fn(Operation) -> u32>(
        self,
        search_fr: u32,
        arith: &Arithmetic<A>,
    ) -> u32 {
        let a = self.data[self.window(search_fr)];
        let b = self.data[self.window(search_fr) + 1];
        if spec_equal(a.0.bits, search_fr) {
            a.1.bits
        } else if spec_equal(b.0.bits, search_fr) {
            b.1.bits
        } else if spec_approx_eq(self.min_fr().bits, search_fr) {
            self.data[0].1.bits
        } else if spec_approx_eq(self.max_fr().bits, search_fr) {
            self.data[self.data.len() - 1].1.bits
        } else if spec_approx_eq(a.0.bits, search_fr) {
            a.1.bits
        } else {
            spec_calculate_y_coord_between_points(
                (a.0.bits, a.1.bits),
                (b.0.bits, b.1.bits),
                search_fr,
                arith,
            )
        }
    }

    /// The entry that is closest to the frequency `search_fr`:
    /// - the lower entry of its window, where `search_fr` is equal to the
    ///   frequency of that entry;
    /// - else the upper entry of its window, where `search_fr` is equal to
    ///   the frequency of that entry;
    /// - else the first entry, where `search_fr` is approximately equal to
    ///   the lowest frequency;
    /// - else the last entry, where it is approximately equal to the highest
    ///   frequency;
    /// - else the lower entry of its window, where `search_fr` is
    ///   approximately equal to the frequency of that entry, or lies above
    ///   it by less than half the frequency resolution;
    /// - else the upper entry of its window.
    pub open spec fn closest<A: Fn(Operation) -> u32>(
        self,
        search_fr: u32,
        arith: &Arithmetic<A>,
    ) -> (Frequency, FrequencyValue) {
        let a = self.data[self.window(search_fr)];
        let b = self.data[self.window(search_fr) + 1];
        if spec_equal(a.0.bits, search_fr) {
            a
        } else if spec_equal(b.0.bits, search_fr) {
            b
        } else if spec_approx_eq(self.min_fr().bits, search_fr) {
            self.data[0]
        } else if spec_approx_eq(self.max_fr().bits, search_fr) {
            self.data[self.data.len() - 1]
        } else if spec_approx_eq(a.0.bits, search_fr) {
            a
        } else if spec_less_than(
            arith.over(arith.minus(search_fr, a.0.bits), self.frequency_resolution),
            HALF,
        ) {
            a
        } else {
            b
        }
    }
}

/// The window of a frequency is a pair of neighbours. Every pair before it
/// has an upper frequency below `search_fr`. Where `search_fr` is neither
/// below the lowest nor above the highest frequency, which holds of every
/// frequency that the spectrum covers, it lies in its window: not below the
/// lower frequency and not above the upper one.
pub proof fn lemma_window(view: SpectrumView, search_fr: u32)
    requires
        view.data.len() >= 2,
    ensures
        0 <= view.window(search_fr) <= view.data.len() - 2,
        forall|k: int|
            0 <= k < view.window(search_fr) ==> spec_greater_than(
                search_fr,
                (#[trigger] view.data[k + 1]).0.bits,
            ),
        !spec_less_than(search_fr, view.min_fr().bits) && !spec_greater_than(
            search_fr,
            view.max_fr().bits,
        ) ==> !spec_less_than(search_fr, view.data[view.window(search_fr)].0.bits)
            && !spec_greater_than(search_fr, view.data[view.window(search_fr) + 1].0.bits),
{
    lemma_window_from(view, search_fr, 0);
    let w = view.window(search_fr);
    if w > 0 {
        assert(spec_greater_than(search_fr, view.data[(w - 1) + 1].0.bits));
    }
}

/// A scaling fails at the first value that the scaling function turns into a
/// NaN or into an infinite number, and only there. Of a function that makes
/// one number only of each value:
/// - where the scaling succeeded, the function makes a number that is
///   neither a NaN nor infinite of every value, and that number is the
///   scaled value;
/// - where the scaling failed at the entry `k`, the function makes such a
///   number of every value before `k` and none of the value at `k`, and the
///   error holds the value at `k` and what the function makes of it.
pub proof fn lemma_scaling_stops_at_the_first_failure<
    S: Fn(u32, &SpectrumDataStats) -> u32,
    A: Fn(Operation) -> u32,
>(
    before: SpectrumView,
    after: Seq<(Frequency, FrequencyValue)>,
    error: SpectrumAnalyzerError,
    k: int,
    scaling_fn: S,
    arith: &Arithmetic<A>,
)
    requires
        before.is_scaled_in_one_way(scaling_fn, arith),
    ensures
        before.is_scaled_to(after, scaling_fn, arith) ==> forall|i: int, r: u32|
            0 <= i < before.data.len() && #[trigger] call_ensures(
                scaling_fn,
                (before.data[i].1.bits, &before.stats(arith)),
                r,
            ) ==> spec_is_finite(r) && after[i].1.bits == r,
        before.is_scaling_failure_at(after, error, k, scaling_fn, arith) ==> {
            &&& forall|i: int, r: u32|
                0 <= i < k && #[trigger] call_ensures(
                    scaling_fn,
                    (before.data[i].1.bits, &before.stats(arith)),
                    r,
                ) ==> spec_is_finite(r) && after[i].1.bits == r
            &&& forall|r: u32| #[trigger]
                call_ensures(scaling_fn, (before.data[k].1.bits, &before.stats(arith)), r)
                    ==> !spec_is_finite(r) && error == SpectrumAnalyzerError::ScalingError(
                    before.data[k].1.bits,
                    r,
                )
        },
{
    if before.is_scaled_to(after, scaling_fn, arith) {
        assert forall|i: int, r: u32|
            0 <= i < before.data.len() && #[trigger] call_ensures(
                scaling_fn,
                (before.data[i].1.bits, &before.stats(arith)),
                r,
            ) implies spec_is_finite(r) && after[i].1.bits == r by {
            assert(after[i].0 == before.data[i].0);
        }
    }
    if before.is_scaling_failure_at(after, error, k, scaling_fn, arith) {
        assert forall|i: int, r: u32|
            0 <= i < k && #[trigger] call_ensures(
                scaling_fn,
                (before.data[i].1.bits, &before.stats(arith)),
                r,
            ) implies spec_is_finite(r) && after[i].1.bits == r by {
            assert(after[i].0 == before.data[i].0);
        }
    }
}

/// A spectrum covers no frequency that lies below its lowest or above its
/// highest frequency, and no NaN. So neither lookup takes such a frequency,
/// and the checked lookups give nothing for it.
pub proof fn lemma_outside_is_not_covered(view: SpectrumView, search_fr: u32)
    requires
        spec_is_nan(search_fr) || spec_less_than(search_fr, view.min_fr().bits)
            || spec_greater_than(search_fr, view.max_fr().bits),
    ensures
        !view.covers(search_fr),
{
}

/// Asked for the frequency of one of its entries, a spectrum whose
/// frequencies ascend gives the value of that entry, and that entry as the
/// closest one. Nothing is computed for that, so the value is the stored one
/// to the bit. This holds of every entry, also of one whose neighbour lies
/// within a few representable steps of it.
pub proof fn lemma_lookup_at_an_entry<A: Fn(Operation) -> u32>(
    view: SpectrumView,
    i: int,
    arith: &Arithmetic<A>,
)
    requires
        view.data.len() >= 2,
        view.is_ascending(),
        0 <= i < view.data.len(),
    ensures
        view.covers(view.data[i].0.bits),
        view.exact_value(view.data[i].0.bits, arith) == view.data[i].1.bits,
        view.closest(view.data[i].0.bits, arith) == view.data[i],
{
    let search_fr = view.data[i].0.bits;
    let last = view.data.len() - 1;
    if i == 0 {
        assert(spec_less_than(view.data[0].0.bits, view.data[1].0.bits));
        assert(view.window(search_fr) == 0);
    } else {
        assert(spec_less_than(view.data[i - 1].0.bits, view.data[i].0.bits));
        lemma_window_is(view, search_fr, 0, i - 1);
        assert(spec_less_than(view.data[0].0.bits, view.data[i].0.bits));
    }
    if i < last {
        assert(spec_less_than(view.data[i].0.bits, view.data[last].0.bits));
    }
}

/// In a spectrum whose frequencies ascend, a frequency that lies between the
/// one of the entry at `k` and the one of the next entry is looked up
/// between these two, unless it is approximately equal to the lowest or to
/// the highest frequency of the spectrum. Its value is the one of the entry
/// at `k` where it is approximately equal to the frequency of that entry,
/// and else the one at its place on the line through the two entries.
pub proof fn lemma_lookup_between<A: Fn(Operation) -> u32>(
    view: SpectrumView,
    search_fr: u32,
    k: int,
    arith: &Arithmetic<A>,
)
    requires
        view.is_ascending(),
        0 <= k < view.data.len() - 1,
        spec_less_than(view.data[k].0.bits, search_fr),
        spec_less_than(search_fr, view.data[k + 1].0.bits),
        !spec_approx_eq(view.min_fr().bits, search_fr),
        !spec_approx_eq(view.max_fr().bits, search_fr),
    ensures
        view.covers(search_fr),
        view.window(search_fr) == k,
        view.exact_value(search_fr, arith) == if spec_approx_eq(view.data[k].0.bits, search_fr) {
            view.data[k].1.bits
        } else {
            spec_calculate_y_coord_between_points(
                (view.data[k].0.bits, view.data[k].1.bits),
                (view.data[k + 1].0.bits, view.data[k + 1].1.bits),
                search_fr,
                arith,
            )
        },
        view.closest(search_fr, arith) == if spec_approx_eq(view.data[k].0.bits, search_fr)
            || spec_less_than(
            arith.over(arith.minus(search_fr, view.data[k].0.bits), view.frequency_resolution),
            HALF,
        ) {
            view.data[k]
        } else {
            view.data[k + 1]
        },
{
    lemma_window_is(view, search_fr, 0, k);
    if 0 < k {
        assert(spec_less_than(view.data[0].0.bits, view.data[k].0.bits));
    }
    if k + 1 < view.data.len() - 1 {
        assert(spec_less_than(view.data[k + 1].0.bits, view.data[view.data.len() - 1].0.bits));
    }
}

/// The search for a window that starts at or before the pair `k` ends at
/// `k` where the frequency lies above every upper frequency before that
/// pair and not above the upper frequency of that pair.
proof fn lemma_window_is(view: SpectrumView, search_fr: u32, from: int, k: int)
    requires
        view.is_ascending(),
        0 <= from <= k < view.data.len() - 1,
        spec_less_than(view.data[k].0.bits, search_fr),
        !spec_greater_than(search_fr, view.data[k + 1].0.bits),
    ensures
        view.window_from(search_fr, from) == k,
    decreases k - from,
{
    if from < k {
        if from + 1 < k {
            assert(spec_less_than(view.data[from + 1].0.bits, view.data[k].0.bits));
        }
        lemma_window_is(view, search_fr, from + 1, k);
    }
}

/// [`lemma_window`], for the search that starts at the pair `from`.
proof fn lemma_window_from(view: SpectrumView, search_fr: u32, from: int)
    requires
        view.data.len() >= 2,
        0 <= from <= view.data.len() - 2,
    ensures
        from <= view.window_from(search_fr, from) <= view.data.len() - 2,
        forall|k: int|
            from <= k < view.window_from(search_fr, from) ==> spec_greater_than(
                search_fr,
                (#[trigger] view.data[k + 1]).0.bits,
            ),
        view.window_from(search_fr, from) < view.data.len() - 2 ==> !spec_greater_than(
            search_fr,
            view.data[view.window_from(search_fr, from) + 1].0.bits,
        ),
    decreases view.data.len() - from,
{
    if from + 2 >= view.data.len() || !spec_greater_than(search_fr, view.data[from + 1].0.bits) {
    } else {
        lemma_window_from(view, search_fr, from + 1);
    }
}

/// In entries that are sorted by value the first has the lowest value and the
/// last has the highest. Of the entries with the lowest value the first one
/// is the first of them in `data`, and of those with the highest value the
/// last one is the last of them in `data`.
pub proof fn lemma_sorted_extremes(
    data: Seq<(Frequency, FrequencyValue)>,
    sorted: Seq<(Frequency, FrequencyValue)>,
)
    requires
        data.len() >= 1,
        is_sorted_by_value(data, sorted),
    ensures
        data.contains(sorted[0]),
        data.contains(sorted[sorted.len() - 1]),
        forall|i: int|
            0 <= i < data.len() ==> sorted[0].1.key() <= (#[trigger] data[i]).1.key()
                <= sorted[sorted.len() - 1].1.key(),
        exists|first: int|
            {
                &&& 0 <= first < data.len()
                &&& #[trigger] data[first] == sorted[0]
                &&& forall|i: int|
                    0 <= i < first ==> (#[trigger] data[i]).1.key() != sorted[0].1.key()
            },
        exists|last: int|
            {
                &&& 0 <= last < data.len()
                &&& #[trigger] data[last] == sorted[sorted.len() - 1]
                &&& forall|i: int|
                    last < i < data.len() ==> (#[trigger] data[i]).1.key() != sorted[sorted.len()
                        - 1].1.key()
            },
{
    let n = sorted.len() as int;
    let (origin, position) = choose|origin: Seq<int>, position: Seq<int>|
        {
            &&& #[trigger] is_rearrangement(data, sorted, origin, position)
            &&& forall|j: int, k: int|
                0 <= j < k < sorted.len() && sorted[j].1.key() == sorted[k].1.key()
                    ==> #[trigger] origin[j] < #[trigger] origin[k]
        };
    assert(data[origin[0]] == sorted[0]);
    assert(data[origin[n - 1]] == sorted[n - 1]);
    assert forall|i: int| 0 <= i < data.len() implies sorted[0].1.key() <= (#[trigger] data[i]).1.key()
        <= sorted[n - 1].1.key() by {
        let j = position[i];
        assert(sorted[j] == data[origin[j]]);
    }
    let first = origin[0];
    assert forall|i: int| 0 <= i < first implies (#[trigger] data[i]).1.key() != sorted[0].1.key() by {
        let j = position[i];
        assert(sorted[j] == data[origin[j]]);
        if j > 0 && sorted[j].1.key() == sorted[0].1.key() {
            assert(origin[0] < origin[j]);
        }
    }
    let last = origin[n - 1];
    assert forall|i: int| last < i < data.len() implies (#[trigger] data[i]).1.key() != sorted[n
        - 1].1.key() by {
        let j = position[i];
        assert(sorted[j] == data[origin[j]]);
        if j < n - 1 && sorted[j].1.key() == sorted[n - 1].1.key() {
            assert(origin[j] < origin[n - 1]);
        }
    }
    assert(data[first] == sorted[0]);
    assert(data[last] == sorted[n - 1]);
}

/// The frequencies of a signal, each with its value, from the lowest
/// frequency to the highest, together with statistics of the values. The
/// values are what the transform gave, scaled by every scaling function that
/// was applied since.
#[derive(Debug)]
pub struct FrequencySpectrum {
    data: Vec<(Frequency, FrequencyValue)>,
    frequency_resolution: u32,
    samples_len: u32,
    average: FrequencyValue,
    median: FrequencyValue,
    min: (Frequency, FrequencyValue),
    max: (Frequency, FrequencyValue),
}

impl View for FrequencySpectrum {
    type V = SpectrumView;

    closed spec fn view(&self) -> SpectrumView {
        SpectrumView {
            data: self.data@,
            frequency_resolution: self.frequency_resolution,
            samples_len: self.samples_len,
            average: self.average,
            median: self.median,
            min: self.min,
            max: self.max,
        }
    }
}

impl FrequencySpectrum {
    /// What every spectrum fulfils: it has two entries at least.
    pub open spec fn wf(&self) -> bool {
        self@.wf()
    }

    /// A spectrum of the given entries, with the statistics of their values.
    ///
    /// `data` is expected in ascending order of its frequencies; it is taken
    /// as it comes. `frequency_resolution` is the distance between two
    /// neighbouring frequencies and `samples_len` the number of samples that
    /// were analysed, which is greater than the number of entries where a
    /// frequency limit was applied. `working_buffer` is scratch space of the
    /// length of `data`: it comes back holding the entries in the order of
    /// their values.
    pub fn new<A: Fn(Operation) -> u32>(
        data: Vec<(Frequency, FrequencyValue)>,
        frequency_resolution: u32,
        samples_len: u32,
        working_buffer: &mut Vec<(Frequency, FrequencyValue)>,
        arith: &Arithmetic<A>,
    ) -> (r: Self)
        requires
            data.len() >= 2,
            old(working_buffer).len() == data.len(),
            arith.wf(),
        ensures
            r@.data == data@,
            r@.frequency_resolution == frequency_resolution,
            r@.samples_len == samples_len,
            r@.has_statistics(final(working_buffer)@, arith),
            r@.extremes_are_current(),
            r.wf(),
    {
        let placeholder = (OrderableF32 { bits: ZERO }, OrderableF32 { bits: ZERO });
        let mut obj = FrequencySpectrum {
            data,
            frequency_resolution,
            samples_len,
            average: placeholder.1,
            median: placeholder.1,
            min: placeholder,
            max: placeholder,
        };
        obj.calc_statistics(working_buffer, arith);
        obj
    }

    /// Computes `min`, `max`, `median` and `average` of the values anew. To
    /// do so it sorts a copy of the entries by their values, in
    /// `working_buffer`.
    fn calc_statistics<A: Fn(Operation) -> u32>(
        &mut self,
        working_buffer: &mut Vec<(Frequency, FrequencyValue)>,
        arith: &Arithmetic<A>,
    )
        requires
            old(self).data.len() >= 2,
            old(working_buffer).len() == old(self).data.len(),
            arith.wf(),
        ensures
            final(self)@.data == old(self)@.data,
            final(self)@.frequency_resolution == old(self)@.frequency_resolution,
            final(self)@.samples_len == old(self)@.samples_len,
            final(self)@.has_statistics(final(working_buffer)@, arith),
            final(self)@.extremes_are_current(),
            final(self).wf(),
    {
        let n = self.data.len();
        let mut i: usize = 0;
        while i < n
            invariant
                n == self.data.len(),
                n == working_buffer.len(),
                i <= n,
                forall|k: int| 0 <= k < i ==> working_buffer[k] == self.data[k],
            decreases n - i,
        {
            working_buffer.set(i, self.data[i]);
            i += 1;
        }
        assert(working_buffer@ =~= self.data@);
        sort_by_value(working_buffer);
        proof {
            lemma_sorted_extremes(self.data@, working_buffer@);
        }
        let values = values_in(working_buffer);
        let average = arith.mean(&values);
        let a = working_buffer[n / 2 - 1].1;
        let b = working_buffer[n / 2].1;
        let median = arith.over(arith.plus(a.bits, b.bits), TWO);
        self.min = working_buffer[0];
        self.max = working_buffer[n - 1];
        self.average = OrderableF32 { bits: average };
        self.median = OrderableF32 { bits: median };
    }

    /// Scales every value with `scaling_fn`, in place and in the order of the
    /// entries, and computes the statistics anew. The function is given each
    /// value together with the statistics that the spectrum had before the
    /// call: the same ones for every value.
    ///
    /// Where the function turns a value into a NaN or into an infinite
    /// number, the scaling stops there and fails with
    /// [`SpectrumAnalyzerError::ScalingError`]. Nothing is taken back: the
    /// entries before that one stay scaled, that one and the entries after
    /// it are as they were, and the statistics are those of before the
    /// call, so that they no longer belong to the entries. Neither a NaN
    /// nor an infinite number is ever stored.
    pub fn apply_scaling_fn<S: Fn(u32, &SpectrumDataStats) -> u32, A: Fn(Operation) -> u32>(
        &mut self,
        scaling_fn: &S,
        working_buffer: &mut Vec<(Frequency, FrequencyValue)>,
        arith: &Arithmetic<A>,
    ) -> (r: Result<(), SpectrumAnalyzerError>)
        requires
            old(self).wf(),
            old(working_buffer).len() == old(self)@.data.len(),
            arith.wf(),
            forall|i: int|
                0 <= i < old(self)@.data.len() ==> call_requires(
                    *scaling_fn,
                    ((#[trigger] old(self)@.data[i]).1.bits, &old(self)@.stats(arith)),
                ),
        ensures
            final(self).wf(),
            final(working_buffer).len() == old(working_buffer).len(),
            final(self)@.frequency_resolution == old(self)@.frequency_resolution,
            final(self)@.samples_len == old(self)@.samples_len,
            match r {
                Ok(()) => {
                    &&& old(self)@.is_scaled_to(final(self)@.data, *scaling_fn, arith)
                    &&& final(self)@.has_statistics(final(working_buffer)@, arith)
                    &&& final(self)@.extremes_are_current()
                },
                Err(e) => {
                    &&& old(self)@.is_scaling_failure(final(self)@.data, e, *scaling_fn, arith)
                    &&& final(self)@.min == old(self)@.min
                    &&& final(self)@.max == old(self)@.max
                    &&& final(self)@.average == old(self)@.average
                    &&& final(self)@.median == old(self)@.median
                },
            },
    {
        let ghost before = self@;
        let stats = SpectrumDataStats {
            min: self.min.1.bits,
            max: self.max.1.bits,
            average: self.average.bits,
            median: self.median.bits,
            n: arith.from_int(self.samples_len as u64),
        };
        let n = self.data.len();
        let mut i: usize = 0;
        while i < n
            invariant
                before == old(self)@,
                before.wf(),
                stats == before.stats(arith),
                n == self.data.len(),
                n == before.data.len(),
                working_buffer.len() == old(working_buffer).len(),
                i <= n,
                self@.frequency_resolution == before.frequency_resolution,
                self@.samples_len == before.samples_len,
                self@.min == before.min,
                self@.max == before.max,
                self@.average == before.average,
                self@.median == before.median,
                forall|k: int|
                    0 <= k < n ==> call_requires(
                        *scaling_fn,
                        ((#[trigger] before.data[k]).1.bits, &stats),
                    ),
                forall|k: int|
                    0 <= k < i ==> {
                        &&& (#[trigger] self@.data[k]).0 == before.data[k].0
                        &&& spec_is_finite(self@.data[k].1.bits)
                        &&& call_ensures(
                            *scaling_fn,
                            (before.data[k].1.bits, &stats),
                            self@.data[k].1.bits,
                        )
                    },
                forall|k: int| i <= k < n ==> #[trigger] self@.data[k] == before.data[k],
            decreases n - i,
        {
            assert(self@.data[i as int] == before.data[i as int]);
            let (fr, fr_val) = self.data[i];
            let scaled_val = scaling_fn(fr_val.bits, &stats);
            if !is_finite(scaled_val) {
                assert(before.is_scaling_failure_at(
                    self@.data,
                    SpectrumAnalyzerError::ScalingError(fr_val.bits, scaled_val),
                    i as int,
                    *scaling_fn,
                    arith,
                ));
                return Err(SpectrumAnalyzerError::ScalingError(fr_val.bits, scaled_val));
            }
            self.data.set(i, (fr, OrderableF32 { bits: scaled_val }));
            i += 1;
        }
        self.calc_statistics(working_buffer, arith);
        Ok(())
    }

    /// The mean of the values.
    pub fn average(&self) -> (r: FrequencyValue)
        ensures
            r == self@.average,
    {
        self.average
    }

    /// The median of the values.
    pub fn median(&self) -> (r: FrequencyValue)
        ensures
            r == self@.median,
    {
        self.median
    }

    /// The entry with the highest value.
    pub fn max(&self) -> (r: (Frequency, FrequencyValue))
        ensures
            r == self@.max,
    {
        self.max
    }

    /// The entry with the lowest value.
    pub fn min(&self) -> (r: (Frequency, FrequencyValue))
        ensures
            r == self@.min,
    {
        self.min
    }

    /// The distance between the lowest and the highest value: the value of
    /// `max` less that of `min`.
    pub fn range<A: Fn(Operation) -> u32>(&self, arith: &Arithmetic<A>) -> (r: FrequencyValue)
        requires
            arith.wf(),
        ensures
            r.bits == arith.minus(self@.max.1.bits, self@.min.1.bits),
    {
        self.max.1.minus(self.min.1, arith)
    }

    /// The entries, from the lowest frequency to the highest.
    pub fn data(&self) -> (r: &Vec<(Frequency, FrequencyValue)>)
        ensures
            r@ == self@.data,
    {
        &self.data
    }

    /// The distance between two neighbouring frequencies in Hertz.
    pub fn frequency_resolution(&self) -> (r: u32)
        ensures
            r == self@.frequency_resolution,
    {
        self.frequency_resolution
    }

    /// The number of samples that were analysed.
    pub fn samples_len(&self) -> (r: u32)
        ensures
            r == self@.samples_len,
    {
        self.samples_len
    }

    /// The highest frequency of the spectrum: that of its last entry.
    pub fn max_fr(&self) -> (r: Frequency)
        requires
            self.wf(),
        ensures
            r == self@.max_fr(),
    {
        self.data[self.data.len() - 1].0
    }

    /// The lowest frequency of the spectrum: that of its first entry.
    pub fn min_fr(&self) -> (r: Frequency)
        requires
            self.wf(),
        ensures
            r == self@.min_fr(),
    {
        self.data[0].0
    }

    /// The DC component, which is the value at 0 Hz: the value of the first
    /// entry where its frequency is zero, and nothing where a frequency limit
    /// has left the first bin out.
    pub fn dc_component(&self) -> (r: Option<FrequencyValue>)
        requires
            self.wf(),
        ensures
            r == if spec_equal(self@.data[0].0.bits, ZERO) {
                Some(self@.data[0].1)
            } else {
                None
            },
    {
        let (maybe_dc_component, dc_value) = self.data[0];
        if equal(maybe_dc_component.bits, ZERO) {
            Some(dc_value)
        } else {
            None
        }
    }
}

impl FrequencySpectrum {
    /// Whether the spectrum can be asked for the frequency `search_fr`: see
    /// [`SpectrumView::covers`].
    pub fn covers(&self, search_fr: u32) -> (r: bool)
        requires
            self.wf(),
        ensures
            r == self@.covers(search_fr),
    {
        let min_fr = self.data[0].0;
        let max_fr = self.data[self.data.len() - 1].0;
        greater_or_equal(search_fr, min_fr.bits) && less_or_equal(search_fr, max_fr.bits)
    }

    /// The index of the lower entry of the window of `search_fr`.
    fn window(&self, search_fr: u32) -> (i: usize)
        requires
            self.wf(),
        ensures
            i == self@.window(search_fr),
            i + 1 < self@.data.len(),
    {
        let n = self.data.len();
        let mut i: usize = 0;
        while i + 2 < n && greater_than(search_fr, self.data[i + 1].0.bits)
            invariant
                n == self.data.len(),
                n >= 2,
                i + 2 <= n,
                self@.window_from(search_fr, i as int) == self@.window(search_fr),
            decreases n - i,
        {
            i += 1;
        }
        i
    }

    /// The value at the frequency `search_fr`. Where the spectrum has an
    /// entry at that frequency, this is the value of the entry. Where it has
    /// none, and none close by, the value is taken from the line through
    /// the two entries between which the frequency lies.
    ///
    /// The spectrum has to cover the frequency: whoever made the spectrum
    /// chose its limits and knows them.
    pub fn freq_val_exact<A: Fn(Operation) -> u32>(
        &self,
        search_fr: u32,
        arith: &Arithmetic<A>,
    ) -> (r: FrequencyValue)
        requires
            self.wf(),
            self@.covers(search_fr),
            arith.wf(),
        ensures
            r.bits == self@.exact_value(search_fr, arith),
    {
        let (min_fr, min_fr_val) = self.data[0];
        let (max_fr, max_fr_val) = self.data[self.data.len() - 1];
        let i = self.window(search_fr);
        let point_a = self.data[i];
        let point_b = self.data[i + 1];
        if equal(point_a.0.bits, search_fr) {
            return point_a.1;
        }
        if equal(point_b.0.bits, search_fr) {
            return point_b.1;
        }
        if approx_eq(min_fr.bits, search_fr) {
            return min_fr_val;
        }
        if approx_eq(max_fr.bits, search_fr) {
            return max_fr_val;
        }
        if approx_eq(point_a.0.bits, search_fr) {
            point_a.1
        } else {
            OrderableF32 {
                bits: calculate_y_coord_between_points(
                    (point_a.0.bits, point_a.1.bits),
                    (point_b.0.bits, point_b.1.bits),
                    search_fr,
                    arith,
                ),
            }
        }
    }

    /// The entry whose frequency is closest to `search_fr`: the entry at
    /// that frequency where there is one. Else, of the two entries between
    /// which the frequency lies, this is the lower one where the frequency
    /// lies above it by less than half the frequency resolution, and the
    /// upper one otherwise.
    ///
    /// The spectrum has to cover the frequency.
    pub fn freq_val_closest<A: Fn(Operation) -> u32>(
        &self,
        search_fr: u32,
        arith: &Arithmetic<A>,
    ) -> (r: (Frequency, FrequencyValue))
        requires
            self.wf(),
            self@.covers(search_fr),
            arith.wf(),
        ensures
            r == self@.closest(search_fr, arith),
    {
        let (min_fr, min_fr_val) = self.data[0];
        let (max_fr, max_fr_val) = self.data[self.data.len() - 1];
        let i = self.window(search_fr);
        let point_a = self.data[i];
        let point_b = self.data[i + 1];
        if equal(point_a.0.bits, search_fr) {
            return point_a;
        }
        if equal(point_b.0.bits, search_fr) {
            return point_b;
        }
        if approx_eq(min_fr.bits, search_fr) {
            return (min_fr, min_fr_val);
        }
        if approx_eq(max_fr.bits, search_fr) {
            return (max_fr, max_fr_val);
        }
        if approx_eq(point_a.0.bits, search_fr) {
            point_a
        } else {
            let delta_to_a = arith.minus(search_fr, point_a.0.bits);
            if less_than(arith.over(delta_to_a, self.frequency_resolution), HALF) {
                point_a
            } else {
                point_b
            }
        }
    }

    /// The value at the frequency `search_fr` as
    /// [`FrequencySpectrum::freq_val_exact`] gives it, and nothing where the
    /// spectrum does not cover the frequency.
    pub fn checked_freq_val_exact<A: Fn(Operation) -> u32>(
        &self,
        search_fr: u32,
        arith: &Arithmetic<A>,
    ) -> (r: Option<FrequencyValue>)
        requires
            self.wf(),
            arith.wf(),
        ensures
            match r {
                Some(value) => self@.covers(search_fr) && value.bits == self@.exact_value(
                    search_fr,
                    arith,
                ),
                None => !self@.covers(search_fr),
            },
    {
        if self.covers(search_fr) {
            Some(self.freq_val_exact(search_fr, arith))
        } else {
            None
        }
    }

    /// The entry closest to the frequency `search_fr` as
    /// [`FrequencySpectrum::freq_val_closest`] gives it, and nothing where
    /// the spectrum does not cover the frequency.
    pub fn checked_freq_val_closest<A: Fn(Operation) -> u32>(
        &self,
        search_fr: u32,
        arith: &Arithmetic<A>,
    ) -> (r: Option<(Frequency, FrequencyValue)>)
        requires
            self.wf(),
            arith.wf(),
        ensures
            match r {
                Some(entry) => self@.covers(search_fr) && entry == self@.closest(search_fr, arith),
                None => !self@.covers(search_fr),
            },
    {
        if self.covers(search_fr) {
            Some(self.freq_val_closest(search_fr, arith))
        } else {
            None
        }
    }

    /// The value at a frequency in mel as [`FrequencySpectrum::mel_val`]
    /// gives it, and nothing where `mel_val` is not zero or above, or where
    /// the spectrum does not cover the frequency.
    pub fn checked_mel_val<A: Fn(Operation) -> u32>(
        &self,
        mel_val: u32,
        arith: &Arithmetic<A>,
    ) -> (r: Option<FrequencyValue>)
        requires
            self.wf(),
            arith.wf(),
        ensures
            match r {
                Some(value) => {
                    &&& spec_greater_or_equal(mel_val, ZERO)
                    &&& self@.covers(mel_to_hertz(mel_val, arith))
                    &&& value.bits == self@.exact_value(mel_to_hertz(mel_val, arith), arith)
                },
                None => !spec_greater_or_equal(mel_val, ZERO) || !self@.covers(
                    mel_to_hertz(mel_val, arith),
                ),
            },
    {
        if !greater_or_equal(mel_val, ZERO) {
            return None;
        }
        let hz = mel_to_hertz(mel_val, arith);
        if self.covers(hz) {
            Some(self.freq_val_exact(hz, arith))
        } else {
            None
        }
    }

    /// The value at a frequency that is given in mel: see
    /// [`FrequencySpectrum::freq_val_exact`].
    pub fn mel_val<A: Fn(Operation) -> u32>(&self, mel_val: u32, arith: &Arithmetic<A>) -> (r:
        FrequencyValue)
        requires
            self.wf(),
            spec_greater_or_equal(mel_val, ZERO),
            self@.covers(mel_to_hertz(mel_val, arith)),
            arith.wf(),
        ensures
            r.bits == self@.exact_value(mel_to_hertz(mel_val, arith), arith),
    {
        let hz = mel_to_hertz(mel_val, arith);
        self.freq_val_exact(hz, arith)
    }
}

/// The map from frequencies to values that the entries give: the key of an
/// entry is the integer part of its frequency, and where several entries
/// have the same key the last of them stays.
pub open spec fn map_of(entries: Seq<(Frequency, FrequencyValue)>) -> Map<u32, u32>
    decreases entries.len(),
{
    if entries.len() == 0 {
        Map::empty()
    } else {
        map_of(entries.drop_last()).insert(
            spec_truncate(entries.last().0.bits),
            entries.last().1.bits,
        )
    }
}

/// The map from frequencies in mel to values that the entries give: the key
/// of an entry is the integer part of its frequency in mel, and where
/// several entries have the same key the last of them stays.
pub open spec fn mel_map_of<A: Fn(Operation) -> u32>(
    entries: Seq<(Frequency, FrequencyValue)>,
    arith: &Arithmetic<A>,
) -> Map<u32, u32>
    decreases entries.len(),
{
    if entries.len() == 0 {
        Map::empty()
    } else {
        mel_map_of(entries.drop_last(), arith).insert(
            spec_truncate(spec_hertz_to_mel(entries.last().0.bits, arith)),
            entries.last().1.bits,
        )
    }
}

/// Puts a value into a map under a key, in the place of what the map held
/// under that key.
fn put(map: &mut BTreeMap<u32, u32>, key: u32, value: u32)
    ensures
        final(map)@ == old(map)@.insert(key, value),
{
    broadcast use vstd::laws_cmp::group_laws_cmp;

    map.insert(key, value);
}

impl FrequencySpectrum {
    /// The spectrum as a map from frequencies to values. A key is the
    /// integer part of a frequency in Hertz, and a value an encoded number.
    /// Of entries whose frequencies have the same integer part the last one
    /// stays.
    pub fn to_map(&self) -> (r: BTreeMap<u32, u32>)
        ensures
            r@ == map_of(self@.data),
    {
        let mut map: BTreeMap<u32, u32> = BTreeMap::new();
        let mut i: usize = 0;
        while i < self.data.len()
            invariant
                i <= self.data.len(),
                map@ == map_of(self.data@.take(i as int)),
            decreases self.data.len() - i,
        {
            assert(self.data@.take(i + 1).drop_last() =~= self.data@.take(i as int));
            let (fr, fr_val) = self.data[i];
            put(&mut map, truncate(fr.bits), fr_val.bits);
            i += 1;
        }
        assert(self.data@.take(i as int) =~= self.data@);
        map
    }

    /// The spectrum as a map from frequencies in mel to values. A key is the
    /// integer part of a frequency in mel. The mel scale is logarithmic, so
    /// the keys lie the closer together the higher the frequencies are.
    ///
    /// No frequency of the spectrum may be negative.
    pub fn to_mel_map<A: Fn(Operation) -> u32>(&self, arith: &Arithmetic<A>) -> (r: BTreeMap<
        u32,
        u32,
    >)
        requires
            arith.wf(),
            forall|i: int|
                0 <= i < self@.data.len() ==> spec_greater_or_equal(
                    (#[trigger] self@.data[i]).0.bits,
                    ZERO,
                ),
        ensures
            r@ == mel_map_of(self@.data, arith),
    {
        let mut map: BTreeMap<u32, u32> = BTreeMap::new();
        let mut i: usize = 0;
        while i < self.data.len()
            invariant
                arith.wf(),
                i <= self.data.len(),
                forall|i: int|
                    0 <= i < self@.data.len() ==> spec_greater_or_equal(
                        (#[trigger] self@.data[i]).0.bits,
                        ZERO,
                    ),
                map@ == mel_map_of(self.data@.take(i as int), arith),
            decreases self.data.len() - i,
        {
            assert(self.data@.take(i + 1).drop_last() =~= self.data@.take(i as int));
            let (fr, fr_val) = self.data[i];
            assert(self@.data[i as int].0.bits == fr.bits);
            put(&mut map, truncate(hertz_to_mel(fr.bits, arith)), fr_val.bits);
            i += 1;
        }
        assert(self.data@.take(i as int) =~= self.data@);
        map
    }
}

/// The encoding of `700.0`, the frequency in Hertz at which the mel scale
/// turns from linear to logarithmic.
pub const MEL_CORNER: u32 = 0x442f_0000;

/// The encoding of `2595.0`, the factor of the mel scale.
pub const MEL_FACTOR: u32 = 0x4522_3000;

/// The y coordinate at `x_coord` on the line through `(x1, y1)` and
/// `(x2, y2)`: with `slope = (y2 - y1) / (x2 - x1)` and `c = y1 - slope * x1`
/// it is `slope * x_coord + c`.
pub open spec fn spec_calculate_y_coord_between_points<A: Fn(Operation) -> u32>(
    p1: (u32, u32),
    p2: (u32, u32),
    x_coord: u32,
    arith: &Arithmetic<A>,
) -> u32 {
    let slope = arith.over(arith.minus(p2.1, p1.1), arith.minus(p2.0, p1.0));
    let c = arith.minus(p1.1, arith.times(slope, p1.0));
    arith.plus(arith.times(slope, x_coord), c)
}

/// The y coordinate at `x_coord` on the line through two points.
#[verifier::when_used_as_spec(spec_calculate_y_coord_between_points)]
pub fn calculate_y_coord_between_points<A: Fn(Operation) -> u32>(
    p1: (u32, u32),
    p2: (u32, u32),
    x_coord: u32,
    arith: &Arithmetic<A>,
) -> (r: u32)
    requires
        arith.wf(),
    ensures
        r == spec_calculate_y_coord_between_points(p1, p2, x_coord, arith),
{
    let slope = arith.over(arith.minus(p2.1, p1.1), arith.minus(p2.0, p1.0));
    let c = arith.minus(p1.1, arith.times(slope, p1.0));
    arith.plus(arith.times(slope, x_coord), c)
}

/// A frequency in mel: `2595 * log10(1 + hz / 700)`.
pub open spec fn spec_hertz_to_mel<A: Fn(Operation) -> u32>(hz: u32, arith: &Arithmetic<A>) -> u32 {
    arith.times(MEL_FACTOR, arith.log10(arith.plus(ONE, arith.over(hz, MEL_CORNER))))
}

/// Converts a frequency that is not negative from Hertz to mel.
#[verifier::when_used_as_spec(spec_hertz_to_mel)]
pub fn hertz_to_mel<A: Fn(Operation) -> u32>(hz: u32, arith: &Arithmetic<A>) -> (r: u32)
    requires
        spec_greater_or_equal(hz, ZERO),
        arith.wf(),
    ensures
        r == spec_hertz_to_mel(hz, arith),
{
    arith.times(MEL_FACTOR, arith.log10(arith.plus(ONE, arith.over(hz, MEL_CORNER))))
}

/// A frequency in Hertz: `700 * (10 ^ (mel / 2595) - 1)`.
pub open spec fn spec_mel_to_hertz<A: Fn(Operation) -> u32>(mel: u32, arith: &Arithmetic<A>) -> u32 {
    arith.times(MEL_CORNER, arith.minus(arith.pow(TEN, arith.over(mel, MEL_FACTOR)), ONE))
}

/// Converts a frequency that is not negative from mel to Hertz.
#[verifier::when_used_as_spec(spec_mel_to_hertz)]
pub fn mel_to_hertz<A: Fn(Operation) -> u32>(mel: u32, arith: &Arithmetic<A>) -> (r: u32)
    requires
        spec_greater_or_equal(mel, ZERO),
        arith.wf(),
    ensures
        r == spec_mel_to_hertz(mel, arith),
{
    arith.times(MEL_CORNER, arith.minus(arith.pow(TEN, arith.over(mel, MEL_FACTOR)), ONE))
}

/// The values of the entries, in their order.
fn values_in(entries: &Vec<(Frequency, FrequencyValue)>) -> (r: Vec<u32>)
    ensures
        r@ == values_of(entries@),
{
    let mut values: Vec<u32> = Vec::new();
    let mut i: usize = 0;
    while i < entries.len()
        invariant
            i <= entries.len(),
            values.len() == i,
            forall|k: int| 0 <= k < i ==> values[k] == entries[k].1.bits,
        decreases entries.len() - i,
    {
        values.push(entries[i].1.bits);
        i += 1;
    }
    assert(values@ =~= values_of(entries@));
    values
}

} // verus!
