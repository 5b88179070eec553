//! The summary of a batch of ratings: three bucket counts and a histogram.

use crate::rating::Rating;
use vstd::prelude::*;

verus! {

/// The number of histogram entries: one for each value from 0 to 10.
pub const HISTOGRAM_LEN: usize = 11;

/// Promoters answered 9 or 10.
pub open spec fn is_promoter(value: nat) -> bool {
    value == 9 || value == 10
}

/// Detractors answered 6 or less.
pub open spec fn is_detractor(value: nat) -> bool {
    value <= 6
}

/// Passives answered 7 or 8.
pub open spec fn is_passive(value: nat) -> bool {
    value == 7 || value == 8
}

/// How many of `ratings` are promoters.
pub open spec fn promoters_in(ratings: Seq<Rating>) -> nat {
    ratings.filter(|r: Rating| is_promoter(r@.value)).len()
}

/// How many of `ratings` are detractors.
pub open spec fn detractors_in(ratings: Seq<Rating>) -> nat {
    ratings.filter(|r: Rating| is_detractor(r@.value)).len()
}

/// How many of `ratings` are passives.
pub open spec fn passives_in(ratings: Seq<Rating>) -> nat {
    ratings.filter(|r: Rating| is_passive(r@.value)).len()
}

/// How many of `ratings` have exactly this `value`.
pub open spec fn occurrences(ratings: Seq<Rating>, value: nat) -> nat {
    ratings.filter(|r: Rating| r@.value == value).len()
}

/// What a summary is, mathematically.
pub ghost struct SummaryView {
    pub promoters: nat,
    pub detractors: nat,
    pub passive: nat,
    pub histogram: Seq<nat>,
}

impl SummaryView {
    /// The number of ratings that were counted.
    pub open spec fn total(self) -> nat {
        self.promoters + self.detractors + self.passive
    }

    /// The histogram has its eleven entries, and each bucket holds what the
    /// histogram holds for the values of that bucket.
    pub open spec fn consistent(self) -> bool {
        let h = self.histogram;
        &&& h.len() == HISTOGRAM_LEN
        &&& self.promoters == h[9] + h[10]
        &&& self.detractors == h[0] + h[1] + h[2] + h[3] + h[4] + h[5] + h[6]
        &&& self.passive == h[7] + h[8]
    }

    /// Consistent, with a total that fits the counters.
    pub open spec fn well_formed(self) -> bool {
        self.consistent() && self.total() <= u64::MAX
    }

    /// The summary after one more rating with this `value` has been counted.
    pub open spec fn record(self, value: nat) -> SummaryView {
        SummaryView {
            promoters: self.promoters + if is_promoter(value) { 1nat } else { 0nat },
            detractors: self.detractors + if is_detractor(value) { 1nat } else { 0nat },
            passive: self.passive + if is_passive(value) { 1nat } else { 0nat },
            histogram: Seq::new(
                HISTOGRAM_LEN as nat,
                |v: int| self.histogram[v] + if v == value { 1nat } else { 0nat },
            ),
        }
    }
}

/// The summary of `ratings`: each count is the number of ratings that fall
/// under it.
pub open spec fn tally(ratings: Seq<Rating>) -> SummaryView {
    SummaryView {
        promoters: promoters_in(ratings),
        detractors: detractors_in(ratings),
        passive: passives_in(ratings),
        histogram: Seq::new(HISTOGRAM_LEN as nat, |v: int| occurrences(ratings, v as nat)),
    }
}

/// Counting one more rating is one `record` step.
pub proof fn lemma_tally_push(ratings: Seq<Rating>, rating: Rating)
    ensures
        tally(ratings.push(rating)) == tally(ratings).record(rating@.value),
{
    broadcast use Seq::lemma_filter_len_push;

    assert(tally(ratings.push(rating)).histogram =~= tally(ratings).record(
        rating@.value,
    ).histogram);
}

/// The summary of no ratings at all holds zeros only.
pub proof fn lemma_tally_empty()
    ensures
        tally(Seq::<Rating>::empty()) == (SummaryView {
            promoters: 0,
            detractors: 0,
            passive: 0,
            histogram: Seq::new(HISTOGRAM_LEN as nat, |v: int| 0nat),
        }),
{
    reveal(Seq::filter);
    assert(tally(Seq::<Rating>::empty()).histogram =~= Seq::new(
        HISTOGRAM_LEN as nat,
        |v: int| 0nat,
    ));
}

/// The sum of all entries of `counts`.
pub open spec fn sum_of(counts: Seq<nat>) -> nat
    decreases counts.len(),
{
    if counts.len() == 0 {
        0
    } else {
        sum_of(counts.drop_last()) + counts.last()
    }
}

/// All of `ratings` have a value of at most ten.
pub open spec fn all_well_formed(ratings: Seq<Rating>) -> bool {
    forall|i: int| 0 <= i < ratings.len() ==> (#[trigger] ratings[i]).well_formed()
}

/// The summary of well-formed ratings is consistent.
pub proof fn lemma_tally_consistent(ratings: Seq<Rating>)
    requires
        all_well_formed(ratings),
    ensures
        tally(ratings).consistent(),
    decreases ratings.len(),
{
    if ratings.len() == 0 {
        lemma_tally_empty();
        assert(ratings =~= Seq::<Rating>::empty());
    } else {
        let rest = ratings.drop_last();
        lemma_tally_consistent(rest);
        lemma_tally_push(rest, ratings.last());
        assert(ratings =~= rest.push(ratings.last()));
    }
}

/// Every rating is counted in exactly one bucket: promoters, detractors and
/// passives together are as many as the ratings.
pub proof fn lemma_buckets_count_every_rating(ratings: Seq<Rating>)
    requires
        all_well_formed(ratings),
    ensures
        tally(ratings).promoters + tally(ratings).detractors + tally(ratings).passive
            == ratings.len(),
    decreases ratings.len(),
{
    if ratings.len() == 0 {
        lemma_tally_empty();
        assert(ratings =~= Seq::<Rating>::empty());
    } else {
        let rest = ratings.drop_last();
        lemma_buckets_count_every_rating(rest);
        lemma_tally_push(rest, ratings.last());
        assert(ratings =~= rest.push(ratings.last()));
    }
}

/// In a consistent summary the histogram sums to the total of the buckets.
pub proof fn lemma_histogram_sums_to_total(summary: SummaryView)
    requires
        summary.consistent(),
    ensures
        sum_of(summary.histogram) == summary.total(),
{
    let h = summary.histogram;
    reveal_with_fuel(sum_of, 12);
    assert(sum_of(h) == h[0] + h[1] + h[2] + h[3] + h[4] + h[5] + h[6] + h[7] + h[8] + h[9]
        + h[10]);
}

/// Every rating is counted once in the histogram: entry `v` is the number of
/// ratings with value `v`, and the entries sum to the number of ratings.
pub proof fn lemma_histogram_counts_every_rating(ratings: Seq<Rating>)
    requires
        all_well_formed(ratings),
    ensures
        forall|v: int|
            0 <= v < HISTOGRAM_LEN ==> tally(ratings).histogram[v] == occurrences(
                ratings,
                v as nat,
            ),
        sum_of(tally(ratings).histogram) == ratings.len(),
{
    lemma_tally_consistent(ratings);
    lemma_buckets_count_every_rating(ratings);
    lemma_histogram_sums_to_total(tally(ratings));
}

/// Taking one entry out of a sequence lowers the number of entries that
/// pass `pred` by one if that entry passed, and leaves it otherwise.
proof fn lemma_filter_len_remove(s: Seq<Rating>, pred: spec_fn(Rating) -> bool, i: int)
    requires
        0 <= i < s.len(),
    ensures
        s.filter(pred).len() == s.remove(i).filter(pred).len() + if pred(s[i]) {
            1int
        } else {
            0int
        },
{
    let head = s.subrange(0, i);
    let tail = s.subrange(i + 1, s.len() as int);
    assert(s =~= head.push(s[i]) + tail);
    Seq::filter_distributes_over_add(head.push(s[i]), tail, pred);
    Seq::filter_distributes_over_add(head, tail, pred);
    head.lemma_filter_len_push(pred, s[i]);
}

/// Two sequences with the same entries, each as often, have equally many
/// entries that pass `pred`.
proof fn lemma_filter_len_ignores_order(
    a: Seq<Rating>,
    b: Seq<Rating>,
    pred: spec_fn(Rating) -> bool,
)
    requires
        a.to_multiset() == b.to_multiset(),
    ensures
        a.filter(pred).len() == b.filter(pred).len(),
    decreases a.len(),
{
    a.to_multiset_ensures();
    b.to_multiset_ensures();
    if a.len() == 0 {
        assert(a =~= b);
    } else {
        let last = a.last();
        let rest = a.drop_last();
        assert(a =~= rest.push(last));
        assert(a.contains(last));
        assert(b.to_multiset().count(last) > 0);
        assert(b.contains(last));
        let i = choose|i: int| 0 <= i < b.len() && b[i] == last;
        rest.to_multiset_ensures();
        assert(rest.to_multiset() =~= a.to_multiset().remove(last)) by {
            assert(rest.push(last).to_multiset() =~= rest.to_multiset().insert(last));
        }
        assert(b.remove(i).to_multiset() =~= b.to_multiset().remove(last));
        lemma_filter_len_ignores_order(rest, b.remove(i), pred);
        rest.lemma_filter_len_push(pred, last);
        lemma_filter_len_remove(b, pred, i);
    }
}

/// The order of the ratings does not matter: two batches that hold the same
/// ratings, each as often, have the same summary.
pub proof fn lemma_tally_ignores_order(a: Seq<Rating>, b: Seq<Rating>)
    requires
        a.to_multiset() == b.to_multiset(),
    ensures
        tally(a) == tally(b),
{
    assert forall|pred: spec_fn(Rating) -> bool| #[trigger]
        a.filter(pred).len() == b.filter(pred).len() by {
        lemma_filter_len_ignores_order(a, b, pred);
    }
    assert(tally(a).histogram =~= tally(b).histogram);
}

/// Bucket counts and a histogram over a batch of ratings.
#[derive(Debug)]
pub struct Summary {
    promoters: u64,
    detractors: u64,
    passive: u64,
    histogram: [u64; HISTOGRAM_LEN],
}

impl View for Summary {
    type V = SummaryView;

    closed spec fn view(&self) -> SummaryView {
        counters_view(self.promoters, self.detractors, self.passive, self.histogram)
    }
}

spec fn counters_view(
    promoters: u64,
    detractors: u64,
    passive: u64,
    histogram: [u64; HISTOGRAM_LEN],
) -> SummaryView {
    SummaryView {
        promoters: promoters as nat,
        detractors: detractors as nat,
        passive: passive as nat,
        histogram: Seq::new(HISTOGRAM_LEN as nat, |v: int| histogram[v] as nat),
    }
}

impl Summary {
    /// Holds of every summary that executable code can hold.
    #[verifier::type_invariant]
    pub open spec fn well_formed(&self) -> bool {
        self@.well_formed()
    }

    /// Counts `ratings`: each one once in the histogram, under its value, and
    /// once in the bucket that its value belongs to.
    pub fn new(ratings: Vec<Rating>) -> (s: Summary)
        ensures
            s@ == tally(ratings@),
    {
        let mut promoters: u64 = 0;
        let mut detractors: u64 = 0;
        let mut passive: u64 = 0;
        let mut histogram: [u64; HISTOGRAM_LEN] = [0; HISTOGRAM_LEN];
        let mut i: usize = 0;
        proof {
            lemma_tally_empty();
            assert(ratings@.take(0) =~= Seq::<Rating>::empty());
            assert(counters_view(promoters, detractors, passive, histogram).histogram =~= tally(
                ratings@.take(0),
            ).histogram);
        }
        while i < ratings.len()
            invariant
                i <= ratings.len(),
                counters_view(promoters, detractors, passive, histogram) == tally(
                    ratings@.take(i as int),
                ),
                counters_view(promoters, detractors, passive, histogram).well_formed(),
                promoters + detractors + passive == i,
            decreases ratings.len() - i,
        {
            let rating = &ratings[i];
            let value = rating.value();
            proof {
                lemma_tally_push(ratings@.take(i as int), *rating);
                assert(ratings@.take(i + 1) =~= ratings@.take(i as int).push(*rating));
            }
            let ghost before = counters_view(promoters, detractors, passive, histogram);
            histogram[value as usize] += 1;
            match value {
                9 | 10 => promoters += 1,
                0..=6 => detractors += 1,
                _ => passive += 1,
            }
            i += 1;
            proof {
                let after = counters_view(promoters, detractors, passive, histogram);
                assert(after.histogram =~= before.record(value as nat).histogram);
            }
        }
        proof {
            assert(ratings@.take(i as int) =~= ratings@);
        }
        Summary { promoters, detractors, passive, histogram }
    }

    /// The score as an exact fraction: promoters less detractors, over the
    /// number of ratings. A summary of no ratings scores zero, as 0 / 1.
    pub fn score(&self) -> (r: Score)
        ensures
            r.numerator == self@.promoters - self@.detractors,
            r.denominator == if self@.total() == 0 { 1 } else { self@.total() },
            -r.denominator <= r.numerator <= r.denominator,
    {
        proof {
            use_type_invariant(self);
        }
        let number_of_ratings = self.promoters + self.detractors + self.passive;
        let delta = self.promoters as i128 - self.detractors as i128;
        if number_of_ratings != 0 {
            Score { numerator: delta, denominator: number_of_ratings }
        } else {
            Score { numerator: 0, denominator: 1 }
        }
    }

    /// The number of ratings of 9 or 10.
    pub fn promoters(&self) -> (n: u64)
        ensures
            n == self@.promoters,
    {
        self.promoters
    }

    /// The number of ratings of 6 or less.
    pub fn detractors(&self) -> (n: u64)
        ensures
            n == self@.detractors,
    {
        self.detractors
    }

    /// The number of ratings of 7 or 8.
    pub fn passive(&self) -> (n: u64)
        ensures
            n == self@.passive,
    {
        self.passive
    }

    /// The number of ratings of each value, at the index of that value.
    pub fn histogram(&self) -> (h: [u64; HISTOGRAM_LEN])
        ensures
            h@.len() == self@.histogram.len(),
            forall|v: int| 0 <= v < HISTOGRAM_LEN ==> h[v] == self@.histogram[v],
    {
        self.histogram
    }
}

impl Clone for Summary {
    fn clone(&self) -> (s: Summary)
        ensures
            s == *self,
    {
        *self
    }
}

impl Copy for Summary {

}

impl PartialEq for Summary {
    /// Two summaries are equal when all their counts are.
    fn eq(&self, other: &Summary) -> (r: bool) {
        if self.promoters != other.promoters || self.detractors != other.detractors
            || self.passive != other.passive {
            return false;
        }
        let mut v: usize = 0;
        while v < HISTOGRAM_LEN
            invariant
                v <= HISTOGRAM_LEN,
                forall|w: int| 0 <= w < v ==> self.histogram[w] == other.histogram[w],
            decreases HISTOGRAM_LEN - v,
        {
            if self.histogram[v] != other.histogram[v] {
                assert(self@.histogram[v as int] != other@.histogram[v as int]);
                return false;
            }
            v += 1;
        }
        assert(self@.histogram =~= other@.histogram);
        true
    }
}

impl vstd::std_specs::cmp::PartialEqSpecImpl for Summary {
    open spec fn obeys_eq_spec() -> bool {
        true
    }

    open spec fn eq_spec(&self, other: &Summary) -> bool {
        self@ == other@
    }
}

/// A score as an exact fraction of two integers, as [`Summary::score`]
/// returns it.
#[derive(Debug, Clone, Copy, PartialEq, Eq, Structural)]
pub struct Score {
    pub numerator: i128,
    pub denominator: u64,
}

} // verus!
