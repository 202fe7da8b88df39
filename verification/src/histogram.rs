//! A running latency histogram over fixed ranges.
//!
//! The histogram is modelled by the sequence of samples it has observed. Each
//! counter it keeps is a function of that sequence, so the memory it needs
//! does not grow with the number of samples.

use vstd::prelude::*;

verus! {

/// Number of latency ranges.
pub const BUCKET_COUNT: usize = 8;

/// Milliseconds from `reference_ms` to `observed_ms`, zero where the
/// observation is the earlier of the two.
pub open spec fn latency_between(reference_ms: u64, observed_ms: u64) -> u64 {
    if observed_ms < reference_ms {
        0
    } else {
        (observed_ms - reference_ms) as u64
    }
}

/// Smallest latency of range `i`.
pub open spec fn bucket_floor(i: int) -> int {
    if i <= 0 {
        0
    } else if i == 1 {
        400
    } else if i == 2 {
        800
    } else if i == 3 {
        1000
    } else if i == 4 {
        1200
    } else if i == 5 {
        1500
    } else if i == 6 {
        1800
    } else {
        2000
    }
}

/// Whether `latency` lies in range `i`: at or above its floor and below the
/// floor of the next range. The last range has no upper end.
pub open spec fn in_bucket(i: int, latency: u64) -> bool {
    &&& 0 <= i < BUCKET_COUNT
    &&& bucket_floor(i) <= latency
    &&& i + 1 < BUCKET_COUNT ==> latency < bucket_floor(i + 1)
}

/// The range that `latency` is counted in.
pub open spec fn bucket_of(latency: u64) -> int {
    if latency < 400 {
        0
    } else if latency < 800 {
        1
    } else if latency < 1000 {
        2
    } else if latency < 1200 {
        3
    } else if latency < 1500 {
        4
    } else if latency < 1800 {
        5
    } else if latency < 2000 {
        6
    } else {
        7
    }
}

/// How many of `samples` lie in range `i`.
pub open spec fn count_in_bucket(samples: Seq<u64>, i: int) -> nat
    decreases samples.len(),
{
    if samples.len() == 0 {
        0
    } else {
        count_in_bucket(samples.drop_last(), i) + if in_bucket(i, samples.last()) {
            1nat
        } else {
            0nat
        }
    }
}

/// The sum of `samples`, unbounded.
pub open spec fn total_of(samples: Seq<u64>) -> nat
    decreases samples.len(),
{
    if samples.len() == 0 {
        0
    } else {
        total_of(samples.drop_last()) + samples.last() as nat
    }
}

/// The smallest of `samples`; `u64::MAX` where there is none.
pub open spec fn least_of(samples: Seq<u64>) -> u64
    decreases samples.len(),
{
    if samples.len() == 0 {
        u64::MAX
    } else {
        let rest = least_of(samples.drop_last());
        if samples.last() < rest {
            samples.last()
        } else {
            rest
        }
    }
}

/// The largest of `samples`; zero where there is none.
pub open spec fn greatest_of(samples: Seq<u64>) -> u64
    decreases samples.len(),
{
    if samples.len() == 0 {
        0
    } else {
        let rest = greatest_of(samples.drop_last());
        if samples.last() > rest {
            samples.last()
        } else {
            rest
        }
    }
}

/// `total` held in 64 bits: the largest `u64` where it does not fit.
pub open spec fn clamped(total: nat) -> u64 {
    if total > u64::MAX {
        u64::MAX
    } else {
        total as u64
    }
}

/// Index of the range that `latency` is counted in.
pub fn bucket_index(latency: u64) -> (i: usize)
    ensures
        i == bucket_of(latency),
        in_bucket(i as int, latency),
{
    if latency < 400 {
        0
    } else if latency < 800 {
        1
    } else if latency < 1000 {
        2
    } else if latency < 1200 {
        3
    } else if latency < 1500 {
        4
    } else if latency < 1800 {
        5
    } else if latency < 2000 {
        6
    } else {
        7
    }
}

/// Smallest latency of range `i`, for any index; from the last range on it
/// stays at 2000.
pub fn bucket_floor_ms(i: usize) -> (floor: u64)
    ensures
        floor == bucket_floor(i as int),
{
    if i == 0 {
        0
    } else if i == 1 {
        400
    } else if i == 2 {
        800
    } else if i == 3 {
        1000
    } else if i == 4 {
        1200
    } else if i == 5 {
        1500
    } else if i == 6 {
        1800
    } else {
        2000
    }
}

/// The latency at which range `i` ends, itself not in the range; `None` for
/// the last range, which does not end.
pub open spec fn bucket_ceiling(i: int) -> Option<u64> {
    if i + 1 < BUCKET_COUNT {
        Some(bucket_floor(i + 1) as u64)
    } else {
        None
    }
}

/// `part` out of `whole` in hundredths of a percent, rounded down; zero where
/// `whole` is zero.
pub open spec fn share_hundredths(part: nat, whole: nat) -> nat {
    if whole == 0 {
        0
    } else {
        part * 10000 / whole
    }
}

/// `total` divided by `count` in hundredths, rounded down; zero where `count`
/// is zero.
pub open spec fn mean_hundredths(total: nat, count: nat) -> nat {
    if count == 0 {
        0
    } else {
        total * 100 / count
    }
}

/// One range of a report.
#[derive(Clone, Copy, Debug, PartialEq, Eq)]
pub struct BucketShare {
    /// Smallest latency of the range.
    pub floor: u64,
    /// Where the range ends, itself not in the range.
    pub ceiling: Option<u64>,
    /// How many latencies lie in the range.
    pub count: u64,
    /// The range's part of all latencies, in hundredths of a percent.
    pub percent_hundredths: u64,
}

/// What a collector has to report, in whole numbers.
#[derive(Clone, Debug, PartialEq, Eq)]
pub struct ReportView {
    pub min_latency: u64,
    pub max_latency: u64,
    pub total_latency: u64,
    pub total_msgs: u64,
    /// The mean latency in hundredths of a millisecond.
    pub mean_hundredths: u128,
    /// The ranges in ascending order.
    pub buckets: Vec<BucketShare>,
}

/// The report line of range `i` after `samples`.
pub open spec fn share_of(samples: Seq<u64>, i: int) -> BucketShare {
    BucketShare {
        floor: bucket_floor(i) as u64,
        ceiling: bucket_ceiling(i),
        count: count_in_bucket(samples, i) as u64,
        percent_hundredths: share_hundredths(count_in_bucket(samples, i), samples.len()) as u64,
    }
}

/// `part` out of `whole` in hundredths of a percent.
fn share_in_hundredths(part: u64, whole: u64) -> (share: u64)
    requires
        part <= whole,
    ensures
        share == share_hundredths(part as nat, whole as nat),
        share <= 10000,
{
    if whole == 0 {
        0
    } else {
        let scaled: u128 = part as u128 * 10000;
        let share: u128 = scaled / (whole as u128);
        assert(share <= 10000) by (nonlinear_arith)
            requires
                share == (part * 10000) / (whole as int),
                0 <= part <= whole,
                whole > 0,
        ;
        share as u64
    }
}

/// Running statistics over every latency observed so far.
///
/// Its view is the sequence of observed latencies, oldest first. The
/// counters are kept equal to what the spec functions above give for that
/// sequence.
pub struct LatencyCollector {
    min_latency: u64,
    max_latency: u64,
    total_latency: u64,
    total_msgs: u64,
    bucket_counts: [u64; 8],
    samples: Ghost<Seq<u64>>,
}

impl View for LatencyCollector {
    type V = Seq<u64>;

    closed spec fn view(&self) -> Seq<u64> {
        self.samples@
    }
}

impl LatencyCollector {
    #[verifier::type_invariant]
    spec fn tallies_match(&self) -> bool {
        &&& self.total_msgs == self.samples@.len()
        &&& self.min_latency == least_of(self.samples@)
        &&& self.max_latency == greatest_of(self.samples@)
        &&& self.total_latency == clamped(total_of(self.samples@))
        &&& forall|i: int|
            0 <= i < BUCKET_COUNT ==> #[trigger] self.bucket_counts[i] == count_in_bucket(
                self.samples@,
                i,
            )
    }

    /// A collector that has observed nothing.
    pub fn new() -> (collector: Self)
        ensures
            collector@ == Seq::<u64>::empty(),
    {
        LatencyCollector {
            min_latency: u64::MAX,
            max_latency: u64::MIN,
            total_latency: 0,
            total_msgs: 0,
            bucket_counts: [0, 0, 0, 0, 0, 0, 0, 0],
            samples: Ghost(Seq::empty()),
        }
    }

    /// The latency of a batch stamped `transaction_time` and received at
    /// `time_received`, both in milliseconds; never below zero.
    pub fn calculate_latency(&self, transaction_time: u64, time_received: u64) -> (latency: u64)
        ensures
            latency == latency_between(transaction_time, time_received),
    {
        time_received.saturating_sub(transaction_time)
    }

    /// Observes one latency. The count of observations must not yet stand at
    /// its largest value.
    pub fn observe(&mut self, latency_ms: u64)
        requires
            old(self)@.len() < u64::MAX,
        ensures
            final(self)@ == old(self)@.push(latency_ms),
    {
        proof {
            use_type_invariant(&*self);
        }
        let ghost before = self.samples@;
        let ghost after = before.push(latency_ms);
        proof {
            assert(after.drop_last() =~= before);
            assert(after.last() == latency_ms);
        }
        let slot = bucket_index(latency_ms);
        let mut bucket_counts = self.bucket_counts;
        proof {
            lemma_bucket_count_bounded(before, slot as int);
        }
        bucket_counts[slot] = bucket_counts[slot] + 1;
        let min_latency = if latency_ms < self.min_latency {
            latency_ms
        } else {
            self.min_latency
        };
        let max_latency = if latency_ms > self.max_latency {
            latency_ms
        } else {
            self.max_latency
        };
        proof {
            lemma_one_bucket(latency_ms);
        }
        *self = LatencyCollector {
            min_latency,
            max_latency,
            total_latency: self.total_latency.saturating_add(latency_ms),
            total_msgs: self.total_msgs + 1,
            bucket_counts,
            samples: Ghost(after),
        };
    }

    /// Observes the latency of a batch whose reference time is
    /// `exact_timestamp_ms` and which was received at `received_timestamp_ms`.
    pub fn collect_data(&mut self, exact_timestamp_ms: u64, received_timestamp_ms: u64)
        requires
            old(self)@.len() < u64::MAX,
        ensures
            final(self)@ == old(self)@.push(
                latency_between(exact_timestamp_ms, received_timestamp_ms),
            ),
    {
        let latency = self.calculate_latency(exact_timestamp_ms, received_timestamp_ms);
        self.observe(latency);
    }

    /// How many latencies were observed.
    pub fn total_msgs(&self) -> (count: u64)
        ensures
            count == self@.len(),
    {
        proof {
            use_type_invariant(self);
        }
        self.total_msgs
    }

    /// The smallest latency observed; `u64::MAX` before the first.
    pub fn min_latency(&self) -> (least: u64)
        ensures
            least == least_of(self@),
    {
        proof {
            use_type_invariant(self);
        }
        self.min_latency
    }

    /// The largest latency observed; zero before the first.
    pub fn max_latency(&self) -> (greatest: u64)
        ensures
            greatest == greatest_of(self@),
    {
        proof {
            use_type_invariant(self);
        }
        self.max_latency
    }

    /// The sum of the latencies observed, held at `u64::MAX` once it has
    /// grown past it.
    pub fn total_latency(&self) -> (total: u64)
        ensures
            total == clamped(total_of(self@)),
    {
        proof {
            use_type_invariant(self);
        }
        self.total_latency
    }

    /// How many of the latencies observed lie in each range, by index. The
    /// counts add up to the number of latencies observed.
    pub fn bucket_counts(&self) -> (counts: [u64; 8])
        ensures
            forall|i: int|
                0 <= i < BUCKET_COUNT ==> #[trigger] counts[i] == count_in_bucket(self@, i),
            counts[0] + counts[1] + counts[2] + counts[3] + counts[4] + counts[5] + counts[6]
                + counts[7] == self@.len(),
    {
        proof {
            use_type_invariant(self);
            lemma_buckets_partition(self@);
        }
        self.bucket_counts
    }

    /// The figures of the report: minimum, maximum, sum, count and mean, and
    /// for each range its bounds, its count and its part of the whole. Before
    /// the first observation the mean and every part are zero.
    pub fn generate_report(&self) -> (report: ReportView)
        ensures
            report.min_latency == least_of(self@),
            report.max_latency == greatest_of(self@),
            report.total_latency == clamped(total_of(self@)),
            report.total_msgs == self@.len(),
            report.mean_hundredths == mean_hundredths(
                clamped(total_of(self@)) as nat,
                self@.len(),
            ),
            report.buckets@.len() == BUCKET_COUNT,
            forall|i: int|
                0 <= i < BUCKET_COUNT ==> #[trigger] report.buckets@[i] == share_of(self@, i),
    {
        proof {
            use_type_invariant(self);
        }
        let mean_hundredths: u128 = if self.total_msgs == 0 {
            0
        } else {
            (self.total_latency as u128 * 100) / (self.total_msgs as u128)
        };
        let mut buckets: Vec<BucketShare> = Vec::new();
        let mut i: usize = 0;
        while i < BUCKET_COUNT
            invariant
                i <= BUCKET_COUNT,
                buckets@.len() == i,
                self.total_msgs == self@.len(),
                forall|k: int|
                    0 <= k < BUCKET_COUNT ==> #[trigger] self.bucket_counts[k] == count_in_bucket(
                        self@,
                        k,
                    ),
                forall|k: int| 0 <= k < i ==> #[trigger] buckets@[k] == share_of(self@, k),
            decreases BUCKET_COUNT - i,
        {
            proof {
                lemma_bucket_count_bounded(self@, i as int);
            }
            let count = self.bucket_counts[i];
            buckets.push(
                BucketShare {
                    floor: bucket_floor_ms(i),
                    ceiling: if i + 1 < BUCKET_COUNT {
                        Some(bucket_floor_ms(i + 1))
                    } else {
                        None
                    },
                    count,
                    percent_hundredths: share_in_hundredths(count, self.total_msgs),
                },
            );
            i += 1;
        }
        ReportView {
            min_latency: self.min_latency,
            max_latency: self.max_latency,
            total_latency: self.total_latency,
            total_msgs: self.total_msgs,
            mean_hundredths,
            buckets,
        }
    }
}

/// No range holds more samples than there are.
pub proof fn lemma_bucket_count_bounded(samples: Seq<u64>, i: int)
    ensures
        count_in_bucket(samples, i) <= samples.len(),
    decreases samples.len(),
{
    if samples.len() > 0 {
        lemma_bucket_count_bounded(samples.drop_last(), i);
    }
}

/// Every latency lies in the range that `bucket_of` gives and in no other.
pub proof fn lemma_one_bucket(latency: u64)
    ensures
        forall|i: int| in_bucket(i, latency) <==> i == bucket_of(latency),
{
}

/// The last range takes every latency from 2000 up, the largest `u64`
/// included.
pub proof fn lemma_last_bucket_unbounded(latency: u64)
    ensures
        in_bucket(BUCKET_COUNT - 1, latency) <==> latency >= 2000,
        bucket_of(u64::MAX) == BUCKET_COUNT - 1,
{
}

/// The counts of all ranges together.
pub open spec fn bucket_total(samples: Seq<u64>) -> nat {
    count_in_bucket(samples, 0) + count_in_bucket(samples, 1) + count_in_bucket(samples, 2)
        + count_in_bucket(samples, 3) + count_in_bucket(samples, 4) + count_in_bucket(samples, 5)
        + count_in_bucket(samples, 6) + count_in_bucket(samples, 7)
}

/// Observing a latency adds one to the count of its range and leaves the
/// count of every other range as it was.
pub proof fn lemma_observe_counts(samples: Seq<u64>, latency: u64, i: int)
    ensures
        count_in_bucket(samples.push(latency), i) == count_in_bucket(samples, i) + if i
            == bucket_of(latency) {
            1nat
        } else {
            0nat
        },
{
    let after = samples.push(latency);
    assert(after.drop_last() =~= samples);
    assert(after.last() == latency);
    lemma_one_bucket(latency);
}

/// After any sequence of observations the counts of the ranges add up to the
/// number of observations.
pub proof fn lemma_buckets_partition(samples: Seq<u64>)
    ensures
        bucket_total(samples) == samples.len(),
    decreases samples.len(),
{
    if samples.len() > 0 {
        lemma_buckets_partition(samples.drop_last());
        lemma_one_bucket(samples.last());
    }
}

/// After at least one observation the recorded minimum is one of the
/// latencies observed, and none of them is below it.
pub proof fn lemma_least_is_minimum(samples: Seq<u64>)
    requires
        samples.len() > 0,
    ensures
        forall|i: int| 0 <= i < samples.len() ==> least_of(samples) <= #[trigger] samples[i],
        exists|i: int| 0 <= i < samples.len() && #[trigger] samples[i] == least_of(samples),
    decreases samples.len(),
{
    let rest = samples.drop_last();
    let last = samples.len() - 1;
    if rest.len() > 0 {
        lemma_least_is_minimum(rest);
        assert forall|i: int| 0 <= i < samples.len() implies least_of(samples)
            <= #[trigger] samples[i] by {
            if i < last {
                assert(rest[i] == samples[i]);
            }
        }
        if samples.last() < least_of(rest) {
            assert(samples[last] == least_of(samples));
        } else {
            let k = choose|k: int| 0 <= k < rest.len() && #[trigger] rest[k] == least_of(rest);
            assert(samples[k] == least_of(samples));
        }
    } else {
        assert(least_of(rest) == u64::MAX);
        assert(samples[last] == least_of(samples));
    }
}

/// After at least one observation the recorded maximum is one of the
/// latencies observed, and none of them is above it.
pub proof fn lemma_greatest_is_maximum(samples: Seq<u64>)
    requires
        samples.len() > 0,
    ensures
        forall|i: int| 0 <= i < samples.len() ==> #[trigger] samples[i] <= greatest_of(samples),
        exists|i: int| 0 <= i < samples.len() && #[trigger] samples[i] == greatest_of(samples),
    decreases samples.len(),
{
    let rest = samples.drop_last();
    let last = samples.len() - 1;
    if rest.len() > 0 {
        lemma_greatest_is_maximum(rest);
        assert forall|i: int| 0 <= i < samples.len() implies #[trigger] samples[i]
            <= greatest_of(samples) by {
            if i < last {
                assert(rest[i] == samples[i]);
            }
        }
        if samples.last() > greatest_of(rest) {
            assert(samples[last] == greatest_of(samples));
        } else {
            let k = choose|k: int| 0 <= k < rest.len() && #[trigger] rest[k] == greatest_of(rest);
            assert(samples[k] == greatest_of(samples));
        }
    } else {
        assert(greatest_of(rest) == 0);
        assert(samples[last] == greatest_of(samples));
    }
}

/// With nothing observed every range of the report has count zero and part
/// zero, and the mean is zero: nothing is divided by the empty count.
pub proof fn lemma_empty_report(i: int)
    ensures
        share_of(Seq::<u64>::empty(), i).count == 0,
        share_of(Seq::<u64>::empty(), i).percent_hundredths == 0,
        mean_hundredths(clamped(total_of(Seq::<u64>::empty())) as nat, 0) == 0,
{
}

/// The part of a range never exceeds the whole, a hundred percent.
pub proof fn lemma_share_bounded(samples: Seq<u64>, i: int)
    ensures
        share_hundredths(count_in_bucket(samples, i), samples.len()) <= 10000,
{
    lemma_bucket_count_bounded(samples, i);
    let part = count_in_bucket(samples, i);
    let whole = samples.len();
    if whole > 0 {
        assert(part * 10000 / whole <= 10000) by (nonlinear_arith)
            requires
                part <= whole,
                whole > 0,
        ;
    }
}

/// The minimum stands at `u64::MAX` and the maximum at zero together exactly
/// where nothing has been observed.
pub proof fn lemma_empty_extremes(samples: Seq<u64>)
    ensures
        (least_of(samples) == u64::MAX && greatest_of(samples) == 0) <==> samples.len() == 0,
{
    if samples.len() > 0 {
        lemma_least_is_minimum(samples);
        lemma_greatest_is_maximum(samples);
        assert(least_of(samples) <= samples[0] <= greatest_of(samples));
    }
}

} // verus!
