//! The aggregator: after every client task has terminated, their result
//! records are folded into three high-dynamic-range histograms and a set
//! of tallies. The histograms are hdrhistogram's, kept behind trusted
//! wrappers whose contracts speak of the recorded multiset; the tallies
//! and which sample lands where are verified.

use vstd::prelude::*;
use vstd::multiset::Multiset;
use vstd::seq_lib::group_to_multiset_ensures;
use crate::bytes::{saturating_add_u64, spec_sat_add};
use crate::client::{ClientResult, SAMPLE_CLAMP_MS};

verus! {

/// An hdrhistogram::Histogram over `u64` counts, held opaquely. The
/// trusted wrappers below say what construction and recording do to its
/// contents; the inner value stays reachable for unverified presentation
/// code, which reads counts, extrema and quantiles from it.
#[verifier::external_body]
pub struct LatencyHistogram {
    pub inner: hdrhistogram::Histogram<u64>,
}

/// The multiset of values recorded in a histogram.
pub uninterp spec fn hist_contents(h: LatencyHistogram) -> Multiset<u64>;

/// The lowest discernible value the histogram was built with.
pub uninterp spec fn hist_low(h: LatencyHistogram) -> u64;

/// The highest trackable value the histogram was built with.
pub uninterp spec fn hist_high(h: LatencyHistogram) -> u64;

/// Relies on hdrhistogram::Histogram::new_with_bounds: an empty histogram
/// over `[low, high]` at `sigfig` significant digits. Construction fails
/// when `low` is zero or above `u64::MAX / 2`, `high` is below `2 * low`,
/// `sigfig` exceeds 5, or `sigfig` asks for resolution the word cannot
/// represent above a large `low`; with `low` at 1 that last case cannot
/// arise, so success is promised only there.
#[verifier::external_body]
fn hist_new(low: u64, high: u64, sigfig: u8) -> (r: Option<LatencyHistogram>)
    ensures
        r is Some ==> 1 <= low && low <= u64::MAX / 2 && high >= low * 2 && sigfig <= 5,
        low == 1 && high >= 2 && sigfig <= 5 ==> r is Some,
        r matches Some(h) ==> hist_contents(h) == Multiset::<u64>::empty() && hist_low(h) == low
            && hist_high(h) == high,
{
    hdrhistogram::Histogram::new_with_bounds(low, high, sigfig).ok().map(
        |inner| LatencyHistogram { inner },
    )
}

/// Relies on hdrhistogram::Histogram::record: one more count of `value`.
/// With the lowest discernible value at 1, every value up to the highest
/// trackable one has a slot, so recording it succeeds; what cannot be
/// tracked is refused and leaves the histogram unchanged.
#[verifier::external_body]
fn hist_record(h: &mut LatencyHistogram, value: u64) -> (ok: bool)
    ensures
        hist_low(*final(h)) == hist_low(*old(h)),
        hist_high(*final(h)) == hist_high(*old(h)),
        hist_low(*old(h)) == 1 && value <= hist_high(*old(h)) ==> ok,
        ok ==> hist_contents(*final(h)) == hist_contents(*old(h)).insert(value),
        !ok ==> hist_contents(*final(h)) == hist_contents(*old(h)),
{
    h.inner.record(value).is_ok()
}

/// A result that subscribed successfully.
pub open spec fn spec_is_success(r: ClientResult) -> bool {
    r.subscribe_success
}

/// A result that connected but never subscribed, with no connection
/// error: tallied as a subscribe failure.
pub open spec fn spec_is_failed(r: ClientResult) -> bool {
    !r.subscribe_success && r.connected && !r.connection_error
}

/// A result with a connection error, or one that neither connected nor
/// subscribed: tallied as a connection error.
pub open spec fn spec_is_error(r: ClientResult) -> bool {
    !r.subscribe_success && (r.connection_error || !r.connected)
}

/// Every result lands in exactly one tally.
pub proof fn lemma_buckets_partition(r: ClientResult)
    ensures
        spec_is_success(r) || spec_is_failed(r) || spec_is_error(r),
        spec_is_success(r) ==> !spec_is_failed(r) && !spec_is_error(r),
        spec_is_failed(r) ==> !spec_is_success(r) && !spec_is_error(r),
        spec_is_error(r) ==> !spec_is_success(r) && !spec_is_failed(r),
{
}

pub open spec fn spec_count_success(rs: Seq<ClientResult>) -> int
    decreases rs.len(),
{
    if rs.len() == 0 {
        0
    } else {
        spec_count_success(rs.drop_last()) + if spec_is_success(rs.last()) {
            1int
        } else {
            0int
        }
    }
}

pub open spec fn spec_count_failed(rs: Seq<ClientResult>) -> int
    decreases rs.len(),
{
    if rs.len() == 0 {
        0
    } else {
        spec_count_failed(rs.drop_last()) + if spec_is_failed(rs.last()) {
            1int
        } else {
            0int
        }
    }
}

pub open spec fn spec_count_errors(rs: Seq<ClientResult>) -> int
    decreases rs.len(),
{
    if rs.len() == 0 {
        0
    } else {
        spec_count_errors(rs.drop_last()) + if spec_is_error(rs.last()) {
            1int
        } else {
            0int
        }
    }
}

/// The three tallies partition the result records: they sum to the
/// number of clients.
pub proof fn lemma_tallies_partition(rs: Seq<ClientResult>)
    ensures
        spec_count_success(rs) + spec_count_failed(rs) + spec_count_errors(rs) == rs.len(),
        0 <= spec_count_success(rs) <= rs.len(),
        0 <= spec_count_failed(rs) <= rs.len(),
        0 <= spec_count_errors(rs) <= rs.len(),
    decreases rs.len(),
{
    if rs.len() > 0 {
        lemma_tallies_partition(rs.drop_last());
        lemma_buckets_partition(rs.last());
    }
}

/// The total number of filter-update samples, saturating.
pub open spec fn spec_filter_update_total(rs: Seq<ClientResult>) -> u64
    decreases rs.len(),
{
    if rs.len() == 0 {
        0
    } else {
        spec_sat_add(
            spec_filter_update_total(rs.drop_last()),
            rs.last().filter_update_latencies@.len() as u64,
        )
    }
}

/// The total number of post-warm-up deliveries, saturating.
pub open spec fn spec_message_total(rs: Seq<ClientResult>) -> u64
    decreases rs.len(),
{
    if rs.len() == 0 {
        0
    } else {
        spec_sat_add(spec_message_total(rs.drop_last()), rs.last().messages_received)
    }
}

/// All initial-subscription samples across the records.
pub open spec fn spec_sub_samples(rs: Seq<ClientResult>) -> Multiset<u64>
    decreases rs.len(),
{
    if rs.len() == 0 {
        Multiset::empty()
    } else {
        spec_sub_samples(rs.drop_last()).add(
            match rs.last().subscribe_latency_ms {
                Some(v) => Multiset::empty().insert(v),
                None => Multiset::empty(),
            },
        )
    }
}

/// All filter-update samples across the records.
pub open spec fn spec_filter_samples(rs: Seq<ClientResult>) -> Multiset<u64>
    decreases rs.len(),
{
    if rs.len() == 0 {
        Multiset::empty()
    } else {
        spec_filter_samples(rs.drop_last()).add(rs.last().filter_update_latencies@.to_multiset())
    }
}

/// All end-to-end samples across the records.
pub open spec fn spec_e2e_samples(rs: Seq<ClientResult>) -> Multiset<u64>
    decreases rs.len(),
{
    if rs.len() == 0 {
        Multiset::empty()
    } else {
        spec_e2e_samples(rs.drop_last()).add(rs.last().e2e_latencies@.to_multiset())
    }
}

/// The aggregate tallies.
pub struct Summary {
    pub subscribe_success: u64,
    pub subscribe_failed: u64,
    pub connection_errors: u64,
    pub filter_updates: u64,
    pub total_messages: u64,
}

/// The aggregator's output: tallies and the three latency histograms.
pub struct AggregateReport {
    pub summary: Summary,
    pub subscribe_hist: LatencyHistogram,
    pub filter_hist: LatencyHistogram,
    pub e2e_hist: LatencyHistogram,
}

/// Record every sample of one vector, in order.
fn record_all(h: &mut LatencyHistogram, samples: &Vec<u64>)
    requires
        hist_low(*old(h)) == 1,
        forall|i: int| 0 <= i < samples@.len() ==> samples@[i] <= hist_high(*old(h)),
    ensures
        hist_low(*final(h)) == hist_low(*old(h)),
        hist_high(*final(h)) == hist_high(*old(h)),
        hist_contents(*final(h)) == hist_contents(*old(h)).add(samples@.to_multiset()),
{
    broadcast use group_to_multiset_ensures;

    let ghost base = hist_contents(*h);
    let mut j: usize = 0;
    while j < samples.len()
        invariant
            0 <= j <= samples@.len(),
            hist_low(*h) == hist_low(*old(h)),
            hist_high(*h) == hist_high(*old(h)),
            hist_low(*h) == 1,
            forall|i: int| 0 <= i < samples@.len() ==> samples@[i] <= hist_high(*h),
            hist_contents(*h) == base.add(samples@.take(j as int).to_multiset()),
        decreases samples@.len() - j,
    {
        let _ok = hist_record(h, samples[j]);
        proof {
            assert(samples@.take(j + 1).drop_last() =~= samples@.take(j as int));
            assert(samples@.take(j + 1) =~= samples@.take(j as int).push(samples@[j as int]));
            vstd::seq_lib::to_multiset_build(samples@.take(j as int), samples@[j as int]);
            assert(samples@.take(j + 1).to_multiset() =~= samples@.take(
                j as int,
            ).to_multiset().insert(samples@[j as int]));
            assert(hist_contents(*h) =~= base.add(samples@.take(j + 1).to_multiset()));
        }
        j = j + 1;
    }
    proof {
        assert(samples@.take(samples@.len() as int) =~= samples@);
    }
}

/// Fold the collected result records into tallies and histograms. Every
/// sample of a well-formed record lies below the clamp, so every record
/// attempt succeeds and the histogram contents are exactly the samples.
pub fn aggregate(results: &Vec<ClientResult>) -> (r: AggregateReport)
    requires
        forall|i: int| 0 <= i < results@.len() ==> (#[trigger] results@[i]).wf(),
    ensures
        r.summary.subscribe_success == spec_count_success(results@),
        r.summary.subscribe_failed == spec_count_failed(results@),
        r.summary.connection_errors == spec_count_errors(results@),
        r.summary.subscribe_success + r.summary.subscribe_failed + r.summary.connection_errors
            == results@.len(),
        r.summary.filter_updates == spec_filter_update_total(results@),
        r.summary.total_messages == spec_message_total(results@),
        hist_contents(r.subscribe_hist) == spec_sub_samples(results@),
        hist_contents(r.filter_hist) == spec_filter_samples(results@),
        hist_contents(r.e2e_hist) == spec_e2e_samples(results@),
        hist_low(r.subscribe_hist) == 1 && hist_high(r.subscribe_hist) == SAMPLE_CLAMP_MS,
        hist_low(r.filter_hist) == 1 && hist_high(r.filter_hist) == SAMPLE_CLAMP_MS,
        hist_low(r.e2e_hist) == 1 && hist_high(r.e2e_hist) == SAMPLE_CLAMP_MS,
{
    let mut subscribe_hist = match hist_new(1, SAMPLE_CLAMP_MS, 3) {
        Some(h) => h,
        None => vstd::pervasive::unreached(),
    };
    let mut filter_hist = match hist_new(1, SAMPLE_CLAMP_MS, 3) {
        Some(h) => h,
        None => vstd::pervasive::unreached(),
    };
    let mut e2e_hist = match hist_new(1, SAMPLE_CLAMP_MS, 3) {
        Some(h) => h,
        None => vstd::pervasive::unreached(),
    };
    let mut success: u64 = 0;
    let mut failed: u64 = 0;
    let mut errors: u64 = 0;
    let mut filter_updates: u64 = 0;
    let mut total_messages: u64 = 0;
    let mut i: usize = 0;
    while i < results.len()
        invariant
            0 <= i <= results@.len(),
            forall|k: int| 0 <= k < results@.len() ==> (#[trigger] results@[k]).wf(),
            success == spec_count_success(results@.take(i as int)),
            failed == spec_count_failed(results@.take(i as int)),
            errors == spec_count_errors(results@.take(i as int)),
            success <= i && failed <= i && errors <= i,
            filter_updates == spec_filter_update_total(results@.take(i as int)),
            total_messages == spec_message_total(results@.take(i as int)),
            hist_contents(subscribe_hist) == spec_sub_samples(results@.take(i as int)),
            hist_contents(filter_hist) == spec_filter_samples(results@.take(i as int)),
            hist_contents(e2e_hist) == spec_e2e_samples(results@.take(i as int)),
            hist_low(subscribe_hist) == 1 && hist_high(subscribe_hist) == SAMPLE_CLAMP_MS,
            hist_low(filter_hist) == 1 && hist_high(filter_hist) == SAMPLE_CLAMP_MS,
            hist_low(e2e_hist) == 1 && hist_high(e2e_hist) == SAMPLE_CLAMP_MS,
        decreases results@.len() - i,
    {
        let rec = &results[i];
        proof {
            assert(results@.take(i + 1).drop_last() =~= results@.take(i as int));
            assert(results@.take(i + 1).last() == results@[i as int]);
        }
        if rec.subscribe_success {
            success = success + 1;
        } else if rec.connected && !rec.connection_error {
            failed = failed + 1;
        } else {
            errors = errors + 1;
        }
        match rec.subscribe_latency_ms {
            Some(v) => {
                let _ok = hist_record(&mut subscribe_hist, v);
                proof {
                    assert(hist_contents(subscribe_hist) =~= spec_sub_samples(
                        results@.take(i + 1),
                    ));
                }
            },
            None => {
                proof {
                    assert(hist_contents(subscribe_hist) =~= spec_sub_samples(
                        results@.take(i + 1),
                    ));
                }
            },
        }
        record_all(&mut filter_hist, &rec.filter_update_latencies);
        record_all(&mut e2e_hist, &rec.e2e_latencies);
        filter_updates = saturating_add_u64(
            filter_updates,
            rec.filter_update_latencies.len() as u64,
        );
        total_messages = saturating_add_u64(total_messages, rec.messages_received);
        i = i + 1;
    }
    proof {
        assert(results@.take(results@.len() as int) =~= results@);
        lemma_tallies_partition(results@);
    }
    AggregateReport {
        summary: Summary {
            subscribe_success: success,
            subscribe_failed: failed,
            connection_errors: errors,
            filter_updates,
            total_messages,
        },
        subscribe_hist,
        filter_hist,
        e2e_hist,
    }
}

} // verus!
