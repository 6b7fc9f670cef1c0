use vstd::prelude::*;
use vstd::relations::{sorted_by, total_ordering};
use vstd::seq_lib::lemma_sorted_unique;
use crate::is_success_status;

verus! {

/// The result of one HTTP attempt that produced a response: its status code,
/// how long it took in milliseconds, and how many body bytes came back.
#[derive(Debug, Clone, Copy, PartialEq, Eq, Structural)]
pub struct RequestOutcome {
    pub status_code: u16,
    pub duration_ms: u64,
    pub bytes: usize,
}

/// The result of one load-test attempt: either a completed HTTP exchange, or
/// a failure (transport error, request-construction error, or a crashed
/// worker) with its reason.
#[derive(Debug, Clone)]
pub enum CampaignOutcome {
    Response(RequestOutcome),
    Failure(String),
}

/// The outcomes of the attempts that produced an HTTP response, in order;
/// failed attempts contribute nothing.
pub open spec fn completed_outcomes(s: Seq<CampaignOutcome>) -> Seq<RequestOutcome>
    decreases s.len(),
{
    if s.len() == 0 {
        Seq::empty()
    } else {
        let rest = completed_outcomes(s.drop_last());
        match s.last() {
            CampaignOutcome::Response(o) => rest.push(o),
            CampaignOutcome::Failure(_) => rest,
        }
    }
}

/// Drops the attempts that failed before an HTTP response arrived.
pub fn filter_outcomes(outcomes: &Vec<CampaignOutcome>) -> (r: Vec<RequestOutcome>)
    ensures
        r@ == completed_outcomes(outcomes@),
{
    let n = outcomes.len();
    let mut out: Vec<RequestOutcome> = Vec::new();
    let mut i: usize = 0;
    while i < n
        invariant
            0 <= i <= n,
            n == outcomes@.len(),
            out@ == completed_outcomes(outcomes@.take(i as int)),
        decreases n - i,
    {
        proof {
            assert(outcomes@.take(i + 1).drop_last() =~= outcomes@.take(i as int));
            assert(outcomes@.take(i + 1).last() == outcomes@[i as int]);
        }
        match &outcomes[i] {
            CampaignOutcome::Response(o) => {
                out.push(*o);
            },
            CampaignOutcome::Failure(_) => {},
        }
        i = i + 1;
    }
    proof {
        assert(outcomes@.take(n as int) =~= outcomes@);
    }
    out
}

/// The order the aggregator sorts response times by.
pub open spec fn leq64() -> spec_fn(u64, u64) -> bool {
    |a: u64, b: u64| a <= b
}

/// The response times of a batch of outcomes, in batch order.
pub open spec fn durations_of(s: Seq<RequestOutcome>) -> Seq<u64> {
    s.map_values(|o: RequestOutcome| o.duration_ms)
}

/// The response times of a batch, sorted ascending.
pub open spec fn sorted_durations_of(s: Seq<RequestOutcome>) -> Seq<u64> {
    durations_of(s).sort_by(leq64())
}

/// The sum of all response times of a batch.
pub open spec fn sum_durations(s: Seq<RequestOutcome>) -> int
    decreases s.len(),
{
    if s.len() == 0 {
        0
    } else {
        sum_durations(s.drop_last()) + s.last().duration_ms
    }
}

/// The sum of all response sizes of a batch.
pub open spec fn sum_bytes(s: Seq<RequestOutcome>) -> int
    decreases s.len(),
{
    if s.len() == 0 {
        0
    } else {
        sum_bytes(s.drop_last()) + s.last().bytes
    }
}

/// How many outcomes of a batch carry a success status (200..=299).
pub open spec fn count_successes(s: Seq<RequestOutcome>) -> int
    decreases s.len(),
{
    if s.len() == 0 {
        0
    } else {
        count_successes(s.drop_last()) + if is_success_status(s.last().status_code) {
            1int
        } else {
            0int
        }
    }
}

/// How many outcomes of a batch carry exactly the given status code.
pub open spec fn count_code(s: Seq<RequestOutcome>, code: u16) -> int
    decreases s.len(),
{
    if s.len() == 0 {
        0
    } else {
        count_code(s.drop_last(), code) + if s.last().status_code == code {
            1int
        } else {
            0int
        }
    }
}

/// The median of a sorted sequence: the average of the two central elements
/// for an even length, the single central element for an odd length, zero for
/// an empty sequence.
pub open spec fn median_of(sorted: Seq<u64>) -> int {
    if sorted.len() == 0 {
        0
    } else if sorted.len() % 2 == 0 {
        (sorted[sorted.len() / 2 - 1] + sorted[sorted.len() as int / 2]) / 2
    } else {
        sorted[sorted.len() as int / 2] as int
    }
}

/// The 0-based index of the 95th-percentile element among n sorted values:
/// the ceiling of 19n/20, minus one.
pub open spec fn percentile95_index(n: int) -> int {
    (19 * n + 19) / 20 - 1
}

/// The 95th-percentile response time of a sorted sequence, zero if empty.
pub open spec fn percentile95_of(sorted: Seq<u64>) -> int {
    if sorted.len() == 0 {
        0
    } else {
        sorted[percentile95_index(sorted.len() as int)] as int
    }
}

/// Throughput in thousandths of a request per second, computed against the
/// cumulative response-time mass (not wall-clock time): 1000 * n / (sum/1000),
/// rounded down; zero when the mass is zero.
pub open spec fn throughput_milli(n: int, total_duration_ms: int) -> int {
    if total_duration_ms <= 0 {
        0
    } else {
        1_000_000 * n / total_duration_ms
    }
}

/// For a non-empty sequence, the 95th-percentile index is in bounds.
pub proof fn lemma_percentile95_index_bounds(n: int)
    requires
        n >= 1,
    ensures
        0 <= percentile95_index(n) < n,
{
    assert((19 * n + 19) / 20 >= 1) by (nonlinear_arith)
        requires
            n >= 1,
    ;
    assert((19 * n + 19) / 20 <= n) by (nonlinear_arith)
        requires
            n >= 1,
    ;
}

/// Sorts a batch's response times ascending. The result is exactly the
/// mathematical sorted permutation of the input.
pub fn sort_durations(v: &Vec<u64>) -> (r: Vec<u64>)
    ensures
        r@.len() == v@.len(),
        sorted_by(r@, leq64()),
        r@.to_multiset() == v@.to_multiset(),
        r@ == v@.sort_by(leq64()),
{
    broadcast use vstd::seq_lib::group_to_multiset_ensures;

    let n = v.len();
    let mut out: Vec<u64> = Vec::new();
    let mut i: usize = 0;
    while i < n
        invariant
            0 <= i <= n,
            n == v@.len(),
            out@.len() == i,
            sorted_by(out@, leq64()),
            out@.to_multiset() == v@.take(i as int).to_multiset(),
        decreases n - i,
    {
        broadcast use vstd::seq_lib::group_to_multiset_ensures;

        let x = v[i];
        let mut j: usize = 0;
        while j < out.len() && out[j] <= x
            invariant
                0 <= j <= out@.len(),
                forall|k: int| 0 <= k < j ==> out@[k] <= x,
            decreases out@.len() - j,
        {
            j = j + 1;
        }
        let ghost prev = out@;
        out.insert(j, x);
        proof {
            // Sortedness: everything before position j is <= x, everything
            // after is >= x because the old suffix started above x.
            assert forall|p: int, q: int| 0 <= p < q < out@.len() implies leq64()(
                out@[p],
                out@[q],
            ) by {
                if p < j && q == j {
                    assert(out@[p] == prev[p]);
                } else if p == j && q > j {
                    assert(out@[q] == prev[q - 1]);
                    if j < prev.len() {
                        assert(!(prev[j as int] <= x));
                        if q - 1 > j {
                            assert(leq64()(prev[j as int], prev[q - 1]));
                        }
                    }
                } else if p < j && q > j {
                    assert(out@[p] == prev[p] && out@[q] == prev[q - 1]);
                    if j < prev.len() {
                        assert(!(prev[j as int] <= x));
                        if q - 1 > j {
                            assert(leq64()(prev[j as int], prev[q - 1]));
                        }
                        assert(prev[p] <= x);
                    }
                } else if q < j {
                    assert(out@[p] == prev[p] && out@[q] == prev[q]);
                } else {
                    assert(out@[p] == prev[p - 1] && out@[q] == prev[q - 1]);
                }
            }
            // Multiset: inserting x anywhere adds exactly one x.
            assert(out@.remove(j as int) =~= prev);
            assert(out@.to_multiset().remove(x) =~= prev.to_multiset());
            assert(out@.to_multiset().count(x) > 0);
            assert(out@.to_multiset() =~= prev.to_multiset().insert(x));
            assert(v@.take(i + 1) =~= v@.take(i as int).push(x));
        }
        i = i + 1;
    }
    proof {
        assert(v@.take(n as int) =~= v@);
        v@.lemma_sort_by_ensures(leq64());
        lemma_sorted_unique(out@, v@.sort_by(leq64()), leq64());
    }
    out
}

/// Looks a status code up in a histogram: the count stored beside the first
/// matching entry, zero when no entry matches.
pub open spec fn dist_count(entries: Seq<(u16, usize)>, code: u16) -> int
    decreases entries.len(),
{
    if entries.len() == 0 {
        0
    } else if entries[0].0 == code {
        entries[0].1 as int
    } else {
        dist_count(entries.drop_first(), code)
    }
}

/// Whether every status code appears in at most one histogram entry.
pub open spec fn unique_codes(entries: Seq<(u16, usize)>) -> bool {
    forall|i: int, j: int| 0 <= i < j < entries.len() ==> entries[i].0 != entries[j].0
}

/// Whether some histogram entry carries the given status code.
pub open spec fn has_code(entries: Seq<(u16, usize)>, code: u16) -> bool {
    exists|i: int| 0 <= i < entries.len() && entries[i].0 == code
}

/// The sum of all counts of a histogram.
pub open spec fn dist_total(entries: Seq<(u16, usize)>) -> int
    decreases entries.len(),
{
    if entries.len() == 0 {
        0
    } else {
        dist_total(entries.drop_last()) + entries.last().1
    }
}

proof fn lemma_dist_count_at(entries: Seq<(u16, usize)>, j: int)
    requires
        unique_codes(entries),
        0 <= j < entries.len(),
    ensures
        dist_count(entries, entries[j].0) == entries[j].1,
    decreases j,
{
    if j > 0 {
        assert(entries[0].0 != entries[j].0);
        assert(entries.drop_first()[j - 1] == entries[j]);
        lemma_dist_count_at(entries.drop_first(), j - 1);
    }
}

proof fn lemma_dist_count_absent(entries: Seq<(u16, usize)>, code: u16)
    requires
        !has_code(entries, code),
    ensures
        dist_count(entries, code) == 0,
    decreases entries.len(),
{
    if entries.len() > 0 {
        assert(entries[0].0 != code);
        assert(!has_code(entries.drop_first(), code)) by {
            assert forall|i: int|
                0 <= i < entries.drop_first().len() implies entries.drop_first()[i].0 != code by {
                assert(entries.drop_first()[i] == entries[i + 1]);
            }
        }
        lemma_dist_count_absent(entries.drop_first(), code);
    }
}

proof fn lemma_dist_count_update(entries: Seq<(u16, usize)>, j: int, v: usize, code: u16)
    requires
        unique_codes(entries),
        0 <= j < entries.len(),
    ensures
        dist_count(entries.update(j, (entries[j].0, v)), code) == if code == entries[j].0 {
            v as int
        } else {
            dist_count(entries, code)
        },
    decreases j,
{
    let upd = entries.update(j, (entries[j].0, v));
    if j == 0 {
        assert(upd.drop_first() =~= entries.drop_first());
    } else {
        assert(upd[0] == entries[0]);
        assert(entries[0].0 != entries[j].0);
        assert(upd.drop_first() =~= entries.drop_first().update(j - 1, (entries[j].0, v)));
        assert(entries.drop_first()[j - 1] == entries[j]);
        assert(unique_codes(entries.drop_first())) by {
            assert forall|p: int, q: int|
                0 <= p < q < entries.drop_first().len() implies entries.drop_first()[p].0
                != entries.drop_first()[q].0 by {
                assert(entries.drop_first()[p] == entries[p + 1]);
                assert(entries.drop_first()[q] == entries[q + 1]);
            }
        }
        lemma_dist_count_update(entries.drop_first(), j - 1, v, code);
    }
}

proof fn lemma_dist_count_push(entries: Seq<(u16, usize)>, e: (u16, usize), code: u16)
    ensures
        dist_count(entries.push(e), code) == if has_code(entries, code) {
            dist_count(entries, code)
        } else if e.0 == code {
            e.1 as int
        } else {
            0
        },
    decreases entries.len(),
{
    if entries.len() == 0 {
        assert(!has_code(entries, code));
        assert(entries.push(e)[0] == e);
        assert(entries.push(e).drop_first() =~= Seq::<(u16, usize)>::empty());
        if e.0 == code {
            assert(dist_count(entries.push(e), code) == e.1 as int);
        } else {
            assert(dist_count(entries.push(e), code) == dist_count(
                Seq::<(u16, usize)>::empty(),
                code,
            ));
        }
    } else {
        assert(entries.push(e)[0] == entries[0]);
        if entries[0].0 == code {
            assert(has_code(entries, code));
            assert(dist_count(entries.push(e), code) == entries[0].1 as int);
            assert(dist_count(entries, code) == entries[0].1 as int);
        } else {
            assert(entries.push(e).drop_first() =~= entries.drop_first().push(e));
            lemma_dist_count_push(entries.drop_first(), e, code);
            assert(has_code(entries, code) == has_code(entries.drop_first(), code)) by {
                if has_code(entries, code) {
                    let i = choose|i: int| 0 <= i < entries.len() && entries[i].0 == code;
                    assert(i > 0);
                    assert(entries.drop_first()[i - 1] == entries[i]);
                }
                if has_code(entries.drop_first(), code) {
                    let i = choose|i: int|
                        0 <= i < entries.drop_first().len() && entries.drop_first()[i].0 == code;
                    assert(entries[i + 1] == entries.drop_first()[i]);
                }
            }
        }
    }
}

proof fn lemma_dist_total_update(entries: Seq<(u16, usize)>, j: int, e: (u16, usize))
    requires
        0 <= j < entries.len(),
    ensures
        dist_total(entries.update(j, e)) == dist_total(entries) - entries[j].1 + e.1,
    decreases entries.len(),
{
    let upd = entries.update(j, e);
    if j == entries.len() - 1 {
        assert(upd.drop_last() =~= entries.drop_last());
        assert(upd.last() == e);
    } else {
        assert(upd.last() == entries.last());
        assert(upd.drop_last() =~= entries.drop_last().update(j, e));
        assert(entries.drop_last()[j] == entries[j]);
        lemma_dist_total_update(entries.drop_last(), j, e);
    }
}

/// How many outcomes carry a given code is at most the batch size.
proof fn lemma_count_code_bound(s: Seq<RequestOutcome>, code: u16)
    ensures
        0 <= count_code(s, code) <= s.len(),
    decreases s.len(),
{
    if s.len() > 0 {
        lemma_count_code_bound(s.drop_last(), code);
    }
}

/// How many outcomes succeed is at most the batch size.
proof fn lemma_count_successes_bound(s: Seq<RequestOutcome>)
    ensures
        0 <= count_successes(s) <= s.len(),
    decreases s.len(),
{
    if s.len() > 0 {
        lemma_count_successes_bound(s.drop_last());
    }
}

proof fn lemma_sum_durations_bound(s: Seq<RequestOutcome>)
    ensures
        0 <= sum_durations(s) <= s.len() * 0xffff_ffff_ffff_ffff,
    decreases s.len(),
{
    if s.len() > 0 {
        lemma_sum_durations_bound(s.drop_last());
    }
}

proof fn lemma_sum_bytes_bound(s: Seq<RequestOutcome>)
    ensures
        0 <= sum_bytes(s) <= s.len() * 0xffff_ffff_ffff_ffff,
    decreases s.len(),
{
    if s.len() > 0 {
        lemma_sum_bytes_bound(s.drop_last());
    }
}

/// Adds one observation of a status code to a histogram: the matching entry's
/// count grows by one, or a fresh entry with count one is appended; every
/// other count is untouched.
fn record_code(dist: &mut Vec<(u16, usize)>, code: u16)
    requires
        unique_codes(old(dist)@),
        dist_count(old(dist)@, code) < usize::MAX,
    ensures
        unique_codes(final(dist)@),
        dist_total(final(dist)@) == dist_total(old(dist)@) + 1,
        forall|c: u16|
            #[trigger] dist_count(final(dist)@, c) == dist_count(old(dist)@, c) + if c == code {
                1int
            } else {
                0int
            },
{
    let n = dist.len();
    let mut j: usize = 0;
    while j < n
        invariant
            0 <= j <= n,
            n == dist@.len(),
            dist@ == old(dist)@,
            unique_codes(old(dist)@),
            dist_count(old(dist)@, code) < usize::MAX,
            forall|k: int| 0 <= k < j ==> dist@[k].0 != code,
        decreases n - j,
    {
        if dist[j].0 == code {
            let ghost prev = dist@;
            proof {
                lemma_dist_count_at(prev, j as int);
            }
            let cnt = dist[j].1;
            dist.set(j, (code, cnt + 1));
            proof {
                assert(dist@ == prev.update(j as int, (prev[j as int].0, (cnt + 1) as usize)));
                assert forall|c: u16|
                    #[trigger] dist_count(dist@, c) == dist_count(prev, c) + if c == code {
                        1int
                    } else {
                        0int
                    } by {
                    lemma_dist_count_update(prev, j as int, (cnt + 1) as usize, c);
                }
                lemma_dist_total_update(prev, j as int, (code, (cnt + 1) as usize));
            }
            return ;
        }
        j = j + 1;
    }
    let ghost prev = dist@;
    dist.push((code, 1));
    proof {
        assert(!has_code(prev, code));
        lemma_dist_count_absent(prev, code);
        assert(dist@.drop_last() =~= prev);
        assert forall|c: u16|
            #[trigger] dist_count(dist@, c) == dist_count(prev, c) + if c == code {
                1int
            } else {
                0int
            } by {
            lemma_dist_count_push(prev, (code, 1usize), c);
            if c != code && !has_code(prev, c) {
                lemma_dist_count_absent(prev, c);
            }
        }
    }
}

proof fn lemma_mul_bound_128(a: int, b: int)
    requires
        0 <= a <= 0xffff_ffff_ffff_ffff,
        0 <= b <= 0xffff_ffff_ffff_ffff,
    ensures
        a * b <= 0xffff_ffff_ffff_ffff_ffff_ffff_ffff_ffff,
{
    assert(a * b <= 0xffff_ffff_ffff_ffff * 0xffff_ffff_ffff_ffff) by (nonlinear_arith)
        requires
            0 <= a <= 0xffff_ffff_ffff_ffff,
            0 <= b <= 0xffff_ffff_ffff_ffff,
    ;
}

/// The aggregated statistics of one batch of request outcomes.
#[derive(Debug, Clone)]
pub struct OutcomeStatistics {
    /// How many outcomes carried a success status (200..=299).
    pub success_count: usize,
    /// How many outcomes carried any other status.
    pub failure_count: usize,
    pub median_response_time_ms: u128,
    pub average_response_time_ms: u128,
    pub min_response_time_ms: u128,
    pub max_response_time_ms: u128,
    /// How often each status code was observed.
    pub status_code_distribution: Vec<(u16, usize)>,
    pub percentile_95th_response_time_ms: u128,
    /// Throughput in thousandths of a request per second, measured against
    /// the cumulative response-time mass rather than wall-clock time.
    pub requests_per_second_milli: u128,
    pub average_bytes_per_response: u128,
}

/// Turns a batch of raw request outcomes into its metrics summary: success
/// and failure counts, minimum, median, average, maximum and 95th-percentile
/// response times, a status-code histogram whose counts sum to the batch
/// size, throughput against cumulative response time, and the average
/// response size. Every statistic of an empty batch is zero.
pub fn analyze_results(results: &Vec<RequestOutcome>) -> (r: OutcomeStatistics)
    ensures
        r.success_count == count_successes(results@),
        r.failure_count == results@.len() - count_successes(results@),
        r.min_response_time_ms == if results@.len() == 0 {
            0int
        } else {
            sorted_durations_of(results@)[0] as int
        },
        r.max_response_time_ms == if results@.len() == 0 {
            0int
        } else {
            sorted_durations_of(results@).last() as int
        },
        r.average_response_time_ms == if results@.len() == 0 {
            0int
        } else {
            sum_durations(results@) / results@.len() as int
        },
        r.median_response_time_ms == median_of(sorted_durations_of(results@)),
        r.percentile_95th_response_time_ms == percentile95_of(sorted_durations_of(results@)),
        r.requests_per_second_milli == throughput_milli(
            results@.len() as int,
            sum_durations(results@),
        ),
        r.average_bytes_per_response == if results@.len() == 0 {
            0int
        } else {
            sum_bytes(results@) / results@.len() as int
        },
        unique_codes(r.status_code_distribution@),
        forall|c: u16|
            #[trigger] dist_count(r.status_code_distribution@, c) == count_code(results@, c),
        dist_total(r.status_code_distribution@) == results@.len(),
{
    let n = results.len();
    let mut durations: Vec<u64> = Vec::new();
    let mut i: usize = 0;
    while i < n
        invariant
            0 <= i <= n,
            n == results@.len(),
            durations@.len() == i,
            forall|k: int| 0 <= k < i ==> durations@[k] == results@[k].duration_ms,
        decreases n - i,
    {
        durations.push(results[i].duration_ms);
        i = i + 1;
    }
    proof {
        assert(durations@ =~= durations_of(results@));
    }
    let sorted = sort_durations(&durations);

    let mut success_count: usize = 0;
    let mut total_duration: u128 = 0;
    let mut total_bytes: u128 = 0;
    let mut dist: Vec<(u16, usize)> = Vec::new();
    let mut i: usize = 0;
    while i < n
        invariant
            0 <= i <= n,
            n == results@.len(),
            success_count == count_successes(results@.take(i as int)),
            total_duration == sum_durations(results@.take(i as int)),
            total_bytes == sum_bytes(results@.take(i as int)),
            unique_codes(dist@),
            dist_total(dist@) == i,
            forall|c: u16| #[trigger] dist_count(dist@, c) == count_code(results@.take(i as int), c),
        decreases n - i,
    {
        let ghost pre = results@.take(i as int);
        proof {
            assert(results@.take(i + 1).drop_last() =~= pre);
            assert(results@.take(i + 1).last() == results@[i as int]);
            lemma_count_successes_bound(pre);
            lemma_sum_durations_bound(pre);
            lemma_sum_bytes_bound(pre);
            lemma_count_code_bound(pre, results@[i as int].status_code);
            lemma_mul_bound_128(i + 1, 0xffff_ffff_ffff_ffff);
            assert((i + 1) * 0xffff_ffff_ffff_ffff == i * 0xffff_ffff_ffff_ffff
                + 0xffff_ffff_ffff_ffff) by (nonlinear_arith);
        }
        let o = results[i];
        if crate::status_is_success(o.status_code) {
            success_count = success_count + 1;
        }
        total_duration = total_duration + o.duration_ms as u128;
        total_bytes = total_bytes + o.bytes as u128;
        record_code(&mut dist, o.status_code);
        i = i + 1;
    }
    proof {
        assert(results@.take(n as int) =~= results@);
    }

    if n == 0 {
        OutcomeStatistics {
            success_count: 0,
            failure_count: 0,
            median_response_time_ms: 0,
            average_response_time_ms: 0,
            min_response_time_ms: 0,
            max_response_time_ms: 0,
            status_code_distribution: dist,
            percentile_95th_response_time_ms: 0,
            requests_per_second_milli: 0,
            average_bytes_per_response: 0,
        }
    } else {
        proof {
            lemma_count_successes_bound(results@);
        }
        let failure_count = n - success_count;
        let min_response_time_ms = sorted[0] as u128;
        let max_response_time_ms = sorted[n - 1] as u128;
        let median_response_time_ms: u128 = if n % 2 == 0 {
            let a = sorted[n / 2 - 1];
            let b = sorted[n / 2];
            ((a as u128) + (b as u128)) / 2
        } else {
            sorted[n / 2] as u128
        };
        proof {
            lemma_percentile95_index_bounds(n as int);
        }
        let p95_index_wide: u128 = (19 * (n as u128) + 19) / 20 - 1;
        let p95_index: usize = p95_index_wide as usize;
        let percentile_95th_response_time_ms = sorted[p95_index] as u128;
        let average_response_time_ms = total_duration / (n as u128);
        let average_bytes_per_response = total_bytes / (n as u128);
        let requests_per_second_milli: u128 = if total_duration == 0 {
            0
        } else {
            1_000_000 * (n as u128) / total_duration
        };
        OutcomeStatistics {
            success_count,
            failure_count,
            median_response_time_ms,
            average_response_time_ms,
            min_response_time_ms,
            max_response_time_ms,
            status_code_distribution: dist,
            percentile_95th_response_time_ms,
            requests_per_second_milli,
            average_bytes_per_response,
        }
    }
}

proof fn lemma_sum_durations_range(s: Seq<RequestOutcome>, lo: u64, hi: u64)
    requires
        forall|k: int| 0 <= k < s.len() ==> lo <= #[trigger] s[k].duration_ms <= hi,
    ensures
        s.len() * lo <= sum_durations(s) <= s.len() * hi,
    decreases s.len(),
{
    if s.len() > 0 {
        lemma_sum_durations_range(s.drop_last(), lo, hi);
        assert(s[s.len() - 1].duration_ms == s.last().duration_ms);
        assert((s.len() - 1) * lo + lo == s.len() * lo) by (nonlinear_arith);
        assert((s.len() - 1) * hi + hi == s.len() * hi) by (nonlinear_arith);
    }
}

/// For a non-empty batch, the minimum response time is at most the median and
/// the average, and both are at most the maximum; the minimum and maximum are
/// the first and last sorted response times.
pub proof fn lemma_aggregate_bounds(results: Seq<RequestOutcome>)
    requires
        results.len() > 0,
    ensures
        sorted_durations_of(results).len() == results.len(),
        sorted_durations_of(results)[0] as int <= median_of(sorted_durations_of(results)),
        median_of(sorted_durations_of(results)) <= sorted_durations_of(results).last() as int,
        sorted_durations_of(results)[0] as int <= sum_durations(results) / (results.len() as int),
        sum_durations(results) / (results.len() as int) <= sorted_durations_of(
            results,
        ).last() as int,
{
    broadcast use vstd::seq_lib::group_to_multiset_ensures;

    let ds = durations_of(results);
    let sorted = ds.sort_by(leq64());
    ds.lemma_sort_by_ensures(leq64());
    assert(sorted.len() == ds.len()) by {
        ds.to_multiset_ensures();
        sorted.to_multiset_ensures();
        assert(ds.to_multiset().len() == ds.len());
        assert(sorted.to_multiset().len() == sorted.len());
    }
    let n = results.len() as int;
    let lo = sorted[0];
    let hi = sorted[n - 1];
    assert forall|k: int| 0 <= k < n implies lo <= #[trigger] sorted[k] && sorted[k] <= hi by {
        if k > 0 {
            assert(leq64()(sorted[0], sorted[k]));
        }
        if k < n - 1 {
            assert(leq64()(sorted[k], sorted[n - 1]));
        }
    }
    assert forall|k: int| 0 <= k < n implies lo <= #[trigger] results[k].duration_ms <= hi by {
        assert(ds[k] == results[k].duration_ms);
        assert(ds.contains(ds[k]));
        assert(sorted.to_multiset().contains(ds[k]));
        assert(sorted.contains(ds[k]));
        let j = choose|j: int| 0 <= j < sorted.len() && sorted[j] == ds[k];
        assert(lo <= sorted[j] && sorted[j] <= hi);
    }
    lemma_sum_durations_range(results, lo, hi);
    vstd::arithmetic::div_mod::lemma_div_is_ordered(n * lo, sum_durations(results), n);
    vstd::arithmetic::div_mod::lemma_div_is_ordered(sum_durations(results), n * hi, n);
    vstd::arithmetic::div_mod::lemma_div_multiples_vanish(lo as int, n);
    vstd::arithmetic::div_mod::lemma_div_multiples_vanish(hi as int, n);
    assert(n * lo == lo * n) by (nonlinear_arith);
    assert(n * hi == hi * n) by (nonlinear_arith);
}

} // verus!
