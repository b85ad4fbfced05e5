use vstd::prelude::*;
use vstd::string::*;

use crate::service::{expected_outcome, request_view, Outcome, OutcomeView, Policy, Service};

verus! {

/// std's `Instant`, carried opaquely: a run reads the clock at its start.
#[verifier::external_type_specification]
#[verifier::external_body]
pub struct ExInstant(std::time::Instant);

/// Relies on `Instant::now`: it reads the monotonic clock; nothing is promised of the reading.
pub assume_specification[ std::time::Instant::now ]() -> std::time::Instant;

/// Relies on `Instant::elapsed`: the time since the reading; nothing is promised of its length.
pub assume_specification[ std::time::Instant::elapsed ](
    i: &std::time::Instant,
) -> std::time::Duration;

/// The nominal failure rate of the service that each run builds: one percent.
pub const NOMINAL_FAILURE_RATE_PPM: u32 = 10_000;

/// A sequence of requests, each payload as characters.
pub open spec fn requests_view(reqs: Seq<Option<String>>) -> Seq<Option<Seq<char>>> {
    reqs.map_values(|r: Option<String>| request_view(r))
}

/// How many requests carry a payload.
pub open spec fn count_present(v: Seq<Option<Seq<char>>>) -> nat
    decreases v.len(),
{
    if v.len() == 0 {
        0
    } else {
        count_present(v.drop_last()) + if v.last() is Some {
            1nat
        } else {
            0nat
        }
    }
}

/// How many requests are absent.
pub open spec fn count_absent(v: Seq<Option<Seq<char>>>) -> nat
    decreases v.len(),
{
    if v.len() == 0 {
        0
    } else {
        count_absent(v.drop_last()) + if v.last() is None {
            1nat
        } else {
            0nat
        }
    }
}

/// The length of the longest prefix of requests that all carry a payload.
pub open spec fn leading_present(v: Seq<Option<Seq<char>>>) -> nat
    decreases v.len(),
{
    if v.len() == 0 {
        0
    } else {
        let p = leading_present(v.drop_last());
        if p == v.len() - 1 && v.last() is Some {
            v.len()
        } else {
            p
        }
    }
}

/// The 1-based position at which a run of `policy` over `v` aborts, if it does.
pub open spec fn abort_position(policy: Policy, v: Seq<Option<Seq<char>>>) -> Option<nat> {
    if policy == Policy::Unsafe && leading_present(v) < v.len() {
        Some(leading_present(v) + 1)
    } else {
        None
    }
}

/// How many requests a run of `policy` over `v` dispatches.
pub open spec fn dispatched_count(policy: Policy, v: Seq<Option<Seq<char>>>) -> nat {
    match abort_position(policy, v) {
        Some(k) => k,
        None => v.len(),
    }
}

pub open spec fn successful_count(policy: Policy, v: Seq<Option<Seq<char>>>) -> nat {
    if policy == Policy::Unsafe {
        leading_present(v)
    } else {
        count_present(v)
    }
}

/// Failed requests; after an abort, every request from the aborted one on counts as failed.
pub open spec fn failed_count(policy: Policy, v: Seq<Option<Seq<char>>>) -> nat {
    if policy == Policy::Unsafe {
        (v.len() - leading_present(v)) as nat
    } else {
        count_absent(v)
    }
}

pub open spec fn expected_outcomes(policy: Policy, v: Seq<Option<Seq<char>>>) -> Seq<OutcomeView> {
    Seq::new(dispatched_count(policy, v), |i: int| expected_outcome(policy, v[i]))
}

/// `1000 * s / t` rounded to the nearest integer, halves upward: availability in tenths of a
/// percent.
pub open spec fn nearest_permille(s: nat, t: nat) -> int
    recommends
        t > 0,
{
    ((2000 * s + t) / (2 * t)) as int
}

/// What a report states, without its elapsed time.
pub struct ReportView {
    pub successful: nat,
    pub failed: nat,
    pub total: nat,
    pub abort_index: Option<nat>,
    pub outcomes: Seq<OutcomeView>,
}

/// The report of a run of `policy` over `v`.
pub open spec fn expected_report(policy: Policy, v: Seq<Option<Seq<char>>>) -> ReportView {
    ReportView {
        successful: successful_count(policy, v),
        failed: failed_count(policy, v),
        total: v.len(),
        abort_index: abort_position(policy, v),
        outcomes: expected_outcomes(policy, v),
    }
}

/// The aggregate result of driving a sequence of requests through one policy.
pub struct SimulationReport {
    pub successful: usize,
    pub failed: usize,
    pub total: usize,
    /// The 1-based position of the request whose fault ended an `Unsafe` run.
    pub abort_index: Option<usize>,
    /// One outcome per dispatched request, in the order of the requests.
    pub outcomes: Vec<Outcome>,
    pub elapsed: std::time::Duration,
}

pub open spec fn option_nat(o: Option<usize>) -> Option<nat> {
    match o {
        Some(k) => Some(k as nat),
        None => None,
    }
}

impl View for SimulationReport {
    type V = ReportView;

    open spec fn view(&self) -> ReportView {
        ReportView {
            successful: self.successful as nat,
            failed: self.failed as nat,
            total: self.total as nat,
            abort_index: option_nat(self.abort_index),
            outcomes: self.outcomes@.map_values(|o: Outcome| o@),
        }
    }
}

proof fn lemma_leading_bounded(v: Seq<Option<Seq<char>>>)
    ensures
        leading_present(v) <= v.len(),
    decreases v.len(),
{
    if v.len() > 0 {
        lemma_leading_bounded(v.drop_last());
    }
}

/// Once the prefix of length `k` holds an absence, longer sequences keep the same leading run.
proof fn lemma_leading_settled(v: Seq<Option<Seq<char>>>, k: int)
    requires
        0 <= k <= v.len(),
        leading_present(v.take(k)) < k,
    ensures
        leading_present(v) == leading_present(v.take(k)),
    decreases v.len(),
{
    if v.len() == k {
        assert(v.take(k) =~= v);
    } else {
        assert(v.drop_last().take(k) =~= v.take(k));
        lemma_leading_settled(v.drop_last(), k);
    }
}

/// The leading run is exactly the requests before the first absence.
pub proof fn lemma_leading_present_is_first_absence(v: Seq<Option<Seq<char>>>)
    ensures
        leading_present(v) <= v.len(),
        forall|j: int| 0 <= j < leading_present(v) ==> (#[trigger] v[j]) is Some,
        leading_present(v) < v.len() ==> v[leading_present(v) as int] is None,
    decreases v.len(),
{
    if v.len() > 0 {
        let w = v.drop_last();
        lemma_leading_present_is_first_absence(w);
        assert forall|j: int| 0 <= j < leading_present(v) implies (#[trigger] v[j]) is Some by {
            if j < w.len() {
                assert(v[j] == w[j]);
            }
        }
        if leading_present(v) < v.len() && leading_present(w) < w.len() {
            assert(v[leading_present(w) as int] == w[leading_present(w) as int]);
        }
    }
}

fn clone_request(r: &Option<String>) -> (c: Option<String>)
    ensures
        request_view(c) == request_view(*r),
{
    match r {
        Some(s) => Some(s.clone()),
        None => None,
    }
}

/// Drives `requests`, in order, through `policy` on a fresh service, each request inside its
/// own boundary. An `Unsafe` run stops at the first absent request; that request and all after
/// it are counted as failed.
pub fn run(policy: Policy, requests: &Vec<Option<String>>) -> (r: SimulationReport)
    ensures
        r@ == expected_report(policy, requests_view(requests@)),
{
    let service = Service::new(NOMINAL_FAILURE_RATE_PPM);
    let start = std::time::Instant::now();
    let ghost v = requests_view(requests@);
    let n = requests.len();
    let mut outcomes: Vec<Outcome> = Vec::new();
    let mut successful: usize = 0;
    let mut failed: usize = 0;
    let mut abort_index: Option<usize> = None;
    let mut i: usize = 0;
    while i < n
        invariant_except_break
            abort_index is None,
            outcomes.len() == i,
            successful + failed == i,
            successful as nat == successful_count(policy, v.take(i as int)),
            failed as nat == failed_count(policy, v.take(i as int)),
            policy == Policy::Unsafe ==> leading_present(v.take(i as int)) == i,
        invariant
            n == requests.len(),
            v == requests_view(requests@),
            v.len() == n,
            i <= n,
            successful + failed <= n,
            outcomes.len() <= n,
            forall|j: int|
                0 <= j < outcomes.len() ==> (#[trigger] outcomes@[j])@ == expected_outcome(
                    policy,
                    v[j],
                ),
        ensures
            abort_index is None ==> {
                &&& i == n
                &&& outcomes.len() == n
                &&& successful as nat == successful_count(policy, v.take(n as int))
                &&& failed as nat == failed_count(policy, v.take(n as int))
                &&& policy == Policy::Unsafe ==> leading_present(v.take(n as int)) == n
            },
            abort_index is Some ==> {
                &&& outcomes@.map_values(|o: Outcome| o@) =~= expected_outcomes(policy, v)
                &&& successful as nat == successful_count(policy, v)
                &&& failed as nat == failed_count(policy, v)
                &&& option_nat(abort_index) == abort_position(policy, v)
            },
        decreases n - i,
    {
        let ghost before = v.take(i as int);
        let ghost after = v.take(i + 1);
        assert(after.drop_last() =~= before);
        assert(after.last() == v[i as int]);
        proof {
            lemma_leading_bounded(before);
        }
        let o = policy.process(&service, clone_request(&requests[i]));
        if o.is_fatal() {
            proof {
                lemma_leading_settled(v, i + 1);
                lemma_leading_bounded(v);
            }
            abort_index = Some(i + 1);
            failed = n - i;
            outcomes.push(o);
            assert(outcomes@.map_values(|o: Outcome| o@) =~= expected_outcomes(policy, v));
            break;
        }
        if o.is_success() {
            successful = successful + 1;
        } else {
            failed = failed + 1;
        }
        outcomes.push(o);
        i = i + 1;
    }
    if abort_index.is_none() {
        assert(v.take(n as int) =~= v);
        assert(outcomes@.map_values(|o: Outcome| o@) =~= expected_outcomes(policy, v));
    }
    SimulationReport {
        successful,
        failed,
        total: n,
        abort_index,
        outcomes,
        elapsed: start.elapsed(),
    }
}

impl SimulationReport {
    /// Successful requests per thousand requests of the sequence, rounded to the nearest.
    pub fn availability_permille(&self) -> (r: u64)
        requires
            self.total > 0,
            self.successful <= self.total,
        ensures
            r as int == nearest_permille(self.successful as nat, self.total as nat),
            r <= 1000,
    {
        let s = self.successful as u128;
        let t = self.total as u128;
        assert(2000 * s + t <= 2001 * t) by (nonlinear_arith)
            requires
                s <= t,
        ;
        assert((2000 * s + t) / (2 * t) <= 1000) by (nonlinear_arith)
            requires
                2000 * s + t <= 2001 * t,
                t > 0,
        ;
        ((2000 * s + t) / (2 * t)) as u64
    }
}

pub open spec fn reference_payloads() -> Seq<Option<Seq<char>>> {
    seq![
        Some("req1"@),
        Some("req2"@),
        None,
        Some("req3"@),
        Some("req4"@),
        None,
        Some("req5"@),
    ]
}

/// The demonstration stream: seven requests, absent at the third and sixth positions.
pub fn reference_requests() -> (r: Vec<Option<String>>)
    ensures
        requests_view(r@) == reference_payloads(),
{
    let r = vec![
        Some("req1".to_owned()),
        Some("req2".to_owned()),
        None,
        Some("req3".to_owned()),
        Some("req4".to_owned()),
        None,
        Some("req5".to_owned()),
    ];
    assert(requests_view(r@) =~= reference_payloads());
    r
}

/// The policy that `name` designates: `"unsafe"`, `"safe"` or `"resilient"`.
pub fn policy_named(name: &str) -> (r: Option<Policy>)
    ensures
        r == Some(Policy::Unsafe) <==> name@ == "unsafe"@,
        r == Some(Policy::Safe) <==> name@ == "safe"@,
        r == Some(Policy::Resilient) <==> name@ == "resilient"@,
        r is None <==> (name@ != "unsafe"@ && name@ != "safe"@ && name@ != "resilient"@),
{
    proof {
        reveal_strlit("unsafe");
        reveal_strlit("safe");
        reveal_strlit("resilient");
        assert("unsafe"@.len() == 6 && "safe"@.len() == 4 && "resilient"@.len() == 9);
    }
    let n = name.to_owned();
    if n == "unsafe".to_owned() {
        Some(Policy::Unsafe)
    } else if n == "safe".to_owned() {
        Some(Policy::Safe)
    } else if n == "resilient".to_owned() {
        Some(Policy::Resilient)
    } else {
        None
    }
}

proof fn lemma_counts_partition(v: Seq<Option<Seq<char>>>)
    ensures
        count_present(v) + count_absent(v) == v.len(),
    decreases v.len(),
{
    if v.len() > 0 {
        lemma_counts_partition(v.drop_last());
    }
}

proof fn lemma_all_present_counts(v: Seq<Option<Seq<char>>>)
    requires
        forall|i: int| 0 <= i < v.len() ==> (#[trigger] v[i]) is Some,
    ensures
        count_present(v) == v.len(),
        count_absent(v) == 0,
        leading_present(v) == v.len(),
    decreases v.len(),
{
    if v.len() > 0 {
        let w = v.drop_last();
        assert forall|i: int| 0 <= i < w.len() implies (#[trigger] w[i]) is Some by {
            assert(w[i] == v[i]);
        }
        lemma_all_present_counts(w);
        assert(v.last() == v[v.len() - 1]);
    }
}

/// With no absent request, every policy processes every request: all succeed, none fail,
/// nothing aborts, and availability is a full thousand per thousand.
pub proof fn lemma_no_absence_full_availability(policy: Policy, v: Seq<Option<Seq<char>>>)
    requires
        forall|i: int| 0 <= i < v.len() ==> (#[trigger] v[i]) is Some,
    ensures
        expected_report(policy, v).successful == v.len(),
        expected_report(policy, v).failed == 0,
        expected_report(policy, v).abort_index is None,
        v.len() > 0 ==> nearest_permille(v.len(), v.len()) == 1000,
{
    lemma_all_present_counts(v);
    if v.len() > 0 {
        let t = v.len() as int;
        assert((2000 * t + t) / (2 * t) == 1000) by (nonlinear_arith)
            requires
                t > 0,
        ;
    }
}

/// A report depends on the payloads alone: runs over the same payloads, under one policy,
/// report the same counts, abort position and outcomes.
pub proof fn lemma_reports_agree(
    policy: Policy,
    first: Seq<Option<String>>,
    second: Seq<Option<String>>,
    r1: SimulationReport,
    r2: SimulationReport,
)
    requires
        requests_view(first) == requests_view(second),
        r1@ == expected_report(policy, requests_view(first)),
        r2@ == expected_report(policy, requests_view(second)),
    ensures
        r1@ == r2@,
{
}

/// Under every policy, each request of the sequence is counted exactly once, as a success or
/// as a failure.
pub proof fn lemma_every_request_accounted(policy: Policy, v: Seq<Option<Seq<char>>>)
    ensures
        expected_report(policy, v).successful + expected_report(policy, v).failed == v.len(),
        expected_report(policy, v).total == v.len(),
{
    lemma_counts_partition(v);
    lemma_leading_bounded(v);
}

/// Outcomes follow the requests in order, one per dispatched request. An `Unsafe` run
/// dispatches every request up to and including the first absent one and none after it: the
/// outcomes before the last are all processed, and the last is the abort.
pub proof fn lemma_outcomes_follow_requests(policy: Policy, v: Seq<Option<Seq<char>>>)
    ensures
        expected_report(policy, v).outcomes.len() <= v.len(),
        forall|i: int|
            0 <= i < expected_report(policy, v).outcomes.len() ==> (#[trigger] expected_report(
                policy,
                v,
            ).outcomes[i]) == expected_outcome(policy, v[i]),
        policy != Policy::Unsafe ==> expected_report(policy, v).outcomes.len() == v.len(),
        expected_report(policy, v).abort_index matches Some(k) ==> {
            &&& 1 <= k <= v.len()
            &&& k == expected_report(policy, v).outcomes.len()
            &&& v[k - 1] is None
            &&& expected_report(policy, v).outcomes[k - 1] is FatalAbort
            &&& forall|j: int| 0 <= j < k - 1 ==> (#[trigger] v[j]) is Some
        },
        policy == Policy::Unsafe && expected_report(policy, v).abort_index is None ==> {
            &&& expected_report(policy, v).outcomes.len() == v.len()
            &&& forall|j: int| 0 <= j < v.len() ==> (#[trigger] v[j]) is Some
        },
{
    lemma_leading_present_is_first_absence(v);
}

} // verus!
