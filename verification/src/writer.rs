//! The delivery writer loop's control logic.
//!
//! A worker consumes events in arrival order, reports progress for each
//! before its delivery is attempted, drives each delivery through the
//! retry executor, and applies the error policy when a delivery
//! ultimately fails.

use vstd::prelude::*;
use crate::retry::{Policy, execute_retries, spec_attempt_count, spec_run_succeeds};

verus! {

/// Fate of the worker after one event's delivery ultimately fails:
/// stop the whole worker, or log and move on.
#[derive(Clone, Copy, Debug, PartialEq, Eq, Structural)]
pub enum ErrorPolicy {
    Exit,
    Continue,
}

/// The worker's next move once one event's retry sequence has resolved.
#[derive(Clone, Copy, Debug, PartialEq, Eq, Structural)]
pub enum WorkerAction {
    /// Delivered: move on to the next event.
    Proceed,
    /// Exhausted under `Continue`: log one warning, move on.
    WarnAndProceed,
    /// Exhausted under `Exit`: stop the worker, surfacing the error.
    StopFatal,
}

/// The action the error policy prescribes after one event's outcome.
pub open spec fn spec_worker_action(policy: ErrorPolicy, delivered: bool) -> WorkerAction {
    if delivered {
        WorkerAction::Proceed
    } else if policy == ErrorPolicy::Continue {
        WorkerAction::WarnAndProceed
    } else {
        WorkerAction::StopFatal
    }
}

/// Decides the worker's next move after one event's retry sequence
/// resolves. The caller logs or stops; this function owns the policy.
pub fn worker_step(policy: &ErrorPolicy, delivered: bool) -> (a: WorkerAction)
    ensures
        a == spec_worker_action(*policy, delivered),
{
    if delivered {
        WorkerAction::Proceed
    } else {
        match policy {
            ErrorPolicy::Continue => WorkerAction::WarnAndProceed,
            ErrorPolicy::Exit => WorkerAction::StopFatal,
        }
    }
}

/// The error policy a sink runs with: the configured one, or `Exit`
/// when the configuration gives none.
pub fn resolve_error_policy(configured: &Option<ErrorPolicy>) -> (p: ErrorPolicy)
    ensures
        configured is Some ==> p == configured.unwrap(),
        configured is None ==> p == ErrorPolicy::Exit,
{
    match configured {
        Option::Some(e) => *e,
        Option::None => ErrorPolicy::Exit,
    }
}

/// The retry policy a sink runs with: the configured one, or the
/// default policy when the configuration gives none.
pub fn resolve_retry_policy(configured: &Option<Policy>) -> (p: Policy)
    ensures
        configured is Some ==> p == configured.unwrap(),
        configured is None ==> {
            &&& p.max_retries == crate::retry::DEFAULT_MAX_RETRIES
            &&& p.backoff_unit == crate::retry::DEFAULT_BACKOFF_UNIT
            &&& p.backoff_factor == 2
            &&& p.max_backoff == crate::retry::DEFAULT_BACKOFF_UNIT * 20
        },
{
    match configured {
        Option::Some(p) => *p,
        Option::None => Policy::default(),
    }
}

/// Whether one event's retry sequence ends in a delivery, given the
/// outcome of each of its attempts.
pub open spec fn spec_event_delivered(policy: Policy, outcomes: Seq<bool>) -> bool {
    spec_run_succeeds(outcomes, policy.max_retries as nat)
}

/// How many events the worker dequeues before it stops: all of them,
/// unless an exhausted delivery under `Exit` stops it early.
pub open spec fn spec_events_processed(
    policy: Policy,
    error_policy: ErrorPolicy,
    deliveries: Seq<Seq<bool>>,
) -> nat
    decreases deliveries.len(),
{
    if deliveries.len() == 0 {
        0
    } else if spec_event_delivered(policy, deliveries[0]) || error_policy == ErrorPolicy::Continue {
        1 + spec_events_processed(policy, error_policy, deliveries.skip(1))
    } else {
        1
    }
}

/// Whether the worker stops fatally: some processed event exhausts its
/// retries while the policy is `Exit`.
pub open spec fn spec_worker_fatal(
    policy: Policy,
    error_policy: ErrorPolicy,
    deliveries: Seq<Seq<bool>>,
) -> bool
    decreases deliveries.len(),
{
    if deliveries.len() == 0 {
        false
    } else if spec_event_delivered(policy, deliveries[0]) {
        spec_worker_fatal(policy, error_policy, deliveries.skip(1))
    } else {
        error_policy == ErrorPolicy::Exit
            || spec_worker_fatal(policy, error_policy, deliveries.skip(1))
    }
}

/// How many warnings the worker logs: one per event that exhausts its
/// retries and is skipped under `Continue`.
pub open spec fn spec_warning_count(
    policy: Policy,
    error_policy: ErrorPolicy,
    deliveries: Seq<Seq<bool>>,
) -> nat
    decreases deliveries.len(),
{
    if deliveries.len() == 0 {
        0
    } else if spec_event_delivered(policy, deliveries[0]) {
        spec_warning_count(policy, error_policy, deliveries.skip(1))
    } else if error_policy == ErrorPolicy::Continue {
        1 + spec_warning_count(policy, error_policy, deliveries.skip(1))
    } else {
        0
    }
}

/// How many of the queued events would exhaust their retries.
pub open spec fn spec_failed_count(policy: Policy, deliveries: Seq<Seq<bool>>) -> nat
    decreases deliveries.len(),
{
    if deliveries.len() == 0 {
        0
    } else if spec_event_delivered(policy, deliveries[0]) {
        spec_failed_count(policy, deliveries.skip(1))
    } else {
        1 + spec_failed_count(policy, deliveries.skip(1))
    }
}

/// The worker never dequeues more events than the queue holds.
pub proof fn lemma_processed_le_len(
    policy: Policy,
    error_policy: ErrorPolicy,
    deliveries: Seq<Seq<bool>>,
)
    ensures
        spec_events_processed(policy, error_policy, deliveries) <= deliveries.len(),
    decreases deliveries.len(),
{
    if deliveries.len() > 0 {
        lemma_processed_le_len(policy, error_policy, deliveries.skip(1));
    }
}

/// Under `Exit`, a transport that never delivers stops the worker
/// fatally after the first event's exhaustion: later queued events are
/// never processed.
pub proof fn lemma_exit_stops_after_first_failure(policy: Policy, deliveries: Seq<Seq<bool>>)
    requires
        deliveries.len() > 0,
        !spec_event_delivered(policy, deliveries[0]),
    ensures
        spec_events_processed(policy, ErrorPolicy::Exit, deliveries) == 1,
        spec_worker_fatal(policy, ErrorPolicy::Exit, deliveries),
        spec_warning_count(policy, ErrorPolicy::Exit, deliveries) == 0,
{
}

/// Under `Continue`, the worker processes every queued event, logs one
/// warning per event whose delivery exhausts, and terminates normally
/// when the channel closes.
pub proof fn lemma_continue_processes_all(policy: Policy, deliveries: Seq<Seq<bool>>)
    ensures
        spec_events_processed(policy, ErrorPolicy::Continue, deliveries) == deliveries.len(),
        !spec_worker_fatal(policy, ErrorPolicy::Continue, deliveries),
        spec_warning_count(policy, ErrorPolicy::Continue, deliveries)
            == spec_failed_count(policy, deliveries),
    decreases deliveries.len(),
{
    if deliveries.len() > 0 {
        lemma_continue_processes_all(policy, deliveries.skip(1));
    }
}

/// One observable step of the worker, tagged with the index (in
/// arrival order) of the event it concerns.
#[derive(Clone, Copy, Debug, PartialEq, Eq, Structural)]
pub enum TraceStep {
    /// Progress was reported for the event: it has been dequeued,
    /// before any of its delivery attempts.
    Notify(usize),
    /// Delivery attempt number `k` (0-based) for the event began.
    Attempt(usize, u64),
}

/// The event an observable step concerns.
pub open spec fn spec_step_event(s: TraceStep) -> nat {
    match s {
        TraceStep::Notify(i) => i as nat,
        TraceStep::Attempt(i, _) => i as nat,
    }
}

/// The steps one processed event contributes: progress first, then its
/// attempts in order.
pub open spec fn spec_event_trace(i: nat, attempts: nat) -> Seq<TraceStep> {
    seq![TraceStep::Notify(i as usize)]
        + Seq::new(attempts, |k: int| TraceStep::Attempt(i as usize, k as u64))
}

/// The observable steps of the first `n` processed events.
pub open spec fn spec_worker_trace_upto(
    policy: Policy,
    deliveries: Seq<Seq<bool>>,
    n: nat,
) -> Seq<TraceStep>
    decreases n,
{
    if n == 0 {
        Seq::<TraceStep>::empty()
    } else {
        spec_worker_trace_upto(policy, deliveries, (n - 1) as nat) + spec_event_trace(
            (n - 1) as nat,
            spec_attempt_count(deliveries[n - 1], policy.max_retries as nat),
        )
    }
}

/// The full observable trace of one worker run.
pub open spec fn spec_worker_trace(
    policy: Policy,
    error_policy: ErrorPolicy,
    deliveries: Seq<Seq<bool>>,
) -> Seq<TraceStep> {
    spec_worker_trace_upto(
        policy,
        deliveries,
        spec_events_processed(policy, error_policy, deliveries),
    )
}

/// Every step of one event's contribution concerns that event.
proof fn lemma_event_trace_events(i: nat, attempts: nat)
    requires
        i <= usize::MAX,
    ensures
        forall|j: int|
            0 <= j < spec_event_trace(i, attempts).len()
                ==> spec_step_event(#[trigger] spec_event_trace(i, attempts)[j]) == i,
        spec_event_trace(i, attempts).len() == 1 + attempts,
        spec_event_trace(i, attempts)[0] == TraceStep::Notify(i as usize),
{
}

/// Every step in the trace of the first `n` events concerns an event
/// before `n`.
proof fn lemma_trace_upto_events_lt(policy: Policy, deliveries: Seq<Seq<bool>>, n: nat)
    requires
        n <= usize::MAX,
    ensures
        forall|p: int|
            0 <= p < spec_worker_trace_upto(policy, deliveries, n).len()
                ==> spec_step_event(#[trigger] spec_worker_trace_upto(policy, deliveries, n)[p])
                    < n,
    decreases n,
{
    if n > 0 {
        lemma_trace_upto_events_lt(policy, deliveries, (n - 1) as nat);
        let a2 = spec_attempt_count(deliveries[n - 1], policy.max_retries as nat);
        lemma_event_trace_events((n - 1) as nat, a2);
        let prev = spec_worker_trace_upto(policy, deliveries, (n - 1) as nat);
        let seg = spec_event_trace((n - 1) as nat, a2);
        let t = spec_worker_trace_upto(policy, deliveries, n);
        assert(t == prev + seg);
        assert forall|p: int|
            0 <= p < t.len() implies spec_step_event(#[trigger] t[p]) < n by {
            if p < prev.len() {
                assert(t[p] == prev[p]);
            } else {
                assert(t[p] == seg[p - prev.len()]);
                assert(spec_step_event(seg[p - prev.len()]) == n - 1);
            }
        }
    }
}

/// Inside the trace of the first `n` events, the steps of event `i`
/// form one contiguous block: its progress report, then its attempts;
/// no step of event `i` stands anywhere else.
proof fn lemma_trace_block(policy: Policy, deliveries: Seq<Seq<bool>>, n: nat, i: nat)
    requires
        i < n,
        n <= usize::MAX,
    ensures
        ({
            let t = spec_worker_trace_upto(policy, deliveries, n);
            let base = spec_worker_trace_upto(policy, deliveries, i).len() as int;
            let a = spec_attempt_count(deliveries[i as int], policy.max_retries as nat);
            &&& t.len() >= base + 1 + a
            &&& t[base] == TraceStep::Notify(i as usize)
            &&& forall|k: int|
                0 <= k < a ==> #[trigger] t[base + 1 + k] == TraceStep::Attempt(
                    i as usize,
                    k as u64,
                )
            &&& forall|q: int|
                0 <= q < t.len() && !(base <= q < base + 1 + a)
                    ==> spec_step_event(#[trigger] t[q]) != i
        }),
    decreases n,
{
    let a = spec_attempt_count(deliveries[i as int], policy.max_retries as nat);
    let t = spec_worker_trace_upto(policy, deliveries, n);
    let base = spec_worker_trace_upto(policy, deliveries, i).len() as int;
    if n == i + 1 {
        let pre = spec_worker_trace_upto(policy, deliveries, i);
        let seg = spec_event_trace(i, a);
        assert(t == pre + seg);
        lemma_trace_upto_events_lt(policy, deliveries, i);
        lemma_event_trace_events(i, a);
        assert(t[base] == seg[0]);
        assert forall|k: int|
            0 <= k < a implies #[trigger] t[base + 1 + k] == TraceStep::Attempt(
            i as usize,
            k as u64,
        ) by {
            assert(t[base + 1 + k] == seg[1 + k]);
            assert(seg[1 + k] == Seq::new(
                a,
                |kk: int| TraceStep::Attempt(i as usize, kk as u64),
            )[k]);
        }
        assert forall|q: int|
            0 <= q < t.len() && !(base <= q < base + 1 + a) implies spec_step_event(
            #[trigger] t[q],
        ) != i by {
            assert(q < base);
            assert(t[q] == pre[q]);
            assert(spec_step_event(pre[q]) < i);
        }
    } else {
        lemma_trace_block(policy, deliveries, (n - 1) as nat, i);
        let prev = spec_worker_trace_upto(policy, deliveries, (n - 1) as nat);
        let a2 = spec_attempt_count(deliveries[n - 1], policy.max_retries as nat);
        let seg = spec_event_trace((n - 1) as nat, a2);
        assert(t == prev + seg);
        lemma_event_trace_events((n - 1) as nat, a2);
        assert(t[base] == prev[base]);
        assert forall|k: int|
            0 <= k < a implies #[trigger] t[base + 1 + k] == TraceStep::Attempt(
            i as usize,
            k as u64,
        ) by {
            assert(prev[base + 1 + k] == TraceStep::Attempt(i as usize, k as u64));
            assert(t[base + 1 + k] == prev[base + 1 + k]);
        }
        assert forall|q: int|
            0 <= q < t.len() && !(base <= q < base + 1 + a) implies spec_step_event(
            #[trigger] t[q],
        ) != i by {
            if q < prev.len() {
                assert(t[q] == prev[q]);
                assert(spec_step_event(prev[q]) != i);
            } else {
                assert(t[q] == seg[q - prev.len()]);
                assert(spec_step_event(seg[q - prev.len()]) == n - 1);
            }
        }
    }
}

/// Progress is reported exactly once per processed event, and before
/// any of that event's delivery attempts — progress means "picked up
/// for processing", not "delivered".
pub proof fn lemma_notify_once_before_attempts(
    policy: Policy,
    error_policy: ErrorPolicy,
    deliveries: Seq<Seq<bool>>,
    i: nat,
)
    requires
        deliveries.len() <= usize::MAX,
        i < spec_events_processed(policy, error_policy, deliveries),
    ensures
        ({
            let t = spec_worker_trace(policy, error_policy, deliveries);
            let p = spec_worker_trace_upto(policy, deliveries, i).len() as int;
            &&& 0 <= p < t.len()
            &&& t[p] == TraceStep::Notify(i as usize)
            &&& forall|q: int| 0 <= q < t.len() && t[q] == TraceStep::Notify(i as usize) ==> q == p
            &&& forall|q: int|
                0 <= q < t.len() && #[trigger] t[q] is Attempt && spec_step_event(t[q]) == i
                    ==> p < q
        }),
{
    let n = spec_events_processed(policy, error_policy, deliveries);
    lemma_processed_le_len(policy, error_policy, deliveries);
    lemma_trace_block(policy, deliveries, n, i);
    let t = spec_worker_trace(policy, error_policy, deliveries);
    let p = spec_worker_trace_upto(policy, deliveries, i).len() as int;
    let a = spec_attempt_count(deliveries[i as int], policy.max_retries as nat);
    assert(t == spec_worker_trace_upto(policy, deliveries, n));
    assert forall|q: int|
        0 <= q < t.len() && t[q] == TraceStep::Notify(i as usize) implies q == p by {
        if !(p <= q < p + 1 + a) {
            assert(spec_step_event(t[q]) != i);
        } else if p < q {
            let k = q - p - 1;
            assert(t[p + 1 + k] == TraceStep::Attempt(i as usize, k as u64));
        }
    }
    assert forall|q: int|
        0 <= q < t.len() && #[trigger] t[q] is Attempt && spec_step_event(t[q]) == i implies p
        < q by {
        if !(p <= q < p + 1 + a) {
            assert(spec_step_event(t[q]) != i);
        } else if q == p {
            assert(t[p] == TraceStep::Notify(i as usize));
        }
    }
}

/// Events leave the worker strictly in arrival order: every observable
/// step of an earlier event precedes every step of a later one, so one
/// event's full retry sequence completes before the next event's first
/// attempt begins.
pub proof fn lemma_events_in_order(
    policy: Policy,
    error_policy: ErrorPolicy,
    deliveries: Seq<Seq<bool>>,
)
    requires
        deliveries.len() <= usize::MAX,
    ensures
        ({
            let t = spec_worker_trace(policy, error_policy, deliveries);
            forall|p: int, q: int|
                0 <= p < q < t.len()
                    ==> spec_step_event(#[trigger] t[p]) <= spec_step_event(#[trigger] t[q])
        }),
{
    let n = spec_events_processed(policy, error_policy, deliveries);
    lemma_processed_le_len(policy, error_policy, deliveries);
    lemma_trace_upto_sorted(policy, deliveries, n);
}

/// The trace of the first `n` events is sorted by event index.
proof fn lemma_trace_upto_sorted(policy: Policy, deliveries: Seq<Seq<bool>>, n: nat)
    requires
        n <= usize::MAX,
    ensures
        ({
            let t = spec_worker_trace_upto(policy, deliveries, n);
            forall|p: int, q: int|
                0 <= p < q < t.len()
                    ==> spec_step_event(#[trigger] t[p]) <= spec_step_event(#[trigger] t[q])
        }),
    decreases n,
{
    if n > 0 {
        lemma_trace_upto_sorted(policy, deliveries, (n - 1) as nat);
        lemma_trace_upto_events_lt(policy, deliveries, (n - 1) as nat);
        let a2 = spec_attempt_count(deliveries[n - 1], policy.max_retries as nat);
        lemma_event_trace_events((n - 1) as nat, a2);
        let prev = spec_worker_trace_upto(policy, deliveries, (n - 1) as nat);
        let seg = spec_event_trace((n - 1) as nat, a2);
        let t = spec_worker_trace_upto(policy, deliveries, n);
        assert(t == prev + seg);
        assert forall|p: int, q: int|
            0 <= p < q < t.len() implies spec_step_event(#[trigger] t[p]) <= spec_step_event(
            #[trigger] t[q],
        ) by {
            if q < prev.len() {
                assert(t[p] == prev[p]);
                assert(t[q] == prev[q]);
            } else if p < prev.len() {
                assert(t[p] == prev[p]);
                assert(spec_step_event(prev[p]) < n - 1 + 1);
                assert(t[q] == seg[q - prev.len()]);
                assert(spec_step_event(seg[q - prev.len()]) == n - 1);
            } else {
                assert(t[p] == seg[p - prev.len()]);
                assert(t[q] == seg[q - prev.len()]);
            }
        }
    }
}

/// What one run of the worker did: how many events it dequeued, whether
/// it stopped fatally, and how many warnings it logged.
#[derive(Clone, Copy, Debug, PartialEq, Eq, Structural)]
pub struct WorkerRun {
    pub processed: usize,
    pub fatal: bool,
    pub warnings: usize,
}

/// The delivery writer loop's control core, with each event's attempt
/// outcomes supplied: events are taken strictly in order, each is
/// driven through the retry executor, and the error policy decides
/// whether an exhausted delivery is fatal or only warned about.
pub fn run_worker(
    policy: &Policy,
    error_policy: &ErrorPolicy,
    deliveries: &Vec<Vec<bool>>,
) -> (r: (WorkerRun, Vec<TraceStep>))
    requires
        policy.wf(),
        forall|i: int|
            0 <= i < deliveries.len() ==> (#[trigger] deliveries@[i])@.len() > policy.max_retries,
    ensures
        ({
            let ds = deliveries@.map_values(|v: Vec<bool>| v@);
            &&& r.0.processed == spec_events_processed(*policy, *error_policy, ds)
            &&& r.0.fatal == spec_worker_fatal(*policy, *error_policy, ds)
            &&& r.0.warnings == spec_warning_count(*policy, *error_policy, ds)
            &&& r.1@ == spec_worker_trace(*policy, *error_policy, ds)
        }),
{
    let ghost ds = deliveries@.map_values(|v: Vec<bool>| v@);
    let mut i: usize = 0;
    let mut warnings: usize = 0;
    let mut trace: Vec<TraceStep> = Vec::new();
    proof {
        assert(ds.skip(0) =~= ds);
    }
    while i < deliveries.len()
        invariant
            policy.wf(),
            forall|j: int|
                0 <= j < deliveries.len()
                    ==> (#[trigger] deliveries@[j])@.len() > policy.max_retries,
            ds == deliveries@.map_values(|v: Vec<bool>| v@),
            i <= deliveries.len(),
            warnings <= i,
            spec_events_processed(*policy, *error_policy, ds)
                == i + spec_events_processed(*policy, *error_policy, ds.skip(i as int)),
            spec_worker_fatal(*policy, *error_policy, ds)
                == spec_worker_fatal(*policy, *error_policy, ds.skip(i as int)),
            spec_warning_count(*policy, *error_policy, ds)
                == warnings + spec_warning_count(*policy, *error_policy, ds.skip(i as int)),
            trace@ == spec_worker_trace_upto(*policy, ds, i as nat),
        decreases deliveries.len() - i,
    {
        proof {
            assert(ds.skip(i as int)[0] == ds[i as int]);
            assert(ds.skip(i as int).skip(1) =~= ds.skip(i as int + 1));
        }
        let ghost before = trace@;
        trace.push(TraceStep::Notify(i));
        let outcome = execute_retries(policy, &deliveries[i]);
        let ghost a = spec_attempt_count(ds[i as int], policy.max_retries as nat);
        let mut k: u64 = 0;
        while k < outcome.attempts
            invariant
                k <= outcome.attempts,
                outcome.attempts == a,
                trace@ == before + seq![TraceStep::Notify(i as usize)] + Seq::new(
                    k as nat,
                    |kk: int| TraceStep::Attempt(i as usize, kk as u64),
                ),
            decreases outcome.attempts - k,
        {
            trace.push(TraceStep::Attempt(i, k));
            proof {
                assert(trace@ =~= before + seq![TraceStep::Notify(i as usize)] + Seq::new(
                    (k + 1) as nat,
                    |kk: int| TraceStep::Attempt(i as usize, kk as u64),
                ));
            }
            k = k + 1;
        }
        proof {
            assert(trace@ =~= spec_worker_trace_upto(*policy, ds, (i + 1) as nat));
        }
        match worker_step(error_policy, outcome.succeeded) {
            WorkerAction::Proceed => {},
            WorkerAction::WarnAndProceed => {
                warnings = warnings + 1;
            },
            WorkerAction::StopFatal => {
                return (WorkerRun { processed: i + 1, fatal: true, warnings }, trace);
            },
        }
        i = i + 1;
    }
    (WorkerRun { processed: i, fatal: false, warnings }, trace)
}

} // verus!
