use sink_delivery::event::{Event, EventContext, EventData};
use sink_delivery::retry::{
    compute_backoff, execute_retries, retry_step, Policy, RetryDecision, DEFAULT_BACKOFF_UNIT,
    DEFAULT_MAX_RETRIES,
};
use sink_delivery::webhook::{attempt_succeeded, build_headers_map, Config, RequestBody, SetupError};
use sink_delivery::writer::{
    resolve_error_policy, resolve_retry_policy, run_worker, worker_step, ErrorPolicy, TraceStep,
    WorkerAction,
};

fn policy(max_retries: u32, unit: u64, factor: u32, max: u64) -> Policy {
    Policy { max_retries, backoff_unit: unit, backoff_factor: factor, max_backoff: max }
}

#[test]
fn backoff_exact_values() {
    let p = policy(5, 100, 2, 1000);
    assert_eq!(compute_backoff(&p, 0), 100);
    assert_eq!(compute_backoff(&p, 1), 200);
    assert_eq!(compute_backoff(&p, 2), 400);
    assert_eq!(compute_backoff(&p, 3), 800);
    assert_eq!(compute_backoff(&p, 4), 1000);
    assert_eq!(compute_backoff(&p, 5), 1000);
    assert_eq!(compute_backoff(&p, 60), 1000);
}

#[test]
fn backoff_factor_one_is_constant() {
    let p = policy(3, 50, 1, 100);
    assert_eq!(compute_backoff(&p, 0), 50);
    assert_eq!(compute_backoff(&p, 7), 50);
    assert_eq!(compute_backoff(&p, 1000), 50);
}

#[test]
fn backoff_large_exponent_saturates_to_cap() {
    let p = policy(0, 3, 7, 999_983);
    assert_eq!(compute_backoff(&p, 200), 999_983);
    let z = policy(0, 0, 2, 10);
    assert_eq!(compute_backoff(&z, 0), 0);
    assert_eq!(compute_backoff(&z, 63), 0);
}

#[test]
fn default_policy_values() {
    let p = Policy::default();
    assert_eq!(p.max_retries, 20);
    assert_eq!(p.backoff_unit, 5_000);
    assert_eq!(p.backoff_factor, 2);
    assert_eq!(p.max_backoff, 100_000);
    assert_eq!(DEFAULT_MAX_RETRIES, 20);
    assert_eq!(DEFAULT_BACKOFF_UNIT, 5_000);
}

#[test]
fn retry_step_decisions() {
    let p = policy(2, 100, 2, 1000);
    assert_eq!(retry_step(&p, 0, true), RetryDecision::Succeeded);
    assert_eq!(retry_step(&p, 2, true), RetryDecision::Succeeded);
    assert_eq!(retry_step(&p, 0, false), RetryDecision::SleepAndRetry(100));
    assert_eq!(retry_step(&p, 1, false), RetryDecision::SleepAndRetry(200));
    assert_eq!(retry_step(&p, 2, false), RetryDecision::Exhausted);
}

#[test]
fn zero_retries_means_one_attempt() {
    let p = policy(0, 100, 2, 1000);
    let r = execute_retries(&p, &vec![false, true]);
    assert_eq!(r.attempts, 1);
    assert!(!r.succeeded);
    assert_eq!(r.total_delay, 0);
    let r = execute_retries(&p, &vec![true]);
    assert_eq!(r.attempts, 1);
    assert!(r.succeeded);
    assert_eq!(r.total_delay, 0);
}

#[test]
fn success_after_n_failures() {
    let p = policy(5, 100, 2, 1000);
    // fails 3 times, then succeeds: 4 attempts, slept 100 + 200 + 400
    let r = execute_retries(&p, &vec![false, false, false, true, true, true]);
    assert_eq!(r.attempts, 4);
    assert!(r.succeeded);
    assert_eq!(r.total_delay, 700);
}

#[test]
fn always_failing_exhausts_policy() {
    let p = policy(3, 100, 2, 1000);
    let r = execute_retries(&p, &vec![false, false, false, false]);
    assert_eq!(r.attempts, 4);
    assert!(!r.succeeded);
    assert_eq!(r.total_delay, 700);
}

#[test]
fn first_success_wins_immediately() {
    let p = policy(10, 100, 2, 1000);
    let r = execute_retries(&p, &vec![true; 11]);
    assert_eq!(r.attempts, 1);
    assert!(r.succeeded);
    assert_eq!(r.total_delay, 0);
}

#[test]
fn worker_step_applies_error_policy() {
    assert_eq!(worker_step(&ErrorPolicy::Exit, true), WorkerAction::Proceed);
    assert_eq!(worker_step(&ErrorPolicy::Continue, true), WorkerAction::Proceed);
    assert_eq!(worker_step(&ErrorPolicy::Continue, false), WorkerAction::WarnAndProceed);
    assert_eq!(worker_step(&ErrorPolicy::Exit, false), WorkerAction::StopFatal);
}

#[test]
fn exit_policy_stops_at_first_exhaustion() {
    let p = policy(1, 10, 2, 40);
    // both events always fail; under Exit only the first is processed
    let deliveries = vec![vec![false, false], vec![false, false]];
    let (run, trace) = run_worker(&p, &ErrorPolicy::Exit, &deliveries);
    assert_eq!(run.processed, 1);
    assert!(run.fatal);
    assert_eq!(run.warnings, 0);
    assert_eq!(
        trace,
        vec![TraceStep::Notify(0), TraceStep::Attempt(0, 0), TraceStep::Attempt(0, 1)]
    );
}

#[test]
fn continue_policy_processes_every_event() {
    let p = policy(1, 10, 2, 40);
    // middle event fails; under Continue all three are processed
    let deliveries = vec![vec![true, true], vec![false, false], vec![false, true]];
    let (run, trace) = run_worker(&p, &ErrorPolicy::Continue, &deliveries);
    assert_eq!(run.processed, 3);
    assert!(!run.fatal);
    assert_eq!(run.warnings, 1);
    assert_eq!(
        trace,
        vec![
            TraceStep::Notify(0),
            TraceStep::Attempt(0, 0),
            TraceStep::Notify(1),
            TraceStep::Attempt(1, 0),
            TraceStep::Attempt(1, 1),
            TraceStep::Notify(2),
            TraceStep::Attempt(2, 0),
            TraceStep::Attempt(2, 1),
        ]
    );
}

#[test]
fn progress_reported_once_before_attempts_and_in_order() {
    let p = policy(2, 10, 2, 40);
    let deliveries = vec![vec![false, true, true], vec![false, true, true]];
    let (run, trace) = run_worker(&p, &ErrorPolicy::Exit, &deliveries);
    assert_eq!(run.processed, 2);
    assert!(!run.fatal);
    // exactly one progress report per event, before that event's
    // attempts, and all of an event's steps before the next event's
    assert_eq!(
        trace,
        vec![
            TraceStep::Notify(0),
            TraceStep::Attempt(0, 0),
            TraceStep::Attempt(0, 1),
            TraceStep::Notify(1),
            TraceStep::Attempt(1, 0),
            TraceStep::Attempt(1, 1),
        ]
    );
}

#[test]
fn policy_resolution_defaults() {
    assert_eq!(resolve_error_policy(&None), ErrorPolicy::Exit);
    assert_eq!(resolve_error_policy(&Some(ErrorPolicy::Continue)), ErrorPolicy::Continue);
    let d = resolve_retry_policy(&None);
    assert_eq!(d.max_retries, 20);
    assert_eq!(d.backoff_unit, 5_000);
    assert_eq!(d.backoff_factor, 2);
    assert_eq!(d.max_backoff, 100_000);
    let custom = policy(3, 7, 5, 100);
    let r = resolve_retry_policy(&Some(custom));
    assert_eq!(r.max_retries, 3);
    assert_eq!(r.backoff_unit, 7);
    assert_eq!(r.backoff_factor, 5);
    assert_eq!(r.max_backoff, 100);
}

fn foo_event(timestamp: Option<u64>) -> Event {
    Event {
        data: EventData::Foo("payload".to_string()),
        context: EventContext { timestamp },
    }
}

#[test]
fn webhook_body_merges_variant_and_millis_timestamp() {
    let body = RequestBody::from(foo_event(Some(1_700_000_000)));
    assert_eq!(body.variant, "Foo");
    assert_eq!(body.timestamp, Some(1_700_000_000_000));
    assert_eq!(body.event, foo_event(Some(1_700_000_000)));
}

#[test]
fn webhook_body_without_timestamp_has_none() {
    let body = RequestBody::from(foo_event(None));
    assert_eq!(body.variant, "Foo");
    assert_eq!(body.timestamp, None);
}

#[test]
fn webhook_body_timestamp_saturates() {
    let body = RequestBody::from(foo_event(Some(u64::MAX)));
    assert_eq!(body.timestamp, Some(u64::MAX));
}

#[test]
fn variant_names() {
    assert_eq!(EventData::Foo(String::new()).variant_name(), "Foo");
    assert_eq!(EventData::Bar(7).variant_name(), "Bar");
}

#[test]
fn attempt_classification() {
    assert!(attempt_succeeded(Some(200)));
    assert!(attempt_succeeded(Some(204)));
    assert!(attempt_succeeded(Some(299)));
    assert!(!attempt_succeeded(Some(199)));
    assert!(!attempt_succeeded(Some(300)));
    assert!(!attempt_succeeded(Some(404)));
    assert!(!attempt_succeeded(Some(500)));
    assert!(!attempt_succeeded(None));
}

fn webhook_config(
    authorization: Option<String>,
    headers: Option<Vec<(String, String)>>,
) -> Config {
    Config {
        url: "http://localhost/hook".to_string(),
        authorization,
        headers,
        timeout: None,
        error_policy: None,
        retry_policy: None,
    }
}

#[test]
fn headers_map_holds_content_type_auth_and_extras() {
    let config = webhook_config(
        Some("Bearer abc".to_string()),
        Some(vec![
            ("X-Custom-Header".to_string(), "v1".to_string()),
            ("x-custom-header".to_string(), "v2".to_string()),
            ("X-Other".to_string(), "w".to_string()),
        ]),
    );
    let map = build_headers_map(&config).unwrap();
    assert_eq!(map.get("content-type").unwrap().to_str().unwrap(), "application/json");
    assert_eq!(map.get("authorization").unwrap().to_str().unwrap(), "Bearer abc");
    // names are lowered, and a later entry overrides an earlier one
    assert_eq!(map.get("x-custom-header").unwrap().to_str().unwrap(), "v2");
    assert_eq!(map.get("x-other").unwrap().to_str().unwrap(), "w");
    assert_eq!(map.len(), 4);
}

#[test]
fn headers_map_without_auth_has_no_authorization() {
    let map = build_headers_map(&webhook_config(None, None)).unwrap();
    assert_eq!(map.get("content-type").unwrap().to_str().unwrap(), "application/json");
    assert!(map.get("authorization").is_none());
    assert_eq!(map.len(), 1);
}

#[test]
fn invalid_authorization_is_fatal() {
    let config = webhook_config(Some("bad\nvalue".to_string()), None);
    assert_eq!(build_headers_map(&config).unwrap_err(), SetupError::InvalidAuthorization);
}

#[test]
fn invalid_header_name_is_fatal() {
    let config = webhook_config(None, Some(vec![("bad name".to_string(), "v".to_string())]));
    assert_eq!(build_headers_map(&config).unwrap_err(), SetupError::InvalidHeaderName);
}

#[test]
fn invalid_header_value_is_fatal() {
    let config = webhook_config(None, Some(vec![("ok".to_string(), "bad\u{7f}".to_string())]));
    assert_eq!(build_headers_map(&config).unwrap_err(), SetupError::InvalidHeaderValue);
}

#[test]
fn too_many_headers_is_fatal() {
    let mut extras = Vec::new();
    for i in 0..40_000u32 {
        extras.push((format!("x-h-{}", i), "v".to_string()));
    }
    let config = webhook_config(None, Some(extras));
    assert_eq!(build_headers_map(&config).unwrap_err(), SetupError::TooManyHeaders);
}

#[test]
fn default_configs_are_empty() {
    let w = Config::default();
    assert_eq!(w.url, "");
    assert!(w.authorization.is_none());
    assert!(w.headers.is_none());
    assert!(w.timeout.is_none());
    assert!(w.error_policy.is_none());
    assert!(w.retry_policy.is_none());
    let p = sink_delivery::gcp_pubsub::Config::default();
    assert_eq!(p.topic, "");
    assert_eq!(p.credentials, "");
    assert!(p.error_policy.is_none());
    assert!(p.retry_policy.is_none());
}

#[test]
fn default_config_builds_content_type_only() {
    let map = build_headers_map(&Config::default()).unwrap();
    assert_eq!(map.len(), 1);
    assert_eq!(map.get("content-type").unwrap().to_str().unwrap(), "application/json");
}
