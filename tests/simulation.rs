use unwrap_cascade::service::{Outcome, Policy};
use unwrap_cascade::simulation::{policy_named, reference_requests, run, SimulationReport};

fn all_present(n: usize) -> Vec<Option<String>> {
    (1..=n).map(|i| Some(format!("req{}", i))).collect()
}

fn availability_pct(r: &SimulationReport) -> f64 {
    r.successful as f64 / r.total as f64 * 100.0
}

const POLICIES: [Policy; 3] = [Policy::Unsafe, Policy::Safe, Policy::Resilient];

#[test]
fn no_absence_gives_full_availability() {
    let requests = all_present(5);
    for policy in POLICIES {
        let r = run(policy, &requests);
        assert_eq!(r.successful, 5);
        assert_eq!(r.failed, 0);
        assert_eq!(r.total, 5);
        assert_eq!(r.abort_index, None);
        assert_eq!(r.availability_permille(), 1000);
        assert!((availability_pct(&r) - 100.0).abs() < 1e-9);
    }
}

#[test]
fn reference_sequence_safe() {
    let r = run(Policy::Safe, &reference_requests());
    assert_eq!(r.successful, 5);
    assert_eq!(r.failed, 2);
    assert_eq!(r.abort_index, None);
    assert_eq!(r.availability_permille(), 714);
    assert!((availability_pct(&r) - 71.4).abs() < 0.05);
    assert_eq!(r.outcomes.len(), 7);
}

#[test]
fn reference_sequence_resilient() {
    let r = run(Policy::Resilient, &reference_requests());
    assert_eq!(r.successful, 5);
    assert_eq!(r.failed, 2);
    assert_eq!(r.abort_index, None);
    assert_eq!(r.availability_permille(), 714);
    assert!((availability_pct(&r) - 71.4).abs() < 0.05);
    assert!(matches!(&r.outcomes[2], Outcome::FallbackUsed(s) if s == "Fallback response"));
    assert!(matches!(&r.outcomes[5], Outcome::FallbackUsed(s) if s == "Fallback response"));
}

#[test]
fn reference_sequence_unsafe() {
    let r = run(Policy::Unsafe, &reference_requests());
    assert_eq!(r.successful, 2);
    assert_eq!(r.failed, 5);
    assert_eq!(r.abort_index, Some(3));
    assert_eq!(r.outcomes.len(), 3);
    assert!(matches!(r.outcomes[2], Outcome::FatalAbort));
    assert_eq!(r.availability_permille(), 286);
}

#[test]
fn same_run_twice_gives_same_report() {
    let requests = reference_requests();
    for policy in POLICIES {
        let a = run(policy, &requests);
        let b = run(policy, &requests);
        assert_eq!(a.successful, b.successful);
        assert_eq!(a.failed, b.failed);
        assert_eq!(a.total, b.total);
        assert_eq!(a.abort_index, b.abort_index);
        assert_eq!(format!("{:?}", a.outcomes), format!("{:?}", b.outcomes));
    }
}

#[test]
fn every_request_is_counted() {
    let sequences: Vec<Vec<Option<String>>> = vec![
        vec![],
        vec![None],
        vec![None, None, Some("a".to_string())],
        vec![Some(String::new()), None],
        reference_requests(),
        all_present(4),
    ];
    for requests in &sequences {
        for policy in POLICIES {
            let r = run(policy, requests);
            assert_eq!(r.successful + r.failed, requests.len());
            assert_eq!(r.total, requests.len());
        }
    }
}

#[test]
fn single_absent_request_under_unsafe() {
    let r = run(Policy::Unsafe, &vec![None]);
    assert_eq!(r.successful, 0);
    assert_eq!(r.failed, 1);
    assert_eq!(r.abort_index, Some(1));
    assert_eq!(r.availability_permille(), 0);
}

#[test]
fn outcomes_follow_request_order() {
    let requests = vec![
        Some("a".to_string()),
        None,
        Some("b".to_string()),
        Some("c".to_string()),
    ];
    let r = run(Policy::Safe, &requests);
    assert_eq!(r.outcomes.len(), 4);
    assert!(matches!(&r.outcomes[0], Outcome::Processed(s) if s == "Processed: a"));
    assert!(matches!(&r.outcomes[1], Outcome::RecoveredError(s) if s == "No input provided"));
    assert!(matches!(&r.outcomes[2], Outcome::Processed(s) if s == "Processed: b"));
    assert!(matches!(&r.outcomes[3], Outcome::Processed(s) if s == "Processed: c"));
    let u = run(Policy::Unsafe, &requests);
    assert_eq!(u.outcomes.len(), 2);
    assert!(matches!(&u.outcomes[0], Outcome::Processed(s) if s == "Processed: a"));
    assert!(matches!(u.outcomes[1], Outcome::FatalAbort));
    assert_eq!(u.successful, 1);
    assert_eq!(u.failed, 3);
}

#[test]
fn empty_payload_counts_as_present() {
    let requests = vec![Some(String::new())];
    for policy in POLICIES {
        let r = run(policy, &requests);
        assert_eq!(r.successful, 1);
        assert_eq!(r.failed, 0);
        assert!(matches!(&r.outcomes[0], Outcome::Processed(s) if s == "Processed: "));
    }
}

#[test]
fn availability_rounds_to_nearest_tenth() {
    let requests = vec![Some("x".to_string()), Some("y".to_string()), None];
    let r = run(Policy::Safe, &requests);
    assert_eq!(r.availability_permille(), 667);
    let half = vec![Some("x".to_string()), None];
    assert_eq!(run(Policy::Resilient, &half).availability_permille(), 500);
}

#[test]
fn policy_names() {
    assert_eq!(policy_named("unsafe"), Some(Policy::Unsafe));
    assert_eq!(policy_named("safe"), Some(Policy::Safe));
    assert_eq!(policy_named("resilient"), Some(Policy::Resilient));
    assert_eq!(policy_named("Safe"), None);
    assert_eq!(policy_named(""), None);
}

#[test]
fn reference_requests_shape() {
    let r = reference_requests();
    assert_eq!(r.len(), 7);
    assert_eq!(r[0].as_deref(), Some("req1"));
    assert_eq!(r[2], None);
    assert_eq!(r[5], None);
    assert_eq!(r[6].as_deref(), Some("req5"));
}
