use unwrap_cascade::service::{Outcome, Policy, Service};

#[test]
fn service_keeps_failure_rate() {
    let s = Service::new(10_000);
    assert_eq!(s.failure_rate_ppm(), 10_000);
}

#[test]
fn unsafe_handler_processes_present_input() {
    let s = Service::new(10_000);
    assert_eq!(s.handle_request_unsafe(Some("req1".to_string())), "Processed: req1");
}

#[test]
fn safe_handler_reports_absence() {
    let s = Service::new(10_000);
    assert_eq!(s.handle_request_safe(Some("req1".to_string())), Ok("Processed: req1".to_string()));
    assert_eq!(s.handle_request_safe(None), Err("No input provided".to_string()));
}

#[test]
fn resilient_handler_falls_back() {
    let s = Service::new(10_000);
    assert_eq!(s.handle_request_resilient(Some("req2".to_string())), "Processed: req2");
    assert_eq!(s.handle_request_resilient(None), "Fallback response");
}

#[test]
fn unsafe_policy_classifies_absence_as_fatal() {
    let s = Service::new(0);
    let o = Policy::Unsafe.process(&s, None);
    assert!(o.is_fatal());
    assert!(!o.is_success());
    let p = Policy::Unsafe.process(&s, Some("z".to_string()));
    assert!(p.is_success());
    assert!(matches!(p, Outcome::Processed(t) if t == "Processed: z"));
}

#[test]
fn safe_and_resilient_policies_contain_absence() {
    let s = Service::new(1_000_000);
    let e = Policy::Safe.process(&s, None);
    assert!(matches!(e, Outcome::RecoveredError(ref m) if m == "No input provided"));
    assert!(!e.is_fatal());
    let f = Policy::Resilient.process(&s, None);
    assert!(matches!(f, Outcome::FallbackUsed(ref m) if m == "Fallback response"));
    assert!(!f.is_success());
}
