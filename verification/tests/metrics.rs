use dmesh::metrics::{
    is_quiescent, nanos, record_control_event, ControlEventLabels, DeclineLabels, Events,
    SessionMetrics,
};
use prometheus_client::registry::Registry;

fn encode(registry: &Registry) -> String {
    let mut encoded = String::new();
    prometheus_client::encoding::text::encode(&mut encoded, registry).unwrap();
    encoded
}

#[test]
fn registration_shares_the_counters() {
    let mut registry = Registry::default();
    let metrics = SessionMetrics::register(&mut registry, &Events::new());
    metrics.sessions_opened.inc();
    metrics.sessions_active.inc();
    metrics.observe_stack_build(11, 22, 33);

    let encoded = encode(&registry);
    assert!(encoded.contains("sessions_opened_total 1"), "{encoded}");
    assert!(encoded.contains("sessions_active 1"), "{encoded}");
    assert!(encoded.contains("worker_drain_calls_total 0"), "{encoded}");
    assert!(encoded.contains("worker_dma_tasks_inflight 0"), "{encoded}");
    assert!(encoded.contains("session_stack_builds_total 1"), "{encoded}");
    assert!(encoded.contains("session_stack_layers_nanoseconds_total 22"), "{encoded}");
    assert!(!metrics.quiescent());

    metrics.sessions_active.dec();
    assert!(metrics.quiescent());
}

#[test]
fn events_are_counted_by_label() {
    let mut registry = Registry::default();
    let events = Events::new();
    let metrics = SessionMetrics::register(&mut registry, &events);
    record_control_event(&events, "snapshot", "stale");
    record_control_event(&events, "snapshot", "stale");
    metrics.record_decline("remote");
    let encoded = encode(&registry);
    let control = encoded.lines().find(|l| l.contains("reason=\"stale\"")).unwrap();
    assert!(control.contains("snapshot") && control.ends_with(" 2"), "{encoded}");
    let decline = encoded.lines().find(|l| l.contains("reason=\"remote\"")).unwrap();
    assert!(decline.ends_with(" 1"), "{encoded}");
}

#[test]
fn labels_are_pairs() {
    let labels = ControlEventLabels { kind: "k".to_string(), reason: "r".to_string() };
    assert_eq!(
        labels.pairs(),
        vec![
            ("kind".to_string(), "k".to_string()),
            ("reason".to_string(), "r".to_string())
        ]
    );
    let labels = DeclineLabels { reason: "r".to_string() };
    assert_eq!(labels.pairs(), vec![("reason".to_string(), "r".to_string())]);
}

#[test]
fn the_summary_is_one_line() {
    let metrics = SessionMetrics::new();
    metrics.sessions_opened.inc_by(12);
    metrics.sessions_closed.inc_by(3);
    metrics.worker_last_progress_age_milliseconds.set(-5);
    let line = metrics.summary();
    assert!(line.starts_with("opened=12 closed=3 active=0 "), "{line}");
    assert!(line.contains("progress_age_ms=-5"), "{line}");
    assert_eq!(line.lines().count(), 1);
}

#[test]
fn only_what_must_be_zero_keeps_a_worker_busy() {
    assert!(is_quiescent(0, 0, 0));
    assert!(!is_quiescent(1, 0, 0));
    assert!(!is_quiescent(0, 1, 0));
    assert!(!is_quiescent(0, 0, 1));
}

#[test]
fn a_long_build_saturates() {
    assert_eq!(nanos(17), 17);
    assert_eq!(nanos(u64::MAX as u128), u64::MAX);
    assert_eq!(nanos(u64::MAX as u128 + 1), u64::MAX);
}

#[test]
fn new_metrics_are_at_zero() {
    let metrics = SessionMetrics::new();
    assert!(metrics.quiescent());
    assert!(metrics.summary().split(' ').all(|field| field.ends_with("=0")));
    metrics.registrations_pending.inc();
    assert!(!metrics.quiescent());
    metrics.registrations_pending.dec();
    metrics.tasks_live.inc();
    assert!(!metrics.quiescent());
}

#[test]
fn no_two_metrics_share_a_value() {
    let mut registry = Registry::default();
    let events = Events::new();
    let metrics = SessionMetrics::register(&mut registry, &events);
    metrics.sessions_opened.inc();
    metrics.tasks_live.inc();
    metrics.record_decline("full");
    let encoded = encode(&registry);
    let moved = encoded.lines().filter(|l| !l.starts_with('#') && !l.ends_with(" 0")).count();
    assert_eq!(moved, 3, "{encoded}");
}
