use noobaa_source_controller::manager::{Histogram, Manager, Metrics, State};
use noobaa_source_controller::Error;

#[test]
fn histogram_starts_empty_with_engine_buckets() {
    let h = Histogram::new();
    assert_eq!(h.bounds, vec![10, 100, 250, 500, 1000, 5000, 15000, 60000]);
    assert_eq!(h.counts, vec![0, 0, 0, 0, 0, 0, 0, 0]);
    assert_eq!(h.count, 0);
    assert_eq!(h.sum, 0);
}

#[test]
fn observe_fills_cumulative_buckets() {
    let mut h = Histogram::new();
    h.observe(300);
    assert_eq!(h.counts, vec![0, 0, 0, 1, 1, 1, 1, 1]);
    assert_eq!(h.count, 1);
    assert_eq!(h.sum, 300);
    h.observe(10);
    assert_eq!(h.counts, vec![1, 1, 1, 2, 2, 2, 2, 2]);
    assert_eq!(h.count, 2);
    assert_eq!(h.sum, 310);
    h.observe(90000);
    assert_eq!(h.counts, vec![1, 1, 1, 2, 2, 2, 2, 2]);
    assert_eq!(h.count, 3);
}

#[test]
fn metrics_count_handled_reconciles() {
    let mut m = Metrics::new();
    assert_eq!(m.handled_events, 0);
    for i in 0..5 {
        m.record_reconcile(i * 100);
    }
    assert_eq!(m.handled_events, 5);
    assert_eq!(m.reconcile_duration.count, 5);
}

#[test]
fn state_has_stable_reporter() {
    let s = State::new(1234);
    assert_eq!(s.reporter, "noobaa-source-controller");
    assert_eq!(s.last_event, 1234);
}

#[test]
fn record_start_stamps_the_given_time() {
    let mut s = State::new(0);
    s.record_start(555);
    assert_eq!(s.last_event, 555);
    assert_eq!(s.reporter, "noobaa-source-controller");
}

#[test]
fn manager_requires_registered_crd() {
    let denied = Manager::new(7, false);
    assert!(matches!(denied, Err(Error::CrdNotInstalled)));
    let granted = Manager::new(7, true);
    assert!(granted.is_ok());
}

#[test]
fn manager_exposes_snapshots() {
    let mut m = Manager::new(42, true).expect("crd registered");
    let s = m.state();
    assert_eq!(s.last_event, 42);
    assert_eq!(s.reporter, "noobaa-source-controller");
    assert_eq!(m.metrics().handled_events, 0);

    m.begin_reconcile(77);
    m.finish_reconcile(250);
    let snap = m.metrics();
    assert_eq!(snap.handled_events, 1);
    assert_eq!(snap.reconcile_duration.count, 1);
    assert_eq!(snap.reconcile_duration.sum, 250);
    assert_eq!(m.state().last_event, 77);
}

#[test]
fn every_reconcile_is_counted_once() {
    let mut m = Manager::new(0, true).expect("crd registered");
    let n = 20;
    for i in 0..n {
        m.begin_reconcile(1000 + i as i64);
        m.finish_reconcile(i);
    }
    assert_eq!(m.metrics().handled_events, n);
    assert_eq!(m.state().last_event, 1000 + (n as i64) - 1);
}

#[test]
fn observe_value_beyond_every_bucket() {
    let mut h = Histogram::new();
    h.observe(u64::MAX);
    assert_eq!(h.counts, vec![0, 0, 0, 0, 0, 0, 0, 0]);
    assert_eq!(h.count, 1);
    assert_eq!(h.sum, u64::MAX);
}

#[test]
fn manager_histogram_carries_the_fixed_buckets() {
    let mut m = Manager::new(0, true).expect("crd registered");
    let snap = m.metrics();
    assert_eq!(
        snap.reconcile_duration.bounds,
        vec![10, 100, 250, 500, 1000, 5000, 15000, 60000]
    );
    assert_eq!(snap.reconcile_duration.sum, 0);
    assert_eq!(snap.reconcile_duration.counts, vec![0, 0, 0, 0, 0, 0, 0, 0]);

    m.begin_reconcile(1);
    m.finish_reconcile(300);
    let after = m.metrics();
    assert_eq!(
        after.reconcile_duration.bounds,
        vec![10, 100, 250, 500, 1000, 5000, 15000, 60000]
    );
    assert_eq!(after.reconcile_duration.counts, vec![0, 0, 0, 1, 1, 1, 1, 1]);
    assert_eq!(after.reconcile_duration.sum, 300);
}
