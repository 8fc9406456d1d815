use noobaa_source_controller::dispatch::{DispatchDecision, Dispatcher};

#[test]
fn first_notification_starts_a_reconcile() {
    let mut d = Dispatcher::new();
    let id = "default/bad-source-1".to_string();
    assert_eq!(d.notify(&id), DispatchDecision::StartReconcile);
}

#[test]
fn back_to_back_notifications_are_serialized() {
    let mut d = Dispatcher::new();
    let id = "default/bad-source-1".to_string();
    assert_eq!(d.notify(&id), DispatchDecision::StartReconcile);
    // second notification while the first reconcile is in flight: coalesced,
    // never a second concurrent run
    assert_eq!(d.notify(&id), DispatchDecision::Coalesced);
    assert_eq!(d.notify(&id), DispatchDecision::Coalesced);
    // the coalesced notification is retained: completion asks for a re-run
    assert!(d.complete(&id));
    // the re-run is the single in-flight reconcile; when it completes with
    // nothing pending, the identity goes idle
    assert!(!d.complete(&id));
    assert_eq!(d.notify(&id), DispatchDecision::StartReconcile);
}

#[test]
fn distinct_identities_run_concurrently() {
    let mut d = Dispatcher::new();
    let a = "default/a".to_string();
    let b = "other/a".to_string();
    assert_eq!(d.notify(&a), DispatchDecision::StartReconcile);
    assert_eq!(d.notify(&b), DispatchDecision::StartReconcile);
    // each identity's flight is tracked independently
    assert_eq!(d.notify(&a), DispatchDecision::Coalesced);
    assert!(!d.complete(&b));
    assert_eq!(d.notify(&b), DispatchDecision::StartReconcile);
}

#[test]
fn completing_an_idle_identity_is_harmless() {
    let mut d = Dispatcher::new();
    let id = "default/x".to_string();
    assert!(!d.complete(&id));
    assert_eq!(d.notify(&id), DispatchDecision::StartReconcile);
}
