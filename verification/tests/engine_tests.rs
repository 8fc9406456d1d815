use noobaa_source_controller::engine::{
    error_policy, event_note, plan_reconcile, EventKind, RequeueDirective, ERROR_REQUEUE_SECS,
    SUCCESS_REQUEUE_SECS,
};
use noobaa_source_controller::resource::{
    classify, desired_status, CloudEventOverrides, Destination, KReference, NooBaaSource,
    NooBaaSourceSpec, Source,
};
use noobaa_source_controller::Error;

fn spec_named(name: &str) -> NooBaaSourceSpec {
    NooBaaSourceSpec {
        name: name.to_string(),
        source: Source {
            rpc_url: "http://noobaa-mgmt:8080".to_string(),
            rpc_secret: "noobaa-admin".to_string(),
            bucket: "first.bucket".to_string(),
        },
        sink: Destination {
            reference: Some(KReference {
                kind: "Service".to_string(),
                namespace: Some("default".to_string()),
                name: "event-display".to_string(),
                api_version: Some("v1".to_string()),
                group: None,
            }),
            uri: None,
        },
        ce_overrides: Some(CloudEventOverrides { extensions: vec![] }),
    }
}

fn instance(name: &str, spec_name: &str) -> NooBaaSource {
    NooBaaSource {
        name: name.to_string(),
        namespace: "default".to_string(),
        spec: spec_named(spec_name),
        status: None,
    }
}

#[test]
fn classify_bad_source() {
    assert!(classify(&spec_named("bad-source-1")));
}

#[test]
fn classify_good_source() {
    assert!(!classify(&spec_named("good-source-1")));
}

#[test]
fn classify_substring_not_word_boundary() {
    // "badger" contains "bad" as a plain substring
    assert!(classify(&spec_named("badger")));
}

#[test]
fn classify_exact_marker_and_edges() {
    assert!(classify(&spec_named("bad")));
    assert!(classify(&spec_named("so-bad")));
    assert!(!classify(&spec_named("")));
    assert!(!classify(&spec_named("ba-d")));
    // case-sensitive
    assert!(!classify(&spec_named("Bad-source")));
}

#[test]
fn desired_status_recomputed_identically() {
    let s = spec_named("bad-source-1");
    let first = desired_status(&s);
    let second = desired_status(&s);
    assert_eq!(first, second);
    assert!(first.is_bad);
}

#[test]
fn plan_emits_event_only_when_bad() {
    let bad = plan_reconcile(&instance("bad-source-1", "bad-source-1"));
    let good = plan_reconcile(&instance("good-source-1", "good-source-1"));
    assert!(bad.event.is_some());
    assert!(good.event.is_none());
    assert!(bad.patch.status.is_bad);
    assert!(!good.patch.status.is_bad);
}

#[test]
fn plan_event_content() {
    let plan = plan_reconcile(&instance("bad-source-1", "bad-source-1"));
    let ev = plan.event.expect("bad instance plans an event");
    assert_eq!(ev.kind, EventKind::Normal);
    assert_eq!(ev.reason, "BadNooBaaSource");
    assert_eq!(ev.note, "Sending `bad-source-1` to detention");
    assert_eq!(ev.action, "Correcting");
}

#[test]
fn plan_patch_shape() {
    let plan = plan_reconcile(&instance("x", "good-source-1"));
    assert_eq!(plan.patch.api_version, "knative.dev/v1");
    assert_eq!(plan.patch.kind, "NooBaaSource");
    assert_eq!(plan.apply.field_manager, "cntrlr");
    assert!(plan.apply.force);
}

#[test]
fn success_requeue_is_1800s() {
    let plan = plan_reconcile(&instance("x", "anything"));
    assert_eq!(plan.on_success, RequeueDirective::RequeueAfter(1800));
    assert_eq!(SUCCESS_REQUEUE_SECS, 1800);
}

#[test]
fn error_requeue_is_360s_for_every_error() {
    assert_eq!(
        error_policy(&Error::KubeError("connection reset".to_string())),
        RequeueDirective::RequeueAfter(360)
    );
    assert_eq!(
        error_policy(&Error::CrdNotInstalled),
        RequeueDirective::RequeueAfter(360)
    );
    assert_eq!(ERROR_REQUEUE_SECS, 360);
}

#[test]
fn event_note_names_the_instance() {
    assert_eq!(event_note("noobaa-1"), "Sending `noobaa-1` to detention");
    assert_eq!(event_note(""), "Sending `` to detention");
}

#[test]
fn error_messages() {
    assert_eq!(
        Error::KubeError("boom".to_string()).message(),
        "api error: boom"
    );
    assert_eq!(
        Error::CrdNotInstalled.message(),
        "custom resource type not registered: apply the schema first"
    );
}

#[test]
fn outcome_success_keeps_the_plan_directive() {
    let plan = plan_reconcile(&instance("x", "good-source-1"));
    let r = noobaa_source_controller::engine::reconcile_outcome(&plan, Ok(()), Ok(()));
    assert_eq!(r.unwrap(), RequeueDirective::RequeueAfter(1800));
}

#[test]
fn outcome_patch_failure_is_the_reconcile_failure() {
    let plan = plan_reconcile(&instance("x", "bad-source-1"));
    let r = noobaa_source_controller::engine::reconcile_outcome(
        &plan,
        Err(Error::KubeError("patch refused".to_string())),
        Ok(()),
    );
    assert!(matches!(r, Err(Error::KubeError(ref m)) if m == "patch refused"));
}

#[test]
fn outcome_event_failure_is_the_reconcile_failure() {
    let plan = plan_reconcile(&instance("x", "bad-source-1"));
    let r = noobaa_source_controller::engine::reconcile_outcome(
        &plan,
        Ok(()),
        Err(Error::KubeError("event sink down".to_string())),
    );
    assert!(matches!(r, Err(Error::KubeError(ref m)) if m == "event sink down"));
}
