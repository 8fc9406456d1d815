//! The reconcile decision step: from one observed instance to the status
//! patch to apply, the domain event to publish (if any), and the requeue
//! directive — everything a reconcile decides, separated from the I/O that
//! carries it out. Also the error policy that turns a failed reconcile into
//! a bounded, fixed-delay retry.

use vstd::prelude::*;
use crate::Error;
use crate::resource::{desired_status, desired_status_spec, spec_classify, NooBaaSource, NooBaaSourceStatus};

verus! {

/// Delay before a successful reconcile is re-run: a periodic health re-check,
/// not a backoff.
pub const SUCCESS_REQUEUE_SECS: u64 = 1800;

/// Delay before a failed reconcile is retried, regardless of the error kind.
pub const ERROR_REQUEUE_SECS: u64 = 360;

/// Instruction to the controller loop: re-invoke reconcile for this instance
/// after a delay, or not at all.
#[derive(Clone, Copy, Debug, PartialEq, Eq, Structural)]
pub enum RequeueDirective {
    RequeueAfter(u64),
    NoRequeue,
}

/// Severity of a domain event.
#[derive(Clone, Copy, Debug, PartialEq, Eq, Structural)]
pub enum EventKind {
    Normal,
    Warning,
}

/// A discrete, human-readable notification addressed to the instance under
/// reconcile, surfaced by the platform's audit trail.
#[derive(Clone, Debug)]
pub struct DomainEvent {
    pub kind: EventKind,
    pub reason: String,
    pub note: String,
    pub action: String,
}

/// The document applied to the instance's status sub-resource.
#[derive(Clone, Debug)]
pub struct StatusPatch {
    pub api_version: String,
    pub kind: String,
    pub status: NooBaaSourceStatus,
}

/// Server-side-apply parameters: the fixed field-manager identity under which
/// this controller claims status fields, with forced conflict resolution.
#[derive(Clone, Debug)]
pub struct ApplyParams {
    pub field_manager: String,
    pub force: bool,
}

/// Everything one reconcile decides: recomputed status patch, conditional
/// event, and the directive to schedule if the I/O succeeds.
#[derive(Clone, Debug)]
pub struct ReconcilePlan {
    pub patch: StatusPatch,
    pub apply: ApplyParams,
    pub event: Option<DomainEvent>,
    pub on_success: RequeueDirective,
}

/// The note a bad instance's event carries, naming the instance.
pub open spec fn event_note_spec(name: Seq<char>) -> Seq<char> {
    "Sending `"@ + name + "` to detention"@
}

/// The one event shape the engine emits, for the instance of this name.
pub open spec fn event_ok(name: Seq<char>, ev: DomainEvent) -> bool {
    &&& ev.kind == EventKind::Normal
    &&& ev.reason@ == "BadNooBaaSource"@
    &&& ev.note@ == event_note_spec(name)
    &&& ev.action@ == "Correcting"@
}

/// What a correct plan for an observed instance says: the status is fully
/// recomputed from the spec, the patch targets the right type under the fixed
/// field manager with force, an event is planned iff the status is bad, and
/// success schedules the periodic re-check.
pub open spec fn plan_ok(obj: NooBaaSource, plan: ReconcilePlan) -> bool {
    &&& plan.patch.api_version@ == "knative.dev/v1"@
    &&& plan.patch.kind@ == "NooBaaSource"@
    &&& plan.patch.status == desired_status_spec(obj.spec)
    &&& plan.apply.field_manager@ == "cntrlr"@
    &&& plan.apply.force
    &&& (plan.event is Some <==> spec_classify(obj.spec))
    &&& (plan.event matches Some(ev) ==> event_ok(obj.name@, ev))
    &&& plan.on_success == RequeueDirective::RequeueAfter(SUCCESS_REQUEUE_SECS)
}

/// Build the event note for an instance name.
pub fn event_note(name: &str) -> (note: String)
    ensures
        note@ == event_note_spec(name@),
{
    let mut note = String::from_str("Sending `");
    note.append(name);
    note.append("` to detention");
    note
}

/// Decide one reconcile for an observed instance. Reads the spec only —
/// never the observed status — so the plan is deterministic in the spec and
/// the instance identity.
pub fn plan_reconcile(obj: &NooBaaSource) -> (plan: ReconcilePlan)
    ensures
        plan_ok(*obj, plan),
{
    let status = desired_status(&obj.spec);
    let event = if status.is_bad {
        Some(DomainEvent {
            kind: EventKind::Normal,
            reason: String::from_str("BadNooBaaSource"),
            note: event_note(obj.name.as_str()),
            action: String::from_str("Correcting"),
        })
    } else {
        None
    };
    ReconcilePlan {
        patch: StatusPatch {
            api_version: String::from_str("knative.dev/v1"),
            kind: String::from_str("NooBaaSource"),
            status,
        },
        apply: ApplyParams { field_manager: String::from_str("cntrlr"), force: true },
        event,
        on_success: RequeueDirective::RequeueAfter(SUCCESS_REQUEUE_SECS),
    }
}

/// Combine the I/O results one reconcile observed into its outcome: a failed
/// status apply is the reconcile's failure; so is a failed event publish once
/// the apply went through. Neither is swallowed. Only when both completed
/// does the plan's success directive stand.
pub fn reconcile_outcome(
    plan: &ReconcilePlan,
    patch_result: Result<(), Error>,
    event_result: Result<(), Error>,
) -> (r: Result<RequeueDirective, Error>)
    ensures
        (r is Ok) <==> (patch_result is Ok && event_result is Ok),
        r matches Ok(d) ==> d == plan.on_success,
        patch_result matches Err(e) ==> (r matches Err(out) && out == e),
        patch_result is Ok ==> (event_result matches Err(e) ==> (r matches Err(out) && out == e)),
{
    match patch_result {
        Err(e) => Err(e),
        Ok(()) => match event_result {
            Err(e) => Err(e),
            Ok(()) => Ok(plan.on_success),
        },
    }
}

/// The directive the error policy assigns to an error: a fixed delay,
/// whatever the error was.
pub open spec fn error_requeue_spec(e: Error) -> RequeueDirective {
    RequeueDirective::RequeueAfter(ERROR_REQUEUE_SECS)
}

/// Error policy: map any reconcile failure to a fixed-delay retry. Never
/// terminates the controller; never inspects the error kind.
pub fn error_policy(e: &Error) -> (r: RequeueDirective)
    ensures
        r == error_requeue_spec(*e),
        r == RequeueDirective::RequeueAfter(ERROR_REQUEUE_SECS),
{
    RequeueDirective::RequeueAfter(ERROR_REQUEUE_SECS)
}

/// An event is planned if and only if the computed status is bad: at most
/// one event per reconcile, and none when the status is good.
pub proof fn lemma_event_iff_bad(obj: NooBaaSource, plan: ReconcilePlan)
    requires
        plan_ok(obj, plan),
    ensures
        (plan.event is Some) <==> plan.patch.status.is_bad,
        (plan.event is Some) <==> spec_classify(obj.spec),
{
}

/// Requeue contract: a successful reconcile always schedules the 1800-second
/// re-check, and any reconcile error always schedules the 360-second retry,
/// regardless of the error kind.
pub proof fn lemma_fixed_requeue(obj: NooBaaSource, plan: ReconcilePlan, e: Error)
    requires
        plan_ok(obj, plan),
    ensures
        plan.on_success == RequeueDirective::RequeueAfter(1800u64),
        error_requeue_spec(e) == RequeueDirective::RequeueAfter(360u64),
{
}

/// Determinism of planning: two observed instances that agree on identity and
/// on the spec's logical name get the same status, the same event decision,
/// and the same event content — whatever their observed statuses were.
pub proof fn lemma_plan_deterministic(
    a: NooBaaSource,
    b: NooBaaSource,
    pa: ReconcilePlan,
    pb: ReconcilePlan,
)
    requires
        a.name@ == b.name@,
        a.spec.name@ == b.spec.name@,
        plan_ok(a, pa),
        plan_ok(b, pb),
    ensures
        pa.patch.status == pb.patch.status,
        (pa.event is Some) <==> (pb.event is Some),
        pa.event matches Some(ea) ==> event_ok(b.name@, ea),
        pa.on_success == pb.on_success,
{
    crate::resource::lemma_classify_deterministic(a.spec, b.spec);
}

} // verus!
