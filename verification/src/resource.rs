//! Schema of the watched custom resource: the author-supplied spec, the
//! controller-owned status, and the classification rule that derives the
//! status deterministically from the spec.

use vstd::prelude::*;
use crate::text::{contains_seq, str_contains};

verus! {

/// Source side of a spec: where the events it describes come from.
#[derive(Clone, Debug)]
pub struct Source {
    /// URL of the NooBaa management RPC service.
    pub rpc_url: String,
    /// Name of the secret holding credentials for that service.
    pub rpc_secret: String,
    /// Bucket name.
    pub bucket: String,
}

/// Reference to an addressable sink object.
#[derive(Clone, Debug)]
pub struct KReference {
    /// Kind of the referent.
    pub kind: String,
    /// Namespace of the referent; defaults to the holder's namespace when absent.
    pub namespace: Option<String>,
    /// Name of the referent.
    pub name: String,
    /// API version of the referent.
    pub api_version: Option<String>,
    /// Group of the API, without the version; an alternative to the API version.
    pub group: Option<String>,
}

/// A target of an invocation over HTTP: either a reference to an addressable
/// object or a direct URI (relative URIs resolve against the reference).
#[derive(Clone, Debug)]
pub struct Destination {
    pub reference: Option<KReference>,
    pub uri: Option<String>,
}

/// Attribute extensions added or overridden on each outbound event. The
/// pairs stand for a map: `overrides_wf` is their invariant. No engine logic
/// reads them; they ride through to the event producer.
#[derive(Clone, Debug)]
pub struct CloudEventOverrides {
    pub extensions: Vec<(String, String)>,
}

/// The invariant of the map the extension pairs stand for: at most one pair
/// per key.
pub open spec fn overrides_wf(o: CloudEventOverrides) -> bool {
    forall|i: int, j: int|
        0 <= i < j < o.extensions@.len() ==> o.extensions@[i].0@ != o.extensions@[j].0@
}

/// Author-supplied spec of a NooBaa source instance. The controller never
/// writes it; status is recomputed from it alone.
#[derive(Clone, Debug)]
pub struct NooBaaSourceSpec {
    /// Logical name: the sole input to classification.
    pub name: String,
    pub source: Source,
    pub sink: Destination,
    pub ce_overrides: Option<CloudEventOverrides>,
}

/// Controller-owned status sub-document: a single classification flag.
#[derive(Clone, Copy, Debug, PartialEq, Eq, Structural)]
pub struct NooBaaSourceStatus {
    pub is_bad: bool,
}

/// One observed instance: its identity (namespace, name), its spec, and the
/// last status seen on the wire. The status field is carried only for
/// fidelity to the wire shape; reconciliation never reads it.
#[derive(Clone, Debug)]
pub struct NooBaaSource {
    /// Object name from metadata (the instance identity within the namespace).
    pub name: String,
    /// Namespace the instance lives in.
    pub namespace: String,
    pub spec: NooBaaSourceSpec,
    pub status: Option<NooBaaSourceStatus>,
}

/// The marker substring that classifies an instance as bad.
pub open spec fn marker() -> Seq<char> {
    "bad"@
}

/// Classification rule: an instance is bad iff its logical name contains the
/// marker substring (case-sensitive, substring match, not equality).
pub open spec fn spec_classify(s: NooBaaSourceSpec) -> bool {
    contains_seq(s.name@, marker())
}

/// The status deterministically desired for a spec.
pub open spec fn desired_status_spec(s: NooBaaSourceSpec) -> NooBaaSourceStatus {
    NooBaaSourceStatus { is_bad: spec_classify(s) }
}

/// Classify one spec by the marker rule.
pub fn classify(s: &NooBaaSourceSpec) -> (r: bool)
    ensures
        r == spec_classify(*s),
{
    str_contains(s.name.as_str(), "bad")
}

/// Compute the desired status for a spec; never reads any existing status.
pub fn desired_status(s: &NooBaaSourceSpec) -> (st: NooBaaSourceStatus)
    ensures
        st == desired_status_spec(*s),
{
    NooBaaSourceStatus { is_bad: classify(s) }
}

/// Determinism of classification: the classification, and hence the desired
/// status, is a pure function of the spec's logical name. Reconciling the
/// same spec twice therefore recomputes the identical status (idempotence).
pub proof fn lemma_classify_deterministic(a: NooBaaSourceSpec, b: NooBaaSourceSpec)
    requires
        a.name@ == b.name@,
    ensures
        spec_classify(a) == spec_classify(b),
        desired_status_spec(a) == desired_status_spec(b),
{
}

} // verus!
