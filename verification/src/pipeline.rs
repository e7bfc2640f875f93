//! Per-request admission decisions: health-check bypass, tenant
//! identification, rate-limit key derivation, and the mapping from a
//! rate-check outcome to the action the gateway takes (forward, or answer
//! with a synthesized rejection). Store outages fail open: the request is
//! forwarded without rate-limit telemetry.

use vstd::prelude::*;
use vstd::string::StringExecFns;

verus! {

/// Paths answered locally with the readiness payload, never forwarded and
/// never counted against any quota.
pub open spec fn spec_is_bypass(path: Seq<char>) -> bool {
    path == "/health"@ || path == "/health/live"@
}

/// Whether `path` is one of the liveness paths the gateway intercepts.
pub fn is_bypass_path(path: &str) -> (b: bool)
    ensures
        b == spec_is_bypass(path@),
{
    let p = path.to_owned();
    p == String::from_str("/health") || p == String::from_str("/health/live")
}

/// The fixed readiness payload served on the bypass paths.
pub fn health_body() -> (r: String)
    ensures
        r@ == "{\"status\":\"ok\",\"service\":\"nexusai-gateway\",\"version\":\"3.0.0\"}"@,
{
    String::from_str("{\"status\":\"ok\",\"service\":\"nexusai-gateway\",\"version\":\"3.0.0\"}")
}

/// The tenant identity a request is bucketed under: the client-supplied
/// header value, or the fixed anonymous identity when absent or empty.
pub open spec fn spec_tenant(header: Option<Seq<char>>) -> Seq<char> {
    match header {
        Option::Some(s) => if s.len() > 0 {
            s
        } else {
            "anonymous"@
        },
        Option::None => "anonymous"@,
    }
}

/// Extracts the tenant identity from the optional header value.
pub fn tenant_of(header: Option<String>) -> (t: String)
    ensures
        t@ == spec_tenant(match header {
            Option::Some(s) => Option::Some(s@),
            Option::None => Option::None,
        }),
{
    match header {
        Option::Some(s) => {
            if s.as_str().is_empty() {
                String::from_str("anonymous")
            } else {
                s
            }
        },
        Option::None => String::from_str("anonymous"),
    }
}

/// The store key a tenant's window lives under.
pub open spec fn spec_rate_key(tenant: Seq<char>) -> Seq<char> {
    "nexus:ratelimit:"@ + tenant
}

/// Derives the namespaced store key for a tenant's rate window.
pub fn rate_key(tenant: &str) -> (k: String)
    ensures
        k@ == spec_rate_key(tenant@),
{
    let mut k = String::from_str("nexus:ratelimit:");
    k.append(tenant);
    k
}

/// What one rate check against the shared store came back with: a decision,
/// or nothing because the store was unreachable or answered garbage.
#[derive(Clone, Copy, PartialEq, Eq, Structural, Debug)]
pub enum RateOutcome {
    Decided { admitted: bool, remaining: u64 },
    StoreUnavailable,
}

/// Turns the store's raw reply — two integers, an admit flag and the
/// remaining quota — into a rate-check outcome. A missing or malformed
/// reply counts as the store being unavailable, so the fail-open policy
/// covers protocol failures too.
pub fn outcome_of_store_reply(reply: Option<Vec<u64>>) -> (o: RateOutcome)
    ensures
        match reply {
            Option::Some(v) => if v@.len() == 2 {
                o == (RateOutcome::Decided { admitted: v@[0] == 1, remaining: v@[1] })
            } else {
                o == RateOutcome::StoreUnavailable
            },
            Option::None => o == RateOutcome::StoreUnavailable,
        },
{
    match reply {
        Option::Some(v) => {
            if v.len() == 2 {
                RateOutcome::Decided { admitted: v[0] == 1, remaining: v[1] }
            } else {
                RateOutcome::StoreUnavailable
            }
        },
        Option::None => RateOutcome::StoreUnavailable,
    }
}

/// The class of response the pipeline produces for a request.
#[derive(Clone, Copy, PartialEq, Eq, Structural, Debug)]
pub enum ResponseClass {
    /// Answered locally with the readiness payload.
    Health,
    /// Answered locally with the quota rejection; nothing is forwarded.
    Rejected,
    /// The upstream's response is relayed, with the remaining quota when
    /// the rate check supplied one (none on a fail-open pass).
    Relayed { remaining: Option<u64> },
}

/// The pipeline's decision for a request: liveness paths are answered
/// locally whatever the rate-check outcome; otherwise an admitted request
/// is relayed with its remaining quota, a rejected one is answered with
/// the quota rejection, and a request whose rate check failed is relayed
/// without telemetry (fail open).
pub open spec fn spec_response_class(path: Seq<char>, outcome: RateOutcome) -> ResponseClass {
    if spec_is_bypass(path) {
        ResponseClass::Health
    } else {
        match outcome {
            RateOutcome::Decided { admitted, remaining } => if admitted {
                ResponseClass::Relayed { remaining: Option::Some(remaining) }
            } else {
                ResponseClass::Rejected
            },
            RateOutcome::StoreUnavailable => ResponseClass::Relayed { remaining: Option::None },
        }
    }
}

/// What the gateway does with a request once the rate-check outcome is in
/// hand, each synthesized payload spelled out.
pub enum AdmissionAction {
    /// Answer with the readiness payload.
    RespondHealth { body: String },
    /// Answer with the quota rejection; nothing is forwarded.
    Reject { status: u16, content_type: String, body: String },
    /// Forward to the upstream, relaying its response, with the
    /// remaining-quota telemetry when the rate check supplied it.
    Forward { remaining: Option<u64> },
}

/// Decides a request's fate from its path and its rate-check outcome,
/// realizing `spec_response_class` with the concrete payloads.
pub fn admission_action(path: &str, outcome: &RateOutcome) -> (a: AdmissionAction)
    ensures
        match a {
            AdmissionAction::RespondHealth { body } => {
                &&& spec_response_class(path@, *outcome) == ResponseClass::Health
                &&& body@
                    == "{\"status\":\"ok\",\"service\":\"nexusai-gateway\",\"version\":\"3.0.0\"}"@
            },
            AdmissionAction::Reject { status, content_type, body } => {
                &&& spec_response_class(path@, *outcome) == ResponseClass::Rejected
                &&& status == 429
                &&& content_type@ == "application/json"@
                &&& body@ == "{\"detail\":\"Rate limit exceeded\",\"retry_after\":60}"@
            },
            AdmissionAction::Forward { remaining } => spec_response_class(path@, *outcome)
                == (ResponseClass::Relayed { remaining }),
        },
{
    if is_bypass_path(path) {
        AdmissionAction::RespondHealth { body: health_body() }
    } else {
        match *outcome {
            RateOutcome::Decided { admitted, remaining } => {
                if admitted {
                    AdmissionAction::Forward { remaining: Option::Some(remaining) }
                } else {
                    AdmissionAction::Reject {
                        status: 429,
                        content_type: String::from_str("application/json"),
                        body: String::from_str(
                            "{\"detail\":\"Rate limit exceeded\",\"retry_after\":60}",
                        ),
                    }
                }
            },
            RateOutcome::StoreUnavailable => AdmissionAction::Forward { remaining: Option::None },
        }
    }
}

/// Bypass: on the liveness paths the pipeline always answers locally with
/// the readiness payload — the decision is the same whatever the store
/// said, would have said, or failed to say.
pub proof fn lemma_bypass_uniform(path: Seq<char>, o1: RateOutcome, o2: RateOutcome)
    requires
        spec_is_bypass(path),
    ensures
        spec_response_class(path, o1) == ResponseClass::Health,
        spec_response_class(path, o1) == spec_response_class(path, o2),
{
}

/// Fail open: when the store is unreachable, a non-bypass request is still
/// relayed to the upstream — the outage alone never causes a rejection or
/// a synthesized error, only the loss of the remaining-quota telemetry.
pub proof fn lemma_fail_open(path: Seq<char>)
    requires
        !spec_is_bypass(path),
    ensures
        spec_response_class(path, RateOutcome::StoreUnavailable) == (ResponseClass::Relayed {
            remaining: Option::None,
        }),
{
}

/// Anonymous bucketing: requests without a tenant header (or with an empty
/// one) all land in one shared bucket, and any named tenant lands in a
/// bucket of its own, distinct from the anonymous one.
pub proof fn lemma_anonymous_bucketing(s: Seq<char>)
    requires
        s.len() > 0,
        s != "anonymous"@,
    ensures
        spec_rate_key(spec_tenant(Option::None)) == spec_rate_key(
            spec_tenant(Option::Some(Seq::<char>::empty())),
        ),
        spec_rate_key(spec_tenant(Option::Some(s))) != spec_rate_key(spec_tenant(Option::None)),
{
    let prefix = "nexus:ratelimit:"@;
    let anon = "anonymous"@;
    if prefix + s == prefix + anon {
        assert((prefix + s).len() == prefix.len() + s.len());
        assert((prefix + anon).len() == prefix.len() + anon.len());
        assert(s.len() == anon.len());
        assert forall|i: int| 0 <= i < s.len() implies s[i] == anon[i] by {
            assert((prefix + s)[prefix.len() + i] == s[i]);
            assert((prefix + anon)[prefix.len() + i] == anon[i]);
        }
        assert(s =~= anon);
    }
}

} // verus!
