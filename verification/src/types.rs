//! The middleware-to-verifier wire contract: one round trip per outbound request.
//!
//! * The verifier answers every decision, allow or deny, with an [`AuthorizeResponse`].
//!   Transport failures are never a verdict.
//! * `decision` is binary. `reason_code` is a stable SCREAMING_SNAKE_CASE string that the
//!   middleware treats as opaque.
//! * `credentials` carries only the operator-configured forward list, never the request body.
//!   The body is represented by `body_sha256` and `canonical_request_hash` only.

use vstd::prelude::*;

use crate::credentials::Credentials;
use crate::evidence::{Evidence, EvidenceView};
use crate::hash::PartsView;
use crate::text::opt_text;

pub mod reason;

verus! {

/// Wire-contract version carried in every request.
pub const WIRE_VERSION: &'static str = "1";

/// What is about to egress: everything the verifier needs to bind a decision to the action,
/// and nothing it doesn't (no raw body, no non-credential headers).
#[derive(Debug, Clone, PartialEq, Eq)]
pub struct RequestDescriptor {
    pub method: String,
    pub scheme: String,
    pub authority: String,
    pub path: String,
    pub query: String,
    /// Lowercase hex SHA-256 of the request body (64 hex chars).
    pub body_sha256: String,
    /// Advisory only: the body length in bytes. NOT part of `crh_v1` and NOT
    /// authorization-bearing.
    pub body_len: u64,
    /// Lowercase hex `crh_v1` (see [`crate::hash`], 64 hex chars).
    pub canonical_request_hash: String,
}

/// The view of [`RequestDescriptor`].
#[verifier::ext_equal]
pub struct DescriptorView {
    pub method: Seq<char>,
    pub scheme: Seq<char>,
    pub authority: Seq<char>,
    pub path: Seq<char>,
    pub query: Seq<char>,
    pub body_sha256: Seq<char>,
    pub body_len: u64,
    pub canonical_request_hash: Seq<char>,
}

impl View for RequestDescriptor {
    type V = DescriptorView;

    open spec fn view(&self) -> DescriptorView {
        DescriptorView {
            method: self.method@,
            scheme: self.scheme@,
            authority: self.authority@,
            path: self.path@,
            query: self.query@,
            body_sha256: self.body_sha256@,
            body_len: self.body_len,
            canonical_request_hash: self.canonical_request_hash@,
        }
    }
}

impl DescriptorView {
    /// The parts of the described request that `crh_v1` covers, with the body digest as bytes.
    pub open spec fn parts(self, body_sha256: Seq<u8>) -> PartsView {
        PartsView {
            method: self.method,
            scheme: self.scheme,
            authority: self.authority,
            path: self.path,
            query: self.query,
            body_sha256,
        }
    }
}

/// Who is acting: the proxy-attested execution context.
///
/// The authorization SUBJECT is the durable `agent_id`, which survives sandbox respawn. The
/// `sandbox_id` is the runtime the action executes in: attested context and an optional
/// constraint, but NOT the principal.
#[derive(Debug, Clone)]
pub struct WireContext {
    /// The durable agent principal: the authorization subject.
    pub agent_id: String,
    /// The human the agent is acting for (OIDC subject), when applicable.
    pub on_behalf_of: Option<String>,
    /// The enrolled agent class whose mandate/scope applies.
    pub agent_class: Option<String>,
    /// The runtime sandbox the action executes in. Ephemeral: changes on respawn.
    pub sandbox_id: String,
    pub sandbox_name: Option<String>,
    /// The policy endpoint rule that attached this middleware to the request.
    pub endpoint_rule: String,
    pub policy_revision: Option<String>,
    pub request_id: Option<String>,
    pub received_at_unix_ms: i64,
}

/// The view of [`WireContext`].
#[verifier::ext_equal]
pub struct ContextView {
    pub agent_id: Seq<char>,
    pub on_behalf_of: Option<Seq<char>>,
    pub agent_class: Option<Seq<char>>,
    pub sandbox_id: Seq<char>,
    pub sandbox_name: Option<Seq<char>>,
    pub endpoint_rule: Seq<char>,
    pub policy_revision: Option<Seq<char>>,
    pub request_id: Option<Seq<char>>,
    pub received_at_unix_ms: i64,
}

impl View for WireContext {
    type V = ContextView;

    open spec fn view(&self) -> ContextView {
        ContextView {
            agent_id: self.agent_id@,
            on_behalf_of: opt_text(self.on_behalf_of),
            agent_class: opt_text(self.agent_class),
            sandbox_id: self.sandbox_id@,
            sandbox_name: opt_text(self.sandbox_name),
            endpoint_rule: self.endpoint_rule@,
            policy_revision: opt_text(self.policy_revision),
            request_id: opt_text(self.request_id),
            received_at_unix_ms: self.received_at_unix_ms,
        }
    }
}

impl Default for WireContext {
    fn default() -> (res: Self)
        ensures
            res@ == (ContextView {
                agent_id: Seq::empty(),
                on_behalf_of: None,
                agent_class: None,
                sandbox_id: Seq::empty(),
                sandbox_name: None,
                endpoint_rule: Seq::empty(),
                policy_revision: None,
                request_id: None,
                received_at_unix_ms: 0,
            }),
    {
        WireContext {
            agent_id: String::new(),
            on_behalf_of: None,
            agent_class: None,
            sandbox_id: String::new(),
            sandbox_name: None,
            endpoint_rule: String::new(),
            policy_revision: None,
            request_id: None,
            received_at_unix_ms: 0,
        }
    }
}

/// The middleware-to-verifier request.
#[derive(Debug, Clone)]
pub struct AuthorizeRequest {
    pub version: String,
    pub request: RequestDescriptor,
    pub context: WireContext,
    /// Lowercased header name to value, restricted to the configured forward list
    /// (by default just the per-action token header).
    pub credentials: Credentials,
}

/// The view of [`AuthorizeRequest`].
#[verifier::ext_equal]
pub struct AuthorizeRequestView {
    pub version: Seq<char>,
    pub request: DescriptorView,
    pub context: ContextView,
    pub credentials: Map<Seq<char>, Seq<char>>,
}

impl View for AuthorizeRequest {
    type V = AuthorizeRequestView;

    open spec fn view(&self) -> AuthorizeRequestView {
        AuthorizeRequestView {
            version: self.version@,
            request: self.request@,
            context: self.context@,
            credentials: self.credentials@,
        }
    }
}

#[derive(Debug, Clone, Copy, PartialEq, Eq, Structural)]
pub enum Decision {
    Allow,
    Deny,
}

/// The verifier-to-middleware verdict.
#[derive(Debug, Clone, PartialEq, Eq)]
pub struct AuthorizeResponse {
    pub decision: Decision,
    /// Stable machine-parseable code (see [`reason`]); flows into the audit event.
    pub reason_code: String,
    pub message: Option<String>,
    /// Verifier-side audit handle (e.g. a receipt id) for cross-system correlation.
    pub receipt_id: Option<String>,
    /// Opaque structured evidence for the audit sink; never raw sensitive values.
    pub evidence: Option<Evidence>,
}

/// The view of [`AuthorizeResponse`].
#[verifier::ext_equal]
pub struct ResponseView {
    pub decision: Decision,
    pub reason_code: Seq<char>,
    pub message: Option<Seq<char>>,
    pub receipt_id: Option<Seq<char>>,
    pub evidence: Option<EvidenceView>,
}

/// The view of optional evidence.
pub open spec fn opt_evidence(e: Option<Evidence>) -> Option<EvidenceView> {
    match e {
        Some(v) => Some(v@),
        None => None,
    }
}

impl View for AuthorizeResponse {
    type V = ResponseView;

    open spec fn view(&self) -> ResponseView {
        ResponseView {
            decision: self.decision,
            reason_code: self.reason_code@,
            message: opt_text(self.message),
            receipt_id: opt_text(self.receipt_id),
            evidence: opt_evidence(self.evidence),
        }
    }
}

/// The views of the wire types show every field.
pub proof fn law_wire_types_show_every_field(
    d: RequestDescriptor,
    c: WireContext,
    req: AuthorizeRequest,
    resp: AuthorizeResponse,
)
    ensures
        d@.method == d.method@,
        d@.scheme == d.scheme@,
        d@.authority == d.authority@,
        d@.path == d.path@,
        d@.query == d.query@,
        d@.body_sha256 == d.body_sha256@,
        d@.body_len == d.body_len,
        d@.canonical_request_hash == d.canonical_request_hash@,
        c@.agent_id == c.agent_id@,
        c@.on_behalf_of == opt_text(c.on_behalf_of),
        c@.agent_class == opt_text(c.agent_class),
        c@.sandbox_id == c.sandbox_id@,
        c@.sandbox_name == opt_text(c.sandbox_name),
        c@.endpoint_rule == c.endpoint_rule@,
        c@.policy_revision == opt_text(c.policy_revision),
        c@.request_id == opt_text(c.request_id),
        c@.received_at_unix_ms == c.received_at_unix_ms,
        req@.version == req.version@,
        req@.request == req.request@,
        req@.context == req.context@,
        req@.credentials == req.credentials@,
        resp@.decision == resp.decision,
        resp@.reason_code == resp.reason_code@,
        resp@.message == opt_text(resp.message),
        resp@.receipt_id == opt_text(resp.receipt_id),
        resp.evidence is None ==> resp@.evidence is None,
        resp.evidence is Some ==> resp@.evidence == Some(resp.evidence->0@),
{
}

/// The parts of a described request that the hash covers are its method, target and query, with
/// the body digest that is given.
pub proof fn law_the_described_parts_are_hashed(d: DescriptorView, body_sha256: Seq<u8>)
    ensures
        d.parts(body_sha256).method == d.method,
        d.parts(body_sha256).scheme == d.scheme,
        d.parts(body_sha256).authority == d.authority,
        d.parts(body_sha256).path == d.path,
        d.parts(body_sha256).query == d.query,
        d.parts(body_sha256).body_sha256 == body_sha256,
{
}

} // verus!
