//! The egress middleware: one verifier round trip per outbound request.
//!
//! What it does, per request:
//!
//! 1. finds the per-action credential in a configured request header (token-opaque: the token
//!    is never parsed here);
//! 2. computes the canonical request hash over the request as it will egress;
//! 3. asks the verifier, with one [`AuthorizeRequest`];
//! 4. enforces what it answers: `allow` continues (stripping the token header so the credential
//!    never reaches the upstream), `deny` blocks with a structured reason, and a verifier
//!    failure follows the configured fail policy;
//! 5. emits a structured audit event: decision, reason code, receipt id and request digest;
//!    never the token value, never raw body bytes.
//!
//! The round trip itself belongs to the host. [`ExtAuthzMiddleware::evaluate`] either decides
//! alone or says what to ask; the host asks, and [`ExtAuthzMiddleware::resolve`] turns the
//! outcome into the decision.

use vstd::prelude::*;
use vstd::string::StringExecFns;

use crate::config::{
    law_normalized_config_is_idempotent, law_normalizing_changes_the_case_of_names_only,
    normalized_config, ConfigView, ExtAuthzConfig, FailPolicy, Mode,
};
use crate::credentials::Credentials;
use crate::evidence::{empty_object, text_field, Evidence, EvidenceView};
use crate::guard::{is_lower_hex_32, recomputed_crh};
use crate::hash::{
    canonical_request_hash, crh_v1, law_spelling_does_not_matter, lemma_lower_idempotent,
    lemma_upper_idempotent, sha256_bytes, CanonicalRequestParts, PartsView,
};
use crate::primitives::{hex, hex_encode, lemma_unhex_hex, sha256, unhex};
use crate::text::{decimal, decimal_string, lower, opt_str_text, opt_text, opt_to_owned, str_eq};
use crate::text::{texts, upper};
use crate::types::{
    reason, AuthorizeRequest, AuthorizeRequestView, AuthorizeResponse, ContextView,
    DescriptorView, RequestDescriptor, ResponseView, WireContext, WIRE_VERSION,
};
use crate::types::Decision as WireDecision;

verus! {

/// Proxy-attested execution context for one request.
#[derive(Debug, Clone, Copy)]
pub struct RequestContext<'a> {
    /// The durable agent principal the gateway attests: the authorization subject.
    /// Survives sandbox respawn; this is what the verdict binds to.
    pub agent_id: &'a str,
    /// The human the agent acts for (OIDC subject), when applicable.
    pub on_behalf_of: Option<&'a str>,
    /// The enrolled agent class whose mandate/scope applies.
    pub agent_class: Option<&'a str>,
    /// The runtime sandbox: attested execution context, NOT the principal.
    pub sandbox_id: &'a str,
    pub sandbox_name: Option<&'a str>,
    /// The policy endpoint rule that attached this middleware.
    pub endpoint_rule: &'a str,
    pub policy_revision: Option<&'a str>,
    pub request_id: Option<&'a str>,
}

/// The view of [`RequestContext`]: the wire context without the time of receipt.
#[verifier::ext_equal]
pub struct RequestContextView {
    pub agent_id: Seq<char>,
    pub on_behalf_of: Option<Seq<char>>,
    pub agent_class: Option<Seq<char>>,
    pub sandbox_id: Seq<char>,
    pub sandbox_name: Option<Seq<char>>,
    pub endpoint_rule: Seq<char>,
    pub policy_revision: Option<Seq<char>>,
    pub request_id: Option<Seq<char>>,
}

impl<'a> View for RequestContext<'a> {
    type V = RequestContextView;

    open spec fn view(&self) -> RequestContextView {
        RequestContextView {
            agent_id: self.agent_id@,
            on_behalf_of: opt_str_text(self.on_behalf_of),
            agent_class: opt_str_text(self.agent_class),
            sandbox_id: self.sandbox_id@,
            sandbox_name: opt_str_text(self.sandbox_name),
            endpoint_rule: self.endpoint_rule@,
            policy_revision: opt_str_text(self.policy_revision),
            request_id: opt_str_text(self.request_id),
        }
    }
}

/// The outbound request at the egress hook, post-mutation, pre-credential-injection.
#[derive(Debug, Clone, Copy)]
pub struct EgressRequest<'a> {
    pub method: &'a str,
    pub scheme: &'a str,
    /// `host[:port]` exactly as it will be dialed.
    pub authority: &'a str,
    pub path: &'a str,
    pub query: &'a str,
    /// Header name (any case) and value.
    pub headers: &'a [(String, String)],
    /// The buffered request body (see `max_body_bytes`).
    pub body: &'a [u8],
}

/// The view of [`EgressRequest`].
#[verifier::ext_equal]
pub struct RequestView {
    pub method: Seq<char>,
    pub scheme: Seq<char>,
    pub authority: Seq<char>,
    pub path: Seq<char>,
    pub query: Seq<char>,
    pub headers: Seq<(Seq<char>, Seq<char>)>,
    pub body: Seq<u8>,
}

/// The view of a header list.
pub open spec fn header_texts(headers: Seq<(String, String)>) -> Seq<(Seq<char>, Seq<char>)> {
    Seq::new(headers.len(), |i: int| (headers[i].0@, headers[i].1@))
}

impl<'a> View for EgressRequest<'a> {
    type V = RequestView;

    open spec fn view(&self) -> RequestView {
        RequestView {
            method: self.method@,
            scheme: self.scheme@,
            authority: self.authority@,
            path: self.path@,
            query: self.query@,
            headers: header_texts(self.headers@),
            body: self.body@,
        }
    }
}

impl RequestView {
    /// The parts of the request that `crh_v1` covers.
    pub open spec fn parts(self) -> PartsView {
        PartsView {
            method: self.method,
            scheme: self.scheme,
            authority: self.authority,
            path: self.path,
            query: self.query,
            body_sha256: sha256(self.body),
        }
    }
}

/// A structured denial.
#[derive(Debug, Clone)]
pub struct DenyVerdict {
    /// Suggested status for the synthesized response to the sandbox:
    /// 403 for authorization denials, 503 for fail-closed infrastructure denials.
    pub http_status: u16,
    pub reason_code: String,
    pub message: String,
    pub receipt_id: Option<String>,
    pub evidence: Evidence,
}

/// The view of [`DenyVerdict`].
#[verifier::ext_equal]
pub struct DenyView {
    pub http_status: u16,
    pub reason_code: Seq<char>,
    pub message: Seq<char>,
    pub receipt_id: Option<Seq<char>>,
    pub evidence: EvidenceView,
}

impl View for DenyVerdict {
    type V = DenyView;

    open spec fn view(&self) -> DenyView {
        DenyView {
            http_status: self.http_status,
            reason_code: self.reason_code@,
            message: self.message@,
            receipt_id: opt_text(self.receipt_id),
            evidence: self.evidence@,
        }
    }
}

/// The middleware's decision for one request.
#[derive(Debug, Clone)]
pub enum Decision {
    /// Let the request continue to the next stage (credential injection), after
    /// removing `strip_headers` (lowercase names) from it. The host MUST remove *every*
    /// instance of each name, matched case-insensitively, before the request egresses:
    /// a surviving duplicate would leak the per-action credential upstream.
    Continue { strip_headers: Vec<String> },
    /// Block the request; the proxy should synthesize an error response to the
    /// sandbox and MUST NOT forward upstream.
    Deny(DenyVerdict),
}

/// The view of [`Decision`].
#[verifier::ext_equal]
pub enum DecisionView {
    Continue { strip_headers: Seq<Seq<char>> },
    Deny(DenyView),
}

impl View for Decision {
    type V = DecisionView;

    open spec fn view(&self) -> DecisionView {
        match self {
            Decision::Continue { strip_headers } => DecisionView::Continue {
                strip_headers: texts(strip_headers@),
            },
            Decision::Deny(v) => DecisionView::Deny(v@),
        }
    }
}

impl Decision {
    /// Whether the request continues.
    pub fn is_allow(&self) -> (res: bool)
        ensures
            res == (self@ is Continue),
    {
        matches!(self, Decision::Continue { .. })
    }
}

/// One structured audit line per request. Contains digests and codes; never the
/// credential value, never raw body bytes.
#[derive(Debug, Clone)]
pub struct AuditEvent {
    pub ts_unix_ms: i64,
    pub middleware: &'static str,
    /// The durable agent principal (the authorization subject).
    pub agent_id: String,
    /// The runtime sandbox where it executed: context, not the subject.
    pub sandbox_id: String,
    pub endpoint_rule: String,
    pub method: String,
    pub authority: String,
    pub path: String,
    pub canonical_request_hash: Option<String>,
    /// The effective decision (what the proxy should do): "allow" or "deny".
    pub decision: &'static str,
    /// False in observe mode: verdicts are logged, not enforced.
    pub enforced: bool,
    /// Observe mode only: the verifier, a local check or the fail policy would have denied.
    pub would_deny: bool,
    pub reason_code: String,
    pub receipt_id: Option<String>,
    /// How long the verifier round trip took, in nanoseconds.
    pub verifier_latency_ns: Option<u64>,
    /// True when the verifier gave no verdict and the fail policy decided.
    pub degraded: bool,
}

/// The view of [`AuditEvent`].
#[verifier::ext_equal]
pub struct AuditView {
    pub ts_unix_ms: i64,
    pub middleware: Seq<char>,
    pub agent_id: Seq<char>,
    pub sandbox_id: Seq<char>,
    pub endpoint_rule: Seq<char>,
    pub method: Seq<char>,
    pub authority: Seq<char>,
    pub path: Seq<char>,
    pub canonical_request_hash: Option<Seq<char>>,
    pub decision: Seq<char>,
    pub enforced: bool,
    pub would_deny: bool,
    pub reason_code: Seq<char>,
    pub receipt_id: Option<Seq<char>>,
    pub verifier_latency_ns: Option<u64>,
    pub degraded: bool,
}

impl View for AuditEvent {
    type V = AuditView;

    open spec fn view(&self) -> AuditView {
        AuditView {
            ts_unix_ms: self.ts_unix_ms,
            middleware: self.middleware@,
            agent_id: self.agent_id@,
            sandbox_id: self.sandbox_id@,
            endpoint_rule: self.endpoint_rule@,
            method: self.method@,
            authority: self.authority@,
            path: self.path@,
            canonical_request_hash: opt_text(self.canonical_request_hash),
            decision: self.decision@,
            enforced: self.enforced,
            would_deny: self.would_deny,
            reason_code: self.reason_code@,
            receipt_id: opt_text(self.receipt_id),
            verifier_latency_ns: self.verifier_latency_ns,
            degraded: self.degraded,
        }
    }
}

/// The values of the headers named `name` up to ASCII case, in order.
pub open spec fn values_of(headers: Seq<(Seq<char>, Seq<char>)>, name: Seq<char>) -> Seq<Seq<char>>
    decreases headers.len(),
{
    if headers.len() == 0 {
        Seq::empty()
    } else {
        let rest = values_of(headers.drop_first(), name);
        if lower(headers[0].0) == lower(name) {
            seq![headers[0].1] + rest
        } else {
            rest
        }
    }
}

/// Result of a case-insensitive token-header lookup, distinguishing "exactly one"
/// from "more than one" so duplicates can be refused instead of silently first-matched.
#[derive(Debug, Clone, Copy)]
pub enum HeaderLookup<'a> {
    Absent,
    One(&'a str),
    Many,
}

proof fn lemma_values_step(headers: Seq<(Seq<char>, Seq<char>)>, name: Seq<char>, i: int)
    requires
        0 <= i < headers.len(),
    ensures
        values_of(headers.skip(i), name) == if lower(headers[i].0) == lower(name) {
            seq![headers[i].1] + values_of(headers.skip(i + 1), name)
        } else {
            values_of(headers.skip(i + 1), name)
        },
{
    assert(headers.skip(i).drop_first() =~= headers.skip(i + 1));
    assert(headers.skip(i)[0] == headers[i]);
}

/// Case-insensitive lookup for the credential header. Duplicate instances resolve to
/// [`HeaderLookup::Many`]: the caller refuses them rather than authorizing one value
/// while a different one might egress.
pub fn find_token_header<'a>(headers: &'a [(String, String)], name_lower: &str) -> (res:
    HeaderLookup<'a>)
    ensures
        match res {
            HeaderLookup::Absent => values_of(header_texts(headers@), name_lower@).len() == 0,
            HeaderLookup::One(v) => values_of(header_texts(headers@), name_lower@) == seq![v@],
            HeaderLookup::Many => values_of(header_texts(headers@), name_lower@).len() > 1,
        },
{
    let ghost all = header_texts(headers@);
    let ghost name = name_lower@;
    let mut found: Option<&'a str> = None;
    let n: usize = headers.len();
    let mut i: usize = 0;
    assert(all.skip(0) =~= all);
    while i < n
        invariant
            n == headers@.len(),
            i <= n,
            all == header_texts(headers@),
            name == name_lower@,
            values_of(all, name) == (match found {
                Some(v) => seq![v@],
                None => Seq::empty(),
            }) + values_of(all.skip(i as int), name),
        decreases n - i,
    {
        proof {
            lemma_values_step(all, name, i as int);
        }
        if headers[i].0.as_str().eq_ignore_ascii_case(name_lower) {
            if found.is_some() {
                return HeaderLookup::Many;
            }
            found = Some(headers[i].1.as_str());
        }
        i += 1;
    }
    match found {
        Some(v) => HeaderLookup::One(v),
        None => HeaderLookup::Absent,
    }
}

/// The first of some values.
pub open spec fn first(values: Seq<Seq<char>>) -> Option<Seq<char>> {
    if values.len() > 0 {
        Some(values[0])
    } else {
        None
    }
}

/// Case-insensitive single-header lookup (first match wins). Used only for advisory
/// forward headers (e.g. `x-request-id`), where a duplicate is harmless.
pub fn find_header<'a>(headers: &'a [(String, String)], name_lower: &str) -> (res: Option<&'a str>)
    ensures
        opt_str_text(res) == first(values_of(header_texts(headers@), name_lower@)),
{
    let ghost all = header_texts(headers@);
    let n: usize = headers.len();
    let mut i: usize = 0;
    assert(all.skip(0) =~= all);
    while i < n
        invariant
            n == headers@.len(),
            i <= n,
            all == header_texts(headers@),
            values_of(all, name_lower@) == values_of(all.skip(i as int), name_lower@),
        decreases n - i,
    {
        proof {
            lemma_values_step(all, name_lower@, i as int);
        }
        if headers[i].0.as_str().eq_ignore_ascii_case(name_lower) {
            return Some(headers[i].1.as_str());
        }
        i += 1;
    }
    None
}

/// What the verifier round trip came to.
#[derive(Debug)]
pub enum VerifierOutcome {
    /// The verifier answered.
    Verdict(AuthorizeResponse),
    /// It did not answer in time.
    Timeout,
    /// It could not be reached.
    Unavailable(String),
    /// It answered, but not with a verdict.
    Malformed(String),
}

/// The view of [`VerifierOutcome`].
#[verifier::ext_equal]
pub enum OutcomeView {
    Verdict(ResponseView),
    Timeout,
    Unavailable(Seq<char>),
    Malformed(Seq<char>),
}

impl View for VerifierOutcome {
    type V = OutcomeView;

    open spec fn view(&self) -> OutcomeView {
        match self {
            VerifierOutcome::Verdict(v) => OutcomeView::Verdict(v@),
            VerifierOutcome::Timeout => OutcomeView::Timeout,
            VerifierOutcome::Unavailable(e) => OutcomeView::Unavailable(e@),
            VerifierOutcome::Malformed(e) => OutcomeView::Malformed(e@),
        }
    }
}

/// What an HTTP client says of a call that failed. Its own text is left out: it can embed
/// full URLs.
#[derive(Debug, Clone)]
pub struct TransportError {
    pub timeout: bool,
    pub connect: bool,
    pub decode: bool,
    /// The status, written out, where the failure is one.
    pub status: Option<String>,
    pub body: bool,
}

/// The kind of a failure, terse and URL-free.
pub open spec fn redacted(e: TransportError) -> Seq<char> {
    if e.timeout {
        "timeout"@
    } else if e.connect {
        "connect error"@
    } else if e.decode {
        "decode error"@
    } else if e.status is Some {
        "http status "@ + e.status->0@
    } else if e.body {
        "body error"@
    } else {
        "request error"@
    }
}

/// Classify a failure by kind, so that audit lines stay terse and URL-free.
pub fn redact_err(e: &TransportError) -> (res: String)
    ensures
        res@ == redacted(*e),
{
    if e.timeout {
        "timeout".to_owned()
    } else if e.connect {
        "connect error".to_owned()
    } else if e.decode {
        "decode error".to_owned()
    } else if let Some(status) = &e.status {
        let mut s = "http status ".to_owned();
        s.append(status.as_str());
        s
    } else if e.body {
        "body error".to_owned()
    } else {
        "request error".to_owned()
    }
}

/// The outcome of a call that got no response.
pub open spec fn unsent(e: TransportError) -> OutcomeView {
    if e.timeout {
        OutcomeView::Timeout
    } else {
        OutcomeView::Unavailable(redacted(e))
    }
}

/// The outcome of a response with the given status; `None` where the body decides.
pub open spec fn answered(code: u16, text: Seq<char>) -> Option<OutcomeView> {
    if code == 200 {
        None
    } else {
        Some(OutcomeView::Malformed("http status "@ + text))
    }
}

/// The outcome of a 200 response whose body could not be read.
pub open spec fn unread(e: TransportError) -> OutcomeView {
    if e.timeout {
        OutcomeView::Timeout
    } else {
        OutcomeView::Malformed(redacted(e))
    }
}

impl VerifierOutcome {
    /// The outcome of a call that got no response.
    pub fn from_send_error(e: &TransportError) -> (res: VerifierOutcome)
        ensures
            res@ == unsent(*e),
    {
        if e.timeout {
            VerifierOutcome::Timeout
        } else {
            VerifierOutcome::Unavailable(redact_err(e))
        }
    }

    /// The outcome of a response with the given status (and its text): any but 200 is a
    /// verifier failure, never a verdict; 200 is decided by the body.
    pub fn from_status(code: u16, text: &str) -> (res: Option<VerifierOutcome>)
        ensures
            match res {
                Some(outcome) => answered(code, text@) == Some(outcome@),
                None => answered(code, text@) is None,
            },
            res is None <==> code == 200,
    {
        if code != 200 {
            let mut s = "http status ".to_owned();
            s.append(text);
            Some(VerifierOutcome::Malformed(s))
        } else {
            None
        }
    }

    /// The outcome of reading the body of a 200 response.
    pub fn from_body(body: Result<AuthorizeResponse, TransportError>) -> (res: VerifierOutcome)
        ensures
            res@ == match body {
                Ok(v) => OutcomeView::Verdict(v@),
                Err(e) => unread(e),
            },
    {
        match body {
            Ok(v) => VerifierOutcome::Verdict(v),
            Err(e) => if e.timeout {
                VerifierOutcome::Timeout
            } else {
                VerifierOutcome::Malformed(redact_err(&e))
            },
        }
    }
}

/// External-authorization middleware.
pub struct ExtAuthzMiddleware {
    cfg: ExtAuthzConfig,
}

impl View for ExtAuthzMiddleware {
    type V = ConfigView;

    closed spec fn view(&self) -> ConfigView {
        self.cfg@
    }
}

/// What comes next for a request.
#[derive(Debug)]
pub enum Step {
    /// Decided without the verifier.
    Done(Decision, AuditEvent),
    /// Ask the verifier; [`ExtAuthzMiddleware::resolve`] decides on the outcome.
    Ask(AuthorizeRequest, AuditEvent),
}

/// The audit event before anything is decided.
pub open spec fn opening_audit(
    cfg: ConfigView,
    ctx: RequestContextView,
    req: RequestView,
    ts_unix_ms: i64,
) -> AuditView {
    AuditView {
        ts_unix_ms,
        middleware: "ext-authz"@,
        agent_id: ctx.agent_id,
        sandbox_id: ctx.sandbox_id,
        endpoint_rule: ctx.endpoint_rule,
        method: upper(req.method),
        authority: req.authority,
        path: req.path,
        canonical_request_hash: None,
        decision: "deny"@,
        enforced: cfg.mode == Mode::Enforce,
        would_deny: false,
        reason_code: ""@,
        receipt_id: None,
        verifier_latency_ns: None,
        degraded: false,
    }
}

/// The audit event while the verifier is asked: it carries the request digest.
pub open spec fn asking_audit(
    cfg: ConfigView,
    ctx: RequestContextView,
    req: RequestView,
    ts_unix_ms: i64,
) -> AuditView {
    AuditView {
        canonical_request_hash: Some(hex(crh_v1(req.parts()))),
        ..opening_audit(cfg, ctx, req, ts_unix_ms)
    }
}

/// Why a request is refused without asking the verifier, as reason code and message; `None`
/// where the verifier is to be asked.
pub open spec fn local_refusal(cfg: ConfigView, req: RequestView) -> Option<
    (Seq<char>, Seq<char>),
> {
    let tokens = values_of(req.headers, cfg.token_header);
    if tokens.len() == 0 {
        Some(
            (
                reason::TOKEN_MISSING@,
                "request carries no `"@ + cfg.token_header + "` header"@,
            ),
        )
    } else if tokens.len() > 1 {
        Some(
            (
                reason::TOKEN_AMBIGUOUS@,
                "request carries multiple `"@ + cfg.token_header
                    + "` headers; refusing to guess which to authorize"@,
            ),
        )
    } else if req.body.len() > cfg.max_body_bytes {
        Some(
            (
                reason::REQUEST_TOO_LARGE@,
                "body is "@ + decimal(req.body.len()) + " bytes; max_body_bytes="@ + decimal(
                    cfg.max_body_bytes as nat,
                ) + " (intent binding requires hashing the body)"@,
            ),
        )
    } else {
        None
    }
}

/// What is forwarded to the verifier: the token, and of the configured headers those that the
/// request carries, each with its first value.
pub open spec fn forwarded(cfg: ConfigView, req: RequestView) -> Map<Seq<char>, Seq<char>> {
    Map::new(
        |name: Seq<char>|
            name == cfg.token_header || (cfg.forward_headers.contains(name) && values_of(
                req.headers,
                name,
            ).len() > 0),
        |name: Seq<char>| values_of(req.headers, name)[0],
    )
}

/// The question to the verifier.
pub open spec fn question(
    cfg: ConfigView,
    ctx: RequestContextView,
    req: RequestView,
    received_at_unix_ms: i64,
) -> AuthorizeRequestView {
    AuthorizeRequestView {
        version: WIRE_VERSION@,
        request: DescriptorView {
            method: upper(req.method),
            scheme: lower(req.scheme),
            authority: req.authority,
            path: req.path,
            query: req.query,
            body_sha256: hex(sha256(req.body)),
            body_len: req.body.len() as u64,
            canonical_request_hash: hex(crh_v1(req.parts())),
        },
        context: ContextView {
            agent_id: ctx.agent_id,
            on_behalf_of: ctx.on_behalf_of,
            agent_class: ctx.agent_class,
            sandbox_id: ctx.sandbox_id,
            sandbox_name: ctx.sandbox_name,
            endpoint_rule: ctx.endpoint_rule,
            policy_revision: ctx.policy_revision,
            request_id: ctx.request_id,
            received_at_unix_ms,
        },
        credentials: forwarded(cfg, req),
    }
}

/// The decision to let a request continue.
pub open spec fn continuing(cfg: ConfigView) -> DecisionView {
    DecisionView::Continue {
        strip_headers: if cfg.strip_token_header {
            seq![cfg.token_header]
        } else {
            Seq::empty()
        },
    }
}

/// How a denial that the middleware decided itself comes out.
pub open spec fn local_deny(
    cfg: ConfigView,
    audit: AuditView,
    code: Seq<char>,
    message: Seq<char>,
) -> (DecisionView, AuditView) {
    match cfg.mode {
        Mode::Enforce => (
            DecisionView::Deny(
                DenyView {
                    http_status: 403,
                    reason_code: code,
                    message,
                    receipt_id: None,
                    evidence: EvidenceView::Object(
                        seq![("source"@, EvidenceView::Text("middleware-local"@))],
                    ),
                },
            ),
            AuditView { reason_code: code, decision: "deny"@, ..audit },
        ),
        Mode::Observe => (
            continuing(cfg),
            AuditView { reason_code: code, decision: "allow"@, would_deny: true, ..audit },
        ),
    }
}

/// How a deny verdict of the verifier comes out.
pub open spec fn verdict_deny(cfg: ConfigView, audit: AuditView, v: ResponseView) -> (
    DecisionView,
    AuditView,
) {
    match cfg.mode {
        Mode::Enforce => (
            DecisionView::Deny(
                DenyView {
                    http_status: 403,
                    reason_code: v.reason_code,
                    message: match v.message {
                        Some(m) => m,
                        None => "denied by verifier"@,
                    },
                    receipt_id: v.receipt_id,
                    evidence: match v.evidence {
                        Some(e) => e,
                        None => EvidenceView::Object(Seq::empty()),
                    },
                },
            ),
            AuditView { decision: "deny"@, ..audit },
        ),
        Mode::Observe => (
            continuing(cfg),
            AuditView { decision: "allow"@, would_deny: true, ..audit },
        ),
    }
}

/// How the lack of a verdict comes out, which the fail policy decides.
pub open spec fn verifier_failure(
    cfg: ConfigView,
    audit: AuditView,
    code: Seq<char>,
    message: Seq<char>,
) -> (DecisionView, AuditView) {
    let audit = AuditView { reason_code: code, degraded: true, ..audit };
    if cfg.mode == Mode::Enforce && cfg.fail == FailPolicy::Closed {
        (
            DecisionView::Deny(
                DenyView {
                    http_status: 503,
                    reason_code: code,
                    message,
                    receipt_id: None,
                    evidence: EvidenceView::Object(
                        seq![("fail_policy"@, EvidenceView::Text("closed"@))],
                    ),
                },
            ),
            AuditView { decision: "deny"@, ..audit },
        )
    } else {
        (
            continuing(cfg),
            AuditView {
                decision: "allow"@,
                would_deny: cfg.mode == Mode::Observe && cfg.fail == FailPolicy::Closed,
                ..audit
            },
        )
    }
}

/// How the outcome of the verifier round trip comes out.
pub open spec fn resolution(
    cfg: ConfigView,
    audit: AuditView,
    outcome: OutcomeView,
    latency_ns: u64,
) -> (DecisionView, AuditView) {
    let audit = AuditView { verifier_latency_ns: Some(latency_ns), ..audit };
    match outcome {
        OutcomeView::Verdict(v) => {
            let audit = AuditView {
                reason_code: v.reason_code,
                receipt_id: v.receipt_id,
                ..audit
            };
            match v.decision {
                WireDecision::Allow => (
                    continuing(cfg),
                    AuditView { decision: "allow"@, ..audit },
                ),
                WireDecision::Deny => verdict_deny(cfg, audit, v),
            }
        },
        OutcomeView::Timeout => verifier_failure(
            cfg,
            audit,
            reason::VERIFIER_TIMEOUT@,
            "verifier did not answer within "@ + decimal(cfg.timeout_ms as nat) + "ms"@,
        ),
        OutcomeView::Unavailable(e) => verifier_failure(
            cfg,
            audit,
            reason::VERIFIER_UNAVAILABLE@,
            "verifier unreachable: "@ + e,
        ),
        OutcomeView::Malformed(e) => verifier_failure(
            cfg,
            audit,
            reason::VERIFIER_MALFORMED_RESPONSE@,
            "verifier protocol error: "@ + e,
        ),
    }
}

proof fn lemma_hex_is_lower(bytes: Seq<u8>)
    requires
        bytes.len() == 32,
    ensures
        is_lower_hex_32(hex(bytes)),
{
}

/// What the middleware hashed is what a verifier recomputes from the question.
pub proof fn lemma_question_is_consistent(
    cfg: ConfigView,
    ctx: RequestContextView,
    req: RequestView,
    received_at_unix_ms: i64,
)
    requires
        sha256(req.body).len() == 32,
        crh_v1(req.parts()).len() == 32,
    ensures
        recomputed_crh(question(cfg, ctx, req, received_at_unix_ms).request) == Some(
            hex(crh_v1(req.parts())),
        ),
{
    let d = question(cfg, ctx, req, received_at_unix_ms).request;
    lemma_hex_is_lower(sha256(req.body));
    lemma_hex_is_lower(crh_v1(req.parts()));
    lemma_unhex_hex(sha256(req.body));
    lemma_upper_idempotent(req.method);
    lemma_lower_idempotent(req.scheme);
    law_spelling_does_not_matter(d.parts(unhex(d.body_sha256)), req.parts());
}

impl ExtAuthzMiddleware {
    /// Header names are in lower case.
    #[verifier::type_invariant]
    closed spec fn normalized(self) -> bool {
        self.cfg@ == normalized_config(self.cfg@)
    }

    /// A middleware with the given configuration, its header names in lower case.
    pub fn new(cfg: ExtAuthzConfig) -> (res: Self)
        ensures
            res@ == normalized_config(cfg@),
            res@.verifier_url == cfg.verifier_url@,
            res@.mode == cfg.mode,
            res@.fail == cfg.fail,
            res@.timeout_ms == cfg.timeout_ms,
            res@.strip_token_header == cfg.strip_token_header,
            res@.max_body_bytes == cfg.max_body_bytes,
            res@.token_header == lower(cfg.token_header@),
            res@.forward_headers.len() == cfg.forward_headers@.len(),
            forall|i: int|
                0 <= i < cfg.forward_headers@.len() ==> (#[trigger] res@.forward_headers[i])
                    == lower(cfg.forward_headers@[i]@),
    {
        proof {
            law_normalizing_changes_the_case_of_names_only(cfg@);
            law_normalized_config_is_idempotent(cfg@);
        }
        ExtAuthzMiddleware { cfg: cfg.normalized() }
    }

    /// The configuration in force.
    pub fn config(&self) -> (res: &ExtAuthzConfig)
        ensures
            res@ == self@,
            self@ == normalized_config(self@),
    {
        proof {
            use_type_invariant(self);
        }
        &self.cfg
    }

    /// The middleware's name.
    pub fn name(&self) -> (res: &'static str)
        ensures
            res@ == "ext-authz"@,
    {
        "ext-authz"
    }

    /// Decide one request as far as that is possible without the verifier. The hash in the
    /// question is the one that a verifier recomputes from it.
    pub fn evaluate(
        &self,
        ctx: &RequestContext<'_>,
        req: &EgressRequest<'_>,
        ts_unix_ms: i64,
        received_at_unix_ms: i64,
    ) -> (res: Step)
        ensures
            self@ == normalized_config(self@),
            match (res, local_refusal(self@, req@)) {
                (Step::Done(decision, audit), Some((code, message))) => (decision@, audit@)
                    == local_deny(
                    self@,
                    opening_audit(self@, ctx@, req@, ts_unix_ms),
                    code,
                    message,
                ),
                (Step::Ask(wire, audit), None) => {
                    &&& wire@ == question(self@, ctx@, req@, received_at_unix_ms)
                    &&& audit@ == asking_audit(self@, ctx@, req@, ts_unix_ms)
                    &&& recomputed_crh(wire@.request) == Some(wire@.request.canonical_request_hash)
                },
                _ => false,
            },
    {
        proof {
            use_type_invariant(self);
        }
        let mut audit = AuditEvent {
            ts_unix_ms,
            middleware: "ext-authz",
            agent_id: ctx.agent_id.to_owned(),
            sandbox_id: ctx.sandbox_id.to_owned(),
            endpoint_rule: ctx.endpoint_rule.to_owned(),
            method: req.method.to_ascii_uppercase(),
            authority: req.authority.to_owned(),
            path: req.path.to_owned(),
            canonical_request_hash: None,
            decision: "deny",
            enforced: matches!(self.cfg.mode, Mode::Enforce),
            would_deny: false,
            reason_code: "".to_owned(),
            receipt_id: None,
            verifier_latency_ns: None,
            degraded: false,
        };

        // 1. Local preconditions (no verifier round trip needed to know the answer).
        let token = match find_token_header(req.headers, self.cfg.token_header.as_str()) {
            HeaderLookup::One(t) => t,
            HeaderLookup::Absent => {
                let mut message = "request carries no `".to_owned();
                message.append(self.cfg.token_header.as_str());
                message.append("` header");
                let (decision, audit) = self.resolve_local_deny(
                    audit,
                    reason::TOKEN_MISSING,
                    message,
                );
                return Step::Done(decision, audit);
            },
            HeaderLookup::Many => {
                // Duplicate credential headers are never legitimate: refuse rather than
                // first-match.
                let mut message = "request carries multiple `".to_owned();
                message.append(self.cfg.token_header.as_str());
                message.append("` headers; refusing to guess which to authorize");
                let (decision, audit) = self.resolve_local_deny(
                    audit,
                    reason::TOKEN_AMBIGUOUS,
                    message,
                );
                return Step::Done(decision, audit);
            },
        };
        if req.body.len() > self.cfg.max_body_bytes {
            let mut message = "body is ".to_owned();
            message.append(decimal_string(req.body.len() as u64).as_str());
            message.append(" bytes; max_body_bytes=");
            message.append(decimal_string(self.cfg.max_body_bytes as u64).as_str());
            message.append(" (intent binding requires hashing the body)");
            let (decision, audit) = self.resolve_local_deny(
                audit,
                reason::REQUEST_TOO_LARGE,
                message,
            );
            return Step::Done(decision, audit);
        }
        // 2. Bind to the bytes that egress.
        let body_sha = sha256_bytes(req.body);
        let parts = CanonicalRequestParts {
            method: req.method,
            scheme: req.scheme,
            authority: req.authority,
            path: req.path,
            query: req.query,
            body_sha256: body_sha,
        };
        assert(parts@ == req@.parts());
        let crh = canonical_request_hash(&parts);
        let crh_hex = hex_encode(&crh);
        audit.canonical_request_hash = Some(crh_hex.as_str().to_owned());

        // 3. One verifier round trip.
        let wire = AuthorizeRequest {
            version: WIRE_VERSION.to_owned(),
            request: RequestDescriptor {
                method: req.method.to_ascii_uppercase(),
                scheme: req.scheme.to_ascii_lowercase(),
                authority: req.authority.to_owned(),
                path: req.path.to_owned(),
                query: req.query.to_owned(),
                body_sha256: hex_encode(&body_sha),
                body_len: req.body.len() as u64,
                canonical_request_hash: crh_hex,
            },
            context: WireContext {
                agent_id: ctx.agent_id.to_owned(),
                on_behalf_of: opt_to_owned(ctx.on_behalf_of),
                agent_class: opt_to_owned(ctx.agent_class),
                sandbox_id: ctx.sandbox_id.to_owned(),
                sandbox_name: opt_to_owned(ctx.sandbox_name),
                endpoint_rule: ctx.endpoint_rule.to_owned(),
                policy_revision: opt_to_owned(ctx.policy_revision),
                request_id: opt_to_owned(ctx.request_id),
                received_at_unix_ms,
            },
            credentials: self.credentials(token, req),
        };
        proof {
            lemma_question_is_consistent(self@, ctx@, req@, received_at_unix_ms);
        }
        Step::Ask(wire, audit)
    }

    /// The credentials to forward with a request that carries exactly the one token.
    fn credentials(&self, token: &str, req: &EgressRequest<'_>) -> (res: Credentials)
        requires
            values_of(req@.headers, self@.token_header) == seq![token@],
        ensures
            res@ == forwarded(self@, req@),
    {
        let token_header = self.cfg.token_header.as_str();
        let mut res = Credentials::new();
        res.insert(token_header.to_owned(), token.to_owned());
        let ghost names = self@.forward_headers;
        let n: usize = self.cfg.forward_headers.len();
        let mut i: usize = 0;
        while i < n
            invariant
                n == self.cfg.forward_headers@.len(),
                i <= n,
                token_header@ == self@.token_header,
                names == texts(self.cfg.forward_headers@),
                values_of(req@.headers, self@.token_header) == seq![token@],
                forall|name: Seq<char>| #[trigger]
                    res@.contains_key(name) <==> name == self@.token_header || (names.take(
                        i as int,
                    ).contains(name) && values_of(req@.headers, name).len() > 0),
                forall|name: Seq<char>| #[trigger]
                    res@.contains_key(name) ==> res@[name] == values_of(req@.headers, name)[0],
            decreases n - i,
        {
            let name = self.cfg.forward_headers[i].as_str();
            let ghost before = names.take(i as int);
            let ghost now = names.take(i + 1);
            assert(now =~= before.push(name@));
            assert forall|other: Seq<char>| now.contains(other) <==> (before.contains(other)
                || other == name@) by {
                if before.contains(other) {
                    let j = choose|j: int| 0 <= j < before.len() && before[j] == other;
                    assert(now[j] == other);
                }
                assert(now[i as int] == name@);
            }
            if !str_eq(name, token_header) {
                if let Some(v) = find_header(req.headers, name) {
                    res.insert(name.to_owned(), v.to_owned());
                }
            }
            i += 1;
        }
        assert(names.take(n as int) =~= names);
        assert(res@ =~= forwarded(self@, req@));
        res
    }

    /// Decide on the outcome of asking the verifier, which took `latency_ns` nanoseconds.
    /// Every outcome resolves through the mode and fail policy into an explicit decision.
    pub fn resolve(&self, audit: AuditEvent, outcome: VerifierOutcome, latency_ns: u64) -> (res: (
        Decision,
        AuditEvent,
    ))
        ensures
            self@ == normalized_config(self@),
            (res.0@, res.1@) == resolution(self@, audit@, outcome@, latency_ns),
    {
        proof {
            use_type_invariant(self);
        }
        let mut audit = audit;
        audit.verifier_latency_ns = Some(latency_ns);
        match outcome {
            VerifierOutcome::Verdict(v) => {
                audit.reason_code = v.reason_code.as_str().to_owned();
                audit.receipt_id = match &v.receipt_id {
                    Some(id) => Some(id.as_str().to_owned()),
                    None => None,
                };
                match v.decision {
                    WireDecision::Allow => {
                        audit.decision = "allow";
                        (self.continue_decision(), audit)
                    },
                    WireDecision::Deny => self.resolve_verdict_deny(audit, v),
                }
            },
            VerifierOutcome::Timeout => {
                let mut message = "verifier did not answer within ".to_owned();
                message.append(decimal_string(self.cfg.timeout_ms).as_str());
                message.append("ms");
                self.resolve_verifier_failure(audit, reason::VERIFIER_TIMEOUT, message)
            },
            VerifierOutcome::Unavailable(e) => {
                let mut message = "verifier unreachable: ".to_owned();
                message.append(e.as_str());
                self.resolve_verifier_failure(audit, reason::VERIFIER_UNAVAILABLE, message)
            },
            VerifierOutcome::Malformed(e) => {
                let mut message = "verifier protocol error: ".to_owned();
                message.append(e.as_str());
                self.resolve_verifier_failure(
                    audit,
                    reason::VERIFIER_MALFORMED_RESPONSE,
                    message,
                )
            },
        }
    }

    fn continue_decision(&self) -> (res: Decision)
        ensures
            res@ == continuing(self@),
    {
        let mut strip_headers: Vec<String> = Vec::new();
        if self.cfg.strip_token_header {
            strip_headers.push(self.cfg.token_header.as_str().to_owned());
        }
        assert(texts(strip_headers@) =~= continuing(self@)->strip_headers);
        Decision::Continue { strip_headers }
    }

    /// A denial decided by the middleware itself, before any verifier round trip.
    fn resolve_local_deny(&self, audit: AuditEvent, code: &str, message: String) -> (res: (
        Decision,
        AuditEvent,
    ))
        ensures
            (res.0@, res.1@) == local_deny(self@, audit@, code@, message@),
    {
        let mut audit = audit;
        audit.reason_code = code.to_owned();
        match self.cfg.mode {
            Mode::Enforce => {
                audit.decision = "deny";
                (
                    Decision::Deny(
                        DenyVerdict {
                            http_status: 403,
                            reason_code: code.to_owned(),
                            message,
                            receipt_id: None,
                            evidence: text_field("source", "middleware-local"),
                        },
                    ),
                    audit,
                )
            },
            Mode::Observe => {
                audit.decision = "allow";
                audit.would_deny = true;
                (self.continue_decision(), audit)
            },
        }
    }

    /// A deny verdict returned by the verifier.
    fn resolve_verdict_deny(&self, audit: AuditEvent, v: AuthorizeResponse) -> (res: (
        Decision,
        AuditEvent,
    ))
        ensures
            (res.0@, res.1@) == verdict_deny(self@, audit@, v@),
    {
        let mut audit = audit;
        match self.cfg.mode {
            Mode::Enforce => {
                audit.decision = "deny";
                (
                    Decision::Deny(
                        DenyVerdict {
                            http_status: 403,
                            reason_code: v.reason_code,
                            message: match v.message {
                                Some(m) => m,
                                None => "denied by verifier".to_owned(),
                            },
                            receipt_id: v.receipt_id,
                            evidence: match v.evidence {
                                Some(e) => e,
                                None => empty_object(),
                            },
                        },
                    ),
                    audit,
                )
            },
            Mode::Observe => {
                audit.decision = "allow";
                audit.would_deny = true;
                (self.continue_decision(), audit)
            },
        }
    }

    /// The verifier gave no verdict, so the fail policy applies.
    fn resolve_verifier_failure(&self, audit: AuditEvent, code: &str, message: String) -> (res: (
        Decision,
        AuditEvent,
    ))
        ensures
            (res.0@, res.1@) == verifier_failure(self@, audit@, code@, message@),
    {
        let mut audit = audit;
        audit.reason_code = code.to_owned();
        audit.degraded = true;
        match (self.cfg.mode, self.cfg.fail) {
            (Mode::Enforce, FailPolicy::Closed) => {
                audit.decision = "deny";
                (
                    Decision::Deny(
                        DenyVerdict {
                            http_status: 503,
                            reason_code: code.to_owned(),
                            message,
                            receipt_id: None,
                            evidence: text_field("fail_policy", "closed"),
                        },
                    ),
                    audit,
                )
            },
            (Mode::Observe, FailPolicy::Closed) => {
                audit.decision = "allow";
                audit.would_deny = true;
                (self.continue_decision(), audit)
            },
            // Fail-open passes in either mode: nobody would have denied.
            (_, FailPolicy::Open) => {
                audit.decision = "allow";
                audit.would_deny = false;
                (self.continue_decision(), audit)
            },
        }
    }
}

/// The values of a header are found header by header: a single header gives its value where its
/// name is the one looked for up to ASCII case, and none else; two lists one after the other
/// give the values of the one and then those of the other.
pub proof fn law_header_values_are_found_one_by_one(
    h: (Seq<char>, Seq<char>),
    a: Seq<(Seq<char>, Seq<char>)>,
    b: Seq<(Seq<char>, Seq<char>)>,
    name: Seq<char>,
)
    ensures
        values_of(seq![], name).len() == 0,
        lower(h.0) == lower(name) ==> values_of(seq![h], name) == seq![h.1],
        lower(h.0) != lower(name) ==> values_of(seq![h], name).len() == 0,
        values_of(a + b, name) == values_of(a, name) + values_of(b, name),
    decreases a.len(),
{
    assert(seq![h].drop_first() =~= Seq::empty());
    reveal_with_fuel(values_of, 2);
    assert(lower(h.0) == lower(name) ==> values_of(seq![h], name) =~= seq![h.1]);
    if a.len() == 0 {
        assert(a + b =~= b);
        assert(values_of(a + b, name) =~= values_of(a, name) + values_of(b, name));
    } else {
        assert((a + b).drop_first() =~= a.drop_first() + b);
        law_header_values_are_found_one_by_one(h, a.drop_first(), b, name);
        assert(values_of(a + b, name) =~= values_of(a, name) + values_of(b, name));
    }
}

/// Which requests are refused without asking the verifier, and why: those that carry no token
/// header, those that carry more than one, and of the others those whose body is longer than
/// the limit, which is compared as it is. Any other is asked about.
pub proof fn law_which_requests_are_refused_locally(cfg: ConfigView, req: RequestView)
    ensures
        ({
            let tokens = values_of(req.headers, cfg.token_header).len();
            let refusal = local_refusal(cfg, req);
            let why = refusal->0;
            &&& refusal is None <==> tokens == 1 && req.body.len() <= cfg.max_body_bytes
            &&& tokens == 1 && req.body.len() > cfg.max_body_bytes ==> refusal is Some
                && why.0 == "REQUEST_TOO_LARGE"@ && why.1 == "body is "@ + decimal(
                req.body.len(),
            ) + " bytes; max_body_bytes="@ + decimal(cfg.max_body_bytes as nat)
                + " (intent binding requires hashing the body)"@
            &&& tokens == 0 ==> refusal is Some && why.0 == "TOKEN_MISSING"@
                && why.1 == "request carries no `"@ + cfg.token_header + "` header"@
            &&& tokens > 1 ==> refusal is Some && why.0 == "TOKEN_AMBIGUOUS"@
                && why.1 == "request carries multiple `"@ + cfg.token_header
                + "` headers; refusing to guess which to authorize"@
        }),
{
}

/// A longer body never makes up for a refusal, and a higher limit never causes one.
pub proof fn law_the_body_limit_is_monotone(
    cfg: ConfigView,
    req: RequestView,
    body: Seq<u8>,
    max_body_bytes: usize,
)
    requires
        local_refusal(cfg, req) is None,
        body.len() <= req.body.len(),
        cfg.max_body_bytes <= max_body_bytes,
    ensures
        local_refusal(
            (ConfigView { max_body_bytes, ..cfg }),
            (RequestView { body, ..req }),
        ) is None,
{
}

/// The audit opens with who acts on what, whether denials are enforced, and nothing decided;
/// what is asked about carries the request hash besides.
pub proof fn law_what_the_audit_opens_with(
    cfg: ConfigView,
    ctx: RequestContextView,
    req: RequestView,
    ts_unix_ms: i64,
)
    ensures
        ({
            let a = opening_audit(cfg, ctx, req, ts_unix_ms);
            &&& a.ts_unix_ms == ts_unix_ms
            &&& a.middleware == "ext-authz"@
            &&& a.agent_id == ctx.agent_id
            &&& a.sandbox_id == ctx.sandbox_id
            &&& a.endpoint_rule == ctx.endpoint_rule
            &&& a.method == upper(req.method)
            &&& a.authority == req.authority
            &&& a.path == req.path
            &&& a.canonical_request_hash is None
            &&& a.decision == "deny"@
            &&& a.enforced == (cfg.mode == Mode::Enforce)
            &&& !a.would_deny
            &&& a.reason_code == ""@
            &&& a.receipt_id is None
            &&& a.verifier_latency_ns is None
            &&& !a.degraded
            &&& asking_audit(cfg, ctx, req, ts_unix_ms) == (AuditView {
                canonical_request_hash: Some(
                    hex(
                        crh_v1(
                            (PartsView {
                                method: req.method,
                                scheme: req.scheme,
                                authority: req.authority,
                                path: req.path,
                                query: req.query,
                                body_sha256: sha256(req.body),
                            }),
                        ),
                    ),
                ),
                ..a
            })
        }),
{
}

/// The question describes the request as it will egress, in the context that was attested: the
/// method in upper case and the scheme in lower case, everything else as it is, the body by its
/// digest and length only.
pub proof fn law_the_question_describes_the_request(
    cfg: ConfigView,
    ctx: RequestContextView,
    req: RequestView,
    received_at_unix_ms: i64,
)
    ensures
        ({
            let q = question(cfg, ctx, req, received_at_unix_ms);
            &&& q.version == "1"@
            &&& q.request.method == upper(req.method)
            &&& q.request.scheme == lower(req.scheme)
            &&& q.request.authority == req.authority
            &&& q.request.path == req.path
            &&& q.request.query == req.query
            &&& q.request.body_sha256 == hex(sha256(req.body))
            &&& q.request.body_len == req.body.len() as u64
            &&& q.request.canonical_request_hash == hex(
                crh_v1(
                    (PartsView {
                        method: req.method,
                        scheme: req.scheme,
                        authority: req.authority,
                        path: req.path,
                        query: req.query,
                        body_sha256: sha256(req.body),
                    }),
                ),
            )
            &&& q.context.agent_id == ctx.agent_id
            &&& q.context.on_behalf_of == ctx.on_behalf_of
            &&& q.context.agent_class == ctx.agent_class
            &&& q.context.sandbox_id == ctx.sandbox_id
            &&& q.context.sandbox_name == ctx.sandbox_name
            &&& q.context.endpoint_rule == ctx.endpoint_rule
            &&& q.context.policy_revision == ctx.policy_revision
            &&& q.context.request_id == ctx.request_id
            &&& q.context.received_at_unix_ms == received_at_unix_ms
            &&& forall|name: Seq<char>| #[trigger]
                q.credentials.contains_key(name) <==> name == cfg.token_header || (exists|i: int|
                    0 <= i < cfg.forward_headers.len() && cfg.forward_headers[i] == name)
                    && values_of(req.headers, name).len() > 0
            &&& forall|name: Seq<char>| #[trigger]
                q.credentials.contains_key(name) ==> q.credentials[name] == values_of(
                    req.headers,
                    name,
                )[0]
        }),
{
}

/// A failure is named by its kind, the first that applies: timeout, connection, decoding,
/// status, body, or any other.
pub proof fn law_a_failure_is_named_by_its_kind(e: TransportError)
    ensures
        e.timeout ==> redacted(e) == "timeout"@,
        !e.timeout && e.connect ==> redacted(e) == "connect error"@,
        !e.timeout && !e.connect && e.decode ==> redacted(e) == "decode error"@,
        !e.timeout && !e.connect && !e.decode && e.status is Some ==> redacted(e)
            == "http status "@ + e.status->0@,
        !e.timeout && !e.connect && !e.decode && e.status is None && e.body ==> redacted(e)
            == "body error"@,
        !e.timeout && !e.connect && !e.decode && e.status is None && !e.body ==> redacted(e)
            == "request error"@,
{
}

/// No failure counts as a verdict. A call without a response is a timeout or an unreachable
/// verifier, a status other than 200 is a protocol error whatever the body, and a 200 without a
/// readable body is a timeout or a protocol error. Only status 200 leaves it to the body.
pub proof fn law_no_failure_is_a_verdict(e: TransportError, code: u16, text: Seq<char>)
    ensures
        unsent(e) is Timeout <==> e.timeout,
        !e.timeout ==> unsent(e) == OutcomeView::Unavailable(redacted(e)),
        unread(e) is Timeout <==> e.timeout,
        !e.timeout ==> unread(e) == OutcomeView::Malformed(redacted(e)),
        answered(code, text) is None <==> code == 200,
        code != 200 ==> answered(code, text) == Some(
            OutcomeView::Malformed("http status "@ + text),
        ),
{
}

/// The views of the middleware's types show every field.
pub proof fn law_middleware_types_show_every_field(
    c: RequestContext<'_>,
    r: EgressRequest<'_>,
    v: DenyVerdict,
    names: Vec<String>,
    a: AuditEvent,
    answer: AuthorizeResponse,
    e: String,
)
    ensures
        c@.agent_id == c.agent_id@,
        c@.on_behalf_of == opt_str_text(c.on_behalf_of),
        c@.agent_class == opt_str_text(c.agent_class),
        c@.sandbox_id == c.sandbox_id@,
        c@.sandbox_name == opt_str_text(c.sandbox_name),
        c@.endpoint_rule == c.endpoint_rule@,
        c@.policy_revision == opt_str_text(c.policy_revision),
        c@.request_id == opt_str_text(c.request_id),
        r@.method == r.method@,
        r@.scheme == r.scheme@,
        r@.authority == r.authority@,
        r@.path == r.path@,
        r@.query == r.query@,
        r@.body == r.body@,
        r@.headers.len() == r.headers@.len(),
        forall|i: int|
            0 <= i < r.headers@.len() ==> (#[trigger] r@.headers[i]) == (
                r.headers@[i].0@,
                r.headers@[i].1@,
            ),
        v@.http_status == v.http_status,
        v@.reason_code == v.reason_code@,
        v@.message == v.message@,
        v@.receipt_id == opt_text(v.receipt_id),
        v@.evidence == v.evidence@,
        Decision::Deny(v)@ == DecisionView::Deny(v@),
        (Decision::Continue { strip_headers: names })@ == (DecisionView::Continue {
            strip_headers: texts(names@),
        }),
        a@.ts_unix_ms == a.ts_unix_ms,
        a@.middleware == a.middleware@,
        a@.agent_id == a.agent_id@,
        a@.sandbox_id == a.sandbox_id@,
        a@.endpoint_rule == a.endpoint_rule@,
        a@.method == a.method@,
        a@.authority == a.authority@,
        a@.path == a.path@,
        a@.canonical_request_hash == opt_text(a.canonical_request_hash),
        a@.decision == a.decision@,
        a@.enforced == a.enforced,
        a@.would_deny == a.would_deny,
        a@.reason_code == a.reason_code@,
        a@.receipt_id == opt_text(a.receipt_id),
        a@.verifier_latency_ns == a.verifier_latency_ns,
        a@.degraded == a.degraded,
        VerifierOutcome::Verdict(answer)@ == OutcomeView::Verdict(answer@),
        VerifierOutcome::Timeout@ == OutcomeView::Timeout,
        VerifierOutcome::Unavailable(e)@ == OutcomeView::Unavailable(e@),
        VerifierOutcome::Malformed(e)@ == OutcomeView::Malformed(e@),
{
}

/// The first of some values is the one in front, where there is any.
pub proof fn law_the_first_value_is_in_front(v: Seq<char>, rest: Seq<Seq<char>>)
    ensures
        first(seq![v] + rest) == Some(v),
        first(Seq::empty()) is None,
{
}

} // verus!
