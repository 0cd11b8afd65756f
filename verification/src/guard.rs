//! A per-action verifier ("guard service").
//!
//! It runs a short cascade over the per-action token. Steps, in order:
//!
//! 1. signature (HMAC): `TOKEN_SIGNATURE_INVALID` / `TOKEN_MALFORMED`
//! 2. wire version: `UNSUPPORTED_VERSION`
//! 3. expiry: `TOKEN_EXPIRED`
//! 4. descriptor canonicalization and crh recompute: `DESCRIPTOR_MALFORMED` / `CRH_MISMATCH`
//! 5. principal binding, the DURABLE AGENT (not revoked, and its on-behalf-of human):
//!    `AGENT_MISMATCH` / `AGENT_REVOKED`
//! 6. workload constraint (optional): `WORKLOAD_MISMATCH`
//! 7. coarse scope (method / authority / path prefix): `INTENT_MISMATCH`
//! 8. exact intent (crh binding, when the token carries one): `INTENT_MISMATCH`
//! 9. single-use jti consumption: `TOKEN_REPLAYED`
//!
//! If every step passes: ALLOW (`OK`) and a receipt id. The jti is consumed last, so a forged,
//! stale, or out-of-scope token can't burn a victim's nonce.

use vstd::hash_set::StringHashSet;
use vstd::prelude::*;
use vstd::string::StringExecFns;

use crate::config::DEFAULT_TOKEN_HEADER;
use crate::evidence::{fields_view, object, text, text_field, with_field, Evidence, EvidenceView};
use crate::hash::{
    canonical, canonical_request_hash, crh_v1, effective_path, law_fields_are_unambiguous,
    lengths_fit, normalize_authority, normalized_authority, preimage, CanonicalRequestParts,
    PartsView,
};
use crate::primitives::{
    hex, hex_decode_32, hex_encode, is_lower_hex_digit, lemma_hex_unhex, lemma_unhex_hex, sha256,
    unhex,
};
use crate::text::{ends_with, lower, opt_text, starts_with, str_eq};
use crate::token::{token_claims, verify, Claims, ClaimsView, ScopeView, VerifyError};
use crate::types::{
    reason, AuthorizeRequest, AuthorizeRequestView, AuthorizeResponse, Decision, DescriptorView,
    ResponseView, WIRE_VERSION,
};

verus! {

/// What the verifier remembers.
pub struct VerifierState {
    pub key: Vec<u8>,
    /// Nonces that were consumed.
    pub seen_jti: StringHashSet,
    /// Revoked durable agent principals. Keyed on the AGENT, so revocation applies across
    /// every sandbox the agent runs in.
    pub revoked_agents: StringHashSet,
}

/// The view of [`VerifierState`].
#[verifier::ext_equal]
pub struct StateView {
    pub key: Seq<u8>,
    pub seen_jti: Set<Seq<char>>,
    pub revoked_agents: Set<Seq<char>>,
}

impl View for VerifierState {
    type V = StateView;

    open spec fn view(&self) -> StateView {
        StateView {
            key: self.key@,
            seen_jti: self.seen_jti@,
            revoked_agents: self.revoked_agents@,
        }
    }
}

/// Whether a text is 32 bytes in lower-case hexadecimal.
pub open spec fn is_lower_hex_32(s: Seq<char>) -> bool {
    s.len() == 64 && forall|i: int| 0 <= i < 64 ==> is_lower_hex_digit(#[trigger] s[i])
}

/// The `crh_v1` hex of a descriptor, or `None` where its hashes are not lower-case 32-byte hex.
pub open spec fn recomputed_crh(d: DescriptorView) -> Option<Seq<char>> {
    if is_lower_hex_32(d.body_sha256) && is_lower_hex_32(d.canonical_request_hash) {
        Some(hex(crh_v1(d.parts(unhex(d.body_sha256)))))
    } else {
        None
    }
}

/// Whether a request target lies at the scope's authority, up to case and default port.
pub open spec fn authority_matches(
    request_scheme: Seq<char>,
    request_authority: Seq<char>,
    scope_authority: Seq<char>,
) -> bool {
    normalized_authority(lower(request_scheme), request_authority) == normalized_authority(
        lower(request_scheme),
        scope_authority,
    )
}

/// `prefix` with a slash at its end.
pub open spec fn with_slash(prefix: Seq<char>) -> Seq<char> {
    if prefix.len() > 0 && prefix.last() == '/' {
        prefix
    } else {
        prefix.push('/')
    }
}

/// Whether a path is the prefix itself or lies below it, segment by segment. An empty path or
/// prefix means the root.
pub open spec fn path_matches(request_path: Seq<char>, scope_prefix: Seq<char>) -> bool {
    let path = effective_path(request_path);
    let prefix = effective_path(scope_prefix);
    path == prefix || with_slash(prefix).is_prefix_of(path)
}

/// Whether a described request lies in a token's coarse scope.
pub open spec fn in_scope(d: DescriptorView, s: ScopeView) -> bool {
    &&& lower(s.method) == lower(d.method)
    &&& authority_matches(d.scheme, d.authority, s.authority)
    &&& path_matches(d.path, s.path_prefix)
}

/// The reason code and message with which authenticated claims are refused, by the first step
/// of the cascade that fails; `None` where every step passes.
pub open spec fn policy_refusal(
    st: StateView,
    req: AuthorizeRequestView,
    claims: ClaimsView,
    now_ms: i64,
) -> Option<(Seq<char>, Seq<char>)> {
    if req.version != WIRE_VERSION@ {
        Some((reason::UNSUPPORTED_VERSION@, "unsupported wire-contract version"@))
    } else if now_ms > claims.exp_unix_ms {
        Some((reason::TOKEN_EXPIRED@, "token exp in the past"@))
    } else if recomputed_crh(req.request) is None {
        Some((reason::DESCRIPTOR_MALFORMED@, "descriptor hashes are not lowercase 32-byte hex"@))
    } else if recomputed_crh(req.request) != Some(req.request.canonical_request_hash) {
        Some((reason::CRH_MISMATCH@, "descriptor does not hash to the sent crh"@))
    } else if claims.agent_id != req.context.agent_id {
        Some((reason::AGENT_MISMATCH@, "token agent != acting agent"@))
    } else if st.revoked_agents.contains(claims.agent_id) {
        Some((reason::AGENT_REVOKED@, "agent principal has been revoked"@))
    } else if claims.on_behalf_of is Some && req.context.on_behalf_of != claims.on_behalf_of {
        Some((reason::AGENT_MISMATCH@, "token on-behalf-of != acting on-behalf-of"@))
    } else if claims.workload_selector is Some && !claims.workload_selector->0.is_prefix_of(
        req.context.sandbox_id,
    ) {
        Some((reason::WORKLOAD_MISMATCH@, "acting sandbox outside token workload selector"@))
    } else if !in_scope(req.request, claims.scope) {
        Some((reason::INTENT_MISMATCH@, "request outside token scope"@))
    } else if claims.crh is Some && claims.crh->0 != req.request.canonical_request_hash {
        Some((reason::INTENT_MISMATCH@, "request crh != token-bound crh"@))
    } else if st.seen_jti.contains(claims.jti) {
        Some((reason::TOKEN_REPLAYED@, "jti already consumed"@))
    } else {
        None
    }
}

/// The claims encoding that a request's token carries, or the reason code and message with
/// which the request is refused for want of one.
pub open spec fn opened_token(
    key: Seq<u8>,
    credentials: Map<Seq<char>, Seq<char>>,
) -> Result<Seq<u8>, (Seq<char>, Seq<char>)> {
    if !credentials.contains_key(DEFAULT_TOKEN_HEADER@) {
        Err((reason::TOKEN_MALFORMED@, "no token in credentials"@))
    } else {
        match token_claims(credentials[DEFAULT_TOKEN_HEADER@], key) {
            Ok(body) => Ok(body),
            Err(VerifyError::BadSignature) => Err(
                (reason::TOKEN_SIGNATURE_INVALID@, "HMAC mismatch"@),
            ),
            Err(VerifyError::Malformed) => Err((reason::TOKEN_MALFORMED@, "undecodable token"@)),
        }
    }
}

/// The reason code and message with which a request is refused; `None` where it is allowed.
/// `claims` is what the authenticated token decodes to.
pub open spec fn refusal(
    st: StateView,
    req: AuthorizeRequestView,
    claims: Option<ClaimsView>,
    now_ms: i64,
) -> Option<(Seq<char>, Seq<char>)> {
    match (opened_token(st.key, req.credentials), claims) {
        (Err(why), _) => Some(why),
        (Ok(_), None) => Some((reason::TOKEN_MALFORMED@, "undecodable token"@)),
        (Ok(_), Some(c)) => policy_refusal(st, req, c, now_ms),
    }
}

/// A deny verdict.
pub open spec fn deny_response(code: Seq<char>, msg: Seq<char>) -> ResponseView {
    ResponseView {
        decision: Decision::Deny,
        reason_code: code,
        message: Some(msg),
        receipt_id: None,
        evidence: Some(
            EvidenceView::Object(seq![("verifier"@, EvidenceView::Text("demo"@))]),
        ),
    }
}

/// The evidence that goes with ALLOW, namely whom it was granted to, whether the grant is bound
/// to this request's crh (`exact`) or to the scope only (`coarse`), and the scope.
pub open spec fn grant_evidence(claims: ClaimsView) -> EvidenceView {
    EvidenceView::Object(
        seq![
            ("verifier"@, EvidenceView::Text("demo"@)),
            ("agent_id"@, EvidenceView::Text(claims.agent_id)),
            (
                "binding"@,
                EvidenceView::Text(
                    if claims.crh is Some {
                        "exact"@
                    } else {
                        "coarse"@
                    },
                ),
            ),
            (
                "bound_crh"@,
                match claims.crh {
                    Some(crh) => EvidenceView::Text(crh),
                    None => EvidenceView::Null,
                },
            ),
            (
                "scope"@,
                EvidenceView::Object(
                    seq![
                        ("method"@, EvidenceView::Text(claims.scope.method)),
                        ("authority"@, EvidenceView::Text(claims.scope.authority)),
                    ],
                ),
            ),
        ],
    )
}

/// An allow verdict.
pub open spec fn allow_response(claims: ClaimsView) -> ResponseView {
    ResponseView {
        decision: Decision::Allow,
        reason_code: reason::OK@,
        message: None,
        receipt_id: Some("rcpt-"@ + claims.jti),
        evidence: Some(grant_evidence(claims)),
    }
}

/// The verdict on a request.
pub open spec fn verdict(
    st: StateView,
    req: AuthorizeRequestView,
    claims: Option<ClaimsView>,
    now_ms: i64,
) -> ResponseView {
    match refusal(st, req, claims, now_ms) {
        Some((code, msg)) => deny_response(code, msg),
        None => allow_response(claims->0),
    }
}

/// The state after a request: an allowed one consumes its nonce, any other changes nothing.
pub open spec fn after(
    st: StateView,
    req: AuthorizeRequestView,
    claims: Option<ClaimsView>,
    now_ms: i64,
) -> StateView {
    if refusal(st, req, claims, now_ms) is None {
        StateView { seen_jti: st.seen_jti.insert(claims->0.jti), ..st }
    } else {
        st
    }
}

fn deny(code: &str, msg: &str) -> (res: AuthorizeResponse)
    ensures
        res@ == deny_response(code@, msg@),
{
    AuthorizeResponse {
        decision: Decision::Deny,
        reason_code: code.to_owned(),
        message: Some(msg.to_owned()),
        receipt_id: None,
        evidence: Some(text_field("verifier", "demo")),
    }
}

fn grant(claims: &Claims) -> (res: Evidence)
    ensures
        res@ == grant_evidence(claims@),
{
    let none: Vec<(String, Evidence)> = Vec::new();
    let scope = with_field(none, "method", text(claims.scope.method.as_str()));
    let scope = with_field(scope, "authority", text(claims.scope.authority.as_str()));
    assert(fields_view(scope@) =~= seq![
        ("method"@, EvidenceView::Text(claims@.scope.method)),
        ("authority"@, EvidenceView::Text(claims@.scope.authority)),
    ]);
    let binding: &str = if claims.crh.is_some() {
        "exact"
    } else {
        "coarse"
    };
    let bound_crh = match &claims.crh {
        Some(crh) => text(crh.as_str()),
        None => Evidence::Null,
    };
    let none: Vec<(String, Evidence)> = Vec::new();
    let fields = with_field(none, "verifier", text("demo"));
    let fields = with_field(fields, "agent_id", text(claims.agent_id.as_str()));
    let fields = with_field(fields, "binding", text(binding));
    let fields = with_field(fields, "bound_crh", bound_crh);
    let fields = with_field(fields, "scope", object(scope));
    assert(fields_view(fields@) =~= grant_evidence(claims@)->Object_0);
    object(fields)
}

/// Canonicalize the descriptor and return its `crh_v1` hex, or `None` if the descriptor
/// cannot be canonicalized. Returning `None` rather than a sentinel string keeps a malformed
/// descriptor out of the hash value space.
pub fn recompute_crh(req: &AuthorizeRequest) -> (res: Option<String>)
    ensures
        opt_text(res) == recomputed_crh(req.request@),
{
    let body = match decode_lower_hex_32(req.request.body_sha256.as_str()) {
        Some(bytes) => bytes,
        None => return None,
    };
    if decode_lower_hex_32(req.request.canonical_request_hash.as_str()).is_none() {
        return None;
    }
    let parts = CanonicalRequestParts {
        method: req.request.method.as_str(),
        scheme: req.request.scheme.as_str(),
        authority: req.request.authority.as_str(),
        path: req.request.path.as_str(),
        query: req.request.query.as_str(),
        body_sha256: body,
    };
    assert(parts@ == req.request@.parts(unhex(req.request@.body_sha256)));
    let crh = canonical_request_hash(&parts);
    Some(hex_encode(&crh))
}

/// 32 bytes from their lower-case hexadecimal form, and from no other spelling.
pub fn decode_lower_hex_32(s: &str) -> (res: Option<[u8; 32]>)
    ensures
        match res {
            Some(bytes) => is_lower_hex_32(s@) && bytes@ == unhex(s@) && s@ == hex(bytes@),
            None => !is_lower_hex_32(s@),
        },
{
    match hex_decode_32(s) {
        Some(out) => {
            proof {
                lemma_hex_unhex(s@);
            }
            let again = hex_encode(&out);
            if str_eq(again.as_str(), s) {
                Some(out)
            } else {
                None
            }
        },
        None => None,
    }
}

/// Whether a request target lies at the scope's authority, up to case and default port.
pub fn authority_in_scope(
    request_scheme: &str,
    request_authority: &str,
    scope_authority: &str,
) -> (res: bool)
    ensures
        res == authority_matches(request_scheme@, request_authority@, scope_authority@),
{
    let scheme = request_scheme.to_ascii_lowercase();
    let a = normalize_authority(scheme.as_str(), request_authority);
    let b = normalize_authority(scheme.as_str(), scope_authority);
    str_eq(a.as_str(), b.as_str())
}

/// Whether a path is the scope prefix itself or lies below it, segment by segment.
pub fn path_in_scope(request_path: &str, scope_prefix: &str) -> (res: bool)
    ensures
        res == path_matches(request_path@, scope_prefix@),
{
    let path: &str = if request_path.is_empty() {
        "/"
    } else {
        request_path
    };
    let prefix: &str = if scope_prefix.is_empty() {
        "/"
    } else {
        scope_prefix
    };
    proof {
        reveal_strlit("/");
        if "/"@.is_suffix_of(prefix@) {
            assert("/"@[0] == prefix@.subrange(prefix@.len() - 1, prefix@.len() as int)[0]);
        } else if prefix@.len() > 0 && prefix@.last() == '/' {
            assert("/"@ =~= prefix@.subrange(prefix@.len() - 1, prefix@.len() as int));
        }
    }
    if str_eq(path, prefix) {
        return true;
    }
    if ends_with(prefix, "/") {
        starts_with(path, prefix)
    } else {
        let mut base = prefix.to_owned();
        base.append("/");
        assert(base@ =~= with_slash(prefix@));
        starts_with(path, base.as_str())
    }
}

impl VerifierState {
    /// A verifier with the given HMAC key that has consumed and revoked nothing.
    pub fn new(key: Vec<u8>) -> (res: Self)
        ensures
            res@ == (StateView {
                key: key@,
                seen_jti: Set::empty(),
                revoked_agents: Set::empty(),
            }),
    {
        VerifierState {
            key,
            seen_jti: StringHashSet::new(),
            revoked_agents: StringHashSet::new(),
        }
    }

    /// Revoke a durable agent principal.
    pub fn revoke_agent(&mut self, agent_id: &str)
        ensures
            final(self)@ == (StateView {
                revoked_agents: old(self)@.revoked_agents.insert(agent_id@),
                ..old(self)@
            }),
            final(self)@ == step(old(self)@, Event::Revoke(agent_id@)),
    {
        self.revoked_agents.insert(agent_id.to_owned());
    }

    /// Find the request's token under the default token header and check its MAC. Returns the
    /// claims encoding to decode, or the deny verdict.
    pub fn open_token(&self, req: &AuthorizeRequest) -> (res: Result<Vec<u8>, AuthorizeResponse>)
        ensures
            match (res, opened_token(self@.key, req@.credentials)) {
                (Ok(body), Ok(claims)) => body@ == claims,
                (Err(resp), Err((code, msg))) => resp@ == deny_response(code, msg),
                _ => false,
            },
    {
        let token = match req.credentials.get(DEFAULT_TOKEN_HEADER) {
            Some(t) => t,
            None => return Err(deny(reason::TOKEN_MALFORMED, "no token in credentials")),
        };
        match verify(token.as_str(), self.key.as_slice()) {
            Ok(body) => Ok(body),
            Err(VerifyError::BadSignature) => Err(
                deny(reason::TOKEN_SIGNATURE_INVALID, "HMAC mismatch"),
            ),
            Err(VerifyError::Malformed) => Err(deny(reason::TOKEN_MALFORMED, "undecodable token")),
        }
    }

    /// Decide one request. `claims` is what the claims encoding of [`Self::open_token`] decodes
    /// to, `None` where it does not decode (or there is none).
    pub fn authorize(&mut self, req: &AuthorizeRequest, claims: Option<Claims>, now_ms: i64) -> (res:
        AuthorizeResponse)
        ensures
            ({
                let c = match claims {
                    Some(c) => Some(c@),
                    None => None,
                };
                &&& res@ == verdict(old(self)@, req@, c, now_ms)
                &&& final(self)@ == after(old(self)@, req@, c, now_ms)
                &&& final(self)@ == step(old(self)@, Event::Authorize(req@, c, now_ms))
            }),
            res.decision == Decision::Allow ==> claims is Some && lower(claims->0.scope.method@)
                == lower(req.request.method@) && !old(self)@.seen_jti.contains(claims->0.jti@)
                && final(self)@.seen_jti.contains(claims->0.jti@),
            res.decision == Decision::Deny ==> final(self)@ == old(self)@,
    {
        // 1. signature
        if let Err(resp) = self.open_token(req) {
            return resp;
        }
        let claims = match claims {
            Some(c) => c,
            None => return deny(reason::TOKEN_MALFORMED, "undecodable token"),
        };
        // 2. wire version
        if !str_eq(req.version.as_str(), WIRE_VERSION) {
            return deny(reason::UNSUPPORTED_VERSION, "unsupported wire-contract version");
        }
        // 3. expiry
        if now_ms > claims.exp_unix_ms {
            return deny(reason::TOKEN_EXPIRED, "token exp in the past");
        }
        // 4. descriptor canonicalization + crh recompute
        match recompute_crh(req) {
            None => {
                return deny(
                    reason::DESCRIPTOR_MALFORMED,
                    "descriptor hashes are not lowercase 32-byte hex",
                );
            },
            Some(h) => {
                if !str_eq(h.as_str(), req.request.canonical_request_hash.as_str()) {
                    return deny(reason::CRH_MISMATCH, "descriptor does not hash to the sent crh");
                }
            },
        }
        // 5. principal binding: the durable agent, not the ephemeral sandbox
        if !str_eq(claims.agent_id.as_str(), req.context.agent_id.as_str()) {
            return deny(reason::AGENT_MISMATCH, "token agent != acting agent");
        }
        if self.revoked_agents.contains(claims.agent_id.as_str()) {
            return deny(reason::AGENT_REVOKED, "agent principal has been revoked");
        }
        if let Some(obo) = &claims.on_behalf_of {
            let acting_for: bool = match &req.context.on_behalf_of {
                Some(acting) => str_eq(acting.as_str(), obo.as_str()),
                None => false,
            };
            if !acting_for {
                return deny(reason::AGENT_MISMATCH, "token on-behalf-of != acting on-behalf-of");
            }
        }
        // 6. workload constraint (optional)
        if let Some(sel) = &claims.workload_selector {
            if !starts_with(req.context.sandbox_id.as_str(), sel.as_str()) {
                return deny(
                    reason::WORKLOAD_MISMATCH,
                    "acting sandbox outside token workload selector",
                );
            }
        }
        // 7. coarse scope (method, authority, path prefix)
        if !claims.scope.method.as_str().eq_ignore_ascii_case(req.request.method.as_str())
            || !authority_in_scope(
            req.request.scheme.as_str(),
            req.request.authority.as_str(),
            claims.scope.authority.as_str(),
        ) || !path_in_scope(req.request.path.as_str(), claims.scope.path_prefix.as_str()) {
            return deny(reason::INTENT_MISMATCH, "request outside token scope");
        }
        // 8. exact intent (crh binding, when the token carries one)
        if let Some(bound) = &claims.crh {
            if !str_eq(bound.as_str(), req.request.canonical_request_hash.as_str()) {
                return deny(reason::INTENT_MISMATCH, "request crh != token-bound crh");
            }
        }
        // 9. single-use consumption, only after everything else passes
        if !self.seen_jti.insert(claims.jti.clone()) {
            assert(old(self)@.seen_jti.insert(claims@.jti) =~= old(self)@.seen_jti);
            return deny(reason::TOKEN_REPLAYED, "jti already consumed");
        }
        let mut receipt = "rcpt-".to_owned();
        receipt.append(claims.jti.as_str());
        AuthorizeResponse {
            decision: Decision::Allow,
            reason_code: reason::OK.to_owned(),
            message: None,
            receipt_id: Some(receipt),
            evidence: Some(grant(&claims)),
        }
    }
}

/// What can happen to a verifier.
pub enum Event {
    /// A request is decided, with what its token decodes to and the time.
    Authorize(AuthorizeRequestView, Option<ClaimsView>, i64),
    /// An agent is revoked.
    Revoke(Seq<char>),
}

/// The state after one event.
pub open spec fn step(st: StateView, event: Event) -> StateView {
    match event {
        Event::Authorize(req, claims, now_ms) => after(st, req, claims, now_ms),
        Event::Revoke(agent_id) => StateView {
            revoked_agents: st.revoked_agents.insert(agent_id),
            ..st
        },
    }
}

/// The state after a history of events.
pub open spec fn run(st: StateView, events: Seq<Event>) -> StateView
    decreases events.len(),
{
    if events.len() == 0 {
        st
    } else {
        step(run(st, events.drop_last()), events.last())
    }
}

/// Whether an event is a request that the state allows.
pub open spec fn allows(st: StateView, event: Event) -> bool {
    match event {
        Event::Authorize(req, claims, now_ms) => verdict(st, req, claims, now_ms).decision
            == Decision::Allow,
        Event::Revoke(_) => false,
    }
}

/// The claims that an event was decided on.
pub open spec fn claims_of(event: Event) -> Option<ClaimsView> {
    match event {
        Event::Authorize(_, claims, _) => claims,
        Event::Revoke(_) => None,
    }
}

proof fn lemma_history_only_grows(st: StateView, events: Seq<Event>, i: int, j: int)
    requires
        0 <= i <= j <= events.len(),
    ensures
        run(st, events.take(i)).key == run(st, events.take(j)).key,
        run(st, events.take(i)).seen_jti.subset_of(run(st, events.take(j)).seen_jti),
        run(st, events.take(i)).revoked_agents.subset_of(run(st, events.take(j)).revoked_agents),
    decreases j,
{
    if i < j {
        lemma_history_only_grows(st, events, i, j - 1);
        assert(events.take(j).drop_last() =~= events.take(j - 1));
    }
}

/// A token is single-use: over any history, a nonce is allowed at most once, whatever else
/// the requests that present it hold.
pub proof fn law_a_nonce_is_allowed_at_most_once(
    st: StateView,
    events: Seq<Event>,
    i: int,
    j: int,
)
    requires
        0 <= i < j < events.len(),
        allows(run(st, events.take(i)), events[i]),
        allows(run(st, events.take(j)), events[j]),
    ensures
        claims_of(events[i])->0.jti != claims_of(events[j])->0.jti,
{
    lemma_history_only_grows(st, events, i + 1, j);
    assert(events.take(i + 1).drop_last() =~= events.take(i));
}

/// Presenting an allowed request again is answered `TOKEN_REPLAYED`, at any time until the token
/// expires.
pub proof fn law_a_repeated_request_is_a_replay(
    st: StateView,
    req: AuthorizeRequestView,
    claims: ClaimsView,
    now_ms: i64,
    later_ms: i64,
)
    requires
        verdict(st, req, Some(claims), now_ms).decision == Decision::Allow,
        later_ms <= claims.exp_unix_ms,
    ensures
        verdict(after(st, req, Some(claims), now_ms), req, Some(claims), later_ms)
            == deny_response(reason::TOKEN_REPLAYED@, "jti already consumed"@),
{
}

/// A refused request consumes nothing: a forged, stale or out-of-scope token can't burn a
/// victim's nonce.
pub proof fn law_a_refusal_changes_nothing(
    st: StateView,
    req: AuthorizeRequestView,
    claims: Option<ClaimsView>,
    now_ms: i64,
)
    requires
        verdict(st, req, claims, now_ms).decision == Decision::Deny,
    ensures
        after(st, req, claims, now_ms) == st,
{
}

/// Revocation is keyed on the agent and lasts: after it, no request is allowed on that agent's
/// tokens or by that agent, from any sandbox.
pub proof fn law_a_revoked_agent_is_never_allowed(
    st: StateView,
    events: Seq<Event>,
    i: int,
    j: int,
)
    requires
        0 <= i < j < events.len(),
        events[i] is Revoke,
        allows(run(st, events.take(j)), events[j]),
    ensures
        claims_of(events[j])->0.agent_id != events[i]->Revoke_0,
        (events[j]->Authorize_0).context.agent_id != events[i]->Revoke_0,
{
    lemma_history_only_grows(st, events, i + 1, j);
    assert(events.take(i + 1).drop_last() =~= events.take(i));
}

/// The sandbox is context, not the principal: for a token without a workload selector the
/// verdict and what is remembered are the same in every sandbox, so a grant follows the agent
/// across respawns. Of the rest of the context only the agent and its human count, and the
/// advisory body length counts for nothing.
pub proof fn law_the_grant_follows_the_agent(
    st: StateView,
    req: AuthorizeRequestView,
    other: AuthorizeRequestView,
    claims: ClaimsView,
    now_ms: i64,
)
    requires
        claims.workload_selector is None,
        other.version == req.version,
        other.request == (DescriptorView { body_len: other.request.body_len, ..req.request }),
        other.credentials == req.credentials,
        other.context.agent_id == req.context.agent_id,
        other.context.on_behalf_of == req.context.on_behalf_of,
    ensures
        verdict(st, other, Some(claims), now_ms) == verdict(st, req, Some(claims), now_ms),
        after(st, other, Some(claims), now_ms) == after(st, req, Some(claims), now_ms),
{
}

/// What ALLOW means: the token is authentic and unexpired, speaks the wire version, describes
/// its request consistently, was minted for the acting agent (not revoked) and its human, is
/// used from a sandbox that it admits, within its scope and on its exact request if it names
/// one, and its nonce was never used.
pub proof fn law_allow_means_every_step_passed(
    st: StateView,
    req: AuthorizeRequestView,
    claims: Option<ClaimsView>,
    now_ms: i64,
)
    ensures
        verdict(st, req, claims, now_ms).decision == Decision::Allow <==> {
            &&& claims is Some
            &&& req.credentials.contains_key(DEFAULT_TOKEN_HEADER@)
            &&& token_claims(req.credentials[DEFAULT_TOKEN_HEADER@], st.key) is Ok
            &&& req.version == WIRE_VERSION@
            &&& now_ms <= claims->0.exp_unix_ms
            &&& is_lower_hex_32(req.request.body_sha256)
            &&& req.request.canonical_request_hash == hex(
                crh_v1(req.request.parts(unhex(req.request.body_sha256))),
            )
            &&& is_lower_hex_32(req.request.canonical_request_hash)
            &&& claims->0.agent_id == req.context.agent_id
            &&& !st.revoked_agents.contains(claims->0.agent_id)
            &&& claims->0.on_behalf_of is Some ==> claims->0.on_behalf_of
                == req.context.on_behalf_of
            &&& claims->0.workload_selector is Some
                ==> claims->0.workload_selector->0.is_prefix_of(req.context.sandbox_id)
            &&& in_scope(req.request, claims->0.scope)
            &&& claims->0.crh is Some ==> claims->0.crh
                == Some(req.request.canonical_request_hash)
            &&& !st.seen_jti.contains(claims->0.jti)
        },
{
}

/// What an exact token is allowed for hashes to what it is bound to.
proof fn lemma_allowed_exactly(
    st: StateView,
    req: AuthorizeRequestView,
    now_ms: i64,
    claims: ClaimsView,
)
    requires
        claims.crh is Some,
        verdict(st, req, Some(claims), now_ms).decision == Decision::Allow,
    ensures
        crh_v1(req.request.parts(unhex(req.request.body_sha256))) == unhex(claims.crh->0),
{
    law_allow_means_every_step_passed(st, req, Some(claims), now_ms);
    lemma_unhex_hex(crh_v1(req.request.parts(unhex(req.request.body_sha256))));
}

/// An exact token authorizes one request: any two requests that it is allowed for are the same
/// up to spelling, or their preimages collide under SHA-256.
#[verifier::spinoff_prover]
pub proof fn law_an_exact_token_binds_one_request(
    st: StateView,
    req: AuthorizeRequestView,
    now_ms: i64,
    st2: StateView,
    req2: AuthorizeRequestView,
    now2_ms: i64,
    claims: ClaimsView,
)
    requires
        claims.crh is Some,
        verdict(st, req, Some(claims), now_ms).decision == Decision::Allow,
        verdict(st2, req2, Some(claims), now2_ms).decision == Decision::Allow,
        lengths_fit(canonical(req.request.parts(unhex(req.request.body_sha256)))),
        lengths_fit(canonical(req2.request.parts(unhex(req2.request.body_sha256)))),
    ensures
        ({
            let p = canonical(req.request.parts(unhex(req.request.body_sha256)));
            let q = canonical(req2.request.parts(unhex(req2.request.body_sha256)));
            p == q || (preimage(p) != preimage(q) && sha256(preimage(p)) == sha256(preimage(q)))
        }),
{
    let p = req.request.parts(unhex(req.request.body_sha256));
    let q = req2.request.parts(unhex(req2.request.body_sha256));
    lemma_allowed_exactly(st, req, now_ms, claims);
    lemma_allowed_exactly(st2, req2, now2_ms, claims);
    law_fields_are_unambiguous(p, q);
}

/// A path prefix is segment-aware: it admits the prefix itself and what lies below it, and no
/// sibling whose name merely starts alike.
pub proof fn law_path_scope_is_segment_aware(prefix: Seq<char>, rest: Seq<char>, c: char)
    requires
        prefix.len() > 0,
        prefix.last() != '/',
        c != '/',
    ensures
        path_matches(prefix, prefix),
        path_matches(prefix.push('/') + rest, prefix),
        !path_matches(prefix.push(c) + rest, prefix),
{
    let below = prefix.push('/') + rest;
    assert(prefix.push('/') =~= below.subrange(0, prefix.len() as int + 1));
    let sibling = prefix.push(c) + rest;
    assert(sibling[prefix.len() as int] == c);
    if prefix.push('/').is_prefix_of(sibling) {
        assert(sibling.subrange(0, prefix.len() as int + 1)[prefix.len() as int] == '/');
    }
    assert(sibling.len() > prefix.len());
}

/// The root scope, written as `/` or left empty, admits every path that starts with a slash,
/// and the empty path, which means the root; no other.
pub proof fn law_root_scope_admits_absolute_paths(path: Seq<char>, prefix: Seq<char>)
    requires
        effective_path(prefix) == "/"@,
    ensures
        path_matches(path, prefix) <==> (path.len() == 0 || path[0] == '/'),
{
    reveal_strlit("/");
    let p = effective_path(path);
    if p.len() > 0 && p[0] == '/' {
        assert("/"@ =~= p.subrange(0, 1));
    }
    if "/"@.is_prefix_of(p) {
        assert(p.subrange(0, 1)[0] == '/');
    }
}

/// A path lies in a scope exactly where it is the prefix itself, or continues it behind a slash
/// that ends the prefix or follows it. An empty path or prefix is the root.
pub proof fn law_a_path_in_scope_continues_the_prefix(request_path: Seq<char>, scope_prefix: Seq<char>)
    ensures
        ({
            let path = if request_path.len() == 0 {
                seq!['/']
            } else {
                request_path
            };
            let prefix = if scope_prefix.len() == 0 {
                seq!['/']
            } else {
                scope_prefix
            };
            let n = prefix.len() as int;
            path_matches(request_path, scope_prefix) <==> path == prefix || (path.len() > n
                && path.take(n) == prefix && (prefix[n - 1] == '/' || path[n] == '/'))
        }),
{
    reveal_strlit("/");
    assert("/"@ =~= seq!['/']);
    let path = effective_path(request_path);
    let prefix = effective_path(scope_prefix);
    let n = prefix.len() as int;
    if path.len() >= n {
        assert(path.take(n) =~= path.subrange(0, n));
    }
    if prefix.last() == '/' {
        if prefix.is_prefix_of(path) && path.len() == n {
            assert(path =~= prefix);
        }
    } else {
        let w = prefix.push('/');
        if w.is_prefix_of(path) {
            let head = path.subrange(0, n + 1);
            assert(head[n] == '/');
            assert(path.take(n) =~= head.take(n));
            assert(head.take(n) =~= prefix);
        }
        if path.len() > n && path.take(n) == prefix && path[n] == '/' {
            assert(w =~= path.subrange(0, n + 1));
        }
    }
}

/// A hash recomputes only where both digests are 64 lower-case hexadecimal digits, and then from
/// the method, scheme, authority, path and query as described and the body digest's bytes. The
/// body length counts for nothing.
pub proof fn law_the_hash_is_recomputed_from_the_descriptor(d: DescriptorView)
    ensures
        ({
            let digits = |s: Seq<char>|
                s.len() == 64 && forall|i: int|
                    0 <= i < 64 ==> ('0' <= #[trigger] s[i] <= '9' || 'a' <= s[i] <= 'f');
            recomputed_crh(d) == if digits(d.body_sha256) && digits(d.canonical_request_hash) {
                Some(
                    hex(
                        crh_v1(
                            (PartsView {
                                method: d.method,
                                scheme: d.scheme,
                                authority: d.authority,
                                path: d.path,
                                query: d.query,
                                body_sha256: unhex(d.body_sha256),
                            }),
                        ),
                    ),
                )
            } else {
                None
            }
        }),
{
}

/// ALLOW is within the token's scope: the methods are equal up to ASCII case, the authorities
/// are equal once lower-cased and freed of the scheme's default port, and the path lies at or
/// below the prefix.
pub proof fn law_allow_is_within_the_scope_of_the_token(
    st: StateView,
    req: AuthorizeRequestView,
    claims: ClaimsView,
    now_ms: i64,
)
    requires
        verdict(st, req, Some(claims), now_ms).decision == Decision::Allow,
    ensures
        lower(claims.scope.method) == lower(req.request.method),
        normalized_authority(lower(req.request.scheme), claims.scope.authority)
            == normalized_authority(lower(req.request.scheme), req.request.authority),
        claims.scope.path_prefix.len() > 1 && req.request.path != claims.scope.path_prefix ==> {
            let n = claims.scope.path_prefix.len() as int;
            &&& req.request.path.len() > n
            &&& req.request.path.take(n) == claims.scope.path_prefix
            &&& claims.scope.path_prefix[n - 1] == '/' || req.request.path[n] == '/'
        },
        claims.scope.path_prefix.len() <= 1 && req.request.path.len() > 0 ==> req.request.path[0]
            == '/' || req.request.path[0] == claims.scope.path_prefix[0],
{
    law_a_path_in_scope_continues_the_prefix(req.request.path, claims.scope.path_prefix);
    reveal_strlit("/");
    let n = claims.scope.path_prefix.len() as int;
    if n == 1 && req.request.path.len() > 1 {
        assert(req.request.path.take(1)[0] == req.request.path[0]);
    }
    if n == 0 && req.request.path.len() > 1 {
        assert(req.request.path.take(1)[0] == req.request.path[0]);
    }
}

/// The answer to every request, step by step: the first condition that fails decides, with its
/// own reason and message, and where none fails the request is allowed.
#[verifier::spinoff_prover]
pub proof fn law_the_first_failing_step_decides(
    st: StateView,
    req: AuthorizeRequestView,
    claims: Option<ClaimsView>,
    now_ms: i64,
)
    ensures
        ({
            let header = "x-hawcx-haap-token"@;
            let d = req.request;
            let c = claims->0;
            let answer = verdict(st, req, claims, now_ms);
            let crh = recomputed_crh(d);
            let denied = |code: Seq<char>, msg: Seq<char>|
                answer.decision == Decision::Deny && answer.reason_code == code && answer.message
                    == Some(msg);
            if !req.credentials.contains_key(header) {
                denied("TOKEN_MALFORMED"@, "no token in credentials"@)
            } else if token_claims(req.credentials[header], st.key) == Err::<Seq<u8>, VerifyError>(
                VerifyError::BadSignature,
            ) {
                denied("TOKEN_SIGNATURE_INVALID"@, "HMAC mismatch"@)
            } else if token_claims(req.credentials[header], st.key) is Err || claims is None {
                denied("TOKEN_MALFORMED"@, "undecodable token"@)
            } else if req.version != "1"@ {
                denied("UNSUPPORTED_VERSION"@, "unsupported wire-contract version"@)
            } else if now_ms > c.exp_unix_ms {
                denied("TOKEN_EXPIRED"@, "token exp in the past"@)
            } else if crh is None {
                denied("DESCRIPTOR_MALFORMED"@, "descriptor hashes are not lowercase 32-byte hex"@)
            } else if crh->0 != d.canonical_request_hash {
                denied("CRH_MISMATCH"@, "descriptor does not hash to the sent crh"@)
            } else if c.agent_id != req.context.agent_id {
                denied("AGENT_MISMATCH"@, "token agent != acting agent"@)
            } else if st.revoked_agents.contains(req.context.agent_id) {
                denied("AGENT_REVOKED"@, "agent principal has been revoked"@)
            } else if c.on_behalf_of is Some && c.on_behalf_of != req.context.on_behalf_of {
                denied("AGENT_MISMATCH"@, "token on-behalf-of != acting on-behalf-of"@)
            } else if c.workload_selector is Some && !c.workload_selector->0.is_prefix_of(
                req.context.sandbox_id,
            ) {
                denied("WORKLOAD_MISMATCH"@, "acting sandbox outside token workload selector"@)
            } else if lower(c.scope.method) != lower(d.method) || normalized_authority(
                lower(d.scheme),
                d.authority,
            ) != normalized_authority(lower(d.scheme), c.scope.authority) || !path_matches(
                d.path,
                c.scope.path_prefix,
            ) {
                denied("INTENT_MISMATCH"@, "request outside token scope"@)
            } else if c.crh is Some && c.crh != Some(d.canonical_request_hash) {
                denied("INTENT_MISMATCH"@, "request crh != token-bound crh"@)
            } else if st.seen_jti.contains(c.jti) {
                denied("TOKEN_REPLAYED"@, "jti already consumed"@)
            } else {
                answer.decision == Decision::Allow
            }
        }),
{
}

/// What an answer holds. A denial has a message, no receipt, and names the verifier as its
/// evidence. ALLOW has the code `OK`, no message, a receipt made of the nonce, and evidence of
/// the agent, of how the grant is bound and to what, and of the scope.
pub proof fn law_what_an_answer_holds(
    st: StateView,
    req: AuthorizeRequestView,
    claims: Option<ClaimsView>,
    now_ms: i64,
)
    ensures
        ({
            let answer = verdict(st, req, claims, now_ms);
            let c = claims->0;
            let evidence = answer.evidence->0;
            &&& answer.evidence is Some
            &&& answer.decision == Decision::Deny ==> {
                &&& answer.message is Some
                &&& answer.receipt_id is None
                &&& evidence == EvidenceView::Object(
                    seq![("verifier"@, EvidenceView::Text("demo"@))],
                )
            }
            &&& answer.decision == Decision::Allow ==> {
                &&& claims is Some
                &&& answer.reason_code == "OK"@
                &&& answer.message is None
                &&& answer.receipt_id == Some("rcpt-"@ + c.jti)
                &&& evidence is Object
                &&& evidence->Object_0.len() == 5
                &&& evidence->Object_0[0] == ("verifier"@, EvidenceView::Text("demo"@))
                &&& evidence->Object_0[1] == ("agent_id"@, EvidenceView::Text(c.agent_id))
                &&& evidence->Object_0[2] == (
                    "binding"@,
                    EvidenceView::Text(
                        if c.crh is None {
                            "coarse"@
                        } else {
                            "exact"@
                        },
                    ),
                )
                &&& evidence->Object_0[3].0 == "bound_crh"@
                &&& c.crh is None ==> evidence->Object_0[3].1 == EvidenceView::Null
                &&& c.crh is Some ==> evidence->Object_0[3].1 == EvidenceView::Text(c.crh->0)
                &&& evidence->Object_0[4] == (
                    "scope"@,
                    EvidenceView::Object(
                        seq![
                            ("method"@, EvidenceView::Text(c.scope.method)),
                            ("authority"@, EvidenceView::Text(c.scope.authority)),
                        ],
                    ),
                )
            }
        }),
{
}

/// What a decision changes: ALLOW consumes the token's nonce and no other, a denial nothing;
/// neither touches the key or who is revoked.
pub proof fn law_what_a_decision_changes(
    st: StateView,
    req: AuthorizeRequestView,
    claims: Option<ClaimsView>,
    now_ms: i64,
    jti: Seq<char>,
)
    ensures
        ({
            let allowed = verdict(st, req, claims, now_ms).decision == Decision::Allow;
            let next = after(st, req, claims, now_ms);
            &&& next.key == st.key
            &&& next.revoked_agents == st.revoked_agents
            &&& next.seen_jti.contains(jti) <==> st.seen_jti.contains(jti) || (allowed && jti
                == claims->0.jti)
        }),
{
}

/// The view of the verifier's memory shows every field.
pub proof fn law_the_state_shows_every_field(st: VerifierState)
    ensures
        st@.key == st.key@,
        st@.seen_jti == st.seen_jti@,
        st@.revoked_agents == st.revoked_agents@,
{
}

/// Opening a token takes it from the credentials under the default header and gives the bytes
/// that its MAC covers, or the reason why there are none.
pub proof fn law_opening_reads_the_default_header(
    key: Seq<u8>,
    credentials: Map<Seq<char>, Seq<char>>,
)
    ensures
        ({
            let header = "x-hawcx-haap-token"@;
            let opened = opened_token(key, credentials);
            if !credentials.contains_key(header) {
                opened == Err::<Seq<u8>, (Seq<char>, Seq<char>)>(
                    ("TOKEN_MALFORMED"@, "no token in credentials"@),
                )
            } else {
                match token_claims(credentials[header], key) {
                    Ok(body) => opened == Ok::<Seq<u8>, (Seq<char>, Seq<char>)>(body),
                    Err(VerifyError::BadSignature) => opened == Err::<
                        Seq<u8>,
                        (Seq<char>, Seq<char>),
                    >(("TOKEN_SIGNATURE_INVALID"@, "HMAC mismatch"@)),
                    Err(VerifyError::Malformed) => opened == Err::<
                        Seq<u8>,
                        (Seq<char>, Seq<char>),
                    >(("TOKEN_MALFORMED"@, "undecodable token"@)),
                }
            }
        }),
{
}

/// Authorities match exactly where they normalize alike under the request's scheme, so that
/// case and default port do not count and any other port does; matching is symmetric.
pub proof fn law_authorities_match_up_to_spelling(
    scheme: Seq<char>,
    a: Seq<char>,
    b: Seq<char>,
)
    ensures
        authority_matches(scheme, a, b) <==> normalized_authority(lower(scheme), a)
            == normalized_authority(lower(scheme), b),
        authority_matches(scheme, a, b) == authority_matches(scheme, b, a),
        authority_matches(scheme, a, a),
        lower(a) == lower(b) ==> authority_matches(scheme, a, b),
{
}

/// A denial and its reason: what answers `code` and `msg` is a denial with exactly those.
pub proof fn law_a_denial_says_why(code: Seq<char>, msg: Seq<char>)
    ensures
        deny_response(code, msg).decision == Decision::Deny,
        deny_response(code, msg).reason_code == code,
        deny_response(code, msg).message == Some(msg),
        deny_response(code, msg).receipt_id is None,
        deny_response(code, msg).evidence == Some(
            EvidenceView::Object(seq![("verifier"@, EvidenceView::Text("demo"@))]),
        ),
{
}

/// Revoking an agent adds that agent to the revoked ones, and does nothing else; deciding a
/// request does what [`after`] says.
pub proof fn law_what_an_event_changes(
    st: StateView,
    agent_id: Seq<char>,
    other: Seq<char>,
    req: AuthorizeRequestView,
    claims: Option<ClaimsView>,
    now_ms: i64,
)
    ensures
        ({
            let next = step(st, Event::Revoke(agent_id));
            &&& next.key == st.key
            &&& next.seen_jti == st.seen_jti
            &&& next.revoked_agents.contains(other) <==> st.revoked_agents.contains(other) || other
                == agent_id
        }),
        step(st, Event::Authorize(req, claims, now_ms)) == after(st, req, claims, now_ms),
{
}

/// What a verdict depends on: requests that agree in version, descriptor up to the body length,
/// acting agent, human and sandbox, and the token under the default header are answered alike,
/// whatever else their context and credentials hold.
pub proof fn law_what_a_verdict_depends_on(
    st: StateView,
    req: AuthorizeRequestView,
    other: AuthorizeRequestView,
    claims: Option<ClaimsView>,
    now_ms: i64,
)
    requires
        other.version == req.version,
        other.request == (DescriptorView { body_len: other.request.body_len, ..req.request }),
        other.context.agent_id == req.context.agent_id,
        other.context.on_behalf_of == req.context.on_behalf_of,
        other.context.sandbox_id == req.context.sandbox_id,
        req.credentials.contains_key(DEFAULT_TOKEN_HEADER@),
        other.credentials.contains_key(DEFAULT_TOKEN_HEADER@),
        other.credentials[DEFAULT_TOKEN_HEADER@] == req.credentials[DEFAULT_TOKEN_HEADER@],
    ensures
        verdict(st, other, claims, now_ms) == verdict(st, req, claims, now_ms),
{
}

/// The reason codes and the wire version are these texts.
pub proof fn law_the_codes_of_the_wire_contract()
    ensures
        WIRE_VERSION@ == "1"@,
        DEFAULT_TOKEN_HEADER@ == "x-hawcx-haap-token"@,
        reason::TOKEN_MISSING@ == "TOKEN_MISSING"@,
        reason::TOKEN_AMBIGUOUS@ == "TOKEN_AMBIGUOUS"@,
        reason::REQUEST_TOO_LARGE@ == "REQUEST_TOO_LARGE"@,
        reason::VERIFIER_UNAVAILABLE@ == "VERIFIER_UNAVAILABLE"@,
        reason::VERIFIER_TIMEOUT@ == "VERIFIER_TIMEOUT"@,
        reason::VERIFIER_MALFORMED_RESPONSE@ == "VERIFIER_MALFORMED_RESPONSE"@,
        reason::UNSUPPORTED_VERSION@ == "UNSUPPORTED_VERSION"@,
        reason::OK@ == "OK"@,
        reason::TOKEN_MALFORMED@ == "TOKEN_MALFORMED"@,
        reason::TOKEN_SIGNATURE_INVALID@ == "TOKEN_SIGNATURE_INVALID"@,
        reason::TOKEN_EXPIRED@ == "TOKEN_EXPIRED"@,
        reason::TOKEN_REPLAYED@ == "TOKEN_REPLAYED"@,
        reason::AGENT_MISMATCH@ == "AGENT_MISMATCH"@,
        reason::AGENT_REVOKED@ == "AGENT_REVOKED"@,
        reason::WORKLOAD_MISMATCH@ == "WORKLOAD_MISMATCH"@,
        reason::INTENT_MISMATCH@ == "INTENT_MISMATCH"@,
        reason::CRH_MISMATCH@ == "CRH_MISMATCH"@,
        reason::DESCRIPTOR_MALFORMED@ == "DESCRIPTOR_MALFORMED"@,
{
}

} // verus!
