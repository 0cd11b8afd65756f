//! What the middleware promises as a whole, whatever it is configured to and whatever the
//! verifier does, and what it and the guard promise together.

use vstd::prelude::*;

use crate::config::{normalized_config, ConfigView, FailPolicy, Mode, DEFAULT_TOKEN_HEADER};
use crate::evidence::EvidenceView;
use crate::guard::{
    after, allow_response, authority_matches, deny_response, path_matches, recomputed_crh, verdict,
    StateView,
};
use crate::hash::{
    canonical, crh_v1, law_fields_are_unambiguous, lemma_lower_idempotent, lengths_fit, preimage,
    PartsView,
};
use crate::middleware::{
    asking_audit, continuing, forwarded, local_deny, local_refusal, opening_audit, question,
    resolution, values_of, AuditView, DecisionView, OutcomeView, RequestContextView, RequestView,
};
use crate::primitives::{hex, lemma_unhex_hex, sha256};
use crate::text::{decimal, lower, lower_char, upper, upper_char};
use crate::token::{token_claims, ClaimsView};
use crate::types::reason;
use crate::types::Decision as WireDecision;

verus! {

/// Observe mode never blocks: whatever the middleware or the verifier finds, the request
/// continues, and the audit says that nothing was enforced and whether enforcing would have
/// denied it.
pub proof fn law_observe_mode_never_blocks(
    cfg: ConfigView,
    ctx: RequestContextView,
    req: RequestView,
    ts_unix_ms: i64,
    outcome: OutcomeView,
    latency_ns: u64,
)
    requires
        cfg.mode == Mode::Observe,
    ensures
        local_refusal(cfg, req) is Some ==> {
            let (code, message) = local_refusal(cfg, req)->0;
            let (decision, audit) = local_deny(
                cfg,
                opening_audit(cfg, ctx, req, ts_unix_ms),
                code,
                message,
            );
            &&& decision == continuing(cfg)
            &&& audit.decision == "allow"@
            &&& !audit.enforced
            &&& audit.would_deny
            &&& audit.reason_code == code
        },
        ({
            let (decision, audit) = resolution(
                cfg,
                asking_audit(cfg, ctx, req, ts_unix_ms),
                outcome,
                latency_ns,
            );
            let granted = outcome is Verdict && outcome->Verdict_0.decision == WireDecision::Allow;
            &&& decision == continuing(cfg)
            &&& audit.decision == "allow"@
            &&& !audit.enforced
            &&& audit.would_deny == (!granted && (outcome is Verdict || cfg.fail
                == FailPolicy::Closed))
            &&& outcome is Verdict ==> audit.reason_code == outcome->Verdict_0.reason_code
        }),
{
}

/// Enforced and fail-closed, a request passes on an allow verdict and on nothing else. A deny
/// verdict is a 403 with the verifier's reason, and the lack of a verdict a 503 that the audit
/// marks as degraded.
pub proof fn law_fail_closed_passes_on_an_allow_verdict_only(
    cfg: ConfigView,
    audit: AuditView,
    outcome: OutcomeView,
    latency_ns: u64,
)
    requires
        cfg.mode == Mode::Enforce,
        cfg.fail == FailPolicy::Closed,
        !audit.degraded,
    ensures
        ({
            let (decision, after) = resolution(cfg, audit, outcome, latency_ns);
            match outcome {
                OutcomeView::Verdict(v) => match v.decision {
                    WireDecision::Allow => decision == continuing(cfg) && !after.degraded,
                    WireDecision::Deny => {
                        &&& decision is Deny
                        &&& decision->Deny_0.http_status == 403
                        &&& decision->Deny_0.reason_code == v.reason_code
                        &&& decision->Deny_0.receipt_id == v.receipt_id
                        &&& !after.degraded
                    },
                },
                _ => {
                    &&& decision is Deny
                    &&& decision->Deny_0.http_status == 503
                    &&& decision->Deny_0.reason_code == after.reason_code
                    &&& after.degraded
                },
            }
        }),
{
}

/// Enforced and fail-open, a request is blocked by a deny verdict only; without a verdict it
/// passes, and the audit marks it as degraded.
pub proof fn law_fail_open_blocks_on_a_deny_verdict_only(
    cfg: ConfigView,
    audit: AuditView,
    outcome: OutcomeView,
    latency_ns: u64,
)
    requires
        cfg.mode == Mode::Enforce,
        cfg.fail == FailPolicy::Open,
    ensures
        ({
            let (decision, after) = resolution(cfg, audit, outcome, latency_ns);
            let denied = outcome is Verdict && outcome->Verdict_0.decision == WireDecision::Deny;
            &&& decision is Deny <==> denied
            &&& !denied ==> decision == continuing(cfg) && after.decision == "allow"@
            &&& !(outcome is Verdict) ==> after.degraded
        }),
{
}

/// A local refusal that is enforced is a 403, never a degraded one, and is audited without a
/// request hash and without a verifier round trip.
pub proof fn law_a_local_refusal_needs_no_hash_and_no_round_trip(
    cfg: ConfigView,
    ctx: RequestContextView,
    req: RequestView,
    ts_unix_ms: i64,
)
    requires
        local_refusal(cfg, req) is Some,
    ensures
        ({
            let (code, message) = local_refusal(cfg, req)->0;
            let (decision, audit) = local_deny(
                cfg,
                opening_audit(cfg, ctx, req, ts_unix_ms),
                code,
                message,
            );
            &&& audit.canonical_request_hash is None
            &&& audit.verifier_latency_ns is None
            &&& audit.receipt_id is None
            &&& !audit.degraded
            &&& cfg.mode == Mode::Enforce ==> decision is Deny && decision->Deny_0.http_status
                == 403 && audit.decision == "deny"@
        }),
{
}

/// The audit states the effective decision: "allow" exactly where the request continues,
/// "deny" exactly where it is blocked. Nothing else about who acted on what is changed by how
/// the request was decided.
pub proof fn law_the_audit_states_the_effective_decision(
    cfg: ConfigView,
    audit: AuditView,
    outcome: OutcomeView,
    latency_ns: u64,
    code: Seq<char>,
    message: Seq<char>,
)
    ensures
        ({
            let (decision, after) = resolution(cfg, audit, outcome, latency_ns);
            &&& after.decision == if decision is Continue {
                "allow"@
            } else {
                "deny"@
            }
            &&& after.verifier_latency_ns == Some(latency_ns)
            &&& (AuditView {
                decision: audit.decision,
                would_deny: audit.would_deny,
                reason_code: audit.reason_code,
                receipt_id: audit.receipt_id,
                verifier_latency_ns: audit.verifier_latency_ns,
                degraded: audit.degraded,
                ..after
            }) == audit
        }),
        ({
            let (decision, after) = local_deny(cfg, audit, code, message);
            &&& after.decision == if decision is Continue {
                "allow"@
            } else {
                "deny"@
            }
            &&& after.reason_code == code
        }),
{
}

/// Evidence without raw values: what is audited, and why a request is refused locally, depends
/// on the headers only through how many tokens there are, and on the body only through its
/// length and digest. Neither the credential nor the body can be read off it.
pub proof fn law_the_audit_holds_digests_only(
    cfg: ConfigView,
    ctx: RequestContextView,
    req: RequestView,
    other: RequestView,
    ts_unix_ms: i64,
)
    requires
        other.method == req.method,
        other.scheme == req.scheme,
        other.authority == req.authority,
        other.path == req.path,
        other.query == req.query,
        other.body.len() == req.body.len(),
        sha256(other.body) == sha256(req.body),
        values_of(other.headers, cfg.token_header).len() == values_of(
            req.headers,
            cfg.token_header,
        ).len(),
    ensures
        opening_audit(cfg, ctx, other, ts_unix_ms) == opening_audit(cfg, ctx, req, ts_unix_ms),
        asking_audit(cfg, ctx, other, ts_unix_ms) == asking_audit(cfg, ctx, req, ts_unix_ms),
        local_refusal(cfg, other) == local_refusal(cfg, req),
{
}

/// Continuing removes the token header, and nothing else, exactly where the configuration says
/// so.
pub proof fn law_the_token_is_stripped_unless_configured_otherwise(cfg: ConfigView)
    ensures
        continuing(cfg) is Continue,
        cfg.strip_token_header ==> continuing(cfg)->strip_headers == seq![cfg.token_header],
        !cfg.strip_token_header ==> continuing(cfg)->strip_headers.len() == 0,
        continuing(normalized_config(cfg)) == (DecisionView::Continue {
            strip_headers: if cfg.strip_token_header {
                seq![lower(cfg.token_header)]
            } else {
                Seq::empty()
            },
        }),
{
}

/// The verifier sees the token and the configured headers that the request carries, and no
/// other header.
pub proof fn law_only_configured_headers_are_forwarded(
    cfg: ConfigView,
    req: RequestView,
    name: Seq<char>,
)
    requires
        local_refusal(cfg, req) is None,
    ensures
        forwarded(cfg, req).contains_key(cfg.token_header),
        values_of(req.headers, cfg.token_header) == seq![forwarded(cfg, req)[cfg.token_header]],
        forwarded(cfg, req).contains_key(name) ==> name == cfg.token_header
            || cfg.forward_headers.contains(name),
        cfg.forward_headers.contains(name) && values_of(req.headers, name).len() > 0
            ==> forwarded(cfg, req).contains_key(name) && forwarded(cfg, req)[name] == values_of(
            req.headers,
            name,
        )[0],
{
    assert(values_of(req.headers, cfg.token_header) =~= seq![
        forwarded(cfg, req)[cfg.token_header],
    ]);
}

/// Header names match up to ASCII case, on both sides.
pub proof fn law_header_names_match_up_to_case(
    headers: Seq<(Seq<char>, Seq<char>)>,
    others: Seq<(Seq<char>, Seq<char>)>,
    name: Seq<char>,
    other: Seq<char>,
)
    requires
        lower(name) == lower(other),
        headers.len() == others.len(),
        forall|i: int|
            0 <= i < headers.len() ==> lower((#[trigger] headers[i]).0) == lower(others[i].0)
                && headers[i].1 == others[i].1,
    ensures
        values_of(headers, name) == values_of(others, other),
    decreases headers.len(),
{
    if headers.len() > 0 {
        assert forall|i: int| 0 <= i < headers.len() - 1 implies lower(
            (#[trigger] headers.drop_first()[i]).0,
        ) == lower(others.drop_first()[i].0) && headers.drop_first()[i].1
            == others.drop_first()[i].1 by {
            assert(headers.drop_first()[i] == headers[i + 1]);
        }
        law_header_names_match_up_to_case(headers.drop_first(), others.drop_first(), name, other);
        assert(headers[0].1 == others[0].1);
    }
}

/// The decision is bound to the action, byte for byte: where a token was minted for one
/// request and the guard allows the middleware's question about another on it, the two are the
/// same up to spelling, or their preimages collide under SHA-256. Change the body after the
/// token was minted, lose the authorization.
pub proof fn law_an_exact_grant_covers_the_egressing_request_only(
    cfg: ConfigView,
    ctx: RequestContextView,
    req: RequestView,
    received_at_unix_ms: i64,
    minted_for: PartsView,
    claims: ClaimsView,
    guard: StateView,
    now_ms: i64,
)
    requires
        claims.crh == Some(hex(crh_v1(minted_for))),
        verdict(guard, question(cfg, ctx, req, received_at_unix_ms), Some(claims), now_ms).decision
            == WireDecision::Allow,
        lengths_fit(canonical(minted_for)),
        lengths_fit(canonical(req.parts())),
    ensures
        ({
            let p = canonical(minted_for);
            let q = canonical(req.parts());
            p == q || (preimage(p) != preimage(q) && sha256(preimage(p)) == sha256(preimage(q)))
        }),
{
    lemma_unhex_hex(crh_v1(minted_for));
    lemma_unhex_hex(crh_v1(req.parts()));
    law_fields_are_unambiguous(minted_for, req.parts());
}

pub proof fn lemma_lower_of_upper(s: Seq<char>)
    ensures
        lower(upper(s)) == lower(s),
{
    assert forall|i: int| 0 <= i < s.len() implies lower(upper(s))[i] == lower(s)[i] by {
        assert(lower_char(upper_char(s[i])) == lower_char(s[i]));
    }
    assert(lower(upper(s)) =~= lower(s));
}

/// A good token lets its request through: where a request carries one authentic, unexpired and
/// unused token under the header that the guard reads, minted for the acting agent (not
/// revoked), its human and sandbox, whose scope covers the request and which is bound to no
/// other, the guard allows the middleware's question, and the middleware lets the request
/// continue, with the receipt in the audit.
pub proof fn law_a_good_token_lets_its_request_through(
    cfg: ConfigView,
    ctx: RequestContextView,
    req: RequestView,
    ts_unix_ms: i64,
    received_at_unix_ms: i64,
    claims: ClaimsView,
    guard: StateView,
    now_ms: i64,
    latency_ns: u64,
)
    requires
        local_refusal(cfg, req) is None,
        cfg.token_header == DEFAULT_TOKEN_HEADER@,
        token_claims(values_of(req.headers, cfg.token_header)[0], guard.key) is Ok,
        recomputed_crh(question(cfg, ctx, req, received_at_unix_ms).request) == Some(
            hex(crh_v1(req.parts())),
        ),
        now_ms <= claims.exp_unix_ms,
        claims.agent_id == ctx.agent_id,
        !guard.revoked_agents.contains(ctx.agent_id),
        claims.on_behalf_of is Some ==> claims.on_behalf_of == ctx.on_behalf_of,
        claims.workload_selector is Some ==> claims.workload_selector->0.is_prefix_of(
            ctx.sandbox_id,
        ),
        lower(claims.scope.method) == lower(req.method),
        authority_matches(req.scheme, req.authority, claims.scope.authority),
        path_matches(req.path, claims.scope.path_prefix),
        claims.crh is Some ==> claims.crh->0 == hex(crh_v1(req.parts())),
        !guard.seen_jti.contains(claims.jti),
    ensures
        ({
            let answer = verdict(
                guard,
                question(cfg, ctx, req, received_at_unix_ms),
                Some(claims),
                now_ms,
            );
            let (decision, audit) = resolution(
                cfg,
                asking_audit(cfg, ctx, req, ts_unix_ms),
                OutcomeView::Verdict(answer),
                latency_ns,
            );
            &&& answer == allow_response(claims)
            &&& decision == continuing(cfg)
            &&& audit.decision == "allow"@
            &&& audit.reason_code == reason::OK@
            &&& audit.receipt_id == Some("rcpt-"@ + claims.jti)
            &&& !audit.would_deny
            &&& !audit.degraded
        }),
{
    lemma_lower_of_upper(req.method);
    lemma_lower_idempotent(req.scheme);
}

/// A middleware that is configured to another token header than the guard reads fails safe:
/// every question is denied for want of a token, and nothing is consumed.
pub proof fn law_an_unknown_token_header_fails_safe(
    cfg: ConfigView,
    ctx: RequestContextView,
    req: RequestView,
    received_at_unix_ms: i64,
    claims: Option<ClaimsView>,
    guard: StateView,
    now_ms: i64,
)
    requires
        cfg.token_header != DEFAULT_TOKEN_HEADER@,
        !cfg.forward_headers.contains(DEFAULT_TOKEN_HEADER@),
    ensures
        verdict(guard, question(cfg, ctx, req, received_at_unix_ms), claims, now_ms)
            == deny_response(reason::TOKEN_MALFORMED@, "no token in credentials"@),
        after(guard, question(cfg, ctx, req, received_at_unix_ms), claims, now_ms) == guard,
{
}

/// A deny verdict that is enforced is a 403, whatever the fail policy: the block carries the
/// verifier's reason code and receipt, its message (or a stock one) and its evidence (or none).
/// A 503 comes out only where there is no verdict.
pub proof fn law_a_deny_verdict_is_a_403_whatever_the_fail_policy(
    cfg: ConfigView,
    audit: AuditView,
    outcome: OutcomeView,
    latency_ns: u64,
)
    requires
        cfg.mode == Mode::Enforce,
    ensures
        ({
            let (decision, after) = resolution(cfg, audit, outcome, latency_ns);
            let v = outcome->Verdict_0;
            &&& outcome is Verdict && v.decision == WireDecision::Deny ==> {
                &&& decision is Deny
                &&& decision->Deny_0.http_status == 403
                &&& decision->Deny_0.reason_code == v.reason_code
                &&& decision->Deny_0.receipt_id == v.receipt_id
                &&& v.message is Some ==> decision->Deny_0.message == v.message->0
                &&& v.message is None ==> decision->Deny_0.message == "denied by verifier"@
                &&& v.evidence is Some ==> decision->Deny_0.evidence == v.evidence->0
                &&& v.evidence is None ==> decision->Deny_0.evidence == EvidenceView::Object(
                    Seq::empty(),
                )
                &&& after.decision == "deny"@
                &&& after.would_deny == audit.would_deny
            }
            &&& outcome is Verdict && v.decision == WireDecision::Allow ==> {
                &&& decision is Continue
                &&& after.decision == "allow"@
                &&& after.would_deny == audit.would_deny
            }
            &&& decision is Deny ==> decision->Deny_0.http_status == if outcome is Verdict {
                403u16
            } else {
                503u16
            }
        }),
{
}

/// Whatever the configuration, a verdict is audited with its own reason code and receipt and is
/// never degraded by itself; the lack of one is degraded, and audited with the code of its kind.
pub proof fn law_the_audit_says_where_the_decision_came_from(
    cfg: ConfigView,
    audit: AuditView,
    outcome: OutcomeView,
    latency_ns: u64,
)
    ensures
        ({
            let after = resolution(cfg, audit, outcome, latency_ns).1;
            match outcome {
                OutcomeView::Verdict(v) => {
                    &&& after.reason_code == v.reason_code
                    &&& after.receipt_id == v.receipt_id
                    &&& after.degraded == audit.degraded
                },
                OutcomeView::Timeout => {
                    &&& after.reason_code == "VERIFIER_TIMEOUT"@
                    &&& after.receipt_id == audit.receipt_id
                    &&& after.degraded
                },
                OutcomeView::Unavailable(_) => {
                    &&& after.reason_code == "VERIFIER_UNAVAILABLE"@
                    &&& after.receipt_id == audit.receipt_id
                    &&& after.degraded
                },
                OutcomeView::Malformed(_) => {
                    &&& after.reason_code == "VERIFIER_MALFORMED_RESPONSE"@
                    &&& after.receipt_id == audit.receipt_id
                    &&& after.degraded
                },
            }
        }),
{
}

/// Which requests pass once the verifier was asked, and what the audit says would have been:
/// under observe all of them, with `would_deny` exactly where enforcing the same configuration
/// blocks; under enforce those with an allow verdict, and those without a verdict where the fail
/// policy is open.
pub proof fn law_which_requests_pass(
    cfg: ConfigView,
    audit: AuditView,
    outcome: OutcomeView,
    latency_ns: u64,
)
    requires
        !audit.would_deny,
    ensures
        ({
            let (decision, after) = resolution(cfg, audit, outcome, latency_ns);
            let enforced = ConfigView { mode: Mode::Enforce, ..cfg };
            let blocked = resolution(enforced, audit, outcome, latency_ns).0 is Deny;
            let allowed = outcome is Verdict && outcome->Verdict_0.decision == WireDecision::Allow;
            let open = !(outcome is Verdict) && cfg.fail == FailPolicy::Open;
            &&& blocked == !(allowed || open)
            &&& cfg.mode == Mode::Enforce ==> (decision is Deny) == blocked && !after.would_deny
            &&& cfg.mode == Mode::Observe ==> decision is Continue && after.would_deny == blocked
            &&& decision is Continue ==> decision->strip_headers == if cfg.strip_token_header {
                seq![cfg.token_header]
            } else {
                Seq::empty()
            }
        }),
{
}

/// What a block without a verdict says: 503, the code of the failure's kind, a message that
/// names it, no receipt, and the fail policy as evidence.
pub proof fn law_what_a_fail_closed_block_says(
    cfg: ConfigView,
    audit: AuditView,
    outcome: OutcomeView,
    latency_ns: u64,
)
    requires
        cfg.mode == Mode::Enforce,
        cfg.fail == FailPolicy::Closed,
        !(outcome is Verdict),
    ensures
        ({
            let decision = resolution(cfg, audit, outcome, latency_ns).0;
            let block = decision->Deny_0;
            &&& decision is Deny
            &&& block.http_status == 503
            &&& block.receipt_id is None
            &&& block.evidence == EvidenceView::Object(
                seq![("fail_policy"@, EvidenceView::Text("closed"@))],
            )
            &&& outcome is Timeout ==> block.reason_code == "VERIFIER_TIMEOUT"@ && block.message
                == "verifier did not answer within "@ + decimal(cfg.timeout_ms as nat) + "ms"@
            &&& outcome is Unavailable ==> block.reason_code == "VERIFIER_UNAVAILABLE"@
                && block.message == "verifier unreachable: "@ + outcome->Unavailable_0
            &&& outcome is Malformed ==> block.reason_code == "VERIFIER_MALFORMED_RESPONSE"@
                && block.message == "verifier protocol error: "@ + outcome->Malformed_0
        }),
{
}

/// What a local refusal comes out as: under enforce a 403 with its reason and message, no receipt
/// and the middleware as its source; under observe the request continues, and the audit says
/// that it would have been denied, and why.
pub proof fn law_what_a_local_refusal_says(
    cfg: ConfigView,
    audit: AuditView,
    code: Seq<char>,
    message: Seq<char>,
)
    ensures
        ({
            let (decision, after) = local_deny(cfg, audit, code, message);
            let block = decision->Deny_0;
            &&& after.reason_code == code
            &&& cfg.mode == Mode::Enforce ==> {
                &&& decision is Deny
                &&& block.http_status == 403
                &&& block.reason_code == code
                &&& block.message == message
                &&& block.receipt_id is None
                &&& block.evidence == EvidenceView::Object(
                    seq![("source"@, EvidenceView::Text("middleware-local"@))],
                )
                &&& after == (AuditView { reason_code: code, decision: "deny"@, ..audit })
            }
            &&& cfg.mode == Mode::Observe ==> {
                &&& decision is Continue
                &&& decision->strip_headers == if cfg.strip_token_header {
                    seq![cfg.token_header]
                } else {
                    Seq::empty()
                }
                &&& after == (AuditView {
                    reason_code: code,
                    decision: "allow"@,
                    would_deny: true,
                    ..audit
                })
            }
        }),
{
}

} // verus!
