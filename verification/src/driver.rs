//! Scenario driver: the outbound requests and tokens of a demonstration, what each is expected
//! to come to, and the record of what it came to. Doubles as a smoke test: each scenario
//! states the expected reason code.
//!
//! The principal is the **durable agent** (`agent_id`), not the ephemeral sandbox. The
//! headline scenario is "agent respawned into a new sandbox": still authorized, because
//! the grant binds the agent, not the sandbox.
//!
//! A host plays a [`Scenario`] by minting its token and taking its [`Action`]s in turn, against
//! the verifier that [`Scenario::endpoint`] picks; [`Scenario::record`] takes what came of the
//! last presentation.

use vstd::prelude::*;
use vstd::string::{StrSliceExecFns, StringExecFns};
use vstd::utf8::{decode_utf8, encode_utf8, valid_utf8};

use crate::config::{ConfigView, ExtAuthzConfig, FailPolicy, Mode};
use crate::hash::{canonical_request_hash, crh_v1, sha256_bytes, CanonicalRequestParts, PartsView};
use crate::middleware::{
    header_texts, AuditEvent, AuditView, Decision, DecisionView, EgressRequest, RequestContext,
    RequestContextView, RequestView,
};
use crate::primitives::{from_utf8_lossy, hex, hex_encode, sha256, utf8_lossy};
use crate::text::{opt_str_text, opt_text, str_eq, texts};
use crate::token::{Claims, ClaimsView, Scope, ScopeView};
use crate::types::reason;

verus! {

pub const AGENT: &'static str = "agt-7f3a";

pub const SANDBOX: &'static str = "sbx-run-1";

pub const AUTHORITY: &'static str = "api.github.com";

pub const PATH: &'static str = "/repos/acme/widgets/issues";

/// The body that tokens are minted for.
pub const BODY: &'static str = "{\"title\":\"fix egress\"}";

/// A body that no token is minted for.
pub const TAMPERED_BODY: &'static str = "{\"title\":\"exfiltrate secrets\"}";

/// A path outside [`good_scope`].
pub const EVIL_PATH: &'static str = "/repos/evil/exfil/contents";

/// A text cut to 37 characters and an ellipsis where it has more than 38.
pub open spec fn clipped(s: Seq<char>) -> Seq<char> {
    if s.len() > 38 {
        s.take(37) + "…"@
    } else {
        s
    }
}

/// Cut a text to 37 characters and an ellipsis where it has more than 38.
pub fn clip(s: &str) -> (res: String)
    ensures
        res@ == clipped(s@),
{
    if s.unicode_len() > 38 {
        let mut t = s.substring_char(0, 37).to_owned();
        t.append("…");
        t
    } else {
        s.to_owned()
    }
}

/// A character, or a space for one that ends a line.
pub open spec fn inline_char(c: char) -> char {
    if c == '\n' || c == '\r' {
        ' '
    } else {
        c
    }
}

/// A text on one line: line feeds and carriage returns become spaces.
pub open spec fn one_line(s: Seq<char>) -> Seq<char> {
    s.map_values(|c: char| inline_char(c))
}

/// Whether a text stands on one line.
pub open spec fn is_one_line(s: Seq<char>) -> bool {
    !s.contains('\n') && !s.contains('\r')
}

/// Put a text on one line: line feeds and carriage returns become spaces.
pub fn join_lines(s: &str) -> (res: String)
    ensures
        res@ == one_line(s@),
        is_one_line(res@),
{
    let n: usize = s.unicode_len();
    let mut res = "".to_owned();
    let mut i: usize = 0;
    proof {
        reveal_strlit("");
        reveal_strlit(" ");
    }
    while i < n
        invariant
            n == s@.len(),
            i <= n,
            " "@ =~= seq![' '],
            res@ =~= one_line(s@).take(i as int),
        decreases n - i,
    {
        let c = s.get_char(i);
        if c == '\n' || c == '\r' {
            res.append(" ");
        } else {
            res.append(s.substring_char(i, i + 1));
        }
        i += 1;
    }
    res
}

/// Putting a text on one line and cutting it can be done in either order.
proof fn lemma_clip_of_one_line(s: Seq<char>)
    ensures
        one_line(clipped(s)) == clipped(one_line(s)),
        is_one_line(clipped(one_line(s))),
{
    reveal_strlit("…");
    assert(one_line(clipped(s)) =~= clipped(one_line(s)));
    assert forall|i: int| 0 <= i < one_line(clipped(s)).len() implies {
        &&& (#[trigger] one_line(clipped(s))[i]) != '\n'
        &&& one_line(clipped(s))[i] != '\r'
    } by {}
}

/// A short, single-line preview of a request body for story mode.
pub fn preview(body: &[u8]) -> (res: String)
    ensures
        res@ == if body@.len() == 0 {
            ""@
        } else {
            clipped(one_line(utf8_lossy(body@)))
        },
        valid_utf8(body@) && body@.len() > 0 ==> res@ == clipped(one_line(decode_utf8(body@))),
        is_one_line(res@),
{
    proof {
        reveal_strlit("");
        lemma_clip_of_one_line(utf8_lossy(body@));
    }
    if body.len() == 0 {
        return "".to_owned();
    }
    join_lines(clip(from_utf8_lossy(body).as_str()).as_str())
}

/// The `crh_v1` hex of a request.
pub fn crh_hex(
    method: &str,
    scheme: &str,
    authority: &str,
    path: &str,
    query: &str,
    body: &[u8],
) -> (res: String)
    ensures
        res@ == hex(
            crh_v1(
                (PartsView {
                    method: method@,
                    scheme: scheme@,
                    authority: authority@,
                    path: path@,
                    query: query@,
                    body_sha256: sha256(body@),
                }),
            ),
        ),
{
    let parts = CanonicalRequestParts {
        method,
        scheme,
        authority,
        path,
        query,
        body_sha256: sha256_bytes(body),
    };
    hex_encode(&canonical_request_hash(&parts))
}

/// The headers of a demonstration request, with the token if there is one.
pub open spec fn demo_headers(token: Option<Seq<char>>) -> Seq<(Seq<char>, Seq<char>)> {
    match token {
        Some(t) => seq![
            ("content-type"@, "application/json"@),
            ("X-Hawcx-HAAP-Token"@, t),
        ],
        None => seq![("content-type"@, "application/json"@)],
    }
}

/// The headers of a demonstration request, with the token if there is one.
pub fn hdr(tok: Option<&str>) -> (res: Vec<(String, String)>)
    ensures
        header_texts(res@) == demo_headers(opt_str_text(tok)),
{
    let mut h: Vec<(String, String)> = Vec::new();
    h.push(("content-type".to_owned(), "application/json".to_owned()));
    if let Some(t) = tok {
        h.push(("X-Hawcx-HAAP-Token".to_owned(), t.to_owned()));
    }
    assert(header_texts(h@) =~= demo_headers(opt_str_text(tok)));
    h
}

/// A demonstration configuration.
pub open spec fn demo_settings(url: Seq<char>, mode: Mode, fail: FailPolicy) -> ConfigView {
    ConfigView {
        verifier_url: url,
        mode,
        fail,
        timeout_ms: 1000,
        token_header: "x-hawcx-haap-token"@,
        forward_headers: seq!["x-request-id"@],
        strip_token_header: true,
        max_body_bytes: 1048576,
    }
}

/// A demonstration configuration.
pub fn demo_config(url: &str, mode: Mode, fail: FailPolicy) -> (res: ExtAuthzConfig)
    ensures
        res@ == demo_settings(url@, mode, fail),
{
    let mut forward_headers: Vec<String> = Vec::new();
    forward_headers.push("x-request-id".to_owned());
    assert(texts(forward_headers@) =~= seq!["x-request-id"@]);
    ExtAuthzConfig {
        verifier_url: url.to_owned(),
        mode,
        fail,
        timeout_ms: 1000,
        token_header: "x-hawcx-haap-token".to_owned(),
        forward_headers,
        strip_token_header: true,
        max_body_bytes: 1048576,
    }
}

/// The context of a demonstration request.
pub open spec fn demo_context(agent: Seq<char>, sandbox: Seq<char>) -> RequestContextView {
    RequestContextView {
        agent_id: agent,
        on_behalf_of: None,
        agent_class: Some("demo-agent"@),
        sandbox_id: sandbox,
        sandbox_name: Some("demo-sandbox"@),
        endpoint_rule: "github-api"@,
        policy_revision: Some("rev-7"@),
        request_id: Some("req-demo"@),
    }
}

/// The context of a demonstration request.
pub fn ctx<'a>(agent: &'a str, sandbox: &'a str) -> (res: RequestContext<'a>)
    ensures
        res@ == demo_context(agent@, sandbox@),
{
    RequestContext {
        agent_id: agent,
        on_behalf_of: None,
        agent_class: Some("demo-agent"),
        sandbox_id: sandbox,
        sandbox_name: Some("demo-sandbox"),
        endpoint_rule: "github-api",
        policy_revision: Some("rev-7"),
        request_id: Some("req-demo"),
    }
}

/// The scope that demonstration tokens grant.
pub open spec fn granted_scope() -> ScopeView {
    ScopeView { method: "POST"@, authority: AUTHORITY@, path_prefix: "/repos/acme/"@ }
}

/// The scope that demonstration tokens grant.
pub fn good_scope() -> (res: Scope)
    ensures
        res@ == granted_scope(),
{
    Scope {
        method: "POST".to_owned(),
        authority: AUTHORITY.to_owned(),
        path_prefix: "/repos/acme/".to_owned(),
    }
}

/// The claims of a demonstration token, bound to a durable agent principal.
pub fn token_for(
    agent: &str,
    jti: &str,
    crh: Option<String>,
    workload_selector: Option<String>,
    exp_unix_ms: i64,
) -> (res: Claims)
    ensures
        res@ == (ClaimsView {
            jti: jti@,
            agent_id: agent@,
            on_behalf_of: None,
            workload_selector: opt_text(workload_selector),
            scope: granted_scope(),
            crh: opt_text(crh),
            exp_unix_ms,
        }),
{
    Claims {
        jti: jti.to_owned(),
        agent_id: agent.to_owned(),
        on_behalf_of: None,
        workload_selector,
        scope: good_scope(),
        crh,
        exp_unix_ms,
    }
}

/// The allowed flag, reason code, status and message of a decided request.
pub open spec fn detail(d: DecisionView, a: AuditView) -> (
    bool,
    Seq<char>,
    Option<u16>,
    Seq<char>,
) {
    match d {
        DecisionView::Continue { .. } => (
            true,
            a.reason_code,
            None,
            "forwarded to upstream · token stripped"@,
        ),
        DecisionView::Deny(v) => (false, v.reason_code, Some(v.http_status), v.message),
    }
}

/// (allowed, reason_code, http_status, message) extracted from a decision + audit.
pub fn decision_detail(d: &Decision, a: &AuditEvent) -> (res: (bool, String, Option<u16>, String))
    ensures
        (res.0, res.1@, res.2, res.3@) == detail(d@, a@),
{
    match d {
        Decision::Continue { .. } => (
            true,
            a.reason_code.as_str().to_owned(),
            None,
            "forwarded to upstream · token stripped".to_owned(),
        ),
        Decision::Deny(v) => (
            false,
            v.reason_code.as_str().to_owned(),
            Some(v.http_status),
            v.message.as_str().to_owned(),
        ),
    }
}

/// `s` with every occurrence of `from`, found from left to right, replaced by `to`.
pub open spec fn replaced(s: Seq<char>, from: Seq<char>, to: Seq<char>) -> Seq<char>
    decreases s.len(),
{
    if from.len() == 0 || s.len() < from.len() {
        s
    } else if from.is_prefix_of(s) {
        to + replaced(s.skip(from.len() as int), from, to)
    } else {
        seq![s[0]] + replaced(s.drop_first(), from, to)
    }
}

/// Replace every occurrence of `from`, found from left to right, by `to`.
fn replace(s: &str, from: &str, to: &str) -> (res: String)
    requires
        from@.len() > 0,
    ensures
        res@ == replaced(s@, from@, to@),
{
    let n: usize = s.unicode_len();
    let m: usize = from.unicode_len();
    let mut res = "".to_owned();
    let mut i: usize = 0;
    proof {
        reveal_strlit("");
        assert(s@.skip(0) =~= s@);
        assert(res@ + replaced(s@, from@, to@) =~= replaced(s@, from@, to@));
    }
    while n - i >= m
        invariant
            n == s@.len(),
            m == from@.len(),
            m > 0,
            i <= n,
            res@ + replaced(s@.skip(i as int), from@, to@) == replaced(s@, from@, to@),
        decreases n - i,
    {
        let ghost rest = s@.skip(i as int);
        let ghost done = res@;
        let here = s.substring_char(i, i + m);
        assert(here@ =~= rest.take(m as int));
        if str_eq(here, from) {
            assert(from@.is_prefix_of(rest));
            res.append(to);
            assert(rest.skip(m as int) =~= s@.skip(i + m));
            assert(done + (to@ + replaced(s@.skip(i + m), from@, to@)) =~= res@ + replaced(
                s@.skip(i + m),
                from@,
                to@,
            ));
            i = i + m;
        } else {
            assert(!from@.is_prefix_of(rest));
            res.append(s.substring_char(i, i + 1));
            assert(rest.drop_first() =~= s@.skip(i + 1));
            assert(done + (seq![rest[0]] + replaced(s@.skip(i + 1), from@, to@)) =~= res@
                + replaced(s@.skip(i + 1), from@, to@));
            i = i + 1;
        }
    }
    res.append(s.substring_char(i, n));
    assert(s@.subrange(i as int, n as int) =~= s@.skip(i as int));
    res
}

/// Where to revoke an agent at the verifier whose authorize endpoint is given.
pub open spec fn revocation_url(verifier_url: Seq<char>, agent_id: Seq<char>) -> Seq<char> {
    replaced(verifier_url, "/v1/authorize"@, "/v1/revoke/"@ + agent_id)
}

/// Where to revoke an agent at the verifier whose authorize endpoint is given.
pub fn revoke_url(verifier_url: &str, agent_id: &str) -> (res: String)
    ensures
        res@ == revocation_url(verifier_url@, agent_id@),
{
    let mut to = "/v1/revoke/".to_owned();
    to.append(agent_id);
    proof {
        reveal_strlit("/v1/authorize");
    }
    replace(verifier_url, "/v1/authorize", to.as_str())
}

/// One demonstration request and what it is expected to come to.
#[derive(Debug, Clone)]
pub struct Scenario {
    pub name: &'static str,
    /// One-line "why" for story mode: what this scenario exercises.
    pub narrative: &'static str,
    /// An agent to revoke beforehand.
    pub revoke: Option<&'static str>,
    /// What the presented token says, if one is presented.
    pub claims: Option<Claims>,
    /// The acting agent.
    pub agent: &'static str,
    pub sandbox: &'static str,
    pub path: &'static str,
    pub body: &'static str,
    /// Whether the request is presented twice, the second time being the one that counts.
    pub replayed: bool,
    /// Whether the verifier is unreachable.
    pub verifier_down: bool,
    pub expect_allow: bool,
    pub expect_reason: &'static str,
    /// The hash that the token is bound to, where it is to be shown beside the request's own.
    pub bound_crh: Option<String>,
}

/// The view of [`Scenario`].
#[verifier::ext_equal]
pub struct ScenarioView {
    pub name: Seq<char>,
    pub narrative: Seq<char>,
    pub revoke: Option<Seq<char>>,
    pub claims: Option<ClaimsView>,
    pub agent: Seq<char>,
    pub sandbox: Seq<char>,
    pub path: Seq<char>,
    pub body: Seq<char>,
    pub replayed: bool,
    pub verifier_down: bool,
    pub expect_allow: bool,
    pub expect_reason: Seq<char>,
    pub bound_crh: Option<Seq<char>>,
}

impl View for Scenario {
    type V = ScenarioView;

    open spec fn view(&self) -> ScenarioView {
        ScenarioView {
            name: self.name@,
            narrative: self.narrative@,
            revoke: opt_str_text(self.revoke),
            claims: match self.claims {
                Some(c) => Some(c@),
                None => None,
            },
            agent: self.agent@,
            sandbox: self.sandbox@,
            path: self.path@,
            body: self.body@,
            replayed: self.replayed,
            verifier_down: self.verifier_down,
            expect_allow: self.expect_allow,
            expect_reason: self.expect_reason@,
            bound_crh: opt_text(self.bound_crh),
        }
    }
}

/// The `crh_v1` hex of a demonstration request.
pub open spec fn demo_crh(path: Seq<char>, body: Seq<char>) -> Seq<char> {
    hex(
        crh_v1(
            (PartsView {
                method: "POST"@,
                scheme: "https"@,
                authority: AUTHORITY@,
                path,
                query: ""@,
                body_sha256: sha256(encode_utf8(body)),
            }),
        ),
    )
}

/// The claims of a demonstration token for an agent, bound to a request.
pub open spec fn demo_claims(
    agent: Seq<char>,
    jti: Seq<char>,
    path: Seq<char>,
    exp_unix_ms: i64,
) -> ClaimsView {
    ClaimsView {
        jti,
        agent_id: agent,
        on_behalf_of: None,
        workload_selector: None,
        scope: granted_scope(),
        crh: Some(demo_crh(path, BODY@)),
        exp_unix_ms,
    }
}

/// The ordinary case: a single-use token bound to the agent, minted for exactly this request,
/// used by that agent from its sandbox.
pub open spec fn ordinary(jti: Seq<char>, exp_unix_ms: i64) -> ScenarioView {
    ScenarioView {
        name: "allow (valid agent, in-scope, intent-bound)"@,
        narrative:
            "A single-use token bound to the durable agent, minted for exactly this request."@,
        revoke: None,
        claims: Some(demo_claims(AGENT@, jti, PATH@, exp_unix_ms)),
        agent: AGENT@,
        sandbox: SANDBOX@,
        path: PATH@,
        body: BODY@,
        replayed: false,
        verifier_down: false,
        expect_allow: true,
        expect_reason: reason::OK@,
        bound_crh: None,
    }
}

/// A scenario that is to be denied for the given reason, and is else the ordinary case.
pub open spec fn denied(
    name: Seq<char>,
    narrative: Seq<char>,
    jti: Seq<char>,
    exp_unix_ms: i64,
    expect_reason: Seq<char>,
) -> ScenarioView {
    ScenarioView {
        name,
        narrative,
        expect_allow: false,
        expect_reason,
        ..ordinary(jti, exp_unix_ms)
    }
}

/// The demonstration, at a given time: what each scenario changes of the ordinary case.
pub open spec fn demonstration(now_ms: i64) -> Seq<ScenarioView> {
    let exp = (now_ms + 60_000) as i64;
    seq![
        // Happy path.
        ordinary("jti-happy"@, exp),
        // Agent respawn: SAME agent, NEW sandbox id.
        (ScenarioView {
            name: "allow: agent respawned into a new sandbox"@,
            narrative:
                "Same durable agent, fresh sandbox id after a respawn. Bound to the agent, not the sandbox — so it still authorizes."@,
            sandbox: "sbx-run-2"@,
            ..ordinary("jti-respawn"@, exp)
        }),
        // Wrong agent: token minted for one agent, a different agent is acting.
        (ScenarioView {
            agent: "agt-intruder"@,
            ..denied(
                "deny: wrong agent"@,
                "A token minted for one agent, presented while a different agent is acting."@,
                "jti-wrongagent"@,
                exp,
                reason::AGENT_MISMATCH@,
            )
        }),
        // Agent revoked: keyed on the agent, so it applies across sandboxes.
        (ScenarioView {
            revoke: Some("agt-revoked"@),
            agent: "agt-revoked"@,
            claims: Some(demo_claims("agt-revoked"@, "jti-revoked"@, PATH@, exp)),
            ..denied(
                "deny: agent revoked (applies across sandboxes)"@,
                "The agent principal was revoked; every sandbox of that agent is denied — impossible to express if the key were the sandbox."@,
                "jti-revoked"@,
                exp,
                reason::AGENT_REVOKED@,
            )
        }),
        // Workload constraint: the mandate pins a workload selector; off-selector sandbox.
        (ScenarioView {
            sandbox: "sbx-dev-1"@,
            claims: Some(
                (ClaimsView {
                    workload_selector: Some("sbx-prod-"@),
                    ..demo_claims(AGENT@, "jti-workload"@, PATH@, exp)
                }),
            ),
            ..denied(
                "deny: workload constraint (off-selector sandbox)"@,
                "The token's mandate pins a workload selector (sbx-prod-); the agent is acting from an off-selector sandbox."@,
                "jti-workload"@,
                exp,
                reason::WORKLOAD_MISMATCH@,
            )
        }),
        // Replay: the SAME token a second time.
        (ScenarioView {
            replayed: true,
            ..denied(
                "deny: token replay (jti consumed)"@,
                "The same token, replayed. Each action is its own authorization — single-use."@,
                "jti-replay"@,
                exp,
                reason::TOKEN_REPLAYED@,
            )
        }),
        // Out of scope: mandate scoped to /repos/acme/, request hits /repos/evil/.
        (ScenarioView {
            path: EVIL_PATH@,
            claims: Some(demo_claims(AGENT@, "jti-scope"@, EVIL_PATH@, exp)),
            ..denied(
                "deny: out of scope (path prefix)"@,
                "Mandate scoped to /repos/acme/; the request reaches for /repos/evil/."@,
                "jti-scope"@,
                exp,
                reason::INTENT_MISMATCH@,
            )
        }),
        // Intent mismatch: token bound to the ORIGINAL body, request sends a new body.
        (ScenarioView {
            body: TAMPERED_BODY@,
            bound_crh: Some(demo_crh(PATH@, BODY@)),
            ..denied(
                "deny: intent mismatch (body changed after mint)"@,
                "Token minted for this request, then the body was altered before sending."@,
                "jti-intent"@,
                exp,
                reason::INTENT_MISMATCH@,
            )
        }),
        // Expired.
        denied(
            "deny: token expired"@,
            "A well-formed token whose lifetime has already elapsed."@,
            "jti-exp"@,
            (now_ms - 1000) as i64,
            reason::TOKEN_EXPIRED@,
        ),
        // Missing token: local deny, no verifier round trip.
        (ScenarioView {
            claims: None,
            ..denied(
                "deny: token missing (local)"@,
                "No per-action token at all — denied locally, without troubling the verifier."@,
                ""@,
                exp,
                reason::TOKEN_MISSING@,
            )
        }),
        // Fail-closed: verifier unreachable.
        (ScenarioView {
            verifier_down: true,
            ..denied(
                "deny: fail-closed (verifier down)"@,
                "The verifier is unreachable. The secure default is to deny, not wave it through."@,
                "jti-down"@,
                exp,
                reason::VERIFIER_UNAVAILABLE@,
            )
        }),
    ]
}

/// The claims of a demonstration token for an agent, bound to a request with [`BODY`].
fn bound_claims(agent: &str, jti: &str, path: &str, exp_unix_ms: i64) -> (res: Claims)
    ensures
        res@ == demo_claims(agent@, jti@, path@, exp_unix_ms),
{
    let crh = crh_hex("POST", "https", AUTHORITY, path, "", BODY.as_bytes());
    token_for(agent, jti, Some(crh), None, exp_unix_ms)
}

fn ordinary_case(jti: &str, exp_unix_ms: i64) -> (res: Scenario)
    ensures
        res@ == ordinary(jti@, exp_unix_ms),
{
    Scenario {
        name: "allow (valid agent, in-scope, intent-bound)",
        narrative:
            "A single-use token bound to the durable agent, minted for exactly this request.",
        revoke: None,
        claims: Some(bound_claims(AGENT, jti, PATH, exp_unix_ms)),
        agent: AGENT,
        sandbox: SANDBOX,
        path: PATH,
        body: BODY,
        replayed: false,
        verifier_down: false,
        expect_allow: true,
        expect_reason: reason::OK,
        bound_crh: None,
    }
}

fn denied_case(
    name: &'static str,
    narrative: &'static str,
    jti: &str,
    exp_unix_ms: i64,
    expect_reason: &'static str,
) -> (res: Scenario)
    ensures
        res@ == denied(name@, narrative@, jti@, exp_unix_ms, expect_reason@),
{
    let mut s = ordinary_case(jti, exp_unix_ms);
    s.name = name;
    s.narrative = narrative;
    s.expect_allow = false;
    s.expect_reason = expect_reason;
    s
}

/// The views of some scenarios.
pub open spec fn scenario_views(scenarios: Seq<Scenario>) -> Seq<ScenarioView> {
    Seq::new(scenarios.len(), |i: int| scenarios[i]@)
}

fn add_scenario(plan: &mut Vec<Scenario>, scenario: Scenario)
    ensures
        scenario_views(final(plan)@) == scenario_views(old(plan)@).push(scenario@),
{
    plan.push(scenario);
    assert(scenario_views(plan@) =~= scenario_views(old(plan)@).push(scenario@));
}

/// The full scenario suite, for tokens minted at `now_ms`.
pub fn scenarios(now_ms: i64) -> (res: Vec<Scenario>)
    requires
        i64::MIN + 1000 <= now_ms <= i64::MAX - 60_000,
    ensures
        scenario_views(res@) == demonstration(now_ms),
{
    let exp: i64 = now_ms + 60_000;
    let mut plan: Vec<Scenario> = Vec::new();
    assert(scenario_views(plan@) =~= Seq::empty());

    // 1. happy path: valid token bound to the durable agent, in-scope, intent-bound
    add_scenario(&mut plan, ordinary_case("jti-happy", exp));

    // 2. agent respawn: SAME agent, NEW sandbox id -> still allowed (the headline)
    let mut s = ordinary_case("jti-respawn", exp);
    s.name = "allow: agent respawned into a new sandbox";
    s.narrative =
    "Same durable agent, fresh sandbox id after a respawn. Bound to the agent, not the sandbox — so it still authorizes.";
    s.sandbox = "sbx-run-2";
    add_scenario(&mut plan, s);

    // 3. wrong agent: token minted for one agent, a different agent is acting
    let mut s = denied_case(
        "deny: wrong agent",
        "A token minted for one agent, presented while a different agent is acting.",
        "jti-wrongagent",
        exp,
        reason::AGENT_MISMATCH,
    );
    s.agent = "agt-intruder";
    add_scenario(&mut plan, s);

    // 4. agent revoked: revocation is keyed on the agent, so it applies across sandboxes
    let mut s = denied_case(
        "deny: agent revoked (applies across sandboxes)",
        "The agent principal was revoked; every sandbox of that agent is denied — impossible to express if the key were the sandbox.",
        "jti-revoked",
        exp,
        reason::AGENT_REVOKED,
    );
    s.revoke = Some("agt-revoked");
    s.agent = "agt-revoked";
    s.claims = Some(bound_claims("agt-revoked", "jti-revoked", PATH, exp));
    add_scenario(&mut plan, s);

    // 5. workload constraint: the mandate pins a workload selector; off-selector sandbox
    let mut s = denied_case(
        "deny: workload constraint (off-selector sandbox)",
        "The token's mandate pins a workload selector (sbx-prod-); the agent is acting from an off-selector sandbox.",
        "jti-workload",
        exp,
        reason::WORKLOAD_MISMATCH,
    );
    let crh = crh_hex("POST", "https", AUTHORITY, PATH, "", BODY.as_bytes());
    s.sandbox = "sbx-dev-1";
    s.claims = Some(
        token_for(AGENT, "jti-workload", Some(crh), Some("sbx-prod-".to_owned()), exp),
    );
    add_scenario(&mut plan, s);

    // 6. replay: reuse the SAME token a second time -> jti already consumed
    let mut s = denied_case(
        "deny: token replay (jti consumed)",
        "The same token, replayed. Each action is its own authorization — single-use.",
        "jti-replay",
        exp,
        reason::TOKEN_REPLAYED,
    );
    s.replayed = true;
    add_scenario(&mut plan, s);

    // 7. out of scope: mandate scoped to /repos/acme/, request hits /repos/evil/
    let mut s = denied_case(
        "deny: out of scope (path prefix)",
        "Mandate scoped to /repos/acme/; the request reaches for /repos/evil/.",
        "jti-scope",
        exp,
        reason::INTENT_MISMATCH,
    );
    s.path = EVIL_PATH;
    s.claims = Some(bound_claims(AGENT, "jti-scope", EVIL_PATH, exp));
    add_scenario(&mut plan, s);

    // 8. intent mismatch: token crh-bound to the ORIGINAL body, request sends a new body
    let mut s = denied_case(
        "deny: intent mismatch (body changed after mint)",
        "Token minted for this request, then the body was altered before sending.",
        "jti-intent",
        exp,
        reason::INTENT_MISMATCH,
    );
    s.body = TAMPERED_BODY;
    s.bound_crh = Some(crh_hex("POST", "https", AUTHORITY, PATH, "", BODY.as_bytes()));
    add_scenario(&mut plan, s);

    // 9. expired
    add_scenario(
        &mut plan,
        denied_case(
            "deny: token expired",
            "A well-formed token whose lifetime has already elapsed.",
            "jti-exp",
            now_ms - 1000,
            reason::TOKEN_EXPIRED,
        ),
    );

    // 10. missing token: local deny, no verifier round trip
    let mut s = denied_case(
        "deny: token missing (local)",
        "No per-action token at all — denied locally, without troubling the verifier.",
        "",
        exp,
        reason::TOKEN_MISSING,
    );
    s.claims = None;
    add_scenario(&mut plan, s);

    // 11. fail-closed: verifier unreachable
    let mut s = denied_case(
        "deny: fail-closed (verifier down)",
        "The verifier is unreachable. The secure default is to deny, not wave it through.",
        "jti-down",
        exp,
        reason::VERIFIER_UNAVAILABLE,
    );
    s.verifier_down = true;
    add_scenario(&mut plan, s);

    assert(scenario_views(plan@) =~= demonstration(now_ms));
    plan
}

/// What a scenario came to.
#[derive(Debug)]
pub struct ScenarioResult {
    pub name: &'static str,
    /// One-line "why" for story mode: what this scenario exercises.
    pub narrative: &'static str,
    /// A short, printable rendering of the request body (empty if none).
    pub body_preview: String,
    pub body_len: usize,
    pub token_present: bool,
    pub expect_allow: bool,
    pub expect_reason: &'static str,
    pub got_allow: bool,
    pub got_reason: String,
    pub http_status: Option<u16>,
    pub message: String,
    pub crh_hex: Option<String>,
    pub bound_crh: Option<String>,
    pub audit: AuditEvent,
}

/// The view of [`ScenarioResult`].
#[verifier::ext_equal]
pub struct ResultView {
    pub name: Seq<char>,
    pub narrative: Seq<char>,
    pub body_preview: Seq<char>,
    pub body_len: usize,
    pub token_present: bool,
    pub expect_allow: bool,
    pub expect_reason: Seq<char>,
    pub got_allow: bool,
    pub got_reason: Seq<char>,
    pub http_status: Option<u16>,
    pub message: Seq<char>,
    pub crh_hex: Option<Seq<char>>,
    pub bound_crh: Option<Seq<char>>,
    pub audit: AuditView,
}

impl View for ScenarioResult {
    type V = ResultView;

    open spec fn view(&self) -> ResultView {
        ResultView {
            name: self.name@,
            narrative: self.narrative@,
            body_preview: self.body_preview@,
            body_len: self.body_len,
            token_present: self.token_present,
            expect_allow: self.expect_allow,
            expect_reason: self.expect_reason@,
            got_allow: self.got_allow,
            got_reason: self.got_reason@,
            http_status: self.http_status,
            message: self.message@,
            crh_hex: opt_text(self.crh_hex),
            bound_crh: opt_text(self.bound_crh),
            audit: self.audit@,
        }
    }
}

impl ResultView {
    /// Whether the scenario came out as expected.
    pub open spec fn as_expected(self) -> bool {
        self.got_allow == self.expect_allow && self.got_reason == self.expect_reason
    }
}

impl ScenarioResult {
    /// Whether the scenario came out as expected.
    pub fn passed(&self) -> (res: bool)
        ensures
            res == self@.as_expected(),
    {
        self.got_allow == self.expect_allow && str_eq(self.got_reason.as_str(), self.expect_reason)
    }
}

/// What a scenario comes to on a decision and its audit event.
pub open spec fn recorded(s: ScenarioView, d: DecisionView, a: AuditView) -> ResultView {
    let (got_allow, got_reason, http_status, message) = detail(d, a);
    ResultView {
        name: s.name,
        narrative: s.narrative,
        body_preview: clipped(one_line(s.body)),
        body_len: encode_utf8(s.body).len() as usize,
        token_present: s.claims is Some,
        expect_allow: s.expect_allow,
        expect_reason: s.expect_reason,
        got_allow,
        got_reason,
        http_status,
        message,
        crh_hex: a.canonical_request_hash,
        bound_crh: s.bound_crh,
        audit: a,
    }
}

/// The request of a scenario, with the given headers.
pub open spec fn demo_request(
    s: ScenarioView,
    headers: Seq<(Seq<char>, Seq<char>)>,
) -> RequestView {
    RequestView {
        method: "POST"@,
        scheme: "https"@,
        authority: AUTHORITY@,
        path: s.path,
        query: ""@,
        headers,
        body: encode_utf8(s.body),
    }
}

/// What a host does for a scenario.
#[derive(Debug, Clone, Copy)]
pub enum Action {
    /// Revoke the agent at the verifier.
    Revoke(&'static str),
    /// Send the request through the middleware.
    Present,
}

/// The view of [`Action`].
pub enum ActionView {
    Revoke(Seq<char>),
    Present,
}

impl View for Action {
    type V = ActionView;

    open spec fn view(&self) -> ActionView {
        match self {
            Action::Revoke(agent) => ActionView::Revoke(agent@),
            Action::Present => ActionView::Present,
        }
    }
}

/// The views of some actions.
pub open spec fn action_views(actions: Seq<Action>) -> Seq<ActionView> {
    Seq::new(actions.len(), |i: int| actions[i]@)
}

/// What a host does for a scenario: revoke first, then present, a replayed request twice.
pub open spec fn script(s: ScenarioView) -> Seq<ActionView> {
    (match s.revoke {
        Some(agent) => seq![ActionView::Revoke(agent)],
        None => Seq::empty(),
    }) + (if s.replayed {
        seq![ActionView::Present, ActionView::Present]
    } else {
        seq![ActionView::Present]
    })
}

impl Scenario {
    /// What a host does for the scenario, in order.
    pub fn actions(&self) -> (res: Vec<Action>)
        ensures
            action_views(res@) == script(self@),
    {
        let mut res: Vec<Action> = Vec::new();
        if let Some(agent) = self.revoke {
            res.push(Action::Revoke(agent));
        }
        if self.replayed {
            res.push(Action::Present);
        }
        res.push(Action::Present);
        assert(action_views(res@) =~= script(self@));
        res
    }

    /// The authorize endpoint to configure: the verifier's, or one where nothing listens.
    pub fn endpoint<'a>(&self, verifier_url: &'a str, down_url: &'a str) -> (res: &'a str)
        ensures
            res@ == if self@.verifier_down {
                down_url@
            } else {
                verifier_url@
            },
    {
        if self.verifier_down {
            down_url
        } else {
            verifier_url
        }
    }

    /// The context that the request is made in.
    pub fn context(&self) -> (res: RequestContext<'static>)
        ensures
            res@ == demo_context(self@.agent, self@.sandbox),
    {
        ctx(self.agent, self.sandbox)
    }

    /// The request, with headers made by [`hdr`].
    pub fn request<'a>(&self, headers: &'a [(String, String)]) -> (res: EgressRequest<'a>)
        ensures
            res@ == demo_request(self@, header_texts(headers@)),
    {
        EgressRequest {
            method: "POST",
            scheme: "https",
            authority: AUTHORITY,
            path: self.path,
            query: "",
            headers,
            body: self.body.as_bytes(),
        }
    }

    /// Record what the request came to.
    pub fn record(self, d: &Decision, a: AuditEvent) -> (res: ScenarioResult)
        ensures
            res@ == recorded(self@, d@, a@),
            is_one_line(res@.body_preview),
    {
        let body = self.body.as_bytes();
        proof {
            vstd::utf8::encode_utf8_valid_utf8(self.body@);
            vstd::utf8::encode_utf8_decode_utf8(self.body@);
            reveal_strlit("");
            assert(""@ =~= Seq::empty());
        }
        let (got_allow, got_reason, http_status, message) = decision_detail(d, &a);
        let crh_hex = match &a.canonical_request_hash {
            Some(crh) => Some(crh.as_str().to_owned()),
            None => None,
        };
        ScenarioResult {
            name: self.name,
            narrative: self.narrative,
            body_preview: preview(body),
            body_len: body.len(),
            token_present: self.claims.is_some(),
            expect_allow: self.expect_allow,
            expect_reason: self.expect_reason,
            got_allow,
            got_reason,
            http_status,
            message,
            crh_hex,
            bound_crh: self.bound_crh,
            audit: a,
        }
    }
}

/// A preview has at most 38 characters: a text that fits is kept, any other is cut to its first
/// 37 and an ellipsis.
pub proof fn law_a_preview_is_short(s: Seq<char>)
    ensures
        clipped(s).len() <= 38,
        s.len() <= 38 ==> clipped(s) == s,
        s.len() > 38 ==> clipped(s).len() == 38 && clipped(s).take(37) == s.take(37) && clipped(
            s,
        )[37] == '…',
{
    reveal_strlit("…");
    if s.len() > 38 {
        assert(clipped(s).take(37) =~= s.take(37));
    }
}

/// Putting a text on one line changes line feeds and carriage returns to spaces, and nothing
/// else.
pub proof fn law_one_line_changes_line_ends_only(s: Seq<char>, i: int)
    requires
        0 <= i < s.len(),
    ensures
        one_line(s).len() == s.len(),
        s[i] == '\n' || s[i] == '\r' ==> one_line(s)[i] == ' ',
        s[i] != '\n' && s[i] != '\r' ==> one_line(s)[i] == s[i],
        is_one_line(one_line(s)),
{
    assert forall|j: int| 0 <= j < s.len() implies (#[trigger] one_line(s)[j]) != '\n' && one_line(
        s,
    )[j] != '\r' by {}
}

/// Whether `from` stands in `s` at position `i`.
pub open spec fn occurs_at(s: Seq<char>, from: Seq<char>, i: int) -> bool {
    0 <= i && i + from.len() <= s.len() && s.subrange(i, i + from.len()) == from
}

proof fn lemma_occurs_further_on(s: Seq<char>, from: Seq<char>, i: int)
    requires
        s.len() > 0,
        occurs_at(s.drop_first(), from, i),
    ensures
        occurs_at(s, from, i + 1),
{
    let t = s.drop_first();
    assert(s.subrange(i + 1, i + 1 + from.len()) =~= t.subrange(i, i + from.len()));
}

/// Replacing leaves a text without an occurrence as it is.
pub proof fn law_nothing_is_replaced_where_nothing_occurs(
    s: Seq<char>,
    from: Seq<char>,
    to: Seq<char>,
)
    requires
        forall|i: int| !occurs_at(s, from, i),
    ensures
        replaced(s, from, to) == s,
    decreases s.len(),
{
    if from.len() > 0 && s.len() >= from.len() {
        let t = s.drop_first();
        assert(!occurs_at(s, from, 0));
        assert forall|i: int| !occurs_at(t, from, i) by {
            if occurs_at(t, from, i) {
                lemma_occurs_further_on(s, from, i);
            }
        }
        law_nothing_is_replaced_where_nothing_occurs(t, from, to);
        assert(seq![s[0]] + t =~= s);
    }
}

/// Replacing goes from left to right: the first occurrence is replaced, and the rest is treated
/// likewise.
pub proof fn law_the_first_occurrence_is_replaced(
    head: Seq<char>,
    from: Seq<char>,
    tail: Seq<char>,
    to: Seq<char>,
)
    requires
        from.len() > 0,
        forall|i: int| i < head.len() ==> !occurs_at(head + from + tail, from, i),
    ensures
        replaced(head + from + tail, from, to) == head + to + replaced(tail, from, to),
    decreases head.len(),
{
    let s = head + from + tail;
    if head.len() == 0 {
        assert(s.subrange(0, from.len() as int) =~= from);
        assert(s.skip(from.len() as int) =~= tail);
        assert(head + to + replaced(tail, from, to) =~= to + replaced(tail, from, to));
    } else {
        let h = head.drop_first();
        assert(!occurs_at(s, from, 0));
        assert(s.drop_first() =~= h + from + tail);
        assert forall|i: int| i < h.len() implies !occurs_at(h + from + tail, from, i) by {
            if occurs_at(h + from + tail, from, i) {
                lemma_occurs_further_on(s, from, i);
            }
        }
        law_the_first_occurrence_is_replaced(h, from, tail, to);
        assert(seq![s[0]] + (h + to + replaced(tail, from, to)) =~= head + to + replaced(
            tail,
            from,
            to,
        ));
    }
}

/// The revocation endpoint stands where the authorize endpoint does.
pub proof fn law_the_revocation_endpoint_replaces_the_authorize_endpoint(
    base: Seq<char>,
    tail: Seq<char>,
    agent_id: Seq<char>,
)
    requires
        forall|i: int|
            i < base.len() ==> !occurs_at(base + "/v1/authorize"@ + tail, "/v1/authorize"@, i),
        forall|i: int| !occurs_at(tail, "/v1/authorize"@, i),
    ensures
        revocation_url(base + "/v1/authorize"@ + tail, agent_id) == base + ("/v1/revoke/"@
            + agent_id) + tail,
{
    reveal_strlit("/v1/authorize");
    let from = "/v1/authorize"@;
    assert(from.len() > 0);
    law_the_first_occurrence_is_replaced(base, from, tail, "/v1/revoke/"@ + agent_id);
    law_nothing_is_replaced_where_nothing_occurs(tail, from, "/v1/revoke/"@ + agent_id);
}

/// What a decision is told as: where the request continues, allowed with the audited reason and no
/// status; where it is blocked, the block's own reason, status and message.
pub proof fn law_what_a_decision_is_told_as(d: DecisionView, a: AuditView)
    ensures
        ({
            let (allowed, reason, status, message) = detail(d, a);
            &&& allowed <==> d is Continue
            &&& d is Continue ==> reason == a.reason_code && status is None && message
                == "forwarded to upstream · token stripped"@
            &&& d is Deny ==> reason == d->Deny_0.reason_code && status == Some(
                d->Deny_0.http_status,
            ) && message == d->Deny_0.message
        }),
{
}

/// A record holds the scenario's expectation beside what came of it, and passes exactly where
/// the two agree on the decision and the reason.
pub proof fn law_a_record_holds_expectation_and_outcome(
    s: ScenarioView,
    d: DecisionView,
    a: AuditView,
)
    ensures
        ({
            let r = recorded(s, d, a);
            let reason = if d is Continue {
                a.reason_code
            } else {
                d->Deny_0.reason_code
            };
            &&& r.name == s.name
            &&& r.narrative == s.narrative
            &&& r.body_preview == clipped(one_line(s.body))
            &&& r.body_len == encode_utf8(s.body).len() as usize
            &&& r.token_present == (s.claims is Some)
            &&& r.expect_allow == s.expect_allow
            &&& r.expect_reason == s.expect_reason
            &&& r.got_allow == (d is Continue)
            &&& r.got_reason == reason
            &&& r.http_status is Some <==> d is Deny
            &&& d is Deny ==> r.http_status == Some(d->Deny_0.http_status) && r.message
                == d->Deny_0.message
            &&& d is Continue ==> r.message == "forwarded to upstream · token stripped"@
            &&& r.crh_hex == a.canonical_request_hash
            &&& r.bound_crh == s.bound_crh
            &&& r.audit == a
            &&& r.as_expected() <==> s.expect_allow == (d is Continue) && s.expect_reason == reason
        }),
{
}

/// A result is as expected exactly where decision and reason are the expected ones.
pub proof fn law_as_expected_means_decision_and_reason(r: ResultView)
    ensures
        r.as_expected() <==> r.got_allow == r.expect_allow && r.got_reason == r.expect_reason,
{
}

/// A scenario ends with a presentation, makes one more exactly where it is a replay, and begins
/// with a revocation exactly where it names an agent to revoke.
pub proof fn law_what_a_host_does(s: ScenarioView)
    ensures
        script(s).last() is Present,
        script(s).len() == 1 + (if s.replayed {
            1int
        } else {
            0
        }) + (if s.revoke is Some {
            1int
        } else {
            0
        }),
        s.revoke is Some ==> script(s)[0] == ActionView::Revoke(s.revoke->0),
        forall|i: int|
            0 <= i < script(s).len() && (s.revoke is None || i > 0) ==> (#[trigger] script(s)[i])
                is Present,
{
}

/// The headers of a demonstration request hold its token under the token header, if it has one,
/// beside the content type.
pub proof fn law_what_a_demonstration_request_holds(
    s: ScenarioView,
    headers: Seq<(Seq<char>, Seq<char>)>,
    token: Seq<char>,
    agent: Seq<char>,
    sandbox: Seq<char>,
)
    ensures
        demo_headers(None).len() == 1,
        demo_headers(Some(token)).len() == 2,
        demo_headers(Some(token))[0] == demo_headers(None)[0],
        demo_headers(None)[0] == ("content-type"@, "application/json"@),
        demo_headers(Some(token))[1] == ("X-Hawcx-HAAP-Token"@, token),
        demo_request(s, headers).method == "POST"@,
        demo_request(s, headers).scheme == "https"@,
        demo_request(s, headers).authority == "api.github.com"@,
        demo_request(s, headers).path == s.path,
        demo_request(s, headers).query == ""@,
        demo_request(s, headers).headers == headers,
        demo_request(s, headers).body == encode_utf8(s.body),
        demo_context(agent, sandbox).agent_id == agent,
        demo_context(agent, sandbox).sandbox_id == sandbox,
        demo_context(agent, sandbox).on_behalf_of is None,
        demo_context(agent, sandbox).agent_class == Some("demo-agent"@),
        demo_context(agent, sandbox).sandbox_name == Some("demo-sandbox"@),
        demo_context(agent, sandbox).endpoint_rule == "github-api"@,
        demo_context(agent, sandbox).policy_revision == Some("rev-7"@),
        demo_context(agent, sandbox).request_id == Some("req-demo"@),
{
}

/// A demonstration configuration is what it is asked to be in endpoint, mode and fail policy, and
/// strips the token.
pub proof fn law_what_a_demonstration_is_configured_to(
    url: Seq<char>,
    mode: Mode,
    fail: FailPolicy,
)
    ensures
        demo_settings(url, mode, fail).verifier_url == url,
        demo_settings(url, mode, fail).mode == mode,
        demo_settings(url, mode, fail).fail == fail,
        demo_settings(url, mode, fail).timeout_ms == 1000,
        demo_settings(url, mode, fail).token_header == "x-hawcx-haap-token"@,
        demo_settings(url, mode, fail).forward_headers == seq!["x-request-id"@],
        demo_settings(url, mode, fail).strip_token_header,
        demo_settings(url, mode, fail).max_body_bytes == 1024 * 1024,
{
}

/// Every token of the demonstration is bound to the hash of a POST of [`BODY`] to its scenario's
/// path, grants the one scope, and lives a minute from the start, but for the one that expired a
/// second before it. Only the replay is presented twice, only the last scenario finds no
/// verifier, and only the two first are expected to be allowed.
#[verifier::spinoff_prover]
pub proof fn law_what_the_demonstration_is_made_of(now_ms: i64, i: int)
    requires
        i64::MIN + 1000 <= now_ms <= i64::MAX - 60_000,
        0 <= i < demonstration(now_ms).len(),
    ensures
        demonstration(now_ms).len() == 11,
        ({
            let s = demonstration(now_ms)[i];
            let c = s.claims->0;
            &&& s.claims is None <==> i == 9
            &&& s.claims is Some ==> {
                &&& c.crh == Some(
                    hex(
                        crh_v1(
                            (PartsView {
                                method: "POST"@,
                                scheme: "https"@,
                                authority: "api.github.com"@,
                                path: s.path,
                                query: ""@,
                                body_sha256: sha256(encode_utf8(BODY@)),
                            }),
                        ),
                    ),
                )
                &&& c.exp_unix_ms == if i == 8 {
                    now_ms - 1000
                } else {
                    now_ms + 60_000
                }
                &&& c.on_behalf_of is None
                &&& c.workload_selector == if i == 4 {
                    Some("sbx-prod-"@)
                } else {
                    None
                }
                &&& c.agent_id == if i == 3 {
                    "agt-revoked"@
                } else {
                    AGENT@
                }
                &&& c.scope.method == "POST"@
                &&& c.scope.authority == "api.github.com"@
                &&& c.scope.path_prefix == "/repos/acme/"@
            }
            &&& s.agent == if i == 2 {
                "agt-intruder"@
            } else if i == 3 {
                "agt-revoked"@
            } else {
                AGENT@
            }
            &&& s.sandbox == if i == 1 {
                "sbx-run-2"@
            } else if i == 4 {
                "sbx-dev-1"@
            } else {
                SANDBOX@
            }
            &&& s.path == if i == 6 {
                EVIL_PATH@
            } else {
                PATH@
            }
            &&& s.body == if i == 7 {
                TAMPERED_BODY@
            } else {
                BODY@
            }
            &&& s.replayed <==> i == 5
            &&& s.verifier_down <==> i == 10
            &&& s.revoke == if i == 3 {
                Some("agt-revoked"@)
            } else {
                None
            }
            &&& s.expect_allow <==> i < 2
            &&& s.bound_crh is Some <==> i == 7
            &&& i == 7 ==> s.bound_crh == c.crh
        }),
{
}

/// The views of scenarios, actions and results show every field.
pub proof fn law_driver_types_show_every_field(s: Scenario, r: ScenarioResult, agent: &'static str)
    ensures
        s@.name == s.name@,
        s@.narrative == s.narrative@,
        s@.revoke == opt_str_text(s.revoke),
        s.claims is None ==> s@.claims is None,
        s.claims is Some ==> s@.claims == Some(s.claims->0@),
        s@.agent == s.agent@,
        s@.sandbox == s.sandbox@,
        s@.path == s.path@,
        s@.body == s.body@,
        s@.replayed == s.replayed,
        s@.verifier_down == s.verifier_down,
        s@.expect_allow == s.expect_allow,
        s@.expect_reason == s.expect_reason@,
        s@.bound_crh == opt_text(s.bound_crh),
        Action::Revoke(agent)@ == ActionView::Revoke(agent@),
        Action::Present@ is Present,
        r@.name == r.name@,
        r@.narrative == r.narrative@,
        r@.body_preview == r.body_preview@,
        r@.body_len == r.body_len,
        r@.token_present == r.token_present,
        r@.expect_allow == r.expect_allow,
        r@.expect_reason == r.expect_reason@,
        r@.got_allow == r.got_allow,
        r@.got_reason == r.got_reason@,
        r@.http_status == r.http_status,
        r@.message == r.message@,
        r@.crh_hex == opt_text(r.crh_hex),
        r@.bound_crh == opt_text(r.bound_crh),
        r@.audit == r.audit@,
{
}

/// The views of scenarios and actions are theirs, one for one.
pub proof fn law_scenario_views_are_the_scenarios_in_order(
    scenarios: Seq<Scenario>,
    actions: Seq<Action>,
)
    ensures
        scenario_views(scenarios).len() == scenarios.len(),
        forall|i: int|
            0 <= i < scenarios.len() ==> (#[trigger] scenario_views(scenarios)[i]) == scenarios[i]@,
        action_views(actions).len() == actions.len(),
        forall|i: int|
            0 <= i < actions.len() ==> (#[trigger] action_views(actions)[i]) == actions[i]@,
{
}

} // verus!
