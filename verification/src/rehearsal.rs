//! The demonstration as a whole: what each of its scenarios comes to when a middleware and a
//! fresh guard play it, one after the other.

use vstd::prelude::*;
use vstd::string::is_ascii_spec_bytes;
use vstd::utf8::encode_utf8;

use crate::config::{normalized_config, ConfigView, FailPolicy, Mode, DEFAULT_TOKEN_HEADER};
use crate::driver::{
    demo_context, demo_crh, demo_headers, demo_request, demo_settings, demonstration,
    granted_scope, recorded, ResultView, ScenarioView, AGENT, BODY, EVIL_PATH, PATH, TAMPERED_BODY,
};
use crate::guard::{
    after, in_scope, opened_token, path_matches, recomputed_crh, verdict, StateView,
};
use crate::laws::lemma_lower_of_upper;
use crate::middleware::{
    asking_audit, lemma_question_is_consistent, local_deny, local_refusal, opening_audit, question,
    resolution, values_of, AuditView, DecisionView, OutcomeView, RequestView,
};
use crate::primitives::sha256;
use crate::render::all_as_expected;
use crate::text::lower;
use crate::token::token_claims;
use crate::types::AuthorizeRequestView;

verus! {

/// What the surroundings bring to a scenario: the token that was minted for it, the guard's
/// clock at either presentation, the middleware's two clock readings, and how the verifier is
/// found unreachable and how long it took.
pub struct Setting {
    pub token: Seq<char>,
    pub first_ms: i64,
    pub now_ms: i64,
    pub ts_unix_ms: i64,
    pub received_at_unix_ms: i64,
    pub unreachable: Seq<char>,
    pub latency_ns: u64,
}

/// The configuration that scenarios are played with.
pub open spec fn stage(url: Seq<char>) -> ConfigView {
    normalized_config(demo_settings(url, Mode::Enforce, FailPolicy::Closed))
}

/// The request of a scenario as it is presented: with its token, if it has one.
pub open spec fn presented(s: ScenarioView, token: Seq<char>) -> RequestView {
    demo_request(
        s,
        demo_headers(
            if s.claims is Some {
                Some(token)
            } else {
                None
            },
        ),
    )
}

/// The middleware's question about a scenario's request.
pub open spec fn asked(s: ScenarioView, url: Seq<char>, at: Setting) -> AuthorizeRequestView {
    question(
        stage(url),
        demo_context(s.agent, s.sandbox),
        presented(s, at.token),
        at.received_at_unix_ms,
    )
}

/// What one presentation comes to at the guard's time `now_ms`: refused locally, without a
/// verifier, or decided by the guard.
pub open spec fn presentation(
    s: ScenarioView,
    url: Seq<char>,
    at: Setting,
    guard: StateView,
    now_ms: i64,
) -> (DecisionView, AuditView) {
    let cfg = stage(url);
    let ctx = demo_context(s.agent, s.sandbox);
    let req = presented(s, at.token);
    match local_refusal(cfg, req) {
        Some((code, message)) => local_deny(
            cfg,
            opening_audit(cfg, ctx, req, at.ts_unix_ms),
            code,
            message,
        ),
        None => resolution(
            cfg,
            asking_audit(cfg, ctx, req, at.ts_unix_ms),
            if s.verifier_down {
                OutcomeView::Unavailable(at.unreachable)
            } else {
                OutcomeView::Verdict(verdict(guard, asked(s, url, at), s.claims, now_ms))
            },
            at.latency_ns,
        ),
    }
}

/// The guard after one presentation.
pub open spec fn after_presentation(
    s: ScenarioView,
    url: Seq<char>,
    at: Setting,
    guard: StateView,
    now_ms: i64,
) -> StateView {
    if local_refusal(stage(url), presented(s, at.token)) is Some || s.verifier_down {
        guard
    } else {
        after(guard, asked(s, url, at), s.claims, now_ms)
    }
}

/// The guard when the presentation that counts is made: an agent may have been revoked, and a
/// replayed request was presented before.
pub open spec fn prepared(s: ScenarioView, url: Seq<char>, at: Setting, guard: StateView) -> StateView {
    let revoked = match s.revoke {
        Some(agent) => StateView { revoked_agents: guard.revoked_agents.insert(agent), ..guard },
        None => guard,
    };
    if s.replayed {
        after_presentation(s, url, at, revoked, at.first_ms)
    } else {
        revoked
    }
}

/// What a scenario comes to.
pub open spec fn played(s: ScenarioView, url: Seq<char>, at: Setting, guard: StateView) -> ResultView {
    let (decision, audit) = presentation(s, url, at, prepared(s, url, at, guard), at.now_ms);
    recorded(s, decision, audit)
}

/// The guard after a scenario.
pub open spec fn after_playing(s: ScenarioView, url: Seq<char>, at: Setting, guard: StateView) -> StateView {
    after_presentation(s, url, at, prepared(s, url, at, guard), at.now_ms)
}

/// The guard after the first scenarios.
pub open spec fn after_all(
    plan: Seq<ScenarioView>,
    url: Seq<char>,
    settings: Seq<Setting>,
    guard: StateView,
) -> StateView
    decreases plan.len(),
{
    if plan.len() == 0 {
        guard
    } else {
        after_playing(
            plan.last(),
            url,
            settings[plan.len() - 1],
            after_all(plan.drop_last(), url, settings, guard),
        )
    }
}

/// What the scenarios come to, played in order.
pub open spec fn performance(
    plan: Seq<ScenarioView>,
    url: Seq<char>,
    settings: Seq<Setting>,
    guard: StateView,
) -> Seq<ResultView> {
    Seq::new(
        plan.len(),
        |i: int| played(plan[i], url, settings[i], after_all(plan.take(i), url, settings, guard)),
    )
}

/// A guard that has consumed and revoked nothing.
pub open spec fn fresh_guard(key: Seq<u8>) -> StateView {
    StateView { key, seen_jti: Set::empty(), revoked_agents: Set::empty() }
}

/// Whether a setting is one that the demonstration is meant for: the token is authentic, and
/// the guard's clock lies within the lifetime of tokens minted at `start_ms`.
pub open spec fn proper(at: Setting, key: Seq<u8>, start_ms: i64) -> bool {
    &&& token_claims(at.token, key) is Ok
    &&& start_ms <= at.first_ms <= start_ms + 60_000
    &&& start_ms <= at.now_ms <= start_ms + 60_000
}

/// The bodies of the demonstration are within the body limit.
proof fn lemma_bodies_fit()
    ensures
        encode_utf8(BODY@).len() <= 1048576,
        encode_utf8(TAMPERED_BODY@).len() <= 1048576,
{
    reveal_strlit("{\"title\":\"fix egress\"}");
    reveal_strlit("{\"title\":\"exfiltrate secrets\"}");
    is_ascii_spec_bytes(BODY);
    is_ascii_spec_bytes(TAMPERED_BODY);
}

/// The token header is in lower case, and is the one that the guard reads.
proof fn lemma_stage(url: Seq<char>)
    ensures
        stage(url).token_header == DEFAULT_TOKEN_HEADER@,
        lower(DEFAULT_TOKEN_HEADER@) == DEFAULT_TOKEN_HEADER@,
{
    reveal_strlit("x-hawcx-haap-token");
    assert(lower("x-hawcx-haap-token"@) =~= "x-hawcx-haap-token"@);
}

/// The headers of a demonstration request carry its token, and no other.
proof fn lemma_tokens(token: Seq<char>)
    ensures
        values_of(demo_headers(Some(token)), DEFAULT_TOKEN_HEADER@) == seq![token],
        values_of(demo_headers(None), DEFAULT_TOKEN_HEADER@).len() == 0,
{
    reveal_strlit("x-hawcx-haap-token");
    reveal_strlit("X-Hawcx-HAAP-Token");
    reveal_strlit("content-type");
    reveal_with_fuel(values_of, 3);
    assert(lower("content-type"@).len() != lower("x-hawcx-haap-token"@).len());
    assert(lower("X-Hawcx-HAAP-Token"@) =~= lower("x-hawcx-haap-token"@));
    let h = demo_headers(Some(token));
    assert(h.drop_first() =~= seq![("X-Hawcx-HAAP-Token"@, token)]);
    assert(h.drop_first().drop_first() =~= Seq::empty());
    assert(values_of(h, DEFAULT_TOKEN_HEADER@) =~= seq![token]);
    let none = demo_headers(None);
    assert(none.drop_first() =~= Seq::empty());
}

/// What the guard is asked about a scenario that carries a token.
proof fn lemma_asked(s: ScenarioView, url: Seq<char>, at: Setting, guard: StateView)
    requires
        s.claims is Some,
        s.body == BODY@ || s.body == TAMPERED_BODY@,
        token_claims(at.token, guard.key) is Ok,
        forall|m: Seq<u8>| (#[trigger] sha256(m)).len() == 32,
    ensures
        local_refusal(stage(url), presented(s, at.token)) is None,
        opened_token(guard.key, asked(s, url, at).credentials) is Ok,
        asked(s, url, at).request.canonical_request_hash == demo_crh(s.path, s.body),
        recomputed_crh(asked(s, url, at).request) == Some(demo_crh(s.path, s.body)),
        in_scope(asked(s, url, at).request, granted_scope()) == path_matches(
            s.path,
            "/repos/acme/"@,
        ),
{
    let req = presented(s, at.token);
    lemma_bodies_fit();
    lemma_stage(url);
    lemma_tokens(at.token);
    assert(sha256(req.body).len() == 32);
    lemma_question_is_consistent(
        stage(url),
        demo_context(s.agent, s.sandbox),
        req,
        at.received_at_unix_ms,
    );
    lemma_lower_of_upper(req.method);
}

/// The scope of the demonstration covers its path, and not the other one.
proof fn lemma_scope()
    ensures
        path_matches(PATH@, "/repos/acme/"@),
        !path_matches(EVIL_PATH@, "/repos/acme/"@),
{
    reveal_strlit("/repos/acme/");
    reveal_strlit("/repos/acme/widgets/issues");
    reveal_strlit("/repos/evil/exfil/contents");
    let prefix = "/repos/acme/"@;
    assert(prefix =~= PATH@.subrange(0, 12));
    assert(prefix[7] == 'a');
    assert(EVIL_PATH@[7] == 'e');
    if prefix.is_prefix_of(EVIL_PATH@) {
        assert(EVIL_PATH@.subrange(0, 12)[7] == 'e');
    }
    assert(EVIL_PATH@.len() != prefix.len());
}

/// The names of the demonstration differ where it matters.
proof fn lemma_names()
    ensures
        AGENT@ != "agt-intruder"@,
        AGENT@ != "agt-revoked"@,
        !"sbx-prod-"@.is_prefix_of("sbx-dev-1"@),
        "jti-happy"@ != "jti-respawn"@,
        "jti-happy"@ != "jti-replay"@,
        "jti-respawn"@ != "jti-replay"@,
{
    reveal_strlit("agt-7f3a");
    reveal_strlit("agt-intruder");
    reveal_strlit("agt-revoked");
    assert(AGENT@.len() == 8 && "agt-intruder"@.len() == 12 && "agt-revoked"@.len() == 11);
    reveal_strlit("sbx-prod-");
    reveal_strlit("sbx-dev-1");
    assert("sbx-prod-"@[4] == 'p');
    if "sbx-prod-"@.is_prefix_of("sbx-dev-1"@) {
        assert("sbx-dev-1"@.subrange(0, 9)[4] == 'd');
    }
    reveal_strlit("jti-happy");
    reveal_strlit("jti-respawn");
    reveal_strlit("jti-replay");
    assert("jti-happy"@.len() == 9 && "jti-respawn"@.len() == 11 && "jti-replay"@.len() == 10);
}

/// The guard as the demonstration leaves it after `n` scenarios.
spec fn midway(key: Seq<u8>, n: int) -> StateView {
    StateView {
        key,
        seen_jti: if n == 0 {
            Set::empty()
        } else if n == 1 {
            set!["jti-happy"@]
        } else if n < 6 {
            set!["jti-happy"@, "jti-respawn"@]
        } else {
            set!["jti-happy"@, "jti-respawn"@, "jti-replay"@]
        },
        revoked_agents: if n < 4 {
            Set::empty()
        } else {
            set!["agt-revoked"@]
        },
    }
}

/// One scenario of the demonstration comes out as expected, and leaves the guard as it should.
#[verifier::spinoff_prover]
proof fn lemma_scenario(
    start_ms: i64,
    n: int,
    url: Seq<char>,
    at: Setting,
    key: Seq<u8>,
)
    requires
        i64::MIN + 1000 <= start_ms <= i64::MAX - 60_000,
        0 <= n < 11,
        proper(at, key, start_ms),
        forall|m: Seq<u8>| (#[trigger] sha256(m)).len() == 32,
        demo_crh(PATH@, BODY@) != demo_crh(PATH@, TAMPERED_BODY@),
    ensures
        played(demonstration(start_ms)[n], url, at, midway(key, n)).as_expected(),
        after_playing(demonstration(start_ms)[n], url, at, midway(key, n)) == midway(key, n + 1),
{
    let s = demonstration(start_ms)[n];
    let guard = midway(key, n);
    lemma_scope();
    lemma_names();
    lemma_stage(url);
    lemma_tokens(at.token);
    if s.claims is Some {
        lemma_asked(s, url, at, guard);
    }
    assert(after_playing(s, url, at, guard) =~= midway(key, n + 1));
}

/// The demonstration comes out as expected: whatever the verifier's address, played in order
/// with authentic tokens within their lifetime, against a guard that has consumed and revoked
/// nothing, every scenario is decided as it says. Digests are 32 bytes long, and the hash
/// tells the changed body from the one that the tokens were minted for.
pub proof fn law_the_demonstration_comes_out_as_expected(
    start_ms: i64,
    url: Seq<char>,
    settings: Seq<Setting>,
    key: Seq<u8>,
)
    requires
        i64::MIN + 1000 <= start_ms <= i64::MAX - 60_000,
        settings.len() == 11,
        forall|i: int| 0 <= i < 11 ==> proper(#[trigger] settings[i], key, start_ms),
        forall|m: Seq<u8>| (#[trigger] sha256(m)).len() == 32,
        demo_crh(PATH@, BODY@) != demo_crh(PATH@, TAMPERED_BODY@),
    ensures
        performance(demonstration(start_ms), url, settings, fresh_guard(key)).len() == 11,
        all_as_expected(performance(demonstration(start_ms), url, settings, fresh_guard(key))),
{
    let plan = demonstration(start_ms);
    let results = performance(plan, url, settings, fresh_guard(key));
    assert forall|i: int| 0 <= i < 11 implies (#[trigger] results[i]).as_expected() by {
        lemma_midway(start_ms, i, url, settings, key);
        lemma_scenario(start_ms, i, url, settings[i], key);
    }
}

proof fn lemma_midway(
    start_ms: i64,
    n: int,
    url: Seq<char>,
    settings: Seq<Setting>,
    key: Seq<u8>,
)
    requires
        i64::MIN + 1000 <= start_ms <= i64::MAX - 60_000,
        0 <= n <= 11,
        settings.len() == 11,
        forall|i: int| 0 <= i < 11 ==> proper(#[trigger] settings[i], key, start_ms),
        forall|m: Seq<u8>| (#[trigger] sha256(m)).len() == 32,
        demo_crh(PATH@, BODY@) != demo_crh(PATH@, TAMPERED_BODY@),
    ensures
        after_all(demonstration(start_ms).take(n), url, settings, fresh_guard(key)) == midway(
            key,
            n,
        ),
    decreases n,
{
    let plan = demonstration(start_ms);
    if n > 0 {
        lemma_midway(start_ms, n - 1, url, settings, key);
        lemma_scenario(start_ms, n - 1, url, settings[n - 1], key);
        assert(plan.take(n).drop_last() =~= plan.take(n - 1));
        assert(plan.take(n).last() == plan[n - 1]);
    }
}

} // verus!
