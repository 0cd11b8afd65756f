use ext_authz::config::{FailPolicy, Mode};
use ext_authz::driver::{
    clip, decision_detail, demo_config, hdr, join_lines, preview, revoke_url, scenarios, Action, Scenario,
    ScenarioResult,
};
use ext_authz::guard::VerifierState;
use ext_authz::middleware::{
    AuditEvent, Decision, ExtAuthzMiddleware, Step, TransportError, VerifierOutcome,
};
use ext_authz::render::{
    render_table, short, story_introduction, story_opening, story_outcome, story_prompt, summary,
    table_line, Colors, RULE,
};
use ext_authz::token::{mint, DEMO_KEY};

const NOW: i64 = 1_700_000_000_000;

/// Plays a scenario with the guard in process. The claims stand for their own encoding: the
/// token is minted over the nonce.
fn play(guard: &mut VerifierState, scenario: Scenario) -> ScenarioResult {
    let url = scenario.endpoint("http://up/v1/authorize", "http://down/v1/authorize");
    let mw = ExtAuthzMiddleware::new(demo_config(url, Mode::Enforce, FailPolicy::Closed));
    let token = scenario
        .claims
        .as_ref()
        .map(|c| mint(c.jti.as_bytes(), &DEMO_KEY));
    let headers = hdr(token.as_deref());
    let mut last: Option<(Decision, AuditEvent)> = None;
    for action in scenario.actions() {
        match action {
            Action::Revoke(agent) => guard.revoke_agent(agent),
            Action::Present => {
                let request = scenario.request(&headers);
                last = Some(match mw.evaluate(&scenario.context(), &request, NOW, NOW) {
                    Step::Done(decision, audit) => (decision, audit),
                    Step::Ask(wire, audit) => {
                        let outcome = if url == "http://down/v1/authorize" {
                            VerifierOutcome::from_send_error(&TransportError {
                                timeout: false,
                                connect: true,
                                decode: false,
                                status: None,
                                body: false,
                            })
                        } else {
                            let opened = guard.open_token(&wire).unwrap();
                            let claims = scenario.claims.clone().unwrap();
                            assert_eq!(opened, claims.jti.as_bytes());
                            VerifierOutcome::Verdict(guard.authorize(&wire, Some(claims), NOW))
                        };
                        mw.resolve(audit, outcome, 420_000)
                    }
                });
            }
        }
    }
    let (decision, audit) = last.unwrap();
    scenario.record(&decision, audit)
}

fn play_all() -> Vec<ScenarioResult> {
    let mut guard = VerifierState::new(DEMO_KEY.to_vec());
    scenarios(NOW)
        .into_iter()
        .map(|s| play(&mut guard, s))
        .collect()
}

#[test]
fn all_scenarios_are_as_expected() {
    let results = play_all();
    let got: Vec<(bool, &str, Option<u16>)> = results
        .iter()
        .map(|r| (r.got_allow, r.got_reason.as_str(), r.http_status))
        .collect();
    assert_eq!(
        got,
        vec![
            (true, "OK", None),
            (true, "OK", None),
            (false, "AGENT_MISMATCH", Some(403)),
            (false, "AGENT_REVOKED", Some(403)),
            (false, "WORKLOAD_MISMATCH", Some(403)),
            (false, "TOKEN_REPLAYED", Some(403)),
            (false, "INTENT_MISMATCH", Some(403)),
            (false, "INTENT_MISMATCH", Some(403)),
            (false, "TOKEN_EXPIRED", Some(403)),
            (false, "TOKEN_MISSING", Some(403)),
            (false, "VERIFIER_UNAVAILABLE", Some(503)),
        ]
    );
    assert!(results.iter().all(ScenarioResult::passed));
    assert_eq!(
        summary(&results),
        Ok("  11 scenarios, all as expected.\n".to_string())
    );
}

#[test]
fn a_mismatch_fails_the_demonstration() {
    let mut results = play_all();
    results[0].expect_allow = false;
    assert!(!results[0].passed());
    assert_eq!(
        summary(&results),
        Err("one or more scenarios did not match the expected outcome".to_string())
    );
    results[0].expect_allow = true;
    results[0].expect_reason = "OTHER";
    assert!(!results[0].passed());
    assert_eq!(
        summary(&[]),
        Ok("  0 scenarios, all as expected.\n".to_string())
    );
}

#[test]
fn the_changed_body_is_shown_beside_what_was_authorized() {
    let results = play_all();
    let changed = &results[7];
    assert_eq!(
        changed.crh_hex.as_deref(),
        Some("934b208d7c391f16622d199dabaf0c12187d7928e4e3b2ec1767c04cc2107508")
    );
    assert_eq!(
        changed.bound_crh.as_deref(),
        Some("362355bedda9c2511a0b5f3f26362618702f0baad6539f7debaf2e7e315bd21a")
    );
    assert_eq!(changed.body_preview, "{\"title\":\"exfiltrate secrets\"}");
    assert_eq!(changed.body_len, 30);
    assert!(changed.token_present);
    assert!(!results[9].token_present);
    assert!(results[9].crh_hex.is_none());
}

#[test]
fn tokens_of_the_demonstration_are_single_use_and_short_lived() {
    let plan = scenarios(NOW);
    let mut nonces: Vec<&str> = plan
        .iter()
        .filter_map(|s| s.claims.as_ref())
        .map(|c| c.jti.as_str())
        .collect();
    assert_eq!(nonces.len(), 10);
    nonces.sort();
    nonces.dedup();
    assert_eq!(nonces.len(), 10);
    for s in &plan {
        if let Some(c) = &s.claims {
            let exp = if c.jti == "jti-exp" {
                NOW - 1000
            } else {
                NOW + 60_000
            };
            assert_eq!(c.exp_unix_ms, exp);
            assert_eq!(c.scope.path_prefix, "/repos/acme/");
        }
    }
}

#[test]
fn an_unknown_token_header_fails_safe() {
    let scenario = scenarios(NOW).remove(0);
    let mut cfg = demo_config("http://up/v1/authorize", Mode::Enforce, FailPolicy::Closed);
    cfg.token_header = "x-other".into();
    let mw = ExtAuthzMiddleware::new(cfg);
    let claims = scenario.claims.clone().unwrap();
    let token = mint(claims.jti.as_bytes(), &DEMO_KEY);
    let headers = vec![("X-Other".to_string(), token)];
    let request = scenario.request(&headers);
    let Step::Ask(wire, _) = mw.evaluate(&scenario.context(), &request, NOW, NOW) else {
        panic!("the verifier is to be asked");
    };
    let mut guard = VerifierState::new(DEMO_KEY.to_vec());
    let answer = guard.authorize(&wire, Some(claims), NOW);
    assert_eq!(answer.reason_code, "TOKEN_MALFORMED");
    assert_eq!(answer.message.as_deref(), Some("no token in credentials"));
}

#[test]
fn previews_are_short_and_lossy() {
    assert_eq!(preview(b""), "");
    assert_eq!(preview(b"{}"), "{}");
    assert_eq!(preview(&[b'a', 0xff, b'b']), "a\u{fffd}b");
    let exact = "x".repeat(38);
    assert_eq!(preview(exact.as_bytes()), exact);
    let long = "y".repeat(39);
    assert_eq!(
        preview(long.as_bytes()),
        format!("{}\u{2026}", "y".repeat(37))
    );
    // A preview stands on one line.
    assert_eq!(preview(b"a\nb"), "a b");
    assert_eq!(preview(b"a\r\n"), "a  ");
    assert_eq!(join_lines("\n\u{e9}\r"), " \u{e9} ");
    let lines = "z\n".repeat(30);
    assert_eq!(
        preview(lines.as_bytes()),
        format!("{}z\u{2026}", "z ".repeat(18))
    );
    // Characters count, not bytes.
    let accented = "\u{e9}".repeat(38);
    assert_eq!(clip(&accented), accented);
}

#[test]
fn the_revocation_endpoint_stands_beside_the_authorize_endpoint() {
    assert_eq!(
        revoke_url("http://127.0.0.1:1/v1/authorize", "agt-9"),
        "http://127.0.0.1:1/v1/revoke/agt-9"
    );
    assert_eq!(revoke_url("http://127.0.0.1:1/", "agt-9"), "http://127.0.0.1:1/");
    assert_eq!(
        revoke_url("/v1/authorize/v1/authorize", "a"),
        "/v1/revoke/a/v1/revoke/a"
    );
    assert_eq!(revoke_url("/v1/v1/authorize?", "a"), "/v1/v1/revoke/a?");
}

#[test]
fn decisions_are_told_in_detail() {
    let results = play_all();
    assert_eq!(
        results[0].message,
        "forwarded to upstream \u{b7} token stripped"
    );
    assert_eq!(results[2].message, "token agent != acting agent");
    let audit = results[2].audit.clone();
    let go = Decision::Continue {
        strip_headers: vec![],
    };
    assert_eq!(
        decision_detail(&go, &audit),
        (
            true,
            "AGENT_MISMATCH".to_string(),
            None,
            "forwarded to upstream \u{b7} token stripped".to_string()
        )
    );
}

#[test]
fn digests_are_abbreviated() {
    assert_eq!(
        short("362355bedda9c2511a0b5f3f26362618702f0baad6539f7debaf2e7e315bd21a"),
        "362355be\u{2026}315bd21a"
    );
    assert_eq!(short("12345678901234567890"), "12345678901234567890");
    assert_eq!(short("123456789012345678901"), "12345678\u{2026}45678901");
    assert_eq!(short(""), "");
}

#[test]
fn the_table_has_a_line_per_scenario() {
    let results = play_all();
    assert_eq!(
        table_line(&results[0], Some("0.42ms")),
        "  [ok ] ALLOW OK                           allow (valid agent, in-scope, intent-bound)    (verifier 0.42ms)"
    );
    assert_eq!(
        table_line(&results[9], None),
        "  [ok ] DENY  TOKEN_MISSING                deny: token missing (local)                    (verifier -)"
    );
    let latencies = vec![None; results.len()];
    let lines = render_table(&results, &latencies, "http://up/", Some("{}"));
    assert_eq!(lines.len(), 4 + 11 + 2 + 1 + 1);
    assert_eq!(lines[0], "");
    assert_eq!(lines[2], "  verifier: http://up/");
    assert_eq!(lines[3], "");
    assert_eq!(lines[4], table_line(&results[0], None));
    assert_eq!(lines[15], "");
    assert_eq!(lines[16], "  --- one audit event (JSON) ---");
    assert_eq!(lines[17], "  {}");
    assert_eq!(lines[18], "");
    assert_eq!(render_table(&[], &[], "u", None).len(), 7);
}

#[test]
fn the_story_is_told_line_by_line() {
    let results = play_all();
    let c = Colors::detect(false);
    assert_eq!(
        story_opening(&c, "http://up/"),
        vec![
            "",
            "  OpenShell ext-authz \u{2014} per-action authorization, one request at a time",
            "  verifier http://up/",
        ]
    );
    assert_eq!(
        story_introduction(&c, 7, 11, &results[7]),
        vec![
            RULE,
            "  scenario 8 of 11   deny: intent mismatch (body changed after mint)",
            "",
            "  why      Token minted for this request, then the body was altered before sending.",
            "",
            "  request   POST api.github.com/repos/acme/widgets/issues",
            "            agent  agt-7f3a \u{b7} sandbox sbx-run-1",
            "            body   {\"title\":\"exfiltrate secrets\"}  (30 bytes)",
            "            token  x-hawcx-haap-token: present",
            "",
        ]
    );
    assert_eq!(
        story_prompt(&c),
        "  -> ext-authz: hashing the egress bytes, asking the verifier ..."
    );
    assert_eq!(
        story_outcome(&c, &results[7], Some("0.42 ms"), Some("{}")),
        vec![
            "  crh       request     934b208d\u{2026}c2107508",
            "            token-bound 362355be\u{2026}315bd21a   != bytes changed after mint",
            "",
            "  verdict   DENY  \u{b7}  INTENT_MISMATCH  \u{b7}  HTTP 403",
            "            request crh != token-bound crh",
            "            verifier 0.42 ms",
            "",
            "  audit    {}",
        ]
    );
    assert_eq!(
        story_outcome(&c, &results[9], None, None),
        vec![
            "  verdict   DENY  \u{b7}  TOKEN_MISSING  \u{b7}  HTTP 403",
            "            request carries no `x-hawcx-haap-token` header",
            "            verifier \u{2014}",
            "",
        ]
    );
}

#[test]
fn the_story_is_colored_on_a_terminal() {
    let mut results = play_all();
    results[0].expect_reason = "OTHER";
    let c = Colors::detect(true);
    assert_eq!(
        story_outcome(&c, &results[0], None, None),
        vec![
            "  crh       362355be\u{2026}315bd21a  \x1b[2m(over the bytes that egress)\x1b[0m",
            "",
            "  verdict   \x1b[32mALLOW\x1b[0m  \u{b7}  OK",
            "            \x1b[2mforwarded to upstream \u{b7} token stripped\x1b[0m",
            "            \x1b[2mverifier \u{2014}\x1b[0m",
            "  \x1b[31mMISMATCH \u{2014} expected allow/OTHER\x1b[0m",
            "",
        ]
    );
    assert_eq!(c.bold, "\x1b[1m");
}
