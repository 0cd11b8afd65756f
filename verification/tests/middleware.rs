use ext_authz::config::{ExtAuthzConfig, FailPolicy, Mode};
use ext_authz::evidence::Evidence;
use ext_authz::guard::recompute_crh;
use ext_authz::middleware::{
    find_header, find_token_header, redact_err, AuditEvent, Decision, EgressRequest,
    ExtAuthzMiddleware, HeaderLookup, RequestContext, Step, TransportError, VerifierOutcome,
};
use ext_authz::types::{reason, AuthorizeRequest, AuthorizeResponse, Decision as WireDecision};

const TS: i64 = 1_700_000_000_000;

fn cfg(url: &str, mode: Mode, fail: FailPolicy) -> ExtAuthzConfig {
    ExtAuthzConfig {
        verifier_url: url.into(),
        mode,
        fail,
        timeout_ms: 1000,
        token_header: "x-hawcx-haap-token".into(),
        forward_headers: vec![],
        strip_token_header: true,
        max_body_bytes: 1024,
    }
}

fn enforcing() -> ExtAuthzConfig {
    cfg(
        "http://127.0.0.1:1/v1/authorize",
        Mode::Enforce,
        FailPolicy::Closed,
    )
}

fn ctx<'a>() -> RequestContext<'a> {
    RequestContext {
        agent_id: "agt-test",
        on_behalf_of: None,
        agent_class: None,
        sandbox_id: "sbx-test",
        sandbox_name: Some("test"),
        endpoint_rule: "github-api",
        policy_revision: Some("v1"),
        request_id: Some("req-1"),
    }
}

fn req<'a>(headers: &'a [(String, String)], body: &'a [u8]) -> EgressRequest<'a> {
    EgressRequest {
        method: "POST",
        scheme: "https",
        authority: "api.github.com",
        path: "/repos/acme/widgets/issues",
        query: "",
        headers,
        body,
    }
}

fn token_header() -> Vec<(String, String)> {
    vec![("X-Hawcx-HAAP-Token".into(), "opaque-token".into())]
}

fn allow(receipt: Option<&str>) -> AuthorizeResponse {
    AuthorizeResponse {
        decision: WireDecision::Allow,
        reason_code: reason::OK.into(),
        message: None,
        receipt_id: receipt.map(str::to_string),
        evidence: None,
    }
}

fn deny(code: &str) -> AuthorizeResponse {
    AuthorizeResponse {
        decision: WireDecision::Deny,
        reason_code: code.into(),
        message: Some("denied by test verifier".into()),
        receipt_id: Some("rcpt-test".into()),
        evidence: Some(Evidence::Object(vec![(
            "src".into(),
            Evidence::Text("test".into()),
        )])),
    }
}

fn failure() -> TransportError {
    TransportError {
        timeout: false,
        connect: false,
        decode: false,
        status: None,
        body: false,
    }
}

fn unreachable_verifier() -> VerifierOutcome {
    VerifierOutcome::from_send_error(&TransportError {
        connect: true,
        ..failure()
    })
}

/// Plays the host: asks `verifier` where the middleware says so, and counts how often.
fn evaluate(
    mw: &ExtAuthzMiddleware,
    req: &EgressRequest<'_>,
    verifier: impl Fn(&AuthorizeRequest) -> VerifierOutcome,
) -> (Decision, AuditEvent, usize) {
    match mw.evaluate(&ctx(), req, TS, TS + 1) {
        Step::Done(decision, audit) => (decision, audit, 0),
        Step::Ask(wire, audit) => {
            let outcome = verifier(&wire);
            let (decision, audit) = mw.resolve(audit, outcome, 1_500_000);
            (decision, audit, 1)
        }
    }
}

#[test]
fn allow_path_continues_and_strips_token_header() {
    let mw = ExtAuthzMiddleware::new(enforcing());
    let h = token_header();
    let r = req(&h, b"{\"title\":\"bug\"}");
    let (decision, audit, hits) = evaluate(&mw, &r, |_| {
        VerifierOutcome::from_body(Ok(allow(Some("rcpt-ok"))))
    });

    match decision {
        Decision::Continue { strip_headers } => {
            assert_eq!(strip_headers, vec!["x-hawcx-haap-token".to_string()]);
        }
        Decision::Deny(v) => panic!("expected allow, got deny {v:?}"),
    }
    assert_eq!(audit.decision, "allow");
    assert_eq!(audit.reason_code, reason::OK);
    assert!(audit.canonical_request_hash.is_some());
    assert_eq!(hits, 1);
}

#[test]
fn verifier_deny_blocks_with_reason() {
    let mw = ExtAuthzMiddleware::new(enforcing());
    let h = token_header();
    let r = req(&h, b"{}");
    let (decision, audit, _) = evaluate(&mw, &r, |_| {
        VerifierOutcome::Verdict(deny(reason::TOKEN_REPLAYED))
    });

    match decision {
        Decision::Deny(v) => {
            assert_eq!(v.http_status, 403);
            assert_eq!(v.reason_code, reason::TOKEN_REPLAYED);
            assert_eq!(v.receipt_id.as_deref(), Some("rcpt-test"));
            assert_eq!(v.message, "denied by test verifier");
            assert_eq!(v.evidence.get("src"), Some(&Evidence::Text("test".into())));
        }
        Decision::Continue { .. } => panic!("expected deny"),
    }
    assert_eq!(audit.decision, "deny");
    assert!(audit.enforced);
}

#[test]
fn missing_token_denies_locally_without_calling_verifier() {
    let mw = ExtAuthzMiddleware::new(enforcing());
    let h: Vec<(String, String)> = vec![]; // no token
    let r = req(&h, b"{}");
    let (decision, audit, hits) = evaluate(&mw, &r, |_| VerifierOutcome::Verdict(allow(None)));

    assert!(matches!(decision, Decision::Deny(_)));
    assert_eq!(audit.reason_code, reason::TOKEN_MISSING);
    assert_eq!(hits, 0, "no verifier round trip for a local deny");
}

#[test]
fn oversize_body_denies_locally() {
    let mut c = enforcing();
    c.max_body_bytes = 8;
    let mw = ExtAuthzMiddleware::new(c);

    let h = token_header();
    let big = vec![b'x'; 9];
    let r = req(&h, &big);
    let (decision, audit, hits) = evaluate(&mw, &r, |_| VerifierOutcome::Verdict(allow(None)));

    assert!(matches!(decision, Decision::Deny(_)));
    assert_eq!(audit.reason_code, reason::REQUEST_TOO_LARGE);
    assert_eq!(hits, 0);
}

#[test]
fn fail_closed_denies_when_verifier_unreachable() {
    let mw = ExtAuthzMiddleware::new(enforcing());
    let h = token_header();
    let r = req(&h, b"{}");
    let (decision, audit, _) = evaluate(&mw, &r, |_| unreachable_verifier());

    match decision {
        Decision::Deny(v) => {
            assert_eq!(v.http_status, 503, "infra denial, not an authz denial");
            assert_eq!(v.reason_code, reason::VERIFIER_UNAVAILABLE);
            assert_eq!(v.message, "verifier unreachable: connect error");
            assert_eq!(
                v.evidence,
                Evidence::Object(vec![(
                    "fail_policy".into(),
                    Evidence::Text("closed".into())
                )])
            );
        }
        Decision::Continue { .. } => panic!("fail-closed must deny when the verifier is down"),
    }
    assert!(audit.degraded);
}

#[test]
fn fail_open_allows_when_verifier_unreachable() {
    let mw = ExtAuthzMiddleware::new(cfg(
        "http://127.0.0.1:1/v1/authorize",
        Mode::Enforce,
        FailPolicy::Open,
    ));
    let h = token_header();
    let r = req(&h, b"{}");
    let (decision, audit, _) = evaluate(&mw, &r, |_| unreachable_verifier());

    assert!(
        decision.is_allow(),
        "fail-open continues when the verifier is down"
    );
    assert!(audit.degraded);
    assert_eq!(audit.decision, "allow");
    assert!(!audit.would_deny);
}

#[test]
fn observe_mode_never_blocks_but_records_would_deny() {
    let mw = ExtAuthzMiddleware::new(cfg(
        "http://127.0.0.1:1/v1/authorize",
        Mode::Observe,
        FailPolicy::Closed,
    ));
    let h = token_header();
    let r = req(&h, b"{}");
    let (decision, audit, _) = evaluate(&mw, &r, |_| {
        VerifierOutcome::Verdict(deny(reason::INTENT_MISMATCH))
    });

    assert!(decision.is_allow(), "observe mode does not block");
    assert!(!audit.enforced);
    assert!(audit.would_deny);
    assert_eq!(audit.decision, "allow");
    assert_eq!(audit.reason_code, reason::INTENT_MISMATCH);
}

#[test]
fn verifier_recomputes_crh_and_accepts_matching_hash() {
    let mw = ExtAuthzMiddleware::new(enforcing());
    let h = token_header();
    let r = req(&h, b"{\"title\":\"bug\"}");
    let (decision, audit, _) = evaluate(&mw, &r, |wire| {
        let recomputed = recompute_crh(wire).unwrap();
        if recomputed != wire.request.canonical_request_hash {
            VerifierOutcome::Verdict(deny(reason::CRH_MISMATCH))
        } else {
            VerifierOutcome::Verdict(allow(Some("rcpt-ok")))
        }
    });

    assert!(
        decision.is_allow(),
        "the crh the middleware sent must match the verifier's recompute"
    );
    assert_eq!(audit.reason_code, reason::OK);
}

#[test]
fn slow_verifier_times_out_and_fails_closed() {
    let mut c = enforcing();
    c.timeout_ms = 50;
    let mw = ExtAuthzMiddleware::new(c);

    let h = token_header();
    let r = req(&h, b"{}");
    let slow = TransportError {
        timeout: true,
        ..failure()
    };
    let outcomes = [
        VerifierOutcome::from_send_error(&slow),
        VerifierOutcome::from_body(Err(slow)),
    ];
    for outcome in outcomes {
        let Step::Ask(_, audit) = mw.evaluate(&ctx(), &r, TS, TS) else {
            panic!("the verifier is to be asked");
        };
        let (decision, audit) = mw.resolve(audit, outcome, 50_000_000);
        match decision {
            Decision::Deny(v) => {
                assert_eq!(v.http_status, 503);
                assert_eq!(v.reason_code, reason::VERIFIER_TIMEOUT);
                assert_eq!(v.message, "verifier did not answer within 50ms");
            }
            Decision::Continue { .. } => panic!("a verifier timeout must fail closed"),
        }
        assert!(audit.degraded);
    }
}

#[test]
fn non_200_is_a_verifier_failure_not_a_verdict() {
    let mw = ExtAuthzMiddleware::new(enforcing());
    let h = token_header();
    let r = req(&h, b"{}");
    let (decision, audit, _) = evaluate(&mw, &r, |_| {
        VerifierOutcome::from_status(500, "500 Internal Server Error").unwrap()
    });

    match decision {
        Decision::Deny(v) => {
            assert_eq!(v.http_status, 503);
            assert_eq!(v.reason_code, reason::VERIFIER_MALFORMED_RESPONSE);
            assert_eq!(
                v.message,
                "verifier protocol error: http status 500 Internal Server Error"
            );
        }
        Decision::Continue { .. } => panic!("a 500 must not be read as allow"),
    }
    assert!(audit.degraded);
    assert!(VerifierOutcome::from_status(200, "200 OK").is_none());
    assert!(VerifierOutcome::from_status(204, "204 No Content").is_some());
}

#[test]
fn undeserializable_200_is_a_verifier_failure() {
    let mw = ExtAuthzMiddleware::new(enforcing());
    let h = token_header();
    let r = req(&h, b"{}");
    let (decision, _audit, _) = evaluate(&mw, &r, |_| {
        VerifierOutcome::from_body(Err(TransportError {
            decode: true,
            ..failure()
        }))
    });

    match decision {
        Decision::Deny(v) => {
            assert_eq!(v.reason_code, reason::VERIFIER_MALFORMED_RESPONSE);
            assert_eq!(v.message, "verifier protocol error: decode error");
        }
        Decision::Continue { .. } => panic!("an undeserializable 200 must not be read as allow"),
    }
}

#[test]
fn strip_token_header_false_keeps_the_header_on_continue() {
    let mut c = enforcing();
    c.strip_token_header = false;
    let mw = ExtAuthzMiddleware::new(c);

    let h = token_header();
    let r = req(&h, b"{}");
    let (decision, _audit, _) = evaluate(&mw, &r, |_| VerifierOutcome::Verdict(allow(None)));

    match decision {
        Decision::Continue { strip_headers } => assert!(strip_headers.is_empty()),
        Decision::Deny(v) => panic!("expected allow, got {v:?}"),
    }
}

#[test]
fn duplicate_token_header_is_refused_locally() {
    let mw = ExtAuthzMiddleware::new(enforcing());

    // Two instances (different case) of the credential header.
    let h = vec![
        ("X-Hawcx-HAAP-Token".to_string(), "a".to_string()),
        ("x-hawcx-haap-token".to_string(), "b".to_string()),
    ];
    let r = req(&h, b"{}");
    let (decision, audit, hits) = evaluate(&mw, &r, |_| VerifierOutcome::Verdict(allow(None)));

    assert!(matches!(decision, Decision::Deny(_)));
    assert_eq!(audit.reason_code, reason::TOKEN_AMBIGUOUS);
    assert_eq!(
        hits, 0,
        "ambiguous credential is rejected before any verifier round trip"
    );
}

#[test]
fn forward_headers_reach_the_verifier() {
    let mut c = enforcing();
    c.forward_headers = vec!["x-request-id".into()];
    let mw = ExtAuthzMiddleware::new(c);

    let h = vec![
        ("X-Hawcx-HAAP-Token".to_string(), "tok".to_string()),
        ("X-Request-Id".to_string(), "rid-123".to_string()),
    ];
    let r = req(&h, b"{}");
    // Echo verifier: reflects the x-request-id it saw in `credentials` as the receipt.
    let (decision, audit, _) = evaluate(&mw, &r, |wire| {
        let rid = wire.credentials.get("x-request-id").cloned();
        VerifierOutcome::Verdict(allow(rid.as_deref()))
    });

    assert!(decision.is_allow());
    assert_eq!(
        audit.receipt_id.as_deref(),
        Some("rid-123"),
        "the configured forward header must arrive in the verifier's credentials map"
    );
}

#[test]
fn local_deny_carries_no_canonical_request_hash() {
    // A local precondition deny (missing token) short-circuits before hashing.
    let mw = ExtAuthzMiddleware::new(enforcing());
    let h: Vec<(String, String)> = vec![];
    let r = req(&h, b"{}");
    let (_decision, audit, _) = evaluate(&mw, &r, |_| VerifierOutcome::Verdict(allow(None)));

    assert_eq!(audit.reason_code, reason::TOKEN_MISSING);
    assert!(
        audit.canonical_request_hash.is_none(),
        "no crh is computed for a local short-circuit deny"
    );
}

#[test]
fn token_lookup_distinguishes_none_one_many() {
    let none: Vec<(String, String)> = vec![];
    assert!(matches!(
        find_token_header(&none, "x-tok"),
        HeaderLookup::Absent
    ));

    let one = vec![("X-Tok".to_string(), "v".to_string())];
    assert!(matches!(
        find_token_header(&one, "x-tok"),
        HeaderLookup::One("v")
    ));

    // Two instances (different case) -> ambiguous, never first-match.
    let many = vec![
        ("X-Tok".to_string(), "a".to_string()),
        ("x-tok".to_string(), "b".to_string()),
    ];
    assert!(matches!(
        find_token_header(&many, "x-tok"),
        HeaderLookup::Many
    ));
}

#[test]
fn forward_lookup_takes_the_first_match() {
    let headers = vec![
        ("Other".to_string(), "0".to_string()),
        ("X-Id".to_string(), "1".to_string()),
        ("x-id".to_string(), "2".to_string()),
    ];
    assert_eq!(find_header(&headers, "x-id"), Some("1"));
    assert_eq!(find_header(&headers, "x-none"), None);
}

#[test]
fn local_refusals_say_what_is_wrong() {
    let mut c = enforcing();
    c.max_body_bytes = 8;
    let mw = ExtAuthzMiddleware::new(c);
    let missing: Vec<(String, String)> = vec![];
    let mut twice = token_header();
    twice.extend(token_header());
    let once = token_header();
    let cases: [(&[(String, String)], &[u8], &str); 3] = [
        (
            &missing,
            b"123456789",
            "request carries no `x-hawcx-haap-token` header",
        ),
        (
            &twice,
            b"123456789",
            "request carries multiple `x-hawcx-haap-token` headers; refusing to guess which to authorize",
        ),
        (
            &once,
            b"123456789",
            "body is 9 bytes; max_body_bytes=8 (intent binding requires hashing the body)",
        ),
    ];
    for (headers, body, message) in cases {
        let r = req(headers, body);
        let (decision, audit, _) = evaluate(&mw, &r, |_| VerifierOutcome::Timeout);
        match decision {
            Decision::Deny(v) => {
                assert_eq!(v.http_status, 403);
                assert_eq!(v.message, message);
                assert_eq!(v.reason_code, audit.reason_code);
                assert_eq!(
                    v.evidence.get("source"),
                    Some(&Evidence::Text("middleware-local".into()))
                );
            }
            Decision::Continue { .. } => panic!("expected deny"),
        }
        assert_eq!(audit.decision, "deny");
        assert!(!audit.degraded);
        assert!(audit.verifier_latency_ns.is_none());
    }
    // A body of exactly the limit is hashed.
    let r = req(&once, b"12345678");
    assert!(matches!(mw.evaluate(&ctx(), &r, TS, TS), Step::Ask(..)));
}

#[test]
fn observe_mode_lets_local_refusals_pass() {
    let mw = ExtAuthzMiddleware::new(cfg("http://x/", Mode::Observe, FailPolicy::Closed));
    let missing: Vec<(String, String)> = vec![];
    let (decision, audit, hits) = evaluate(&mw, &req(&missing, b""), |_| VerifierOutcome::Timeout);
    assert!(decision.is_allow());
    assert!(audit.would_deny);
    assert_eq!(audit.decision, "allow");
    assert_eq!(audit.reason_code, reason::TOKEN_MISSING);
    assert_eq!(hits, 0);
}

#[test]
fn observe_mode_passes_without_a_verdict_whatever_the_fail_policy() {
    // Enforcing would have denied only where the fail policy is closed.
    for (fail, would_deny) in [(FailPolicy::Closed, true), (FailPolicy::Open, false)] {
        let mw = ExtAuthzMiddleware::new(cfg("http://x/", Mode::Observe, fail));
        let h = token_header();
        let (decision, audit, _) = evaluate(&mw, &req(&h, b""), |_| VerifierOutcome::Timeout);
        assert!(decision.is_allow());
        assert!(audit.degraded);
        assert_eq!(audit.would_deny, would_deny);
        assert_eq!(audit.decision, "allow");
        assert_eq!(audit.reason_code, reason::VERIFIER_TIMEOUT);
    }
}

#[test]
fn a_deny_verdict_without_details_gets_defaults() {
    let mw = ExtAuthzMiddleware::new(enforcing());
    let h = token_header();
    let (decision, _, _) = evaluate(&mw, &req(&h, b""), |_| {
        VerifierOutcome::Verdict(AuthorizeResponse {
            decision: WireDecision::Deny,
            reason_code: "CUSTOM".into(),
            message: None,
            receipt_id: None,
            evidence: None,
        })
    });
    match decision {
        Decision::Deny(v) => {
            assert_eq!(v.reason_code, "CUSTOM");
            assert_eq!(v.message, "denied by verifier");
            assert_eq!(v.evidence, Evidence::Object(vec![]));
        }
        Decision::Continue { .. } => panic!("expected deny"),
    }
}

#[test]
fn the_question_describes_the_request() {
    let mut c = enforcing();
    c.token_header = "X-Tok".into();
    c.forward_headers = vec!["X-Request-Id".into(), "x-absent".into(), "X-TOK".into()];
    let mw = ExtAuthzMiddleware::new(c);
    assert_eq!(mw.config().token_header, "x-tok");
    assert_eq!(mw.name(), "ext-authz");
    let h = vec![
        ("cookie".to_string(), "secret".to_string()),
        ("X-TOK".to_string(), "tok".to_string()),
        ("x-request-id".to_string(), "rid-1".to_string()),
        ("X-Request-ID".to_string(), "rid-2".to_string()),
    ];
    let r = EgressRequest {
        method: "post",
        scheme: "HTTPS",
        authority: "API.github.com:443",
        path: "/p",
        query: "a=1",
        headers: &h,
        body: b"abc",
    };
    let context = RequestContext {
        on_behalf_of: Some("alice"),
        agent_class: Some("class"),
        ..ctx()
    };
    let Step::Ask(wire, audit) = mw.evaluate(&context, &r, TS, TS + 1) else {
        panic!("the verifier is to be asked");
    };
    assert_eq!(wire.version, "1");
    assert_eq!(wire.request.method, "POST");
    assert_eq!(wire.request.scheme, "https");
    assert_eq!(wire.request.authority, "API.github.com:443");
    assert_eq!(wire.request.path, "/p");
    assert_eq!(wire.request.query, "a=1");
    assert_eq!(wire.request.body_len, 3);
    assert_eq!(
        wire.request.body_sha256,
        "ba7816bf8f01cfea414140de5dae2223b00361a396177a9cb410ff61f20015ad"
    );
    assert_eq!(wire.context.agent_id, "agt-test");
    assert_eq!(wire.context.on_behalf_of.as_deref(), Some("alice"));
    assert_eq!(wire.context.agent_class.as_deref(), Some("class"));
    assert_eq!(wire.context.sandbox_id, "sbx-test");
    assert_eq!(wire.context.sandbox_name.as_deref(), Some("test"));
    assert_eq!(wire.context.endpoint_rule, "github-api");
    assert_eq!(wire.context.policy_revision.as_deref(), Some("v1"));
    assert_eq!(wire.context.request_id.as_deref(), Some("req-1"));
    assert_eq!(wire.context.received_at_unix_ms, TS + 1);
    assert_eq!(
        wire.credentials.entries(),
        &vec![
            ("x-request-id".to_string(), "rid-1".to_string()),
            ("x-tok".to_string(), "tok".to_string()),
        ]
    );
    assert_eq!(
        audit.canonical_request_hash.as_deref(),
        Some(wire.request.canonical_request_hash.as_str())
    );
    assert_eq!(audit.ts_unix_ms, TS);
    assert_eq!(audit.middleware, "ext-authz");
    assert_eq!(audit.method, "POST");
    assert_eq!(audit.authority, "API.github.com:443");
    assert_eq!(audit.path, "/p");
    assert_eq!(audit.agent_id, "agt-test");
    assert_eq!(audit.sandbox_id, "sbx-test");
    assert_eq!(audit.endpoint_rule, "github-api");
}

#[test]
fn the_audit_shows_neither_token_nor_body() {
    let mw = ExtAuthzMiddleware::new(enforcing());
    let h = token_header();
    let r = req(&h, b"very secret body");
    let (_, audit, _) = evaluate(&mw, &r, |_| VerifierOutcome::Verdict(allow(None)));
    let shown = format!("{audit:?}");
    assert!(!shown.contains("opaque-token"));
    assert!(!shown.contains("secret"));
    assert_eq!(audit.verifier_latency_ns, Some(1_500_000));
}

#[test]
fn failures_are_named_by_kind() {
    let cases = [
        (
            TransportError {
                timeout: true,
                connect: true,
                ..failure()
            },
            "timeout",
        ),
        (
            TransportError {
                connect: true,
                decode: true,
                ..failure()
            },
            "connect error",
        ),
        (
            TransportError {
                decode: true,
                body: true,
                ..failure()
            },
            "decode error",
        ),
        (
            TransportError {
                status: Some("502 Bad Gateway".into()),
                body: true,
                ..failure()
            },
            "http status 502 Bad Gateway",
        ),
        (
            TransportError {
                body: true,
                ..failure()
            },
            "body error",
        ),
        (failure(), "request error"),
    ];
    for (error, text) in cases {
        assert_eq!(redact_err(&error), text);
    }
}
