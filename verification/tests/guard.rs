use ext_authz::credentials::Credentials;
use ext_authz::evidence::Evidence;
use ext_authz::guard::{
    authority_in_scope, decode_lower_hex_32, path_in_scope, recompute_crh, VerifierState,
};
use ext_authz::token::{mint, Claims, Scope, DEMO_KEY};
use ext_authz::types::{
    reason, AuthorizeRequest, AuthorizeResponse, Decision, RequestDescriptor, WireContext,
};
use ext_authz::{canonical_request_hash, sha256_bytes, CanonicalRequestParts};
use serde_json::Value;

const AGT: &str = "agt-1";
const SBX: &str = "sbx-1";
const AUTH: &str = "api.github.com";
const NOW: i64 = 1_700_000_000_000;

fn put(map: &mut serde_json::Map<String, Value>, key: &str, value: &Option<String>) {
    if let Some(v) = value {
        map.insert(key.into(), Value::from(v.as_str()));
    }
}

fn encode(c: &Claims) -> Vec<u8> {
    let mut scope = serde_json::Map::new();
    put(&mut scope, "method", &Some(c.scope.method.clone()));
    put(&mut scope, "authority", &Some(c.scope.authority.clone()));
    put(&mut scope, "path_prefix", &Some(c.scope.path_prefix.clone()));
    let mut claims = serde_json::Map::new();
    put(&mut claims, "jti", &Some(c.jti.clone()));
    put(&mut claims, "agent_id", &Some(c.agent_id.clone()));
    put(&mut claims, "on_behalf_of", &c.on_behalf_of);
    put(&mut claims, "workload_selector", &c.workload_selector);
    claims.insert("scope".into(), Value::Object(scope));
    put(&mut claims, "crh", &c.crh);
    claims.insert("exp_unix_ms".into(), Value::from(c.exp_unix_ms));
    serde_json::to_vec(&Value::Object(claims)).unwrap()
}

fn text(v: &Value, key: &str) -> Option<String> {
    v.get(key).and_then(Value::as_str).map(str::to_string)
}

fn decode(bytes: &[u8]) -> Option<Claims> {
    let v: Value = serde_json::from_slice(bytes).ok()?;
    let scope = v.get("scope")?;
    Some(Claims {
        jti: text(&v, "jti")?,
        agent_id: text(&v, "agent_id")?,
        on_behalf_of: text(&v, "on_behalf_of"),
        workload_selector: text(&v, "workload_selector"),
        scope: Scope {
            method: text(scope, "method")?,
            authority: text(scope, "authority")?,
            path_prefix: text(scope, "path_prefix")?,
        },
        crh: text(&v, "crh"),
        exp_unix_ms: v.get("exp_unix_ms")?.as_i64()?,
    })
}

fn decide_at(st: &mut VerifierState, req: &AuthorizeRequest, now_ms: i64) -> AuthorizeResponse {
    let claims = match st.open_token(req) {
        Ok(bytes) => decode(&bytes),
        Err(_) => None,
    };
    st.authorize(req, claims, now_ms)
}

fn decide(st: &mut VerifierState, req: &AuthorizeRequest) -> AuthorizeResponse {
    decide_at(st, req, NOW)
}

fn claims_with_scope(jti: &str, scope: Scope, crh: Option<String>) -> Claims {
    Claims {
        jti: jti.into(),
        agent_id: AGT.into(),
        on_behalf_of: None,
        workload_selector: None,
        scope,
        crh,
        exp_unix_ms: i64::MAX,
    }
}

fn root_scope() -> Scope {
    Scope {
        method: "POST".into(),
        authority: AUTH.into(),
        path_prefix: "/".into(),
    }
}

fn token_of(claims: &Claims) -> String {
    mint(&encode(claims), &DEMO_KEY)
}

fn token_with_scope(jti: &str, scope: Scope, crh: Option<String>) -> String {
    token_of(&claims_with_scope(jti, scope, crh))
}

fn coarse_token() -> String {
    token_with_scope("j-coarse", root_scope(), None)
}

fn wire(token: String, path: &str, body_sha256: String, crh: String) -> AuthorizeRequest {
    let mut credentials = Credentials::new();
    credentials.insert("x-hawcx-haap-token".to_string(), token);
    AuthorizeRequest {
        version: "1".into(),
        request: RequestDescriptor {
            method: "POST".into(),
            scheme: "https".into(),
            authority: AUTH.into(),
            path: path.into(),
            query: String::new(),
            body_sha256,
            body_len: 0,
            canonical_request_hash: crh,
        },
        context: WireContext {
            agent_id: AGT.into(),
            sandbox_id: SBX.into(),
            endpoint_rule: "r".into(),
            received_at_unix_ms: 0,
            ..Default::default()
        },
        credentials,
    }
}

fn crh_of(authority: &str, path: &str, body_sha256: [u8; 32]) -> String {
    hex::encode(canonical_request_hash(&CanonicalRequestParts {
        method: "POST",
        scheme: "https",
        authority,
        path,
        query: "",
        body_sha256,
    }))
}

fn good_wire(token: String, path: &str) -> AuthorizeRequest {
    let body_sha = sha256_bytes(b"");
    let crh = crh_of(AUTH, path, body_sha);
    wire(token, path, hex::encode(body_sha), crh)
}

/// A descriptor whose `body_sha256` is not hex must be a hard `DESCRIPTOR_MALFORMED` deny: it
/// must NOT be satisfiable by crafting `canonical_request_hash` to equal an in-band error
/// sentinel.
#[test]
fn malformed_body_sha_cannot_bypass_the_crh_gate() {
    let mut st = VerifierState::new(DEMO_KEY.to_vec());
    let req = wire(
        coarse_token(),
        "/x",
        "not-hex".into(),
        "invalid-body-sha".into(),
    );
    let resp = decide(&mut st, &req);
    assert_eq!(resp.decision, Decision::Deny);
    assert_eq!(resp.reason_code, reason::DESCRIPTOR_MALFORMED);
}

#[test]
fn unsupported_wire_version_is_denied() {
    let mut st = VerifierState::new(DEMO_KEY.to_vec());
    let mut req = good_wire(coarse_token(), "/x");
    req.version = "2".into();

    let resp = decide(&mut st, &req);
    assert_eq!(resp.decision, Decision::Deny);
    assert_eq!(resp.reason_code, reason::UNSUPPORTED_VERSION);
}

#[test]
fn malformed_canonical_hash_is_descriptor_malformed() {
    let mut st = VerifierState::new(DEMO_KEY.to_vec());
    let req = wire(
        coarse_token(),
        "/x",
        hex::encode(sha256_bytes(b"")),
        "not-hex".into(),
    );

    let resp = decide(&mut st, &req);
    assert_eq!(resp.decision, Decision::Deny);
    assert_eq!(resp.reason_code, reason::DESCRIPTOR_MALFORMED);
}

/// A well-formed but non-matching hash is `CRH_MISMATCH`, distinct from malformed.
#[test]
fn wellformed_nonmatching_crh_is_crh_mismatch() {
    let mut st = VerifierState::new(DEMO_KEY.to_vec());
    let req = wire(
        coarse_token(),
        "/x",
        hex::encode(sha256_bytes(b"")),
        "ab".repeat(32), // valid 64-hex, but not the real crh
    );
    let resp = decide(&mut st, &req);
    assert_eq!(resp.decision, Decision::Deny);
    assert_eq!(resp.reason_code, reason::CRH_MISMATCH);
}

#[test]
fn default_port_scope_matches_normalized_authority() {
    let mut st = VerifierState::new(DEMO_KEY.to_vec());
    let body_sha = sha256_bytes(b"");
    let crh = crh_of("api.github.com:443", "/x", body_sha);
    let mut req = wire(coarse_token(), "/x", hex::encode(body_sha), crh);
    req.request.authority = "api.github.com:443".into();

    let resp = decide(&mut st, &req);
    assert_eq!(resp.decision, Decision::Allow);
    assert_eq!(resp.reason_code, reason::OK);
}

#[test]
fn path_prefix_is_segment_aware() {
    let mut st = VerifierState::new(DEMO_KEY.to_vec());
    let token = token_with_scope(
        "j-segment",
        Scope {
            method: "POST".into(),
            authority: AUTH.into(),
            path_prefix: "/repos/acme".into(),
        },
        None,
    );
    let req = good_wire(token, "/repos/acmeevil/issues");

    let resp = decide(&mut st, &req);
    assert_eq!(resp.decision, Decision::Deny);
    assert_eq!(resp.reason_code, reason::INTENT_MISMATCH);
}

#[test]
fn path_prefix_allows_exact_segment_and_descendants() {
    let scope = Scope {
        method: "POST".into(),
        authority: AUTH.into(),
        path_prefix: "/repos/acme".into(),
    };

    for (jti, path) in [
        ("j-exact", "/repos/acme"),
        ("j-child", "/repos/acme/issues"),
    ] {
        let mut st = VerifierState::new(DEMO_KEY.to_vec());
        let token = token_with_scope(jti, scope.clone(), None);
        let req = good_wire(token, path);

        let resp = decide(&mut st, &req);
        assert_eq!(resp.decision, Decision::Allow);
        assert_eq!(resp.reason_code, reason::OK);
    }
}

/// A coarse grant (crh: None) is allowed but audited as `binding: "coarse"`, so the
/// unbound-body case is visible in the trail.
#[test]
fn coarse_grant_allows_but_is_audited_as_coarse() {
    let mut st = VerifierState::new(DEMO_KEY.to_vec());
    let req = good_wire(coarse_token(), "/x");
    let resp = decide(&mut st, &req);
    assert_eq!(resp.decision, Decision::Allow);
    assert_eq!(resp.reason_code, reason::OK);
    assert_eq!(
        resp.evidence.unwrap().get("binding"),
        Some(&Evidence::Text("coarse".into()))
    );
}

/// The principal is the agent: a token for AGT presented by a different acting agent
/// is refused, regardless of sandbox.
#[test]
fn wrong_agent_is_agent_mismatch() {
    let mut st = VerifierState::new(DEMO_KEY.to_vec());
    let mut req = good_wire(coarse_token(), "/x");
    req.context.agent_id = "agt-OTHER".into();
    let resp = decide(&mut st, &req);
    assert_eq!(resp.reason_code, reason::AGENT_MISMATCH);
}

/// Revocation is keyed on the agent, so it applies even from a different sandbox.
#[test]
fn revoked_agent_is_denied_across_sandboxes() {
    let mut st = VerifierState::new(DEMO_KEY.to_vec());
    st.revoke_agent(AGT);
    let mut req = good_wire(coarse_token(), "/x");
    req.context.sandbox_id = "sbx-different".into();
    let resp = decide(&mut st, &req);
    assert_eq!(resp.reason_code, reason::AGENT_REVOKED);
}

/// An optional workload selector pins the sandbox; an off-selector sandbox is refused.
#[test]
fn workload_selector_mismatch_is_workload_mismatch() {
    let mut st = VerifierState::new(DEMO_KEY.to_vec());
    let token = token_of(&Claims {
        workload_selector: Some("sbx-prod-".into()),
        ..claims_with_scope("j-wl", root_scope(), None)
    });
    let mut req = good_wire(token, "/x");
    req.context.sandbox_id = "sbx-dev-1".into();
    let resp = decide(&mut st, &req);
    assert_eq!(resp.reason_code, reason::WORKLOAD_MISMATCH);

    req.context.sandbox_id = "sbx-prod-9".into();
    assert_eq!(decide(&mut st, &req).decision, Decision::Allow);
}

#[test]
fn an_exact_grant_is_answered_with_receipt_and_evidence() {
    let mut st = VerifierState::new(DEMO_KEY.to_vec());
    let crh = crh_of(AUTH, "/x", sha256_bytes(b""));
    let req = good_wire(
        token_with_scope("j-full", root_scope(), Some(crh.clone())),
        "/x",
    );
    let resp = decide(&mut st, &req);
    let scope = Evidence::Object(vec![
        ("method".into(), Evidence::Text("POST".into())),
        ("authority".into(), Evidence::Text(AUTH.into())),
    ]);
    assert_eq!(
        resp,
        AuthorizeResponse {
            decision: Decision::Allow,
            reason_code: "OK".into(),
            message: None,
            receipt_id: Some("rcpt-j-full".into()),
            evidence: Some(Evidence::Object(vec![
                ("verifier".into(), Evidence::Text("demo".into())),
                ("agent_id".into(), Evidence::Text(AGT.into())),
                ("binding".into(), Evidence::Text("exact".into())),
                ("bound_crh".into(), Evidence::Text(crh)),
                ("scope".into(), scope),
            ])),
        }
    );
}

#[test]
fn a_denial_names_its_reason_and_the_verifier() {
    let mut st = VerifierState::new(DEMO_KEY.to_vec());
    let mut req = good_wire(coarse_token(), "/x");
    req.credentials = Credentials::new();
    assert_eq!(
        decide(&mut st, &req),
        AuthorizeResponse {
            decision: Decision::Deny,
            reason_code: "TOKEN_MALFORMED".into(),
            message: Some("no token in credentials".into()),
            receipt_id: None,
            evidence: Some(Evidence::Object(vec![(
                "verifier".into(),
                Evidence::Text("demo".into())
            )])),
        }
    );
}

#[test]
fn a_nonce_is_allowed_once() {
    let mut st = VerifierState::new(DEMO_KEY.to_vec());
    let first = decide(&mut st, &good_wire(coarse_token(), "/x"));
    assert_eq!(first.decision, Decision::Allow);
    // The same nonce in another request, too.
    for path in ["/x", "/y"] {
        let again = decide(&mut st, &good_wire(coarse_token(), path));
        assert_eq!(again.decision, Decision::Deny);
        assert_eq!(again.reason_code, reason::TOKEN_REPLAYED);
        assert_eq!(again.message.as_deref(), Some("jti already consumed"));
    }
    let other = good_wire(token_with_scope("j-other", root_scope(), None), "/x");
    assert_eq!(decide(&mut st, &other).decision, Decision::Allow);
}

#[test]
fn refused_requests_do_not_burn_the_nonce() {
    let mut st = VerifierState::new(DEMO_KEY.to_vec());
    let mut req = good_wire(coarse_token(), "/x");
    req.context.agent_id = "agt-OTHER".into();
    assert_eq!(decide(&mut st, &req).decision, Decision::Deny);
    assert_eq!(
        decide(&mut st, &good_wire(coarse_token(), "/x")).decision,
        Decision::Allow
    );
}

#[test]
fn forged_and_undecodable_tokens_are_refused() {
    let mut st = VerifierState::new(DEMO_KEY.to_vec());
    let forged = mint(&encode(&claims_with_scope("j", root_scope(), None)), b"other");
    let resp = decide(&mut st, &good_wire(forged, "/x"));
    assert_eq!(resp.reason_code, reason::TOKEN_SIGNATURE_INVALID);
    assert_eq!(resp.message.as_deref(), Some("HMAC mismatch"));

    let resp = decide(&mut st, &good_wire("no-dot".into(), "/x"));
    assert_eq!(resp.reason_code, reason::TOKEN_MALFORMED);
    assert_eq!(resp.message.as_deref(), Some("undecodable token"));

    // Authentic, but the claims do not decode.
    let resp = decide(&mut st, &good_wire(mint(b"not json", &DEMO_KEY), "/x"));
    assert_eq!(resp.reason_code, reason::TOKEN_MALFORMED);
    assert_eq!(resp.message.as_deref(), Some("undecodable token"));
}

#[test]
fn a_token_is_good_until_its_expiry() {
    let claims = Claims {
        exp_unix_ms: NOW,
        ..claims_with_scope("j-exp", root_scope(), None)
    };
    let mut st = VerifierState::new(DEMO_KEY.to_vec());
    let req = good_wire(token_of(&claims), "/x");
    let late = decide_at(&mut st, &req, NOW + 1);
    assert_eq!(late.reason_code, reason::TOKEN_EXPIRED);
    assert_eq!(decide_at(&mut st, &req, NOW).decision, Decision::Allow);
}

#[test]
fn the_human_is_bound_when_the_token_names_one() {
    let claims = Claims {
        on_behalf_of: Some("alice".into()),
        ..claims_with_scope("j-obo", root_scope(), None)
    };
    let mut st = VerifierState::new(DEMO_KEY.to_vec());
    let mut req = good_wire(token_of(&claims), "/x");
    for acting in [None, Some("bob".to_string())] {
        req.context.on_behalf_of = acting;
        let resp = decide(&mut st, &req);
        assert_eq!(resp.reason_code, reason::AGENT_MISMATCH);
        assert_eq!(
            resp.message.as_deref(),
            Some("token on-behalf-of != acting on-behalf-of")
        );
    }
    req.context.on_behalf_of = Some("alice".into());
    assert_eq!(decide(&mut st, &req).decision, Decision::Allow);
}

#[test]
fn the_grant_follows_the_agent_across_sandboxes() {
    for sandbox in ["sbx-run-1", "sbx-run-2", ""] {
        let mut st = VerifierState::new(DEMO_KEY.to_vec());
        let mut req = good_wire(coarse_token(), "/x");
        req.context.sandbox_id = sandbox.into();
        assert_eq!(decide(&mut st, &req).decision, Decision::Allow);
    }
}

#[test]
fn an_exact_token_is_refused_for_another_request() {
    let mut st = VerifierState::new(DEMO_KEY.to_vec());
    let crh = crh_of(AUTH, "/x", sha256_bytes(b""));
    let token = token_with_scope("j-bind", root_scope(), Some(crh));
    let resp = decide(&mut st, &good_wire(token.clone(), "/y"));
    assert_eq!(resp.reason_code, reason::INTENT_MISMATCH);
    assert_eq!(
        resp.message.as_deref(),
        Some("request crh != token-bound crh")
    );
    assert_eq!(
        decide(&mut st, &good_wire(token, "/x")).decision,
        Decision::Allow
    );
}

#[test]
fn scope_is_method_authority_and_path() {
    let mut wrong_method = root_scope();
    wrong_method.method = "GET".into();
    let mut wrong_authority = root_scope();
    wrong_authority.authority = "api.github.com:8443".into();
    for scope in [wrong_method, wrong_authority] {
        let mut st = VerifierState::new(DEMO_KEY.to_vec());
        let resp = decide(&mut st, &good_wire(token_with_scope("j", scope, None), "/x"));
        assert_eq!(resp.reason_code, reason::INTENT_MISMATCH);
        assert_eq!(resp.message.as_deref(), Some("request outside token scope"));
    }
    let mut spelled = root_scope();
    spelled.method = "post".into();
    spelled.authority = "API.GitHub.com:443".into();
    let mut st = VerifierState::new(DEMO_KEY.to_vec());
    let resp = decide(&mut st, &good_wire(token_with_scope("j", spelled, None), "/x"));
    assert_eq!(resp.decision, Decision::Allow);
}

#[test]
fn path_scope_edge_cases() {
    assert!(path_in_scope("", ""));
    assert!(path_in_scope("/", ""));
    assert!(path_in_scope("/a", "/"));
    assert!(!path_in_scope("a", "/"));
    assert!(path_in_scope("/repos/acme/", "/repos/acme/"));
    assert!(!path_in_scope("/repos/acme", "/repos/acme/"));
    assert!(path_in_scope("/repos/acme/x", "/repos/acme/"));
    assert!(!path_in_scope("", "/repos"));
}

#[test]
fn authority_scope_goes_by_the_request_scheme() {
    assert!(authority_in_scope("HTTPS", "A:443", "a"));
    assert!(!authority_in_scope("http", "a:443", "a"));
    assert!(authority_in_scope("http", "a:80", "a"));
    assert!(authority_in_scope("ws", "A:443", "a:443"));
}

#[test]
fn only_lower_case_hex_of_32_bytes_is_a_digest() {
    assert_eq!(decode_lower_hex_32(&"ab".repeat(32)), Some([0xab; 32]));
    assert_eq!(decode_lower_hex_32(&"AB".repeat(32)), None);
    assert_eq!(decode_lower_hex_32(&"ab".repeat(31)), None);
    assert_eq!(decode_lower_hex_32(&"ab".repeat(33)), None);
    assert_eq!(decode_lower_hex_32(&"gg".repeat(32)), None);
    assert_eq!(decode_lower_hex_32(""), None);
}

#[test]
fn the_crh_is_recomputed_from_the_descriptor() {
    let req = good_wire("t".into(), "/x");
    assert_eq!(
        recompute_crh(&req),
        Some(req.request.canonical_request_hash.clone())
    );
    let mut upper = good_wire("t".into(), "/x");
    upper.request.body_sha256 = upper.request.body_sha256.to_uppercase();
    assert_eq!(recompute_crh(&upper), None);
}
