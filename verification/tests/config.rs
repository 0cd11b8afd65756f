use ext_authz::config::{
    d_fail, d_max_body, d_mode, d_timeout_ms, d_token_header, d_true, ExtAuthzConfig, FailPolicy,
    Mode,
};
use ext_authz::endpoint::{is_plaintext_non_loopback, warn_on_unsafe_config, ConfigWarning};

fn defaults(url: &str) -> ExtAuthzConfig {
    ExtAuthzConfig {
        verifier_url: url.to_string(),
        mode: d_mode(),
        fail: d_fail(),
        timeout_ms: d_timeout_ms(),
        token_header: d_token_header(),
        forward_headers: vec![],
        strip_token_header: d_true(),
        max_body_bytes: d_max_body(),
    }
}

#[test]
fn defaults_are_enforce_fail_closed() {
    let cfg = defaults("http://127.0.0.1:18443/v1/authorize");
    assert_eq!(cfg.mode, Mode::Enforce);
    assert_eq!(cfg.fail, FailPolicy::Closed);
    assert_eq!(cfg.timeout_ms, 100);
    assert_eq!(cfg.token_header, "x-hawcx-haap-token");
    assert!(cfg.strip_token_header);
    assert_eq!(cfg.max_body_bytes, 1024 * 1024);
}

#[test]
fn normalized_lowercases_headers() {
    let cfg = ExtAuthzConfig {
        verifier_url: "http://x/".into(),
        mode: Mode::Enforce,
        fail: FailPolicy::Closed,
        timeout_ms: 100,
        token_header: "X-Hawcx-HAAP-Token".into(),
        forward_headers: vec!["X-Request-ID".into()],
        strip_token_header: true,
        max_body_bytes: 10,
    }
    .normalized();
    assert_eq!(cfg.token_header, "x-hawcx-haap-token");
    assert_eq!(cfg.forward_headers, vec!["x-request-id"]);
}

#[test]
fn normalizing_keeps_everything_but_case_of_names() {
    let cfg = ExtAuthzConfig {
        verifier_url: "http://X/".into(),
        mode: Mode::Observe,
        fail: FailPolicy::Open,
        timeout_ms: 7,
        token_header: "\u{c9}T".into(),
        forward_headers: vec!["B".into(), "A".into(), "B".into()],
        strip_token_header: false,
        max_body_bytes: 10,
    }
    .normalized();
    assert_eq!(cfg.verifier_url, "http://X/");
    assert_eq!(cfg.mode, Mode::Observe);
    assert_eq!(cfg.fail, FailPolicy::Open);
    assert_eq!(cfg.timeout_ms, 7);
    assert_eq!(cfg.token_header, "\u{c9}t");
    assert_eq!(cfg.forward_headers, vec!["b", "a", "b"]);
    assert!(!cfg.strip_token_header);
    assert_eq!(cfg.max_body_bytes, 10);
    let again = cfg.clone().normalized();
    assert_eq!(again.token_header, cfg.token_header);
    assert_eq!(again.forward_headers, cfg.forward_headers);
}

#[test]
fn plaintext_non_loopback_is_flagged_but_safe_transports_are_not() {
    // Plaintext to a routable/non-loopback host: flagged.
    assert!(is_plaintext_non_loopback(
        "http://verifier.internal:8443/v1/authorize"
    ));
    assert!(is_plaintext_non_loopback("http://10.0.0.5/v1/authorize"));

    // Loopback forms: not flagged.
    assert!(!is_plaintext_non_loopback(
        "http://127.0.0.1:18443/v1/authorize"
    ));
    assert!(!is_plaintext_non_loopback(
        "http://localhost:18443/v1/authorize"
    ));
    assert!(!is_plaintext_non_loopback(
        "http://[::1]:18443/v1/authorize"
    ));

    // https and non-http transports: not this check's concern.
    assert!(!is_plaintext_non_loopback(
        "https://verifier.internal/v1/authorize"
    ));
    assert!(!is_plaintext_non_loopback("unix:/run/authz.sock"));
}

#[test]
fn loopback_is_classified_by_parsing() {
    // The whole 127.0.0.0/8 block is loopback.
    assert!(!is_plaintext_non_loopback("http://127.255.0.99"));
    assert!(!is_plaintext_non_loopback("http://user:pw@127.0.0.1/x"));
    // What merely starts alike, or is no dotted quad, is not.
    assert!(is_plaintext_non_loopback("http://127.evil.com/"));
    assert!(is_plaintext_non_loopback("http://127.0.0.256/"));
    assert!(is_plaintext_non_loopback("http://127.0.0.01/"));
    assert!(is_plaintext_non_loopback("http://127.0.0/"));
    assert!(is_plaintext_non_loopback("http://127.0.0.1.1/"));
    assert!(is_plaintext_non_loopback("http://127.0.0./"));
    assert!(is_plaintext_non_loopback("http://127.0.0.1@evil.com/"));
    assert!(is_plaintext_non_loopback("http://localhost.evil.com/"));
    assert!(is_plaintext_non_loopback("http://[::2]:1/"));
    assert!(is_plaintext_non_loopback("http://"));
    // The authority ends where a path, query or fragment starts.
    assert!(is_plaintext_non_loopback("http://evil.com?@127.0.0.1/"));
    assert!(is_plaintext_non_loopback("http://evil.com#@127.0.0.1/"));
    assert!(is_plaintext_non_loopback("http://evil.com\\@127.0.0.1/"));
    assert!(is_plaintext_non_loopback("http://evil.com/@127.0.0.1/"));
    assert!(!is_plaintext_non_loopback("http://127.0.0.1?x=@evil.com"));
    assert!(!is_plaintext_non_loopback("http://localhost#top"));
    assert!(is_plaintext_non_loopback("http://LOCALHOST/"));
    assert!(!is_plaintext_non_loopback("HTTP://evil.com/"));
}

#[test]
fn every_loopback_octet_parses_as_the_standard_library_does() {
    for v in 0..=999u32 {
        let url = format!("http://127.0.0.{v}/");
        assert_eq!(is_plaintext_non_loopback(&url), v > 255);
    }
}

#[test]
fn unsafe_configurations_are_warned_of() {
    assert!(warn_on_unsafe_config(&defaults("http://127.0.0.1/")).is_empty());
    let mut cfg = defaults("http://verifier.internal/");
    assert_eq!(
        warn_on_unsafe_config(&cfg),
        vec![ConfigWarning::PlaintextVerifier]
    );
    cfg.strip_token_header = false;
    assert_eq!(
        warn_on_unsafe_config(&cfg),
        vec![
            ConfigWarning::PlaintextVerifier,
            ConfigWarning::TokenForwarded
        ]
    );
    cfg.verifier_url = "https://verifier.internal/".into();
    let warnings = warn_on_unsafe_config(&cfg);
    assert_eq!(warnings, vec![ConfigWarning::TokenForwarded]);
    assert_eq!(
        warnings[0].message(),
        "ext-authz strip_token_header=false: the per-action credential will be forwarded to the upstream destination."
    );
}
