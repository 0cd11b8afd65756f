use base64::Engine;
use ext_authz::primitives::HexError;
use ext_authz::token::{
    key_from_hex, mint, verify, Claims, Scope, VerifyError, DEMO_KEY, DEMO_KEY_HEX,
};
use serde_json::Value;

fn sample() -> Claims {
    Claims {
        jti: "j1".into(),
        agent_id: "agt-1".into(),
        on_behalf_of: None,
        workload_selector: None,
        scope: Scope {
            method: "POST".into(),
            authority: "api.github.com".into(),
            path_prefix: "/repos/acme/".into(),
        },
        crh: Some("ab".repeat(32)),
        exp_unix_ms: 1_700_000_000_000,
    }
}

fn claims_bytes(c: &Claims) -> Vec<u8> {
    let mut scope = serde_json::Map::new();
    scope.insert("method".into(), Value::from(c.scope.method.as_str()));
    scope.insert("authority".into(), Value::from(c.scope.authority.as_str()));
    scope.insert(
        "path_prefix".into(),
        Value::from(c.scope.path_prefix.as_str()),
    );
    let mut claims = serde_json::Map::new();
    claims.insert("jti".into(), Value::from(c.jti.as_str()));
    claims.insert("agent_id".into(), Value::from(c.agent_id.as_str()));
    claims.insert("scope".into(), Value::Object(scope));
    if let Some(crh) = &c.crh {
        claims.insert("crh".into(), Value::from(crh.as_str()));
    }
    claims.insert("exp_unix_ms".into(), Value::from(c.exp_unix_ms));
    serde_json::to_vec(&Value::Object(claims)).unwrap()
}

#[test]
fn mint_then_verify_roundtrips() {
    let key = b"demo-key";
    let t = mint(&claims_bytes(&sample()), key);
    let c: Value = serde_json::from_slice(&verify(&t, key).unwrap()).unwrap();
    assert_eq!(c["jti"], "j1");
    assert_eq!(c["scope"]["authority"], "api.github.com");
}

#[test]
fn wrong_key_fails_signature() {
    let t = mint(&claims_bytes(&sample()), b"demo-key");
    assert_eq!(verify(&t, b"other-key"), Err(VerifyError::BadSignature));
}

#[test]
fn tampered_body_fails_signature() {
    let t = mint(&claims_bytes(&sample()), b"demo-key");
    let (_, sig) = t.split_once('.').unwrap();
    let forged = Claims {
        jti: "j2".into(),
        ..sample()
    };
    let b64 = base64::engine::general_purpose::URL_SAFE_NO_PAD;
    let tampered = format!("{}.{}", b64.encode(claims_bytes(&forged)), sig);
    assert_eq!(
        verify(&tampered, b"demo-key"),
        Err(VerifyError::BadSignature)
    );
}

#[test]
fn garbage_is_malformed() {
    assert_eq!(verify("not-a-token", b"k"), Err(VerifyError::Malformed));
}

#[test]
fn demo_key_hex_matches_the_cli_default() {
    // A standalone verifier's default key MUST decode to DEMO_KEY, or tokens minted by the
    // demonstration won't verify against it.
    assert_eq!(key_from_hex("64656d6f2d6861776378").unwrap(), DEMO_KEY);
    assert_eq!(DEMO_KEY_HEX, "64656d6f2d6861776378");
    assert_eq!(&DEMO_KEY, b"demo-hawcx");
}

#[test]
fn a_token_has_a_known_value() {
    assert_eq!(
        mint(b"what do ya want for nothing?", b"Jefe"),
        "d2hhdCBkbyB5YSB3YW50IGZvciBub3RoaW5nPw.W9zBRr9gdU5qBCQmCJV1x1oAPwidJzmDnexYuWTsOEM"
    );
    assert_eq!(
        verify(
            "d2hhdCBkbyB5YSB3YW50IGZvciBub3RoaW5nPw.W9zBRr9gdU5qBCQmCJV1x1oAPwidJzmDnexYuWTsOEM",
            b"Jefe"
        ),
        Ok(b"what do ya want for nothing?".to_vec())
    );
}

#[test]
fn a_token_has_one_dot_and_no_padding() {
    for n in 0..9usize {
        let claims: Vec<u8> = (0..n).map(|i| 255 - i as u8).collect();
        for key in [&b""[..], &b"k"[..], &[9u8; 100][..]] {
            let t = mint(&claims, key);
            assert_eq!(t, mint(&claims, key));
            assert!(!t.contains('='));
            let (body, sig) = t.split_once('.').unwrap();
            assert_eq!(body.len(), (4 * n + 2) / 3);
            assert_eq!(sig.len(), 43);
            assert!(!sig.contains('.'));
            assert_eq!(verify(&t, key), Ok(claims.clone()));
        }
    }
}

#[test]
fn only_the_canonical_encoding_is_accepted() {
    let t = mint(b"a", b"k");
    let (body, sig) = t.split_once('.').unwrap();
    assert_eq!(body, "YQ");
    // Stray bits in the last digit, padding, a lone digit, and the other alphabet.
    for other in ["YR", "YQ==", "Y", "YQ ", "+Q", "Y\u{e9}"] {
        assert_eq!(
            verify(&format!("{other}.{sig}"), b"k"),
            Err(VerifyError::Malformed)
        );
    }
    let all: Vec<u8> = vec![0, 16, 131, 16, 81, 135, 255, 239, 190];
    let encoded = mint(&all, b"k");
    assert!(encoded.starts_with("ABCDEFGH_---."));
}

#[test]
fn undecodable_halves_are_malformed() {
    let t = mint(b"{}", b"k");
    let (body, sig) = t.split_once('.').unwrap();
    assert_eq!(
        verify(&format!("!.{sig}"), b"k"),
        Err(VerifyError::Malformed)
    );
    assert_eq!(
        verify(&format!("{body}.!"), b"k"),
        Err(VerifyError::Malformed)
    );
    // The token is split at the first dot, so a second one is no base64.
    assert_eq!(
        verify(&format!("{t}.{sig}"), b"k"),
        Err(VerifyError::Malformed)
    );
    // A truncated MAC is not accepted.
    assert_eq!(
        verify(&format!("{body}."), b"k"),
        Err(VerifyError::BadSignature)
    );
    assert_eq!(verify("", b"k"), Err(VerifyError::Malformed));
}

#[test]
fn empty_claims_and_keys_of_any_length_roundtrip() {
    let long_key = vec![7u8; 200];
    assert_eq!(verify(&mint(b"", b""), b""), Ok(vec![]));
    assert_eq!(verify(&mint(b"x", &long_key), &long_key), Ok(b"x".to_vec()));
}

#[test]
fn keys_that_are_not_hex_are_refused() {
    assert_eq!(key_from_hex(""), Ok(vec![]));
    assert_eq!(key_from_hex("DeadBeef"), Ok(vec![0xde, 0xad, 0xbe, 0xef]));
    assert_eq!(key_from_hex("abc"), Err(HexError::OddLength));
    assert_eq!(
        key_from_hex("abxg"),
        Err(HexError::InvalidHexCharacter { c: 'x', index: 2 })
    );
}
