//! A per-action token: `base64url(claims) || "." || base64url(HMAC-SHA256(claims, key))`.
//!
//! The signed bytes are the exact claims encoding produced at mint. [`verify`] checks the MAC
//! over the transmitted bytes and hands them back; only then are they decoded into [`Claims`],
//! so mint and verify never need to re-serialize identically.

use vstd::prelude::*;
use vstd::string::StringExecFns;

use crate::primitives::{
    base64url, base64url_bytes, base64url_decode, base64url_encode, hex_decode, hex_decoding,
    hmac_sha256, hmac_sha256_tag, hmac_sha256_verify, lemma_base64url_alphabet,
    lemma_base64url_inverse, HexError,
};
use crate::text::{
    before_first, law_before_first_ends_at_the_first, lemma_before_first, opt_text, split_once,
};

verus! {

/// The fixed demo HMAC key, `demo-hawcx` (NOT for production).
pub const DEMO_KEY: [u8; 10] = [0x64, 0x65, 0x6d, 0x6f, 0x2d, 0x68, 0x61, 0x77, 0x63, 0x78];

/// [`DEMO_KEY`] in hexadecimal.
pub const DEMO_KEY_HEX: &'static str = "64656d6f2d6861776378";

/// Coarse scope grant: a token is valid only for this (method, authority) and paths
/// under `path_prefix`.
#[derive(Debug, Clone, PartialEq, Eq)]
pub struct Scope {
    pub method: String,
    pub authority: String,
    pub path_prefix: String,
}

/// The view of [`Scope`].
#[verifier::ext_equal]
pub struct ScopeView {
    pub method: Seq<char>,
    pub authority: Seq<char>,
    pub path_prefix: Seq<char>,
}

impl View for Scope {
    type V = ScopeView;

    open spec fn view(&self) -> ScopeView {
        ScopeView {
            method: self.method@,
            authority: self.authority@,
            path_prefix: self.path_prefix@,
        }
    }
}

#[derive(Debug, Clone, PartialEq, Eq)]
pub struct Claims {
    /// Single-use nonce (consumed at the verifier).
    pub jti: String,
    /// The durable agent principal this token was minted for: the authorization subject.
    pub agent_id: String,
    /// Optional: the human the agent acts for. When set, the request's `on_behalf_of`
    /// must equal it.
    pub on_behalf_of: Option<String>,
    /// Optional workload constraint: the acting `sandbox_id` must start with this selector.
    /// Unset: the agent may act from any sandbox.
    pub workload_selector: Option<String>,
    pub scope: Scope,
    /// Optional exact intent binding: the `crh_v1` hex this token authorizes. When absent
    /// (a coarse grant), only the scope is checked.
    pub crh: Option<String>,
    pub exp_unix_ms: i64,
}

/// The view of [`Claims`].
#[verifier::ext_equal]
pub struct ClaimsView {
    pub jti: Seq<char>,
    pub agent_id: Seq<char>,
    pub on_behalf_of: Option<Seq<char>>,
    pub workload_selector: Option<Seq<char>>,
    pub scope: ScopeView,
    pub crh: Option<Seq<char>>,
    pub exp_unix_ms: i64,
}

impl View for Claims {
    type V = ClaimsView;

    open spec fn view(&self) -> ClaimsView {
        ClaimsView {
            jti: self.jti@,
            agent_id: self.agent_id@,
            on_behalf_of: opt_text(self.on_behalf_of),
            workload_selector: opt_text(self.workload_selector),
            scope: self.scope@,
            crh: opt_text(self.crh),
            exp_unix_ms: self.exp_unix_ms,
        }
    }
}

#[derive(Debug, Clone, Copy, PartialEq, Eq, Structural)]
pub enum VerifyError {
    Malformed,
    BadSignature,
}

/// The token for a claims encoding under a key.
pub open spec fn token_for_claims(claims: Seq<u8>, key: Seq<u8>) -> Seq<char> {
    base64url(claims) + seq!['.'] + base64url(hmac_sha256(key, claims))
}

/// What a token carries under a key: the claims encoding where both halves around the first
/// dot decode and the second is the MAC of the first.
pub open spec fn token_claims(token: Seq<char>, key: Seq<u8>) -> Result<Seq<u8>, VerifyError> {
    let head = before_first(token, '.');
    let tail = token.skip(head.len() as int + 1);
    if !token.contains('.') {
        Err(VerifyError::Malformed)
    } else {
        match (base64url_bytes(head), base64url_bytes(tail)) {
            (Some(body), Some(tag)) => if tag == hmac_sha256(key, body) {
                Ok(body)
            } else {
                Err(VerifyError::BadSignature)
            },
            _ => Err(VerifyError::Malformed),
        }
    }
}

proof fn lemma_split(token: Seq<char>, head: Seq<char>, tail: Seq<char>)
    requires
        token == head + seq!['.'] + tail,
        !head.contains('.'),
    ensures
        token.contains('.'),
        before_first(token, '.') == head,
        token.skip(head.len() as int + 1) == tail,
{
    let n = head.len() as int;
    assert(token[n] == '.');
    assert forall|j: int| 0 <= j < n implies token[j] != '.' by {
        assert(token[j] == head[j]);
    }
    lemma_before_first(token, '.', n);
    assert(token.take(n) =~= head);
    assert(token.skip(n + 1) =~= tail);
}

/// Framing loses nothing: what a token was made for is what it carries under the same key,
/// whatever the encoding and the key. Under a key with another MAC of the encoding, the
/// signature is refused.
pub proof fn law_a_token_carries_its_claims(claims: Seq<u8>, key: Seq<u8>, other: Seq<u8>)
    ensures
        token_claims(token_for_claims(claims, key), key) == Ok::<Seq<u8>, VerifyError>(claims),
        hmac_sha256(other, claims) != hmac_sha256(key, claims) ==> token_claims(
            token_for_claims(claims, key),
            other,
        ) == Err::<Seq<u8>, VerifyError>(VerifyError::BadSignature),
{
    let head = base64url(claims);
    let tail = base64url(hmac_sha256(key, claims));
    lemma_base64url_alphabet(claims);
    lemma_base64url_inverse(claims);
    lemma_base64url_inverse(hmac_sha256(key, claims));
    lemma_split(token_for_claims(claims, key), head, tail);
}

/// Claims come back from their token field by field, whatever encoding they are written in, as
/// long as it can be read back. Expiry, scope and nonce are not looked at.
pub proof fn law_claims_survive_their_token(
    encode: spec_fn(ClaimsView) -> Seq<u8>,
    decode: spec_fn(Seq<u8>) -> Option<ClaimsView>,
    claims: ClaimsView,
    key: Seq<u8>,
)
    requires
        decode(encode(claims)) == Some(claims),
    ensures
        ({
            let carried = token_claims(token_for_claims(encode(claims), key), key);
            carried is Ok && decode(carried->Ok_0) == Some(claims)
        }),
{
    law_a_token_carries_its_claims(encode(claims), key, key);
}

/// Mint a token over a claims encoding. It has one dot, no padding, and a MAC of 43 characters
/// behind the dot. Verifying it under the same key gives the encoding back; under any key with
/// another MAC of the encoding, the signature is refused.
pub fn mint(claims_json: &[u8], key: &[u8]) -> (res: String)
    requires
        (claims_json@.len() + 2) / 3 * 4 <= isize::MAX,
    ensures
        res@ == token_for_claims(claims_json@, key@),
        res@.len() == base64url(claims_json@).len() + 44,
        forall|i: int|
            0 <= i < res@.len() ==> (#[trigger] res@[i] == '.' <==> i == base64url(
                claims_json@,
            ).len()),
        !res@.contains('='),
        token_claims(res@, key@) == Ok::<Seq<u8>, VerifyError>(claims_json@),
        forall|other: Seq<u8>|
            hmac_sha256(other, claims_json@) != hmac_sha256(key@, claims_json@) ==> (
            #[trigger] token_claims(res@, other)) == Err::<Seq<u8>, VerifyError>(
                VerifyError::BadSignature,
            ),
{
    let sig = hmac_sha256_tag(key, claims_json);
    let mut res = base64url_encode(claims_json);
    let ghost head = res@;
    res.append(".");
    let tail = base64url_encode(sig.as_slice());
    res.append(tail.as_str());
    proof {
        reveal_strlit(".");
        assert("."@ =~= seq!['.']);
        lemma_base64url_alphabet(claims_json@);
        lemma_base64url_alphabet(sig@);
        assert forall|i: int| 0 <= i < res@.len() implies {
            &&& (#[trigger] res@[i] == '.' <==> i == head.len())
            &&& res@[i] != '='
        } by {
            if i < head.len() {
                assert(head.contains(res@[i]));
            } else if i > head.len() {
                assert(tail@[i - head.len() - 1] == res@[i]);
            }
        }
        law_a_token_carries_its_claims(claims_json@, key@, key@);
        assert forall|other: Seq<u8>|
            hmac_sha256(other, claims_json@) != hmac_sha256(key@, claims_json@) implies (
        #[trigger] token_claims(res@, other)) == Err::<Seq<u8>, VerifyError>(
            VerifyError::BadSignature,
        ) by {
            law_a_token_carries_its_claims(claims_json@, key@, other);
        }
    }
    res
}

/// Check the MAC and return the claims encoding that it covers (constant-time MAC check).
/// Does NOT check expiry, scope or jti: those are policy checks the caller layers on top.
pub fn verify(token: &str, key: &[u8]) -> (res: Result<Vec<u8>, VerifyError>)
    ensures
        match res {
            Ok(body) => token_claims(token@, key@) == Ok::<Seq<u8>, VerifyError>(body@),
            Err(e) => token_claims(token@, key@) == Err::<Seq<u8>, VerifyError>(e),
        },
{
    let (b_body, b_sig) = match split_once(token, '.') {
        Some(halves) => halves,
        None => return Err(VerifyError::Malformed),
    };
    proof {
        lemma_split(token@, b_body@, b_sig@);
    }
    let body = match base64url_decode(b_body) {
        Some(bytes) => bytes,
        None => return Err(VerifyError::Malformed),
    };
    let sig = match base64url_decode(b_sig) {
        Some(bytes) => bytes,
        None => return Err(VerifyError::Malformed),
    };
    proof {
        lemma_base64url_inverse(body@);
        lemma_base64url_inverse(sig@);
    }
    if hmac_sha256_verify(key, body.as_slice(), sig.as_slice()) {
        Ok(body)
    } else {
        Err(VerifyError::BadSignature)
    }
}

/// An HMAC key from its hexadecimal form.
pub fn key_from_hex(key_hex: &str) -> (res: Result<Vec<u8>, HexError>)
    ensures
        match res {
            Ok(key) => hex_decoding(vstd::utf8::encode_utf8(key_hex@)) == Ok::<Seq<u8>, HexError>(
                key@,
            ),
            Err(e) => hex_decoding(vstd::utf8::encode_utf8(key_hex@)) == Err::<Seq<u8>, HexError>(e),
        },
{
    hex_decode(key_hex)
}

/// A token carries a claims encoding under a key exactly where it is that encoding and its MAC,
/// both in base64url, around a dot: no other text is accepted for it, and no other encoding is
/// read out of it.
pub proof fn law_a_token_is_accepted_only_with_its_mac(
    token: Seq<char>,
    key: Seq<u8>,
    claims: Seq<u8>,
)
    ensures
        token_claims(token, key) == Ok::<Seq<u8>, VerifyError>(claims) <==> token == base64url(
            claims,
        ) + seq!['.'] + base64url(hmac_sha256(key, claims)),
{
    law_a_token_carries_its_claims(claims, key, key);
    if token_claims(token, key) == Ok::<Seq<u8>, VerifyError>(claims) {
        let head = before_first(token, '.');
        law_before_first_ends_at_the_first(token, '.');
        let n = head.len() as int;
        if n == token.len() {
            assert(token.take(n) =~= token);
        }
        assert(token[n] == '.');
        assert(head == base64url(claims));
        assert(token.skip(n + 1) == base64url(hmac_sha256(key, claims)));
        assert(token =~= head + seq!['.'] + token.skip(n + 1));
    }
}

/// A token is malformed exactly where it is not two base64url texts around its first dot; one
/// that is, with another MAC, is a bad signature.
pub proof fn law_two_encoded_halves_make_a_token(
    head: Seq<char>,
    tail: Seq<char>,
    body: Seq<u8>,
    tag: Seq<u8>,
    key: Seq<u8>,
)
    requires
        !head.contains('.'),
    ensures
        ({
            let found = token_claims(head + seq!['.'] + tail, key);
            &&& head == base64url(body) && tail == base64url(tag) ==> found == if tag
                == hmac_sha256(key, body) {
                Ok::<Seq<u8>, VerifyError>(body)
            } else {
                Err(VerifyError::BadSignature)
            }
            &&& (forall|b: Seq<u8>| head != #[trigger] base64url(b)) ==> found == Err::<
                Seq<u8>,
                VerifyError,
            >(VerifyError::Malformed)
            &&& (forall|b: Seq<u8>| tail != #[trigger] base64url(b)) ==> found == Err::<
                Seq<u8>,
                VerifyError,
            >(VerifyError::Malformed)
        }),
        token_claims(head, key) == Err::<Seq<u8>, VerifyError>(VerifyError::Malformed),
{
    lemma_split(head + seq!['.'] + tail, head, tail);
    lemma_base64url_inverse(body);
    lemma_base64url_inverse(tag);
}

/// The views of claims and scopes show every field.
pub proof fn law_claims_show_every_field(c: Claims, s: Scope)
    ensures
        c@.jti == c.jti@,
        c@.agent_id == c.agent_id@,
        c@.on_behalf_of == opt_text(c.on_behalf_of),
        c@.workload_selector == opt_text(c.workload_selector),
        c@.scope == c.scope@,
        c@.crh == opt_text(c.crh),
        c@.exp_unix_ms == c.exp_unix_ms,
        s@.method == s.method@,
        s@.authority == s.authority@,
        s@.path_prefix == s.path_prefix@,
{
}

} // verus!
