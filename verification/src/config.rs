//! Operator-facing middleware configuration.
//!
//! Two orthogonal knobs govern degraded behavior:
//!
//! * `mode`: `enforce` (verdicts block) or `observe` (never block; log the would-be verdict).
//! * `fail`: `closed` (verifier unreachable: deny, the secure default) or `open` (verifier
//!   unreachable: pass, audited as degraded).

use vstd::prelude::*;

use crate::hash::lemma_lower_idempotent;
use crate::text::{lower, texts};

verus! {

#[derive(Debug, Clone, Copy, PartialEq, Eq, Structural)]
pub enum Mode {
    Enforce,
    Observe,
}

#[derive(Debug, Clone, Copy, PartialEq, Eq, Structural)]
pub enum FailPolicy {
    Closed,
    Open,
}

#[derive(Debug, Clone)]
pub struct ExtAuthzConfig {
    /// The verifier's authorize endpoint, e.g. `http://127.0.0.1:18443/v1/authorize`.
    ///
    /// The per-action credential crosses this link, and the verifier dispenses ALLOW
    /// verdicts, so in production this MUST be a mutually authenticated, confidential
    /// channel: a unix-domain socket with restrictive filesystem permissions, or mTLS.
    pub verifier_url: String,
    pub mode: Mode,
    pub fail: FailPolicy,
    /// End-to-end budget for the verifier round trip (connect + request + response).
    pub timeout_ms: u64,
    /// Request header carrying the per-action credential. Matched case-insensitively.
    pub token_header: String,
    /// Additional request headers (lowercase) forwarded to the verifier, e.g.
    /// `x-request-id` for correlation. The token header is always forwarded.
    pub forward_headers: Vec<String>,
    /// Strip the token header before the request egresses upstream (the credential is
    /// for the verifier, not the destination).
    pub strip_token_header: bool,
    /// Maximum body size the middleware will buffer to hash. Larger requests are
    /// denied with `REQUEST_TOO_LARGE` (intent binding requires the body hash).
    pub max_body_bytes: usize,
}

/// The view of [`ExtAuthzConfig`].
#[verifier::ext_equal]
pub struct ConfigView {
    pub verifier_url: Seq<char>,
    pub mode: Mode,
    pub fail: FailPolicy,
    pub timeout_ms: u64,
    pub token_header: Seq<char>,
    pub forward_headers: Seq<Seq<char>>,
    pub strip_token_header: bool,
    pub max_body_bytes: usize,
}

impl View for ExtAuthzConfig {
    type V = ConfigView;

    open spec fn view(&self) -> ConfigView {
        ConfigView {
            verifier_url: self.verifier_url@,
            mode: self.mode,
            fail: self.fail,
            timeout_ms: self.timeout_ms,
            token_header: self.token_header@,
            forward_headers: texts(self.forward_headers@),
            strip_token_header: self.strip_token_header,
            max_body_bytes: self.max_body_bytes,
        }
    }
}

/// The configuration with its header names in lower case.
pub open spec fn normalized_config(c: ConfigView) -> ConfigView {
    ConfigView {
        token_header: lower(c.token_header),
        forward_headers: c.forward_headers.map_values(|h: Seq<char>| lower(h)),
        ..c
    }
}

/// Normalizing a configuration twice is normalizing it once.
pub proof fn law_normalized_config_is_idempotent(c: ConfigView)
    ensures
        normalized_config(normalized_config(c)) == normalized_config(c),
{
    let n = normalized_config(c);
    lemma_lower_idempotent(c.token_header);
    assert forall|i: int| 0 <= i < c.forward_headers.len() implies lower(
        #[trigger] n.forward_headers[i],
    ) == n.forward_headers[i] by {
        lemma_lower_idempotent(c.forward_headers[i]);
    }
    assert(normalized_config(n).forward_headers =~= n.forward_headers);
}

/// Default header carrying the per-action credential. Single source of truth so the
/// middleware and the guard agree on the name.
pub const DEFAULT_TOKEN_HEADER: &'static str = "x-hawcx-haap-token";

/// The default mode: verdicts block.
pub fn d_mode() -> (res: Mode)
    ensures
        res == Mode::Enforce,
{
    Mode::Enforce
}

/// The default fail policy: no verdict, no passage.
pub fn d_fail() -> (res: FailPolicy)
    ensures
        res == FailPolicy::Closed,
{
    FailPolicy::Closed
}

/// The default budget for the verifier round trip.
pub fn d_timeout_ms() -> (res: u64)
    ensures
        res == 100,
{
    100
}

/// The default token header, [`DEFAULT_TOKEN_HEADER`].
pub fn d_token_header() -> (res: String)
    ensures
        res@ == DEFAULT_TOKEN_HEADER@,
{
    DEFAULT_TOKEN_HEADER.to_owned()
}

/// The default of switches that are on unless switched off.
pub fn d_true() -> (res: bool)
    ensures
        res,
{
    true
}

/// The default body limit, 1 MiB.
pub fn d_max_body() -> (res: usize)
    ensures
        res == 1024 * 1024,
{
    1024 * 1024
}

impl ExtAuthzConfig {
    /// Lowercase the header names once, at load time.
    pub fn normalized(self) -> (res: Self)
        ensures
            res@ == normalized_config(self@),
            res.verifier_url@ == self.verifier_url@,
            res.mode == self.mode,
            res.fail == self.fail,
            res.timeout_ms == self.timeout_ms,
            res.strip_token_header == self.strip_token_header,
            res.max_body_bytes == self.max_body_bytes,
            res.token_header@ == lower(self.token_header@),
            res.forward_headers@.len() == self.forward_headers@.len(),
            forall|i: int|
                0 <= i < self.forward_headers@.len() ==> (#[trigger] res.forward_headers@[i])@
                    == lower(self.forward_headers@[i]@),
    {
        let token_header = self.token_header.as_str().to_ascii_lowercase();
        let mut forward_headers: Vec<String> = Vec::new();
        let n: usize = self.forward_headers.len();
        let mut i: usize = 0;
        while i < n
            invariant
                n == self.forward_headers@.len(),
                i <= n,
                forward_headers@.len() == i,
                forall|j: int|
                    0 <= j < i ==> (#[trigger] forward_headers@[j])@ == lower(
                        self.forward_headers@[j]@,
                    ),
            decreases n - i,
        {
            forward_headers.push(self.forward_headers[i].as_str().to_ascii_lowercase());
            i += 1;
        }
        let res = ExtAuthzConfig {
            verifier_url: self.verifier_url,
            mode: self.mode,
            fail: self.fail,
            timeout_ms: self.timeout_ms,
            token_header,
            forward_headers,
            strip_token_header: self.strip_token_header,
            max_body_bytes: self.max_body_bytes,
        };
        assert(res@.forward_headers =~= normalized_config(self@).forward_headers);
        res
    }
}

/// Normalizing changes nothing but the case of header names: mode, fail policy, limits and
/// endpoint stay what the operator wrote, and so do the number and order of forwarded names.
pub proof fn law_normalizing_changes_the_case_of_names_only(c: ConfigView)
    ensures
        normalized_config(c).verifier_url == c.verifier_url,
        normalized_config(c).mode == c.mode,
        normalized_config(c).fail == c.fail,
        normalized_config(c).timeout_ms == c.timeout_ms,
        normalized_config(c).strip_token_header == c.strip_token_header,
        normalized_config(c).max_body_bytes == c.max_body_bytes,
        normalized_config(c).token_header == lower(c.token_header),
        normalized_config(c).forward_headers.len() == c.forward_headers.len(),
        forall|i: int|
            0 <= i < c.forward_headers.len() ==> (#[trigger] normalized_config(c).forward_headers[i])
                == lower(c.forward_headers[i]),
{
}

/// The view of a configuration shows every field.
pub proof fn law_a_configuration_shows_every_field(c: ExtAuthzConfig)
    ensures
        c@.verifier_url == c.verifier_url@,
        c@.mode == c.mode,
        c@.fail == c.fail,
        c@.timeout_ms == c.timeout_ms,
        c@.token_header == c.token_header@,
        c@.forward_headers.len() == c.forward_headers@.len(),
        forall|i: int|
            0 <= i < c.forward_headers@.len() ==> (#[trigger] c@.forward_headers[i])
                == c.forward_headers@[i]@,
        c@.strip_token_header == c.strip_token_header,
        c@.max_body_bytes == c.max_body_bytes,
{
}

} // verus!
