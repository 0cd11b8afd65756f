//! Known reason codes. The set is extensible; unknown codes are passed through to the audit
//! sink verbatim.

use vstd::prelude::*;

verus! {

// Emitted by the middleware itself (no verifier round trip, or verifier failure).
pub const TOKEN_MISSING: &'static str = "TOKEN_MISSING";

/// More than one instance of the token header was present: refused rather than guessing
/// which one to authorize.
pub const TOKEN_AMBIGUOUS: &'static str = "TOKEN_AMBIGUOUS";

pub const REQUEST_TOO_LARGE: &'static str = "REQUEST_TOO_LARGE";

pub const VERIFIER_UNAVAILABLE: &'static str = "VERIFIER_UNAVAILABLE";

pub const VERIFIER_TIMEOUT: &'static str = "VERIFIER_TIMEOUT";

pub const VERIFIER_MALFORMED_RESPONSE: &'static str = "VERIFIER_MALFORMED_RESPONSE";

// Emitted by a verifier (the guard's set; others may extend it).
/// The request used a wire-contract version this verifier does not implement.
pub const UNSUPPORTED_VERSION: &'static str = "UNSUPPORTED_VERSION";

/// The canonical allow code. A verifier signals "authorized" with this exact code.
pub const OK: &'static str = "OK";

pub const TOKEN_MALFORMED: &'static str = "TOKEN_MALFORMED";

pub const TOKEN_SIGNATURE_INVALID: &'static str = "TOKEN_SIGNATURE_INVALID";

pub const TOKEN_EXPIRED: &'static str = "TOKEN_EXPIRED";

pub const TOKEN_REPLAYED: &'static str = "TOKEN_REPLAYED";

/// The token's bound agent principal is not the acting agent (or its on-behalf-of human).
pub const AGENT_MISMATCH: &'static str = "AGENT_MISMATCH";

/// The agent principal has been revoked (applies across all of its sandboxes).
pub const AGENT_REVOKED: &'static str = "AGENT_REVOKED";

/// The acting sandbox is outside the token's optional workload selector.
pub const WORKLOAD_MISMATCH: &'static str = "WORKLOAD_MISMATCH";

pub const INTENT_MISMATCH: &'static str = "INTENT_MISMATCH";

pub const CRH_MISMATCH: &'static str = "CRH_MISMATCH";

/// The descriptor could not be canonicalized at all. Distinct from `CRH_MISMATCH`, which is
/// a well-formed hash that simply does not match.
pub const DESCRIPTOR_MALFORMED: &'static str = "DESCRIPTOR_MALFORMED";

} // verus!
