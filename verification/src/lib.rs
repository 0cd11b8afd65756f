//! External per-action authorization at the egress of a sandbox.
//!
//! For each outbound request a middleware asks an out-of-process verifier ("guard service")
//! whether *this* action is allowed, and enforces the verdict before the request leaves.
//!
//! * [`hash`]: `crh_v1`, the canonical request hash that binds a decision to the bytes that
//!   egress, and doubles as a privacy-preserving audit digest.
//! * [`types`]: the `AuthorizeRequest` / `AuthorizeResponse` wire contract between the
//!   middleware and the verifier, with [`credentials`] and [`evidence`] as its parts.
//! * [`config`] and [`endpoint`]: operator-facing configuration, and what to warn of in it.
//! * [`middleware`]: finds the token, hashes, asks, enforces, audits; [`laws`] states what it
//!   promises as a whole.
//! * [`token`] and [`guard`]: a per-action token and a verifier for it.
//! * [`driver`] and [`render`]: a demonstration that runs scenarios through both;
//!   [`rehearsal`] states that it comes out as expected.
//!
//! The library is free of I/O: a host supplies the clock, the network and the JSON encoding.
//! [`primitives`] holds the outside functions that are relied on without proof, [`text`] what
//! strings need.

pub mod config;
pub mod credentials;
pub mod driver;
pub mod endpoint;
pub mod evidence;
pub mod guard;
pub mod hash;
pub mod laws;
pub mod middleware;
pub mod primitives;
pub mod rehearsal;
pub mod render;
pub mod text;
pub mod token;
pub mod types;

pub use config::{ExtAuthzConfig, FailPolicy, Mode, DEFAULT_TOKEN_HEADER};
pub use hash::{canonical_request_hash, sha256_bytes, CanonicalRequestParts, CRH_DOMAIN};
pub use types::{AuthorizeRequest, AuthorizeResponse, Decision, RequestDescriptor, WireContext};
