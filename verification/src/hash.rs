//! `crh_v1` — the canonical request hash.
//!
//! The hash a per-action verifier binds its decision to, and the digest the proxy can emit as
//! privacy-preserving audit evidence:
//!
//! ```text
//! crh_v1 = SHA-256(
//!     "openshell-crh-v1" || 0x00            // domain separator, NUL-terminated
//!     || u32_be(len(method))    || method      // ASCII-uppercased
//!     || u32_be(len(scheme))    || scheme      // ASCII-lowercased
//!     || u32_be(len(authority)) || authority   // lowercased; default port stripped
//!     || u32_be(len(path))      || path        // bytes as forwarded ("" -> "/")
//!     || u32_be(len(query))     || query       // bytes after '?', as forwarded ("" if none)
//!     || u32_be(32)             || sha256(body)
//! )
//! ```
//!
//! * Every variable-length field is prefixed with its byte length, so that no two splits of the
//!   same bytes into fields hash alike.
//! * Path and query are hashed exactly as they will be forwarded: no percent-decoding, no
//!   dot-segment removal, no query reordering.
//! * Method, scheme and authority are normalized for ASCII case and for the scheme's default
//!   port only.
//! * Headers are excluded, and the body enters through its SHA-256 digest.

use vstd::arithmetic::div_mod::lemma_mod_breakdown;
use vstd::prelude::*;
use vstd::utf8::encode_utf8;

use crate::primitives::{sha256, sha256_digest};
use crate::text::{
    contains_char, ends_with, lower, lower_char, starts_with, str_eq, strip_suffix, upper,
    upper_char,
};

verus! {

/// Domain separator for `crh_v1`: `openshell-crh-v1` and a NUL byte. Changing the layout
/// requires a new domain string.
pub const CRH_DOMAIN: [u8; 17] = [
    0x6f, 0x70, 0x65, 0x6e, 0x73, 0x68, 0x65, 0x6c, 0x6c, 0x2d, 0x63, 0x72, 0x68, 0x2d, 0x76, 0x31,
    0x00,
];

/// The pieces of a request that participate in `crh_v1`.
#[derive(Debug, Clone, Copy)]
pub struct CanonicalRequestParts<'a> {
    /// HTTP method as seen by the proxy (any case).
    pub method: &'a str,
    /// URL scheme (any case): `https` / `http`.
    pub scheme: &'a str,
    /// `host[:port]` as forwarded (any case). IPv6 hosts keep their brackets.
    pub authority: &'a str,
    /// Path exactly as it will be forwarded upstream. Empty means `/`.
    pub path: &'a str,
    /// Query after `?`, exactly as forwarded; empty if there is none.
    pub query: &'a str,
    /// SHA-256 of the request body (of the empty string when there is no body).
    pub body_sha256: [u8; 32],
}

/// The view of [`CanonicalRequestParts`].
#[verifier::ext_equal]
pub struct PartsView {
    pub method: Seq<char>,
    pub scheme: Seq<char>,
    pub authority: Seq<char>,
    pub path: Seq<char>,
    pub query: Seq<char>,
    pub body_sha256: Seq<u8>,
}

impl<'a> View for CanonicalRequestParts<'a> {
    type V = PartsView;

    open spec fn view(&self) -> PartsView {
        PartsView {
            method: self.method@,
            scheme: self.scheme@,
            authority: self.authority@,
            path: self.path@,
            query: self.query@,
            body_sha256: self.body_sha256@,
        }
    }
}

/// Whether what remains in front of a default port is a well-formed host: a bracketed IPv6
/// literal, or a name or IPv4 address without an embedded colon.
pub open spec fn well_formed_host(host: Seq<char>) -> bool {
    host.len() > 0 && ((host[0] == '[' && host.last() == ']') || !host.contains(':'))
}

/// `a` without the port suffix, where it has that suffix behind a well-formed host.
pub open spec fn without_port(a: Seq<char>, port: Seq<char>) -> Seq<char> {
    let host = a.take(a.len() - port.len());
    if port.is_suffix_of(a) && well_formed_host(host) {
        host
    } else {
        a
    }
}

/// The authority in lower case and without the scheme's default port (`https`: `:443`,
/// `http`: `:80`; no other scheme has one).
pub open spec fn normalized_authority(scheme_lower: Seq<char>, authority: Seq<char>) -> Seq<char> {
    if scheme_lower == "https"@ {
        without_port(lower(authority), ":443"@)
    } else if scheme_lower == "http"@ {
        without_port(lower(authority), ":80"@)
    } else {
        lower(authority)
    }
}

/// The path as it is hashed: an empty path means the root.
pub open spec fn effective_path(path: Seq<char>) -> Seq<char> {
    if path.len() == 0 {
        "/"@
    } else {
        path
    }
}

/// The canonical spelling of a request: what `crh_v1` binds.
pub open spec fn canonical(p: PartsView) -> PartsView {
    PartsView {
        method: upper(p.method),
        scheme: lower(p.scheme),
        authority: normalized_authority(lower(p.scheme), p.authority),
        path: effective_path(p.path),
        query: p.query,
        body_sha256: p.body_sha256,
    }
}

/// The four bytes of a number modulo 2^32, most significant first.
pub open spec fn u32_be(n: nat) -> Seq<u8> {
    seq![
        (n / 0x100_0000 % 0x100) as u8,
        (n / 0x1_0000 % 0x100) as u8,
        (n / 0x100 % 0x100) as u8,
        (n % 0x100) as u8,
    ]
}

/// A length-prefixed field.
pub open spec fn field(bytes: Seq<u8>) -> Seq<u8> {
    u32_be(bytes.len()) + bytes
}

/// The bytes that are hashed for a request in its canonical spelling.
pub open spec fn preimage(c: PartsView) -> Seq<u8> {
    CRH_DOMAIN@ + field(encode_utf8(c.method)) + field(encode_utf8(c.scheme)) + field(
        encode_utf8(c.authority),
    ) + field(encode_utf8(c.path)) + field(encode_utf8(c.query)) + field(c.body_sha256)
}

/// `crh_v1` of a request.
pub open spec fn crh_v1(p: PartsView) -> Seq<u8> {
    sha256(preimage(canonical(p)))
}

/// SHA-256 of arbitrary bytes.
pub fn sha256_bytes(bytes: &[u8]) -> (res: [u8; 32])
    ensures
        res@ == sha256(bytes@),
{
    sha256_digest(bytes)
}

/// Lowercase the authority and strip the scheme's default port (`https`: `:443`,
/// `http`: `:80`). Other ports and IPv6 brackets are kept as they are.
///
/// The default port is stripped only behind a well-formed host: a bare (unbracketed) IPv6
/// address such as `2001:db8::443` is left untouched.
pub fn normalize_authority(scheme_lower: &str, authority: &str) -> (res: String)
    ensures
        res@ == normalized_authority(scheme_lower@, authority@),
{
    let a = authority.to_ascii_lowercase();
    proof {
        reveal_strlit("[");
        reveal_strlit("]");
    }
    let default_suffix: &str = if str_eq(scheme_lower, "https") {
        ":443"
    } else if str_eq(scheme_lower, "http") {
        ":80"
    } else {
        return a;
    };
    if let Some(host) = strip_suffix(a.as_str(), default_suffix) {
        assert(host@ =~= a@.take(a@.len() - default_suffix@.len()));
        assert(default_suffix@ =~= a@.subrange(a@.len() - default_suffix@.len(), a@.len() as int));
        let bracketed: bool = starts_with(host, "[") && ends_with(host, "]");
        let well_formed: bool = !host.is_empty() && (bracketed || !contains_char(host, ':'));
        assert(host@.len() > 0 ==> ("]"@.is_suffix_of(host@) <==> host@.last() == ']') && (
        "["@.is_prefix_of(host@) <==> host@[0] == '[')) by {
            if host@.len() > 0 {
                assert(host@.subrange(0, 1)[0] == host@[0]);
                if host@[0] == '[' {
                    assert("["@ =~= host@.subrange(0, 1));
                }
                let tail = host@.subrange(host@.len() - 1, host@.len() as int);
                assert(tail[0] == host@.last());
                if host@.last() == ']' {
                    assert("]"@ =~= tail);
                }
            }
        }
        if well_formed {
            return host.to_owned();
        }
    }
    a
}

/// Append a length-prefixed field: `u32_be(len) || bytes`.
fn put(h: &mut Vec<u8>, bytes: &[u8])
    ensures
        final(h)@ == old(h)@ + field(bytes@),
{
    let n: usize = bytes.len();
    h.push((n / 0x100_0000 % 0x100) as u8);
    h.push((n / 0x1_0000 % 0x100) as u8);
    h.push((n / 0x100 % 0x100) as u8);
    h.push((n % 0x100) as u8);
    assert(h@ =~= old(h)@ + u32_be(n as nat));
    h.extend_from_slice(bytes);
    assert(h@ =~= old(h)@ + field(bytes@));
}

/// Compute `crh_v1` over the canonical parts.
///
/// A length prefix is taken modulo 2^32. Fields are far below that bound: they come from a URL,
/// and the body enters as a 32-byte digest.
pub fn canonical_request_hash(p: &CanonicalRequestParts<'_>) -> (res: [u8; 32])
    ensures
        res@ == crh_v1(p@),
{
    let mut h: Vec<u8> = Vec::new();
    h.extend_from_slice(CRH_DOMAIN.as_slice());
    assert(h@ =~= CRH_DOMAIN@);
    let method = p.method.to_ascii_uppercase();
    put(&mut h, method.as_str().as_bytes());
    let scheme = p.scheme.to_ascii_lowercase();
    put(&mut h, scheme.as_str().as_bytes());
    let authority = normalize_authority(scheme.as_str(), p.authority);
    put(&mut h, authority.as_str().as_bytes());
    let path: &str = if p.path.is_empty() {
        "/"
    } else {
        p.path
    };
    put(&mut h, path.as_bytes());
    put(&mut h, p.query.as_bytes());
    put(&mut h, p.body_sha256.as_slice());
    sha256_digest(h.as_slice())
}

/// Whether the length prefixes of a request in its canonical spelling are exact.
pub open spec fn lengths_fit(c: PartsView) -> bool {
    &&& encode_utf8(c.method).len() <= u32::MAX
    &&& encode_utf8(c.scheme).len() <= u32::MAX
    &&& encode_utf8(c.authority).len() <= u32::MAX
    &&& encode_utf8(c.path).len() <= u32::MAX
    &&& encode_utf8(c.query).len() <= u32::MAX
    &&& c.body_sha256.len() <= u32::MAX
}

proof fn lemma_u32_be_injective(m: nat, n: nat)
    requires
        m <= u32::MAX,
        n <= u32::MAX,
        u32_be(m) == u32_be(n),
    ensures
        m == n,
{
    let a = u32_be(m);
    let b = u32_be(n);
    assert(a[0] == b[0] && a[1] == b[1] && a[2] == b[2] && a[3] == b[3]);
}

/// A length-prefixed field can be read off the front in one way only.
proof fn lemma_field_prefix(a: Seq<u8>, x: Seq<u8>, b: Seq<u8>, y: Seq<u8>)
    requires
        a.len() <= u32::MAX,
        b.len() <= u32::MAX,
        field(a) + x == field(b) + y,
    ensures
        a == b,
        x == y,
{
    let s = field(a) + x;
    let t = field(b) + y;
    assert(s.take(4) =~= u32_be(a.len()));
    assert(t.take(4) =~= u32_be(b.len()));
    lemma_u32_be_injective(a.len(), b.len());
    let n = a.len() as int;
    assert(s.subrange(4, 4 + n) =~= a);
    assert(t.subrange(4, 4 + n) =~= b);
    assert(s.skip(4 + n) =~= x);
    assert(t.skip(4 + n) =~= y);
}

/// Concatenation grouped to the right, behind a common head.
proof fn lemma_regroup(
    head: Seq<u8>,
    a: Seq<u8>,
    b: Seq<u8>,
    c: Seq<u8>,
    d: Seq<u8>,
    e: Seq<u8>,
    f: Seq<u8>,
)
    ensures
        (head + a + b + c + d + e + f).skip(head.len() as int) == a + (b + (c + (d + (e + f)))),
{
    assert(head + a + b + c + d + e + f =~= head + (a + (b + (c + (d + (e + f))))));
    assert((head + (a + (b + (c + (d + (e + f)))))).skip(head.len() as int) =~= a + (b + (c + (d + (
    e + f)))));
}

proof fn lemma_encode_injective(a: Seq<char>, b: Seq<char>)
    requires
        encode_utf8(a) == encode_utf8(b),
    ensures
        a == b,
{
    vstd::utf8::encode_utf8_decode_utf8(a);
    vstd::utf8::encode_utf8_decode_utf8(b);
}

/// Length-prefix discipline: the hashed bytes determine every field. Two requests whose
/// canonical spellings differ anywhere (in the method, the target, the split between path and
/// query, or the body digest) never present the same bytes to SHA-256.
pub proof fn law_fields_are_unambiguous(p: PartsView, q: PartsView)
    requires
        lengths_fit(canonical(p)),
        lengths_fit(canonical(q)),
    ensures
        preimage(canonical(p)) == preimage(canonical(q)) <==> canonical(p) == canonical(q),
{
    let c = canonical(p);
    let d = canonical(q);
    if preimage(c) == preimage(d) {
        let (c1, d1) = (field(encode_utf8(c.method)), field(encode_utf8(d.method)));
        let (c2, d2) = (field(encode_utf8(c.scheme)), field(encode_utf8(d.scheme)));
        let (c3, d3) = (field(encode_utf8(c.authority)), field(encode_utf8(d.authority)));
        let (c4, d4) = (field(encode_utf8(c.path)), field(encode_utf8(d.path)));
        let (c5, d5) = (field(encode_utf8(c.query)), field(encode_utf8(d.query)));
        let (c6, d6) = (field(c.body_sha256), field(d.body_sha256));
        assert(c6 + Seq::empty() =~= c6 && d6 + Seq::empty() =~= d6);
        lemma_regroup(CRH_DOMAIN@, c1, c2, c3, c4, c5, c6);
        lemma_regroup(CRH_DOMAIN@, d1, d2, d3, d4, d5, d6);
        lemma_field_prefix(
            encode_utf8(c.method),
            c2 + (c3 + (c4 + (c5 + c6))),
            encode_utf8(d.method),
            d2 + (d3 + (d4 + (d5 + d6))),
        );
        lemma_field_prefix(
            encode_utf8(c.scheme),
            c3 + (c4 + (c5 + c6)),
            encode_utf8(d.scheme),
            d3 + (d4 + (d5 + d6)),
        );
        lemma_field_prefix(
            encode_utf8(c.authority),
            c4 + (c5 + c6),
            encode_utf8(d.authority),
            d4 + (d5 + d6),
        );
        lemma_field_prefix(encode_utf8(c.path), c5 + c6, encode_utf8(d.path), d5 + d6);
        lemma_field_prefix(encode_utf8(c.query), c6, encode_utf8(d.query), d6);
        lemma_field_prefix(c.body_sha256, Seq::empty(), d.body_sha256, Seq::empty());
        lemma_encode_injective(c.method, d.method);
        lemma_encode_injective(c.scheme, d.scheme);
        lemma_encode_injective(c.authority, d.authority);
        lemma_encode_injective(c.path, d.path);
        lemma_encode_injective(c.query, d.query);
    }
}

/// Bind the bytes that egress: requests that present the same bytes to SHA-256 forward the same
/// query and body digest, and the same path up to the spelling of the root. Nothing is decoded
/// or reordered.
pub proof fn law_path_query_and_body_are_bound_verbatim(p: PartsView, q: PartsView)
    requires
        lengths_fit(canonical(p)),
        lengths_fit(canonical(q)),
        preimage(canonical(p)) == preimage(canonical(q)),
    ensures
        p.query == q.query,
        p.body_sha256 == q.body_sha256,
        p.path == q.path || (effective_path(p.path) == "/"@ && effective_path(q.path) == "/"@),
{
    law_fields_are_unambiguous(p, q);
}

/// Case and default-port spelling never change the hash: it depends on the canonical spelling
/// alone.
pub proof fn law_spelling_does_not_matter(p: PartsView, q: PartsView)
    requires
        upper(p.method) == upper(q.method),
        lower(p.scheme) == lower(q.scheme),
        normalized_authority(lower(p.scheme), p.authority) == normalized_authority(
            lower(q.scheme),
            q.authority,
        ),
        effective_path(p.path) == effective_path(q.path),
        p.query == q.query,
        p.body_sha256 == q.body_sha256,
    ensures
        crh_v1(p) == crh_v1(q),
{
}

/// ASCII lower case is idempotent.
pub proof fn lemma_lower_idempotent(s: Seq<char>)
    ensures
        lower(lower(s)) == lower(s),
{
    assert forall|i: int| 0 <= i < s.len() implies lower(lower(s))[i] == lower(s)[i] by {
        assert(lower_char(lower_char(s[i])) == lower_char(s[i]));
    }
    assert(lower(lower(s)) =~= lower(s));
}

/// ASCII upper case is idempotent.
pub proof fn lemma_upper_idempotent(s: Seq<char>)
    ensures
        upper(upper(s)) == upper(s),
{
    assert forall|i: int| 0 <= i < s.len() implies upper(upper(s))[i] == upper(s)[i] by {
        assert(upper_char(upper_char(s[i])) == upper_char(s[i]));
    }
    assert(upper(upper(s)) =~= upper(s));
}

/// A well-formed host has no port to strip.
proof fn lemma_host_has_no_port(host: Seq<char>, port: Seq<char>)
    requires
        well_formed_host(host),
        port.len() > 1,
        port[0] == ':',
        port.last() != ']',
    ensures
        without_port(host, port) == host,
        !port.is_suffix_of(host),
{
    if port.is_suffix_of(host) {
        let start = host.len() - port.len();
        let tail = host.subrange(start, host.len() as int);
        assert(tail[0] == ':' && host[start] == ':');
        assert(tail.last() == port.last() && tail.last() == host.last());
    }
}

proof fn lemma_without_port_idempotent(a: Seq<char>, port: Seq<char>)
    requires
        port.len() > 1,
        port[0] == ':',
        port.last() != ']',
    ensures
        without_port(without_port(a, port), port) == without_port(a, port),
{
    let host = a.take(a.len() - port.len());
    if port.is_suffix_of(a) && well_formed_host(host) {
        lemma_host_has_no_port(host, port);
    }
}

/// Normalizing an authority twice is normalizing it once.
pub proof fn law_normalized_authority_is_idempotent(scheme_lower: Seq<char>, authority: Seq<char>)
    ensures
        normalized_authority(scheme_lower, normalized_authority(scheme_lower, authority))
            == normalized_authority(scheme_lower, authority),
{
    reveal_strlit(":443");
    reveal_strlit(":80");
    let a = lower(authority);
    lemma_lower_idempotent(authority);
    lemma_without_port_idempotent(a, ":443"@);
    lemma_without_port_idempotent(a, ":80"@);
    assert forall|n: int| 0 <= n <= a.len() implies lower(#[trigger] a.take(n)) == a.take(n) by {
        assert forall|i: int| 0 <= i < n implies lower(a.take(n))[i] == a.take(n)[i] by {
            assert(lower(a)[i] == a[i]);
        }
        assert(lower(a.take(n)) =~= a.take(n));
    }
}

/// The canonical spelling is its own canonical spelling, and hashes alike.
pub proof fn law_canonical_is_idempotent(p: PartsView)
    ensures
        canonical(canonical(p)) == canonical(p),
        crh_v1(canonical(p)) == crh_v1(p),
{
    lemma_upper_idempotent(p.method);
    lemma_lower_idempotent(p.scheme);
    law_normalized_authority_is_idempotent(lower(p.scheme), p.authority);
    reveal_strlit("/");
}

/// The default port is a spelling of its absence: behind a well-formed host, `:443` is dropped
/// for `https` and `:80` for `http`.
pub proof fn law_default_port_is_stripped(host: Seq<char>)
    requires
        well_formed_host(lower(host)),
    ensures
        normalized_authority("https"@, host + ":443"@) == lower(host),
        normalized_authority("https"@, host) == lower(host),
        normalized_authority("http"@, host + ":80"@) == lower(host),
        normalized_authority("http"@, host) == lower(host),
{
    reveal_strlit("https");
    reveal_strlit("http");
    assert("https"@.len() != "http"@.len());
    reveal_strlit(":443");
    reveal_strlit(":80");
    lemma_host_has_no_port(lower(host), ":443"@);
    lemma_host_has_no_port(lower(host), ":80"@);
    assert(lower(":443"@) =~= ":443"@);
    assert(lower(":80"@) =~= ":80"@);
    lemma_append_port(host, ":443"@);
    lemma_append_port(host, ":80"@);
}

proof fn lemma_append_port(host: Seq<char>, port: Seq<char>)
    requires
        well_formed_host(lower(host)),
        lower(port) == port,
    ensures
        without_port(lower(host + port), port) == lower(host),
{
    let a = lower(host + port);
    assert(a =~= lower(host) + lower(port));
    assert(a.take(a.len() - port.len()) =~= lower(host));
    assert(port =~= a.subrange(a.len() - port.len(), a.len() as int));
}

/// Any other port is significant: an authority that does not end in the scheme's default port
/// is only lower-cased, and no other scheme has a default port.
pub proof fn law_other_ports_are_kept(scheme_lower: Seq<char>, authority: Seq<char>)
    requires
        scheme_lower == "https"@ ==> !":443"@.is_suffix_of(lower(authority)),
        scheme_lower == "http"@ ==> !":80"@.is_suffix_of(lower(authority)),
    ensures
        normalized_authority(scheme_lower, authority) == lower(authority),
{
    reveal_strlit("https");
    reveal_strlit("http");
    assert("https"@.len() != "http"@.len());
}

/// An empty path means the root.
pub proof fn law_empty_path_is_root(p: PartsView)
    requires
        p.path.len() == 0,
    ensures
        crh_v1(p) == crh_v1((PartsView { path: "/"@, ..p })),
{
    reveal_strlit("/");
}

/// The hash is SHA-256 of the domain and six fields, each behind its length in four big-endian
/// bytes: the method in upper case, the scheme in lower case, the normalized authority, the path
/// (or `/`), the query and the body digest.
#[verifier::spinoff_prover]
pub proof fn law_the_hash_covers_six_fields(p: PartsView)
    ensures
        ({
            let method = encode_utf8(upper(p.method));
            let scheme = encode_utf8(lower(p.scheme));
            let authority = encode_utf8(normalized_authority(lower(p.scheme), p.authority));
            let path = encode_utf8(
                if p.path.len() == 0 {
                    seq!['/']
                } else {
                    p.path
                },
            );
            let query = encode_utf8(p.query);
            let domain = encode_utf8("openshell-crh-v1"@) + seq![0u8];
            crh_v1(p) == sha256(
                domain + u32_be(method.len()) + method + u32_be(scheme.len()) + scheme + u32_be(
                    authority.len(),
                ) + authority + u32_be(path.len()) + path + u32_be(query.len()) + query + u32_be(
                    p.body_sha256.len(),
                ) + p.body_sha256,
            )
        }),
{
    reveal_strlit("/");
    reveal_strlit("openshell-crh-v1");
    vstd::string::is_ascii_spec_bytes("openshell-crh-v1");
    assert("/"@ =~= seq!['/']);
    let domain = encode_utf8("openshell-crh-v1"@) + seq![0u8];
    assert(domain =~= CRH_DOMAIN@);
    let c = canonical(p);
    let method = encode_utf8(c.method);
    let scheme = encode_utf8(c.scheme);
    let authority = encode_utf8(c.authority);
    let path = encode_utf8(c.path);
    let query = encode_utf8(c.query);
    assert(preimage(c) =~= domain + u32_be(method.len()) + method + u32_be(scheme.len()) + scheme
        + u32_be(authority.len()) + authority + u32_be(path.len()) + path + u32_be(query.len())
        + query + u32_be(p.body_sha256.len()) + p.body_sha256);
}

/// A length prefix is four bytes, the most significant first, and stands for the length modulo
/// 2^32.
#[verifier::spinoff_prover]
pub proof fn law_a_length_prefix_stands_for_the_length(n: nat)
    ensures
        u32_be(n).len() == 4,
        u32_be(n)[0] * 0x100_0000 + u32_be(n)[1] * 0x1_0000 + u32_be(n)[2] * 0x100 + u32_be(n)[3]
            == n % 0x1_0000_0000,
{
    let m = n as int;
    lemma_mod_breakdown(m, 0x100_0000, 0x100);
    lemma_mod_breakdown(m, 0x1_0000, 0x100);
    lemma_mod_breakdown(m, 0x100, 0x100);
    let (a, b, c, d) = (m / 0x100_0000 % 0x100, m / 0x1_0000 % 0x100, m / 0x100 % 0x100, m % 0x100);
    assert(u32_be(n)[0] == a && u32_be(n)[1] == b && u32_be(n)[2] == c && u32_be(n)[3] == d);
    assert(m % 0x1_0000_0000 == 0x100_0000 * a + m % 0x100_0000);
    assert(m % 0x100_0000 == 0x1_0000 * b + m % 0x1_0000);
    assert(m % 0x1_0000 == 0x100 * c + d);
}

/// The hashed bytes bind every field: requests that present the same bytes to SHA-256 have the
/// same method up to case, the same scheme up to case, the same target up to case and default
/// port, the same path (an empty one being the root), the same query and the same body digest.
pub proof fn law_the_hashed_bytes_bind_every_field(p: PartsView, q: PartsView)
    requires
        lengths_fit(canonical(p)),
        lengths_fit(canonical(q)),
        preimage(canonical(p)) == preimage(canonical(q)),
    ensures
        upper(p.method) == upper(q.method),
        lower(p.method) == lower(q.method),
        lower(p.scheme) == lower(q.scheme),
        normalized_authority(lower(p.scheme), p.authority) == normalized_authority(
            lower(q.scheme),
            q.authority,
        ),
        p.path == q.path || (p.path.len() == 0 && q.path == seq!['/']) || (q.path.len() == 0
            && p.path == seq!['/']),
        p.query == q.query,
        p.body_sha256 == q.body_sha256,
{
    reveal_strlit("/");
    assert("/"@ =~= seq!['/']);
    law_fields_are_unambiguous(p, q);
    assert(upper(p.method).len() == upper(q.method).len());
    assert forall|i: int| 0 <= i < p.method.len() implies lower(p.method)[i] == lower(
        q.method,
    )[i] by {
        assert(upper(p.method)[i] == upper(q.method)[i]);
        assert(upper_char(p.method[i]) == upper_char(q.method[i]));
    }
    assert(lower(p.method) =~= lower(q.method));
    if p.path.len() == 0 && q.path.len() == 0 {
        assert(p.path =~= q.path);
    }
}

/// The bound on lengths is on the encoded fields, one by one.
pub proof fn law_lengths_fit_field_by_field(c: PartsView)
    ensures
        lengths_fit(c) <==> {
            &&& encode_utf8(c.method).len() < 0x1_0000_0000
            &&& encode_utf8(c.scheme).len() < 0x1_0000_0000
            &&& encode_utf8(c.authority).len() < 0x1_0000_0000
            &&& encode_utf8(c.path).len() < 0x1_0000_0000
            &&& encode_utf8(c.query).len() < 0x1_0000_0000
            &&& c.body_sha256.len() < 0x1_0000_0000
        },
{
}

/// What normalizing an authority does, on every input: lower case, and the last four (or three)
/// characters dropped exactly where the scheme is `https` (or `http`), they are `:443` (or
/// `:80`), and what stands before them is not empty and either stands in brackets or holds no
/// colon.
pub proof fn law_only_a_default_port_behind_a_host_is_dropped(
    scheme_lower: Seq<char>,
    authority: Seq<char>,
)
    ensures
        ({
            let a = lower(authority);
            let port = if scheme_lower == "https"@ {
                seq![':', '4', '4', '3']
            } else if scheme_lower == "http"@ {
                seq![':', '8', '0']
            } else {
                Seq::empty()
            };
            let n = a.len() - port.len();
            let dropped = port.len() > 0 && n > 0 && a.skip(n) == port && ((a[0] == '[' && a[n - 1]
                == ']') || forall|i: int| 0 <= i < n ==> a[i] != ':');
            normalized_authority(scheme_lower, authority) == if dropped {
                a.take(n)
            } else {
                a
            }
        }),
{
    reveal_strlit("https");
    reveal_strlit("http");
    reveal_strlit(":443");
    reveal_strlit(":80");
    assert(":443"@ =~= seq![':', '4', '4', '3']);
    assert(":80"@ =~= seq![':', '8', '0']);
    let a = lower(authority);
    let port = if scheme_lower == "https"@ {
        ":443"@
    } else {
        ":80"@
    };
    let n = a.len() - port.len();
    if n >= 0 {
        assert(a.skip(n) =~= a.subrange(n, a.len() as int));
        let host = a.take(n);
        assert(host.contains(':') <==> !(forall|i: int| 0 <= i < n ==> a[i] != ':')) by {
            if host.contains(':') {
                let i = choose|i: int| 0 <= i < host.len() && host[i] == ':';
                assert(a[i] == ':');
            }
            if !(forall|i: int| 0 <= i < n ==> a[i] != ':') {
                let i = choose|i: int| 0 <= i < n && a[i] == ':';
                assert(host[i] == ':');
            }
        }
        if n > 0 {
            assert(host[0] == a[0] && host.last() == a[n - 1]);
        }
    }
}

/// The view of the parts of a request shows every field.
pub proof fn law_parts_show_every_field(p: CanonicalRequestParts<'_>)
    ensures
        p@.method == p.method@,
        p@.scheme == p.scheme@,
        p@.authority == p.authority@,
        p@.path == p.path@,
        p@.query == p.query@,
        p@.body_sha256 == p.body_sha256@,
{
}

} // verus!
