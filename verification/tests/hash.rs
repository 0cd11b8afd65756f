use ext_authz::driver::crh_hex;
use ext_authz::hash::normalize_authority;
use ext_authz::{canonical_request_hash, sha256_bytes, CanonicalRequestParts, CRH_DOMAIN};

fn crh(
    method: &str,
    scheme: &str,
    authority: &str,
    path: &str,
    query: &str,
    body: &[u8],
) -> [u8; 32] {
    canonical_request_hash(&CanonicalRequestParts {
        method,
        scheme,
        authority,
        path,
        query,
        body_sha256: sha256_bytes(body),
    })
}

#[test]
fn case_and_default_port_are_normalized() {
    let a = crh("get", "HTTPS", "Example.COM:443", "/x", "", b"");
    let b = crh("GET", "https", "example.com", "/x", "", b"");
    assert_eq!(a, b);
}

#[test]
fn empty_path_means_root() {
    assert_eq!(
        crh("GET", "https", "example.com", "", "", b""),
        crh("GET", "https", "example.com", "/", "", b"")
    );
}

#[test]
fn non_default_port_is_significant() {
    assert_ne!(
        crh("GET", "https", "example.com:8443", "/", "", b""),
        crh("GET", "https", "example.com", "/", "", b"")
    );
}

#[test]
fn http_default_port_is_80_not_443() {
    assert_eq!(
        crh("GET", "http", "example.com:80", "/", "", b""),
        crh("GET", "http", "example.com", "/", "", b"")
    );
    assert_ne!(
        crh("GET", "http", "example.com:443", "/", "", b""),
        crh("GET", "http", "example.com", "/", "", b"")
    );
}

#[test]
fn query_bytes_are_not_reordered_or_decoded() {
    assert_ne!(
        crh("GET", "https", "example.com", "/", "a=1&b=2", b""),
        crh("GET", "https", "example.com", "/", "b=2&a=1", b"")
    );
    assert_ne!(
        crh("GET", "https", "example.com", "/p%2Fq", "", b""),
        crh("GET", "https", "example.com", "/p/q", "", b"")
    );
}

#[test]
fn body_change_changes_hash() {
    assert_ne!(
        crh("POST", "https", "example.com", "/", "", b"{\"a\":1}"),
        crh("POST", "https", "example.com", "/", "", b"{\"a\":2}")
    );
}

#[test]
fn field_boundaries_are_unambiguous() {
    // Same concatenated bytes, different field split -> different hashes.
    assert_ne!(
        crh("GET", "https", "example.com", "/ab", "c=1", b""),
        crh("GET", "https", "example.com", "/a", "bc=1", b"")
    );
}

#[test]
fn ipv6_authority_preserved_and_port_stripped_exactly() {
    assert_eq!(
        crh("GET", "https", "[::1]:443", "/", "", b""),
        crh("GET", "https", "[::1]", "/", "", b"")
    );
    assert_ne!(
        crh("GET", "https", "[::1]:8443", "/", "", b""),
        crh("GET", "https", "[::1]", "/", "", b"")
    );
}

#[test]
fn bare_ipv6_ending_in_443_is_not_mangled() {
    // A malformed (unbracketed) IPv6 authority that happens to end in ":443" must
    // be left intact, not truncated to "2001:db8:".
    assert_eq!(
        normalize_authority("https", "2001:db8::443"),
        "2001:db8::443"
    );
}

#[test]
fn non_http_scheme_does_not_strip_ports() {
    // No default port is defined for non-http(s) schemes, so nothing is stripped.
    assert_eq!(
        normalize_authority("ws", "example.com:443"),
        "example.com:443"
    );
    assert_ne!(
        crh("GET", "ws", "example.com:443", "/", "", b""),
        crh("GET", "ws", "example.com", "/", "", b"")
    );
}

#[test]
fn the_domain_separates_this_hash_from_others() {
    assert_eq!(&CRH_DOMAIN, b"openshell-crh-v1\0");
}

#[test]
fn sha256_of_nothing_is_the_known_digest() {
    assert_eq!(
        hex::encode(sha256_bytes(b"")),
        "e3b0c44298fc1c149afbf4c8996fb92427ae41e4649b934ca495991b7852b855"
    );
}

#[test]
fn crh_v1_has_known_values() {
    assert_eq!(
        hex::encode(crh("GET", "https", "example.com", "/", "", b"")),
        "59ab97e373b71f4750796e69e0a7db18000baf44bdaf9b20f729d05e5d044ea3"
    );
    assert_eq!(
        crh_hex(
            "POST",
            "https",
            "api.github.com",
            "/repos/acme/widgets/issues",
            "",
            b"{\"title\":\"fix egress\"}"
        ),
        "362355bedda9c2511a0b5f3f26362618702f0baad6539f7debaf2e7e315bd21a"
    );
    assert_eq!(
        crh_hex(
            "POST",
            "https",
            "api.github.com",
            "/repos/acme/widgets/issues",
            "",
            b"{\"title\":\"exfiltrate secrets\"}"
        ),
        "934b208d7c391f16622d199dabaf0c12187d7928e4e3b2ec1767c04cc2107508"
    );
}

#[test]
fn authority_edge_cases_are_left_alone() {
    // Nothing would be left of the host.
    assert_eq!(normalize_authority("https", ":443"), ":443");
    assert_eq!(normalize_authority("http", ""), "");
    // The port is stripped once.
    assert_eq!(normalize_authority("http", "A.example:80"), "a.example");
    assert_eq!(normalize_authority("http", "a:80:80"), "a:80:80");
    // Brackets open and close, or the rest is no literal.
    assert_eq!(normalize_authority("https", "a:b]:443"), "a:b]:443");
    assert_eq!(normalize_authority("https", "[a:b:443"), "[a:b:443");
    assert_eq!(normalize_authority("https", "[::1]:443"), "[::1]");
    assert_eq!(normalize_authority("https", "a]:443"), "a]");
    // Only a lower-case scheme has a default port here.
    assert_eq!(normalize_authority("HTTPS", "a:443"), "a:443");
    // Case folding is ASCII only.
    assert_eq!(normalize_authority("https", "\u{c9}X:443"), "\u{c9}x");
}

#[test]
fn normalizing_twice_is_normalizing_once() {
    for authority in ["Example.COM:443", "[::1]:443", "2001:db8::443", "a:443:443", ""] {
        let once = normalize_authority("https", authority);
        assert_eq!(normalize_authority("https", &once), once);
    }
}
