# ext-authz

External per-action authorization at the egress of a sandbox, verified with Verus.

For each outbound request a middleware asks an out-of-process verifier ("guard service")
whether *this* action, on behalf of *this* agent, is allowed, and enforces the verdict before
the request leaves. The verifier checks a single-use token that is bound to the durable agent
and, for an exact grant, to the canonical hash of the request.

## Layout

* `src/` is the library, free of I/O. Every function states what it returns, and Verus proves
  it. `hash` defines `crh_v1`, the canonical request hash; `types`, `credentials` and
  `evidence` are the wire contract; `config` and `endpoint` the configuration; `middleware` the
  decision logic at the egress hook; `token` and `guard` the verifier; `driver` and `render` a
  demonstration, of which `rehearsal` states that it comes out as expected. Laws (`law_*`) state what holds across functions, such as that a nonce is
  allowed at most once, that observe mode never blocks, and that two requests with one
  preimage are the same request up to spelling.
* `src/primitives.rs` wraps SHA-256, HMAC, base64url, hex and lossy UTF-8; with three string functions in
  `src/text.rs` it holds all that is relied on without proof.
* `app/` is the program around it: command line, HTTP client and server, JSON, clock, printing.
* `tests/` runs the library.

## The canonical request hash

```
crh_v1 = SHA-256( "openshell-crh-v1\0"
    || u32_be(len) || method      (uppercased)
    || u32_be(len) || scheme      (lowercased)
    || u32_be(len) || authority   (lowercased; default port stripped)
    || u32_be(len) || path        (bytes as forwarded; "" -> "/")
    || u32_be(len) || query       (bytes after '?', as forwarded)
    || u32_be(32)  || sha256(body) )
```

## Running

```
ext-authz-demo demo              # a verifier in process, and every scenario
ext-authz-demo demo --story      # the same, one scenario at a time
ext-authz-demo verifier --listen 127.0.0.1:18443
```
