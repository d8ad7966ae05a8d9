# actix_web_auth

Bearer-token authentication and policy-based authorization for actix-web
services. The decision logic is a Verus library whose contracts are proved;
the actix-web integration around it is ordinary Rust.

- `src/` — the verified library:
  - `request.rs`: the bearer token of a request's `Authorization` header and
    the identity (claims) its payload carries;
  - `validator.rs`: the validator's configuration and cache, staleness of the
    fetched documents, reading a key set, key lookup and key material, what a
    token's signature is checked with, token validation and policy
    enforcement;
  - `policy.rs`, `policies.rs`: access policies and the permissions a token
    grants;
  - `guard.rs`: how the `authorize` attribute wraps a handler;
  - `json.rs`, `codec.rs`, `jwt.rs`: the calls into `serde_json`, `base64`
    and `jsonwebtoken`, with the contracts the library relies on;
  - `text.rs`: string primitives; `laws.rs`: properties across functions.
- `app/` — fetching documents with `reqwest`, the YAML policy file, the
  shared validator, `configure_auth`, and the attribute's expansion.
- `tests/` — tests of the library on concrete values.
