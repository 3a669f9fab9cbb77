# oidc-rs

OIDC resource-server primitives for Rust services, written in Verus: the
decisions of the authentication pipeline carry contracts that Verus proves.

- `src/` is the verified library:
  - `config` — the `AuthConfig` builder and its checks.
  - `identity` — `Claims`, `Identity`, `AuthError`.
  - `response` — the stable code, public message and HTTP status of an error.
  - `text` — Unicode whitespace, trimming, splitting.
  - `resolve` — reading an `Authorization` header (`Bearer` / `Basic`).
  - `validator` — choosing the key and algorithm for a JWT, the validation
    policy, and turning a decode outcome into `Claims`.
  - `exchanger` — the cache of Basic-credential exchanges (issued tokens and
    remembered refusals), the token request and its status classification.
- `app/` is the runtime around it: HTTP discovery and key fetching, the
  `jsonwebtoken` decode call, the shared exchanger with single-flight locks,
  JSON forms of the identity types, and the Actix-Web and Axum adapters.
- `tests/` exercises the library on concrete values.

Calls into `base64`, `sha2`, `jsonwebtoken`, `serde_json` and `dashmap` are
made from `src/` through small trusted wrappers whose contracts are stated
next to them.
