# idm

A self-contained authentication / identity library: registration, login by
username or email, rotating opaque refresh tokens with signed access tokens,
logout (one session or all), profile reads and full updates, account deletion
and password change.

## Layout

- `src/` — the library, verified with Verus.
  - `service.rs` — `AuthService` over its ports; every operation states its
    outcome over the abstract state of the repositories (for the `*_at`
    variants, also at a given instant).
  - `repo/` — the repository ports (`UserRepo`, `SessionRepo`, `RoleRepo`)
    with their contracts and laws, and the in-memory implementations.
  - `password.rs` — the hashing port, Argon2id and a test hasher.
  - `jwt.rs`, `token.rs` — access-token claims and the signer/verifier ports,
    refresh-token generation and hashing.
  - `types.rs`, `text.rs` — request rules and identifier normalisation.
  - `audit.rs`, `cookies.rs`, `clock.rs`, `ids.rs`, `error.rs`.
- `tests/` — tests run against the compiled library.
- `app/` — the HTTP layer (axum routes, middleware, extractors), the HS256
  token codec, serde/OpenAPI copies of the wire types and the Postgres
  repositories.
