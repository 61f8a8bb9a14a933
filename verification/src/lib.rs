//! idm: a self-contained authentication / identity library. Registration,
//! login (username or email), rotating opaque refresh tokens with access
//! tokens, logout (one session or all), profile reads and full updates,
//! account deletion and password change; over repository ports (in-memory
//! implementations here), a password-hashing port and an access-token port.
//!
//! Layers: service -> repository ports -> entities. The service depends on the
//! ports, not on implementations.

pub mod audit;
pub mod clock;
pub mod cookies;
pub mod error;
pub mod ids;
pub mod input;
pub mod jwt;
pub mod password;
pub mod repo;
pub mod service;
pub mod text;
pub mod token;
pub mod types;

pub use audit::{Actor, AuditContext, AuthUser, CurrentUser};
pub use clock::{Clock, SystemClock, Timestamp};
pub use error::IdmError;
pub use jwt::Claims;
pub use password::{Argon2Hasher, FakeHasher, PwHasher};
pub use repo::memory::{InMemoryRoleRepo, InMemorySessionRepo, InMemoryUserRepo};
pub use repo::{RoleRepo, Session, SessionRepo, User, UserRepo, UserWithHash};
pub use service::{AuthOutcome, AuthService};
pub use token::{TokenClaims, TokenSigner, TokenVerifier, VerifiedToken};
