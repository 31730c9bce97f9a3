//! A backend-agnostic session-state engine.
//!
//! The crate manages the lifecycle of per-visitor state records named by
//! opaque identifiers: a storage capability contract ([`store::SessionStore`])
//! that any backend must satisfy, a two-tier caching decorator
//! ([`caching::CachingSessionStore`]) composing a fast front store with an
//! authoritative back store, and a request-scoped session lifecycle
//! ([`session::Session`]) that turns store operations into a misuse-resistant
//! API.

pub mod caching;
pub mod expiry;
pub mod id;
pub mod memory;
pub mod record;
pub mod session;
pub mod store;

pub use caching::{CachingSessionStore, CachingStoreError};
pub use expiry::{Expires, Expiry};
pub use id::Id;
pub use memory::{MemoryStore, MemoryStoreError};
pub use record::Record;
pub use session::{DataMut, NoMiddleware, Session, SessionState, SessionUpdate, Updater};
pub use store::SessionStore;
