//! Cross-platform secret storage: a platform-dispatch and identity-mapping
//! layer over the operating system's secure-credential facility.
//!
//! A logical `(service, account)` pair is mapped to a [`PlatformIdentity`],
//! a tagged variant whose active case must match the backend in use. The
//! backend adapter performs set/get/delete against a credential store and
//! normalizes every failure into a single [`Error`] taxonomy.

pub mod attrs;
pub mod error;
pub mod macos;
pub mod store;

pub use attrs::{default_identity_mapper, Platform, PlatformIdentity};
pub use error::{Error, ErrorCause, KeyringError};
pub use store::CredentialStore;
