//! The identity vault: binds Internet Identity principals to user records
//! and keeps, per user, labeled opaque blobs that only that user can read.
pub mod types;
pub mod vault_key;
pub mod state;
pub mod laws;
