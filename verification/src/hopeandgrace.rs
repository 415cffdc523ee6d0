//! The Hope & Grace notary: an append-only ledger of blessing ceremonies
//! and a versioned legal document registry, guarded by an owner and a
//! list of writers.
//!
//! All money is integer cents, all percentages basis points.
pub mod types;
pub mod doc_key;
pub mod content_hash;
pub mod state;
pub mod invariants;
pub mod laws;
