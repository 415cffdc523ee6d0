//! The smartsite registry: named sites whose ownership is provable and
//! whose content lives on IPFS, addressed by CID.
pub mod types;
pub mod validate;
pub mod owner_key;
pub mod state;
pub mod laws;
