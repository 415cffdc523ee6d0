//! Verified core of the MyCloud canister fleet: identity vault, smartsite
//! registry, fleet watchdog and the Hope & Grace ceremony notary.
use vstd::prelude::*;

pub mod principal;
pub mod keyed;
pub mod text;
pub mod hopeandgrace;
pub mod registry;
pub mod auth;
pub mod manager;

verus! {
} // verus!
