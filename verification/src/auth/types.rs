//! Records of the identity vault.
use vstd::prelude::*;
use crate::principal::Principal;

verus! {

/// A registered user, bound to one principal.
#[derive(Clone, Copy, Debug, PartialEq, Eq)]
pub struct User {
    pub id: Principal,
    /// When the user first registered (ns since the epoch).
    pub registered: u64,
    /// When the user last registered again (ns since the epoch).
    pub last_seen: u64,
}

/// One labeled blob in a user's vault. The blob is opaque; clients are
/// expected to encrypt it.
#[derive(Clone, Debug, PartialEq, Eq)]
pub struct CredentialEntry {
    pub label: String,
    pub data: Vec<u8>,
    pub created_ns: u64,
    pub updated_ns: u64,
}

/// A credential entry with its label as characters and its blob as bytes.
pub struct CredentialEntryView {
    pub label: Seq<char>,
    pub data: Seq<u8>,
    pub created_ns: u64,
    pub updated_ns: u64,
}

impl View for CredentialEntry {
    type V = CredentialEntryView;

    open spec fn view(&self) -> CredentialEntryView {
        CredentialEntryView {
            label: self.label@,
            data: self.data@,
            created_ns: self.created_ns,
            updated_ns: self.updated_ns,
        }
    }
}

impl CredentialEntry {
    /// A copy with the same label, blob and times.
    pub fn duplicate(&self) -> (r: CredentialEntry)
        ensures
            r@ == self@,
    {
        let data = crate::text::copy_bytes(self.data.as_slice(), 0, self.data.len());
        assert(data@ =~= self.data@);
        CredentialEntry {
            label: self.label.clone(),
            data,
            created_ns: self.created_ns,
            updated_ns: self.updated_ns,
        }
    }
}

/// Health snapshot of the vault.
#[derive(Clone, Debug, PartialEq, Eq)]
pub struct HealthStatus {
    pub canister: String,
    pub ok: bool,
    pub user_count: u64,
    pub vault_entries: u64,
    pub timestamp_ns: u64,
}

/// Errors of the vault.
#[derive(Clone, Debug, PartialEq, Eq)]
pub enum AuthError {
    NotRegistered,
    NotFound,
    Unauthorized,
    BadInput(String),
}

/// A vault error with its text taken as characters.
pub enum AuthErrorView {
    NotRegistered,
    NotFound,
    Unauthorized,
    BadInput(Seq<char>),
}

impl View for AuthError {
    type V = AuthErrorView;

    open spec fn view(&self) -> AuthErrorView {
        match self {
            AuthError::NotRegistered => AuthErrorView::NotRegistered,
            AuthError::NotFound => AuthErrorView::NotFound,
            AuthError::Unauthorized => AuthErrorView::Unauthorized,
            AuthError::BadInput(m) => AuthErrorView::BadInput(m@),
        }
    }
}

} // verus!
