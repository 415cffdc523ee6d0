//! Records of the Hope & Grace notary.
use vstd::prelude::*;
use crate::principal::Principal;

verus! {

/// How a ceremony ended.
#[derive(Clone, Copy, Debug, PartialEq, Eq, Structural)]
pub enum CeremonyOutcome {
    /// The soul accepted the blessing; funds disbursed.
    Claimed,
    /// The soul declined or did not answer; the pool went back to the chalice.
    RevertedToChalice,
    /// Not terminal; kept so that a defensive audit entry can be recorded.
    Pending,
}

/// One movement of cents in a ceremony's ledger.
#[derive(Clone, Debug, PartialEq, Eq)]
pub struct LedgerEntry {
    /// Free-form entry type, e.g. "soul_blessing_base".
    pub entry_type: String,
    /// Signed cents: negative for debits from the chalice.
    pub amount_cents: i64,
    /// Running balance of the pool after this entry, in cents.
    pub balance_after_cents: u64,
    /// Anonymized party identifier, e.g. "soul#<uuid>".
    pub party: String,
    /// Public description; never personal data.
    pub description: String,
    /// Nanoseconds since the Unix epoch, from the ceremony time.
    pub at_ns: u64,
}

/// How a ceremony's pool was divided.
#[derive(Clone, Copy, Debug, PartialEq, Eq, Structural)]
pub struct CeremonySplit {
    pub soul_base_cents: u64,
    pub angel_gross_cents: u64,
    pub divine_offering_cents: u64,
    /// Basis points of the pool given as divine offering (2000 = 20.00%).
    pub divine_offering_bps: u32,
}

/// What the ceremony's angel did with their share.
#[derive(Clone, Debug, PartialEq, Eq)]
pub struct AngelOutcome {
    /// Anonymized angel UUID.
    pub uuid: String,
    /// Whether the angel accepted the invitation.
    pub claimed: bool,
    /// Basis points of the angel's gross share that were donated.
    pub donated_bps: u32,
    pub donated_cents: u64,
    pub kept_cents: u64,
}

/// What the ceremony's soul received.
#[derive(Clone, Debug, PartialEq, Eq)]
pub struct SoulOutcome {
    /// Anonymized soul UUID.
    pub uuid: String,
    pub engaged: bool,
    pub reverted: bool,
    pub reverted_at_ns: Option<u64>,
    /// Base blessing plus direct blessings, in cents.
    pub total_received_cents: u64,
    /// IPFS CID of the story, when the soul agreed to share it.
    pub story_cid: Option<String>,
    /// sha256 hex of the story bytes; present exactly when `story_cid` is.
    pub story_hash: Option<String>,
}

/// Direct blessings given during a ceremony, in aggregate only.
#[derive(Clone, Copy, Debug, PartialEq, Eq, Structural)]
pub struct DirectBlessings {
    pub total_cents: u64,
    pub donor_count: u64,
}

/// A ceremony record as the writer submits it. Field order is the order
/// of the canonical encoding whose hash becomes the record's content hash.
#[derive(Clone, Debug, PartialEq, Eq)]
pub struct SettlementRecordInput {
    pub record_version: u32,
    pub ceremony_number: u64,
    pub ceremony_date: String,
    pub random_seed: String,
    pub pool_total_cents: u64,
    pub split: CeremonySplit,
    pub angel: AngelOutcome,
    pub soul: SoulOutcome,
    pub direct_blessings: DirectBlessings,
    pub outcome: CeremonyOutcome,
    pub rollover_cents: u64,
    pub ops_ledger_entry: LedgerEntry,
    pub ledger: Vec<LedgerEntry>,
    pub generated_at_ns: u64,
}

/// A stored ceremony record: the input plus the archive time and the
/// content hash the notary computed.
#[derive(Clone, Debug, PartialEq, Eq)]
pub struct SettlementRecord {
    pub record_version: u32,
    pub ceremony_number: u64,
    pub ceremony_date: String,
    pub random_seed: String,
    pub pool_total_cents: u64,
    pub split: CeremonySplit,
    pub angel: AngelOutcome,
    pub soul: SoulOutcome,
    pub direct_blessings: DirectBlessings,
    pub outcome: CeremonyOutcome,
    pub rollover_cents: u64,
    pub ops_ledger_entry: LedgerEntry,
    pub ledger: Vec<LedgerEntry>,
    pub generated_at_ns: u64,
    pub archived_at_ns: u64,
    pub content_hash: String,
}

/// A short view of one ceremony for listings.
#[derive(Clone, Debug, PartialEq, Eq)]
pub struct SettlementSummary {
    pub ceremony_number: u64,
    pub ceremony_date: String,
    pub outcome: CeremonyOutcome,
    pub pool_total_cents: u64,
    pub soul_received_cents: u64,
    pub has_story: bool,
    pub content_hash: String,
}

/// Aggregate figures over all ceremonies.
#[derive(Clone, Copy, Debug, PartialEq, Eq, Structural)]
pub struct Totals {
    pub ceremonies: u64,
    pub total_pool_cents: u64,
    pub total_to_souls_cents: u64,
    pub total_divine_offering_cents: u64,
    pub total_direct_blessings_cents: u64,
    /// Distinct soul UUIDs that received any blessing.
    pub souls_blessed: u64,
    /// Distinct angel UUIDs that took part in any ceremony.
    pub angels_active: u64,
}

/// What a writer gets back for an archived record.
#[derive(Clone, Debug, PartialEq, Eq)]
pub struct RecordRef {
    pub ceremony_number: u64,
    pub content_hash: String,
    pub archived_at_ns: u64,
}

/// One version of a legal document.
#[derive(Clone, Debug, PartialEq, Eq)]
pub struct LegalDoc {
    /// Document kind, e.g. "terms" or "privacy".
    pub kind: String,
    /// Version within the kind, counted from 1.
    pub version: u32,
    /// ISO 8601 date on which this version takes effect.
    pub effective_date: String,
    /// Markdown source.
    pub content_md: String,
    /// sha256 hex of the bytes of `content_md`.
    pub content_hash: String,
    pub published_at_ns: u64,
}

/// A legal document without its text.
#[derive(Clone, Debug, PartialEq, Eq)]
pub struct LegalDocMeta {
    pub kind: String,
    pub version: u32,
    pub effective_date: String,
    pub content_hash: String,
    pub published_at_ns: u64,
}

/// Who administers the notary and who may write to it.
#[derive(Clone, Debug, PartialEq, Eq)]
pub struct CanisterConfig {
    /// Rotates writers and hands over ownership.
    pub owner: Principal,
    /// May archive ceremonies and publish legal documents.
    pub writers: Vec<Principal>,
    /// Armed by an ownership transfer until accepted or cancelled.
    pub pending_owner: Option<Principal>,
}

/// What the access rules read of a [`CanisterConfig`]: principals by
/// their bytes.
#[verifier::ext_equal]
pub struct ConfigView {
    pub owner: Seq<u8>,
    pub writers: Seq<Seq<u8>>,
    pub pending_owner: Option<Seq<u8>>,
}

/// Bytes of each principal in `s`, in order.
pub open spec fn principal_views(s: Seq<Principal>) -> Seq<Seq<u8>> {
    s.map_values(|p: Principal| p@)
}

/// Bytes of an optional principal.
pub open spec fn opt_principal_view(p: Option<Principal>) -> Option<Seq<u8>> {
    match p {
        Some(q) => Some(q@),
        None => None,
    }
}

impl View for CanisterConfig {
    type V = ConfigView;

    open spec fn view(&self) -> ConfigView {
        ConfigView {
            owner: self.owner@,
            writers: principal_views(self.writers@),
            pending_owner: opt_principal_view(self.pending_owner),
        }
    }
}

/// Errors of the notary.
#[derive(Clone, Debug, PartialEq, Eq)]
pub enum HopeAndGraceError {
    /// Not a writer (for writes) or not the owner (for administration).
    Unauthorized,
    /// The requested record does not exist.
    NotFound,
    /// The ceremony number is already archived.
    AlreadyArchived(u64),
    /// A record failed a structural check.
    InvalidRecord(String),
    /// The anonymous principal may never write.
    AnonymousCaller,
    /// A conservation check failed; the text says which.
    InvariantViolated(String),
}

/// Health snapshot of the notary.
#[derive(Clone, Debug, PartialEq, Eq)]
pub struct HealthStatus {
    pub canister: String,
    pub ok: bool,
    pub ceremony_count: u64,
    pub legal_doc_count: u64,
    pub timestamp_ns: u64,
}

} // verus!
