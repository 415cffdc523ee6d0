//! Records of the smartsite registry.
use vstd::prelude::*;
use crate::principal::Principal;

verus! {

/// Lifecycle of a smartsite, from registration to retirement.
#[derive(Clone, Copy, Debug, PartialEq, Eq, Structural)]
pub enum SiteStatus {
    /// Just registered; not deployed yet.
    Provisioning,
    /// Deployed and serving.
    Active,
    /// Moved fully on-chain; the container is retired.
    Purified,
    /// Stopped by the owner or for non-payment; the record stays.
    Suspended,
    /// Torn down; the record stays for the audit trail.
    Decommissioned,
}

impl Default for SiteStatus {
    /// New sites start out provisioning.
    fn default() -> (s: SiteStatus)
        ensures
            s == SiteStatus::Provisioning,
    {
        SiteStatus::Provisioning
    }
}

/// Crystal Dragon key tiers.
#[derive(Clone, Copy, Debug, PartialEq, Eq, Structural)]
pub enum KeyTier {
    Root,
    Trunk,
    Branch,
    Crown,
    Domain,
}

/// EVM chains an NFT proof can point at.
#[derive(Clone, Copy, Debug, PartialEq, Eq, Structural)]
pub enum EvmChain {
    Ethereum,
    Polygon,
    Base,
    Arbitrum,
    Optimism,
}

/// How the owner proves ownership of a site.
#[derive(Clone, Debug, PartialEq, Eq)]
pub enum OwnershipProof {
    /// The owner principal itself is the proof.
    InternetIdentity,
    /// A Solana NFT held by `wallet`.
    SolanaNft { mint: String, wallet: String, tier: Option<KeyTier> },
    /// An ERC-721 token on an EVM chain.
    EthereumNft { contract: String, token_id: String, wallet: String, chain: EvmChain },
}

/// A registered smartsite.
#[derive(Clone, Debug, PartialEq, Eq)]
pub struct Smartsite {
    pub domain: String,
    pub owner: Principal,
    /// CID of the site root, or "" when hosted off IPFS.
    pub ipfs_cid: String,
    pub created_ns: u64,
    pub updated_ns: u64,
    pub ownership: OwnershipProof,
    pub status: SiteStatus,
    /// Container serving the site, once deployed.
    pub container_id: Option<String>,
    /// When the site's storage expires; `None` means never.
    pub expires_ns: Option<u64>,
}

/// Errors of the registry.
#[derive(Clone, Debug, PartialEq, Eq)]
pub enum RegistryError {
    AlreadyRegistered,
    NotFound,
    Unauthorized,
    InvalidDomain(String),
    InvalidCid(String),
    NotImplemented(String),
    AnonymousCaller,
}

/// A registry error with its text taken as characters.
pub enum RegistryErrorView {
    AlreadyRegistered,
    NotFound,
    Unauthorized,
    InvalidDomain(Seq<char>),
    InvalidCid(Seq<char>),
    NotImplemented(Seq<char>),
    AnonymousCaller,
}

impl View for RegistryError {
    type V = RegistryErrorView;

    open spec fn view(&self) -> RegistryErrorView {
        match self {
            RegistryError::AlreadyRegistered => RegistryErrorView::AlreadyRegistered,
            RegistryError::NotFound => RegistryErrorView::NotFound,
            RegistryError::Unauthorized => RegistryErrorView::Unauthorized,
            RegistryError::InvalidDomain(m) => RegistryErrorView::InvalidDomain(m@),
            RegistryError::InvalidCid(m) => RegistryErrorView::InvalidCid(m@),
            RegistryError::NotImplemented(m) => RegistryErrorView::NotImplemented(m@),
            RegistryError::AnonymousCaller => RegistryErrorView::AnonymousCaller,
        }
    }
}

/// Health snapshot of the registry.
#[derive(Clone, Debug, PartialEq, Eq)]
pub struct HealthStatus {
    pub canister: String,
    pub ok: bool,
    pub site_count: u64,
    pub timestamp_ns: u64,
}

fn dup_opt_string(s: &Option<String>) -> (r: Option<String>)
    ensures
        r == *s,
{
    match s {
        Some(x) => Some(x.clone()),
        None => None,
    }
}

impl OwnershipProof {
    /// An equal copy.
    pub fn duplicate(&self) -> (r: OwnershipProof)
        ensures
            r == *self,
    {
        match self {
            OwnershipProof::InternetIdentity => OwnershipProof::InternetIdentity,
            OwnershipProof::SolanaNft { mint, wallet, tier } => OwnershipProof::SolanaNft {
                mint: mint.clone(),
                wallet: wallet.clone(),
                tier: *tier,
            },
            OwnershipProof::EthereumNft { contract, token_id, wallet, chain } => OwnershipProof::EthereumNft {
                contract: contract.clone(),
                token_id: token_id.clone(),
                wallet: wallet.clone(),
                chain: *chain,
            },
        }
    }
}

impl Smartsite {
    /// An equal copy.
    pub fn duplicate(&self) -> (r: Smartsite)
        ensures
            r == *self,
    {
        Smartsite {
            domain: self.domain.clone(),
            owner: self.owner,
            ipfs_cid: self.ipfs_cid.clone(),
            created_ns: self.created_ns,
            updated_ns: self.updated_ns,
            ownership: self.ownership.duplicate(),
            status: self.status,
            container_id: dup_opt_string(&self.container_id),
            expires_ns: self.expires_ns,
        }
    }
}

} // verus!
