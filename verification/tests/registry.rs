use mycloud::principal::Principal;
use mycloud::registry::owner_key::OwnerKey;
use mycloud::registry::state::{verify_ownership, RegistryState};
use mycloud::registry::types::{EvmChain, OwnershipProof, RegistryError, SiteStatus};
use mycloud::registry::validate::{validate_cid_optional, validate_domain};

const CID: &str = "bafybeigdyrzt5sfp7udm7hu76uh7y26nf3efuylqabf3oclgtqy55fbzdi";

#[test]
fn domain_validation_accepts_normal_domains() {
    assert!(validate_domain("example.com").is_ok());
    assert!(validate_domain("johns-bakery.crystaldragon.tech").is_ok());
    assert!(validate_domain("a.b.c.d.e.f.example.com").is_ok());
}

#[test]
fn domain_validation_rejects_bad_domains() {
    assert!(validate_domain("").is_err());
    assert!(validate_domain("localhost").is_err());
    assert!(validate_domain("-bad.com").is_err());
    assert!(validate_domain("bad-.com").is_err());
    assert!(validate_domain("has spaces.com").is_err());
}

#[test]
fn domain_validation_messages() {
    assert_eq!(validate_domain(""), Err(RegistryError::InvalidDomain("length must be 1..=253 chars".into())));
    assert_eq!(
        validate_domain("localhost"),
        Err(RegistryError::InvalidDomain("must contain at least one dot".into()))
    );
    assert_eq!(
        validate_domain("-bad.com"),
        Err(RegistryError::InvalidDomain("segment '-bad' cannot start or end with hyphen".into()))
    );
    assert_eq!(
        validate_domain("a..com"),
        Err(RegistryError::InvalidDomain("segment '' must be 1..=63 chars".into()))
    );
    assert_eq!(
        validate_domain("has spaces.com"),
        Err(RegistryError::InvalidDomain("segment 'has spaces' has invalid characters".into()))
    );
    assert!(validate_domain(&format!("{}.com", "a".repeat(63))).is_ok());
    assert!(validate_domain(&format!("{}.com", "a".repeat(64))).is_err());
}

#[test]
fn cid_validation_allows_empty() {
    assert!(validate_cid_optional("").is_ok());
}

#[test]
fn cid_validation_rejects_too_short() {
    assert!(validate_cid_optional("abc").is_err());
}

#[test]
fn cid_validation_accepts_typical_cidv1() {
    let cid = "bafybeigdyrzt5sfp7udm7hu76uh7y26nf3efuylqabf3oclgtqy55fbzdi";
    assert!(validate_cid_optional(cid).is_ok());
}

#[test]
fn cid_validation_messages() {
    assert_eq!(
        validate_cid_optional("abc"),
        Err(RegistryError::InvalidCid("CID length should be 46..=100 chars".into()))
    );
    let bad = format!("{}-", "a".repeat(50));
    assert_eq!(
        validate_cid_optional(&bad),
        Err(RegistryError::InvalidCid("CID must be alphanumeric (base32 or base58)".into()))
    );
}

#[test]
fn owner_key_roundtrip() {
    let key = OwnerKey { owner: Principal::from_slice(&[1, 2, 3, 4, 5]), domain: "example.com".to_string() };
    let bytes = key.to_bytes();
    let decoded = OwnerKey::from_bytes(&bytes);
    assert_eq!(key.owner, decoded.owner);
    assert_eq!(key.domain, decoded.domain);
}

#[test]
fn owner_key_ordering_groups_by_owner() {
    let alice_a = OwnerKey { owner: Principal::from_slice(&[1]), domain: "a.com".into() };
    let alice_b = OwnerKey { owner: Principal::from_slice(&[1]), domain: "b.com".into() };
    let bob_a = OwnerKey { owner: Principal::from_slice(&[2]), domain: "a.com".into() };
    let mut keys = vec![bob_a.clone(), alice_b.clone(), alice_a.clone()];
    keys.sort();
    assert_eq!(keys, vec![alice_a, alice_b, bob_a]);
}

#[test]
fn site_status_default_is_provisioning() {
    let status: SiteStatus = Default::default();
    assert_eq!(status, SiteStatus::Provisioning);
}

#[test]
fn only_internet_identity_proofs_pass() {
    let p = Principal::from_slice(&[1]);
    assert!(verify_ownership(&p, &OwnershipProof::InternetIdentity).is_ok());
    let sol = OwnershipProof::SolanaNft { mint: "m".into(), wallet: "w".into(), tier: None };
    assert!(matches!(verify_ownership(&p, &sol), Err(RegistryError::NotImplemented(_))));
    let eth = OwnershipProof::EthereumNft {
        contract: "c".into(),
        token_id: "1".into(),
        wallet: "w".into(),
        chain: EvmChain::Base,
    };
    assert!(matches!(verify_ownership(&p, &eth), Err(RegistryError::NotImplemented(_))));
}

#[test]
fn register_list_and_delete_sites() {
    let mut r = RegistryState::new();
    let alice = Principal::from_slice(&[1]);
    let bob = Principal::from_slice(&[2]);
    assert_eq!(
        r.register_site(&Principal::anonymous(), 1, "a.com".into(), String::new(), OwnershipProof::InternetIdentity),
        Err(RegistryError::AnonymousCaller)
    );
    let s = r
        .register_site(&alice, 10, "b.com".into(), CID.into(), OwnershipProof::InternetIdentity)
        .unwrap();
    assert_eq!(s.status, SiteStatus::Provisioning);
    assert_eq!((s.created_ns, s.updated_ns), (10, 10));
    r.register_site(&alice, 11, "a.com".into(), String::new(), OwnershipProof::InternetIdentity).unwrap();
    r.register_site(&bob, 12, "c.com".into(), String::new(), OwnershipProof::InternetIdentity).unwrap();
    assert_eq!(
        r.register_site(&bob, 13, "a.com".into(), String::new(), OwnershipProof::InternetIdentity),
        Err(RegistryError::AlreadyRegistered)
    );
    let mine: Vec<String> = r.sites_by_owner(&alice).into_iter().map(|s| s.domain).collect();
    assert_eq!(mine, vec!["a.com".to_string(), "b.com".to_string()]);
    assert_eq!(r.site_count(), 3);
    assert_eq!(r.delete_site(&bob, "a.com".into()), Err(RegistryError::Unauthorized));
    assert_eq!(r.delete_site(&alice, "a.com".into()), Ok(true));
    assert_eq!(r.get_site(&"a.com".to_string()), Err(RegistryError::NotFound));
    assert!(r.register_site(&bob, 14, "a.com".into(), String::new(), OwnershipProof::InternetIdentity).is_ok());
    let bobs: Vec<String> = r.sites_by_owner(&bob).into_iter().map(|s| s.domain).collect();
    assert_eq!(bobs, vec!["a.com".to_string(), "c.com".to_string()]);
    assert_eq!(r.list_sites().len(), 3);
}

#[test]
fn owner_updates_sites() {
    let mut r = RegistryState::new();
    let alice = Principal::from_slice(&[1]);
    let bob = Principal::from_slice(&[2]);
    r.register_site(&alice, 1, "a.com".into(), String::new(), OwnershipProof::InternetIdentity).unwrap();
    let s = r.update_cid(&alice, 5, "a.com".into(), CID.into()).unwrap();
    assert_eq!((s.ipfs_cid.as_str(), s.updated_ns, s.created_ns), (CID, 5, 1));
    assert!(matches!(r.update_cid(&alice, 6, "a.com".into(), "abc".into()), Err(RegistryError::InvalidCid(_))));
    assert_eq!(r.update_cid(&bob, 6, "a.com".into(), CID.into()), Err(RegistryError::Unauthorized));
    assert_eq!(r.update_cid(&alice, 6, "x.com".into(), CID.into()), Err(RegistryError::NotFound));
    let s = r.update_site_status(&alice, 7, "a.com".into(), SiteStatus::Active).unwrap();
    assert_eq!((s.status, s.updated_ns), (SiteStatus::Active, 7));
    let s = r.set_container_id(&alice, 8, "a.com".into(), "ctr-1".into()).unwrap();
    assert_eq!(s.container_id, Some("ctr-1".to_string()));
    let h = r.health_check(9);
    assert_eq!((h.canister.as_str(), h.ok, h.site_count, h.timestamp_ns), ("registry", true, 1, 9));
}

#[test]
fn registry_restores_sites_and_owner_index() {
    let mut r = RegistryState::new();
    let alice = Principal::from_slice(&[1]);
    let bob = Principal::from_slice(&[2]);
    r.register_site(&alice, 1, "b.com".into(), String::new(), OwnershipProof::InternetIdentity).unwrap();
    r.register_site(&bob, 2, "a.com".into(), String::new(), OwnershipProof::InternetIdentity).unwrap();
    r.register_site(&alice, 3, "c.com".into(), String::new(), OwnershipProof::InternetIdentity).unwrap();
    let restored = RegistryState::restore(r.list_sites());
    assert_eq!(restored.list_sites(), r.list_sites());
    assert_eq!(restored.sites_by_owner(&alice), r.sites_by_owner(&alice));
    let mut moved = r.list_sites();
    let mut later = moved[0].clone();
    later.owner = alice;
    moved.push(later);
    let re = RegistryState::restore(moved);
    let bobs = re.sites_by_owner(&bob);
    assert!(bobs.is_empty());
    assert_eq!(re.sites_by_owner(&alice).len(), 3);
}
