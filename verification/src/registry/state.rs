//! The registry's state and its operations. Sites are kept by domain;
//! an owner index lists (owner, domain) for every site, so one owner's
//! sites can be found without walking all of them.
use vstd::prelude::*;
use crate::keyed::SortedMap;
use crate::principal::{Principal, ANONYMOUS_TAG};
use crate::registry::owner_key::OwnerKey;
use crate::registry::types::{
    HealthStatus, OwnershipProof, RegistryError, RegistryErrorView, SiteStatus, Smartsite,
};
use crate::registry::validate::{cid_error, domain_error, validate_cid_optional, validate_domain};

verus! {

/// Why an ownership proof cannot be accepted, if it cannot. Only Internet
/// Identity proofs are verified so far; chain proofs need HTTP outcalls.
pub open spec fn ownership_error(p: OwnershipProof) -> Option<Seq<char>> {
    match p {
        OwnershipProof::InternetIdentity => None,
        OwnershipProof::SolanaNft { .. } => Some(
            "SolanaNft verification requires HTTP outcalls (planned for 3b late stage)"@,
        ),
        OwnershipProof::EthereumNft { .. } => Some(
            "EthereumNft verification requires HTTP outcalls (planned for 3b late stage)"@,
        ),
    }
}

/// One verifier per kind of ownership proof.
trait OwnershipVerifier {
    fn verify(&self, caller: &Principal, claim: &OwnershipProof) -> Result<(), RegistryError>;
}

/// The owner principal is the proof: nothing more to check.
struct InternetIdentityVerifier;

impl OwnershipVerifier for InternetIdentityVerifier {
    fn verify(&self, caller: &Principal, claim: &OwnershipProof) -> (r: Result<(), RegistryError>)
        ensures
            r is Ok,
    {
        Ok(())
    }
}

/// Solana NFT proofs are not verified yet.
struct SolanaNftVerifier;

impl OwnershipVerifier for SolanaNftVerifier {
    fn verify(&self, caller: &Principal, claim: &OwnershipProof) -> (r: Result<(), RegistryError>)
        ensures
            r matches Err(e) && e@ == RegistryErrorView::NotImplemented(
                "SolanaNft verification requires HTTP outcalls (planned for 3b late stage)"@,
            ),
    {
        Err(RegistryError::NotImplemented(
            String::from_str("SolanaNft verification requires HTTP outcalls (planned for 3b late stage)"),
        ))
    }
}

/// EVM NFT proofs are not verified yet.
struct EthereumNftVerifier;

impl OwnershipVerifier for EthereumNftVerifier {
    fn verify(&self, caller: &Principal, claim: &OwnershipProof) -> (r: Result<(), RegistryError>)
        ensures
            r matches Err(e) && e@ == RegistryErrorView::NotImplemented(
                "EthereumNft verification requires HTTP outcalls (planned for 3b late stage)"@,
            ),
    {
        Err(RegistryError::NotImplemented(
            String::from_str("EthereumNft verification requires HTTP outcalls (planned for 3b late stage)"),
        ))
    }
}

/// Hands a proof to the verifier for its kind.
pub fn verify_ownership(caller: &Principal, claim: &OwnershipProof) -> (r: Result<(), RegistryError>)
    ensures
        (r is Ok) == (ownership_error(*claim) is None),
        (r matches Err(e) ==> e@ == RegistryErrorView::NotImplemented(ownership_error(*claim)->0)),
{
    match claim {
        OwnershipProof::InternetIdentity => {
            let verifier = InternetIdentityVerifier;
            verifier.verify(caller, claim)
        },
        OwnershipProof::SolanaNft { .. } => {
            let verifier = SolanaNftVerifier;
            verifier.verify(caller, claim)
        },
        OwnershipProof::EthereumNft { .. } => {
            let verifier = EthereumNftVerifier;
            verifier.verify(caller, claim)
        },
    }
}

/// Bytes of the anonymous principal.
pub open spec fn anonymous_bytes() -> Seq<u8> {
    seq![ANONYMOUS_TAG]
}

/// Why `register_site` refuses, if it does, in the order of its checks.
pub open spec fn register_verdict(
    sites: Map<Seq<char>, Smartsite>,
    caller: Seq<u8>,
    domain: Seq<char>,
    cid: Seq<char>,
    ownership: OwnershipProof,
) -> Option<RegistryErrorView> {
    if caller == anonymous_bytes() {
        Some(RegistryErrorView::AnonymousCaller)
    } else if domain_error(domain) is Some {
        Some(RegistryErrorView::InvalidDomain(domain_error(domain)->0))
    } else if cid_error(cid) is Some {
        Some(RegistryErrorView::InvalidCid(cid_error(cid)->0))
    } else if ownership_error(ownership) is Some {
        Some(RegistryErrorView::NotImplemented(ownership_error(ownership)->0))
    } else if sites.contains_key(domain) {
        Some(RegistryErrorView::AlreadyRegistered)
    } else {
        None
    }
}

/// A newly registered site: owned by the caller, provisioning, no
/// container, no expiry, created and updated now.
pub open spec fn fresh_site(
    domain: String,
    owner: Principal,
    cid: String,
    now_ns: u64,
    ownership: OwnershipProof,
) -> Smartsite {
    Smartsite {
        domain,
        owner,
        ipfs_cid: cid,
        created_ns: now_ns,
        updated_ns: now_ns,
        ownership,
        status: SiteStatus::Provisioning,
        container_id: None,
        expires_ns: None,
    }
}

/// Why an owner-only change to `domain` is refused, if it is.
pub open spec fn owner_verdict(
    sites: Map<Seq<char>, Smartsite>,
    caller: Seq<u8>,
    domain: Seq<char>,
) -> Option<RegistryErrorView> {
    if !sites.contains_key(domain) {
        Some(RegistryErrorView::NotFound)
    } else if sites[domain].owner@ != caller {
        Some(RegistryErrorView::Unauthorized)
    } else {
        None
    }
}

/// Whether an index entry belongs to `owner`.
pub open spec fn index_entry_of(owner: Seq<u8>) -> spec_fn(((Seq<u8>, Seq<char>), u8)) -> bool {
    |e: ((Seq<u8>, Seq<char>), u8)| e.0.0 == owner
}

/// The registry's state.
pub struct RegistryState {
    /// Sites by domain.
    sites: SortedMap<String, Smartsite>,
    /// (owner, domain) for every site.
    owner_index: SortedMap<OwnerKey, u8>,
}

/// The sites of a saved list, each under its domain; a later site of the
/// same domain replaces an earlier one.
pub open spec fn sites_from(list: Seq<Smartsite>) -> Map<Seq<char>, Smartsite>
    decreases list.len(),
{
    if list.len() == 0 {
        Map::empty()
    } else {
        sites_from(list.drop_last()).insert(list.last().domain@, list.last())
    }
}

impl RegistryState {
    /// The sites, by domain.
    pub closed spec fn sites(&self) -> SortedMap<String, Smartsite> {
        self.sites
    }

    /// The owner index: (owner, domain) for every site.
    pub closed spec fn owner_index(&self) -> SortedMap<OwnerKey, u8> {
        self.owner_index
    }

    /// Each index entry names a site of that owner.
    pub open spec fn index_sound(&self) -> bool {
        forall|o: Seq<u8>, d: Seq<char>|
            #[trigger] self.owner_index()@.contains_key((o, d)) ==> self.sites()@.contains_key(d)
                && self.sites()@[d].owner@ == o
    }

    /// Each site has its index entry.
    pub open spec fn index_complete(&self) -> bool {
        forall|d: Seq<char>|
            #[trigger] self.sites()@.contains_key(d) ==> self.owner_index()@.contains_key(
                (self.sites()@[d].owner@, d),
            )
    }

    /// Each site is stored under its own domain.
    pub open spec fn sites_keyed_by_domain(&self) -> bool {
        forall|d: Seq<char>| #[trigger] self.sites()@.contains_key(d) ==> self.sites()@[d].domain@ == d
    }

    pub open spec fn wf(&self) -> bool {
        &&& self.sites().wf()
        &&& self.owner_index().wf()
        &&& self.index_sound()
        &&& self.index_complete()
        &&& self.sites_keyed_by_domain()
    }

    /// The sites of `owner`, in the order of the owner index (ascending
    /// domain).
    pub open spec fn owned_sites(&self, owner: Seq<u8>) -> Seq<Smartsite> {
        self.owner_index().ordered().filter(index_entry_of(owner)).map_values(self.site_of_entry())
    }

    /// The site an index entry names.
    pub open spec fn site_of_entry(&self) -> spec_fn(((Seq<u8>, Seq<char>), u8)) -> Smartsite {
        |e: ((Seq<u8>, Seq<char>), u8)| self.sites()@[e.0.1]
    }

    /// An empty registry.
    pub fn new() -> (s: RegistryState)
        ensures
            s.wf(),
            s.sites()@ == Map::<Seq<char>, Smartsite>::empty(),
            s.owner_index()@ == Map::<(Seq<u8>, Seq<char>), u8>::empty(),
    {
        RegistryState { sites: SortedMap::new(), owner_index: SortedMap::new() }
    }

    /// A registry holding the saved sites, each under its domain, with the
    /// owner index rebuilt to match.
    pub fn restore(list: Vec<Smartsite>) -> (s: RegistryState)
        ensures
            s.wf(),
            s.sites()@ == sites_from(list@),
    {
        let mut s = RegistryState::new();
        let n = list.len();
        let mut i: usize = 0;
        while i < n
            invariant
                s.wf(),
                n == list@.len(),
                i <= n,
                s.sites@ == sites_from(list@.take(i as int)),
            decreases n - i,
        {
            let site = list[i].duplicate();
            let domain = site.domain.clone();
            let ghost before = s;
            let ghost old_owner: Seq<u8> = if s.sites@.contains_key(domain@) {
                s.sites@[domain@].owner@
            } else {
                Seq::empty()
            };
            match s.sites.get(&domain) {
                Some(previous) => {
                    let stale = OwnerKey { owner: previous.owner, domain: domain.clone() };
                    let _ = s.owner_index.remove(&stale);
                },
                None => {},
            }
            let ghost mid = s;
            s.owner_index.insert(OwnerKey { owner: site.owner, domain: domain.clone() }, 0);
            s.sites.insert(domain, site);
            proof {
                let d0 = site.domain@;
                assert(list@.take(i + 1).drop_last() =~= list@.take(i as int));
                assert(list@.take(i + 1).last() == site);
                assert forall|o: Seq<u8>, d: Seq<char>|
                    #[trigger] s.owner_index@.contains_key((o, d)) implies s.sites@.contains_key(d)
                        && s.sites@[d].owner@ == o by {
                    if (o, d) != (site.owner@, d0) {
                        assert(mid.owner_index@.contains_key((o, d)));
                        assert(before.owner_index@.contains_key((o, d)));
                        if d == d0 {
                            assert(before.sites@.contains_key(d0));
                            assert(o == old_owner);
                            assert(false);
                        }
                    }
                }
                assert forall|d: Seq<char>| #[trigger] s.sites@.contains_key(d) implies s.owner_index@.contains_key(
                    (s.sites@[d].owner@, d),
                ) by {
                    if d != d0 {
                        assert(before.sites@.contains_key(d));
                        assert(before.owner_index@.contains_key((before.sites@[d].owner@, d)));
                        assert(mid.owner_index@.contains_key((before.sites@[d].owner@, d)));
                    }
                }
                assert forall|d: Seq<char>| #[trigger] s.sites@.contains_key(d) implies s.sites@[d].domain@ == d by {
                    if d != d0 {
                        assert(before.sites@.contains_key(d));
                    }
                }
            }
            i = i + 1;
        }
        assert(list@.take(n as int) =~= list@);
        s
    }

    /// Registers `domain` for `caller` at time `now_ns`. In order: the
    /// anonymous principal is refused, then the domain, the CID and the
    /// ownership proof are checked, then a taken domain is refused.
    pub fn register_site(
        &mut self,
        caller: &Principal,
        now_ns: u64,
        domain: String,
        ipfs_cid: String,
        ownership: OwnershipProof,
    ) -> (r: Result<Smartsite, RegistryError>)
        requires
            old(self).wf(),
        ensures
            final(self).wf(),
            match register_verdict(old(self).sites()@, caller@, domain@, ipfs_cid@, ownership) {
                Some(e) => r matches Err(x) && x@ == e && final(self).sites()@ == old(self).sites()@
                    && final(self).owner_index()@ == old(self).owner_index()@,
                None => r == Ok::<Smartsite, RegistryError>(fresh_site(domain, *caller, ipfs_cid, now_ns, ownership))
                    && final(self).sites()@ == old(self).sites()@.insert(
                    domain@,
                    fresh_site(domain, *caller, ipfs_cid, now_ns, ownership),
                ) && final(self).owner_index()@ == old(self).owner_index()@.insert((caller@, domain@), 0u8),
            },
    {
        if caller.is_anonymous() {
            return Err(RegistryError::AnonymousCaller);
        }
        validate_domain(domain.as_str())?;
        validate_cid_optional(ipfs_cid.as_str())?;
        verify_ownership(caller, &ownership)?;
        if self.sites.contains_key(&domain) {
            return Err(RegistryError::AlreadyRegistered);
        }
        let ghost fresh = fresh_site(domain, *caller, ipfs_cid, now_ns, ownership);
        let site = Smartsite {
            domain: domain.clone(),
            owner: *caller,
            ipfs_cid,
            created_ns: now_ns,
            updated_ns: now_ns,
            ownership,
            status: SiteStatus::Provisioning,
            container_id: None,
            expires_ns: None,
        };
        let stored = site.duplicate();
        let index_domain = domain.clone();
        self.sites.insert(domain, stored);
        self.owner_index.insert(OwnerKey { owner: *caller, domain: index_domain }, 0);
        proof {
            let o = old(self);
            assert forall|p: Seq<u8>, d: Seq<char>|
                #[trigger] self.owner_index@.contains_key((p, d)) implies self.sites@.contains_key(d)
                    && self.sites@[d].owner@ == p by {
                if (p, d) != (caller@, fresh.domain@) {
                    assert(o.owner_index@.contains_key((p, d)));
                }
            }
            assert forall|d: Seq<char>| #[trigger] self.sites@.contains_key(d) implies self.owner_index@.contains_key(
                (self.sites@[d].owner@, d),
            ) by {
                if d != fresh.domain@ {
                    assert(o.sites@.contains_key(d));
                }
            }
        }
        Ok(site)
    }

    /// The site registered under `domain`.
    pub fn get_site(&self, domain: &String) -> (r: Result<Smartsite, RegistryError>)
        requires
            self.wf(),
        ensures
            match r {
                Ok(s) => self.sites()@.contains_key(domain@) && s == self.sites()@[domain@],
                Err(e) => !self.sites()@.contains_key(domain@) && e == RegistryError::NotFound,
            },
    {
        match self.sites.get(domain) {
            Some(s) => Ok(s.duplicate()),
            None => Err(RegistryError::NotFound),
        }
    }

    /// Every site, in ascending domain order.
    pub fn list_sites(&self) -> (v: Vec<Smartsite>)
        requires
            self.wf(),
        ensures
            v@ == self.sites().ordered().map_values(|e: (Seq<char>, Smartsite)| e.1),
    {
        let n = self.sites.len();
        let mut out: Vec<Smartsite> = Vec::new();
        let mut i: usize = 0;
        while i < n
            invariant
                n == self.sites.ordered().len(),
                i <= n,
                out@ == self.sites.ordered().take(i as int).map_values(|e: (Seq<char>, Smartsite)| e.1),
            decreases n - i,
        {
            let s = self.sites.value_at(i);
            out.push(s.duplicate());
            i = i + 1;
            assert(self.sites.ordered().take(i as int) =~= self.sites.ordered().take(i - 1).push(
                self.sites.ordered()[i - 1],
            ));
            assert(out@ =~= self.sites.ordered().take(i as int).map_values(|e: (Seq<char>, Smartsite)| e.1));
        }
        assert(self.sites.ordered().take(n as int) =~= self.sites.ordered());
        out
    }

    /// The sites of `owner`, found through the owner index, in ascending
    /// domain order.
    pub fn sites_by_owner(&self, owner: &Principal) -> (v: Vec<Smartsite>)
        requires
            self.wf(),
        ensures
            v@ == self.owned_sites(owner@),
    {
        let ghost pred = index_entry_of(owner@);
        let ghost f = self.site_of_entry();
        let ghost ord = self.owner_index.ordered();
        proof {
            self.owner_index.lemma_ordered();
        }
        let n = self.owner_index.len();
        let mut out: Vec<Smartsite> = Vec::new();
        let mut i: usize = 0;
        while i < n
            invariant
                self.wf(),
                ord == self.owner_index.ordered(),
                n == ord.len(),
                i <= n,
                pred == index_entry_of(owner@),
                f == self.site_of_entry(),
                forall|j: int| 0 <= j < ord.len() ==> self.owner_index@.contains_key(#[trigger] ord[j].0),
                out@ == ord.take(i as int).filter(pred).map_values(f),
            decreases n - i,
        {
            let k = self.owner_index.key_at(i);
            let ghost before = ord.take(i as int).filter(pred);
            proof {
                assert(ord.take(i + 1).drop_last() =~= ord.take(i as int));
                assert(ord.take(i + 1).last() == ord[i as int]);
                reveal_with_fuel(Seq::filter, 1);
            }
            if k.owner.same(owner) {
                match self.sites.get(&k.domain) {
                    Some(s) => {
                        out.push(s.duplicate());
                        assert(ord.take(i + 1).filter(pred) == before.push(ord[i as int]));
                        assert(out@ =~= ord.take(i + 1).filter(pred).map_values(f));
                    },
                    None => {
                        assert(self.owner_index@.contains_key(ord[i as int].0));
                        assert(false);
                    },
                }
            } else {
                assert(ord.take(i + 1).filter(pred) == before);
            }
            i = i + 1;
        }
        assert(ord.take(n as int) =~= ord);
        out
    }

    /// Points `domain` at a new CID. Owner only; the CID is checked first.
    pub fn update_cid(&mut self, caller: &Principal, now_ns: u64, domain: String, new_cid: String) -> (r: Result<Smartsite, RegistryError>)
        requires
            old(self).wf(),
        ensures
            final(self).wf(),
            final(self).owner_index()@ == old(self).owner_index()@,
            cid_error(new_cid@) is Some ==> (r matches Err(e) && e@ == RegistryErrorView::InvalidCid(cid_error(new_cid@)->0)
                && final(self).sites()@ == old(self).sites()@),
            cid_error(new_cid@) is None ==> match owner_verdict(old(self).sites()@, caller@, domain@) {
                Some(e) => r matches Err(x) && x@ == e && final(self).sites()@ == old(self).sites()@,
                None => {
                    let s = Smartsite { ipfs_cid: new_cid, updated_ns: now_ns, ..old(self).sites()@[domain@] };
                    r == Ok::<Smartsite, RegistryError>(s) && final(self).sites()@ == old(self).sites()@.insert(domain@, s)
                },
            },
    {
        validate_cid_optional(new_cid.as_str())?;
        let mut site = match self.sites.get(&domain) {
            Some(s) => s.duplicate(),
            None => return Err(RegistryError::NotFound),
        };
        if !site.owner.same(caller) {
            return Err(RegistryError::Unauthorized);
        }
        site.ipfs_cid = new_cid;
        site.updated_ns = now_ns;
        let stored = site.duplicate();
        self.sites.insert(domain, stored);
        proof {
            self.lemma_same_owners_kept(*old(self), domain@);
        }
        Ok(site)
    }

    /// Sets the lifecycle status of `domain`. Owner only.
    pub fn update_site_status(&mut self, caller: &Principal, now_ns: u64, domain: String, new_status: SiteStatus) -> (r: Result<Smartsite, RegistryError>)
        requires
            old(self).wf(),
        ensures
            final(self).wf(),
            final(self).owner_index()@ == old(self).owner_index()@,
            match owner_verdict(old(self).sites()@, caller@, domain@) {
                Some(e) => r matches Err(x) && x@ == e && final(self).sites()@ == old(self).sites()@,
                None => {
                    let s = Smartsite { status: new_status, updated_ns: now_ns, ..old(self).sites()@[domain@] };
                    r == Ok::<Smartsite, RegistryError>(s) && final(self).sites()@ == old(self).sites()@.insert(domain@, s)
                },
            },
    {
        let mut site = match self.sites.get(&domain) {
            Some(s) => s.duplicate(),
            None => return Err(RegistryError::NotFound),
        };
        if !site.owner.same(caller) {
            return Err(RegistryError::Unauthorized);
        }
        site.status = new_status;
        site.updated_ns = now_ns;
        let stored = site.duplicate();
        self.sites.insert(domain, stored);
        proof {
            self.lemma_same_owners_kept(*old(self), domain@);
        }
        Ok(site)
    }

    /// Sets or clears (with "") the container serving `domain`. Owner only.
    pub fn set_container_id(&mut self, caller: &Principal, now_ns: u64, domain: String, container_id: String) -> (r: Result<Smartsite, RegistryError>)
        requires
            old(self).wf(),
        ensures
            final(self).wf(),
            final(self).owner_index()@ == old(self).owner_index()@,
            match owner_verdict(old(self).sites()@, caller@, domain@) {
                Some(e) => r matches Err(x) && x@ == e && final(self).sites()@ == old(self).sites()@,
                None => {
                    let s = Smartsite {
                        container_id: if container_id@.len() == 0 { None } else { Some(container_id) },
                        updated_ns: now_ns,
                        ..old(self).sites()@[domain@]
                    };
                    r == Ok::<Smartsite, RegistryError>(s) && final(self).sites()@ == old(self).sites()@.insert(domain@, s)
                },
            },
    {
        let mut site = match self.sites.get(&domain) {
            Some(s) => s.duplicate(),
            None => return Err(RegistryError::NotFound),
        };
        if !site.owner.same(caller) {
            return Err(RegistryError::Unauthorized);
        }
        site.container_id = if container_id.as_str().is_empty() {
            None
        } else {
            Some(container_id)
        };
        site.updated_ns = now_ns;
        let stored = site.duplicate();
        self.sites.insert(domain, stored);
        proof {
            self.lemma_same_owners_kept(*old(self), domain@);
        }
        Ok(site)
    }

    /// After replacing the site under `d` by one with the same owner and
    /// domain, the state is still well formed.
    proof fn lemma_same_owners_kept(&self, before: RegistryState, d: Seq<char>)
        requires
            before.wf(),
            self.sites().wf(),
            self.owner_index() == before.owner_index(),
            before.sites()@.contains_key(d),
            self.sites()@ == before.sites()@.insert(d, self.sites()@[d]),
            self.sites()@[d].owner@ == before.sites()@[d].owner@,
            self.sites()@[d].domain@ == before.sites()@[d].domain@,
        ensures
            self.wf(),
    {
        assert forall|p: Seq<u8>, x: Seq<char>|
            #[trigger] self.owner_index()@.contains_key((p, x)) implies self.sites()@.contains_key(x)
                && self.sites()@[x].owner@ == p by {
            assert(before.owner_index()@.contains_key((p, x)));
        }
        assert forall|x: Seq<char>| #[trigger] self.sites()@.contains_key(x) implies self.owner_index()@.contains_key(
            (self.sites()@[x].owner@, x),
        ) && self.sites()@[x].domain@ == x by {
            assert(before.sites()@.contains_key(x));
        }
    }

    /// Deletes `domain` and its index entry. Owner only.
    pub fn delete_site(&mut self, caller: &Principal, domain: String) -> (r: Result<bool, RegistryError>)
        requires
            old(self).wf(),
        ensures
            final(self).wf(),
            match owner_verdict(old(self).sites()@, caller@, domain@) {
                Some(e) => r matches Err(x) && x@ == e && final(self).sites()@ == old(self).sites()@
                    && final(self).owner_index()@ == old(self).owner_index()@,
                None => r == Ok::<bool, RegistryError>(true) && final(self).sites()@ == old(self).sites()@.remove(domain@)
                    && final(self).owner_index()@ == old(self).owner_index()@.remove(
                    (old(self).sites()@[domain@].owner@, domain@),
                ),
            },
    {
        let owner = match self.sites.get(&domain) {
            Some(s) => s.owner,
            None => return Err(RegistryError::NotFound),
        };
        if !owner.same(caller) {
            return Err(RegistryError::Unauthorized);
        }
        let _ = self.sites.remove(&domain);
        let key = OwnerKey { owner, domain };
        let _ = self.owner_index.remove(&key);
        proof {
            let o = old(self);
            let d = key.domain@;
            assert forall|p: Seq<u8>, x: Seq<char>|
                #[trigger] self.owner_index@.contains_key((p, x)) implies self.sites@.contains_key(x)
                    && self.sites@[x].owner@ == p by {
                assert(o.owner_index@.contains_key((p, x)));
                if x == d {
                    assert(p == owner@);
                }
            }
            assert forall|x: Seq<char>| #[trigger] self.sites@.contains_key(x) implies self.owner_index@.contains_key(
                (self.sites@[x].owner@, x),
            ) && self.sites@[x].domain@ == x by {
                assert(o.sites@.contains_key(x));
            }
        }
        Ok(true)
    }

    /// Number of registered sites.
    pub fn site_count(&self) -> (n: u64)
        requires
            self.wf(),
        ensures
            n == self.sites()@.len(),
    {
        self.sites.len() as u64
    }

    /// Health snapshot at time `now_ns`.
    pub fn health_check(&self, now_ns: u64) -> (h: HealthStatus)
        requires
            self.wf(),
        ensures
            h.canister@ == "registry"@,
            h.ok,
            h.site_count == self.sites()@.len(),
            h.timestamp_ns == now_ns,
    {
        HealthStatus {
            canister: String::from_str("registry"),
            ok: true,
            site_count: self.sites.len() as u64,
            timestamp_ns: now_ns,
        }
    }
}

} // verus!
