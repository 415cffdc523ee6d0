//! The notary's state and its access rules: one owner, a list of writers,
//! and a two-step ownership handover (initiate, then accept by the new
//! owner).
use vstd::prelude::*;
use crate::keyed::SortedMap;
use crate::principal::{Principal, ANONYMOUS_TAG};
use crate::hopeandgrace::doc_key::LegalDocKey;
use crate::hopeandgrace::types::{
    principal_views, CanisterConfig, ConfigView, HealthStatus, HopeAndGraceError, LegalDoc,
    SettlementRecord,
};

verus! {

/// Bytes of the anonymous principal.
pub open spec fn anonymous_bytes() -> Seq<u8> {
    seq![ANONYMOUS_TAG]
}

/// Verdict of the owner-only gate for `caller`.
pub open spec fn owner_check(c: ConfigView, caller: Seq<u8>) -> Result<(), HopeAndGraceError> {
    if caller == anonymous_bytes() {
        Err(HopeAndGraceError::AnonymousCaller)
    } else if caller != c.owner {
        Err(HopeAndGraceError::Unauthorized)
    } else {
        Ok(())
    }
}

/// Verdict of the writer-only gate for `caller`. The owner is not a writer
/// unless listed.
pub open spec fn writer_check(c: ConfigView, caller: Seq<u8>) -> Result<(), HopeAndGraceError> {
    if caller == anonymous_bytes() {
        Err(HopeAndGraceError::AnonymousCaller)
    } else if !c.writers.contains(caller) {
        Err(HopeAndGraceError::Unauthorized)
    } else {
        Ok(())
    }
}

/// Configuration after `set_owner_initiate(new)` by `caller`.
pub open spec fn initiate_post(c: ConfigView, caller: Seq<u8>, new: Seq<u8>) -> ConfigView {
    if owner_check(c, caller) is Ok && new != anonymous_bytes() {
        ConfigView { pending_owner: Some(new), ..c }
    } else {
        c
    }
}

/// Verdict of `set_owner_accept` by `caller`.
pub open spec fn accept_verdict(c: ConfigView, caller: Seq<u8>) -> Result<(), HopeAndGraceError> {
    if caller == anonymous_bytes() {
        Err(HopeAndGraceError::AnonymousCaller)
    } else {
        match c.pending_owner {
            Some(p) => if p == caller {
                Ok(())
            } else {
                Err(HopeAndGraceError::Unauthorized)
            },
            None => Err(HopeAndGraceError::NotFound),
        }
    }
}

/// Configuration after `set_owner_accept` by `caller`.
pub open spec fn accept_post(c: ConfigView, caller: Seq<u8>) -> ConfigView {
    if accept_verdict(c, caller) is Ok {
        ConfigView { owner: caller, pending_owner: None, ..c }
    } else {
        c
    }
}

/// Configuration after `set_owner_cancel` by `caller`.
pub open spec fn cancel_post(c: ConfigView, caller: Seq<u8>) -> ConfigView {
    if owner_check(c, caller) is Ok {
        ConfigView { pending_owner: None, ..c }
    } else {
        c
    }
}

/// Configuration after `add_writer(p)` by `caller`.
pub open spec fn add_writer_post(c: ConfigView, caller: Seq<u8>, p: Seq<u8>) -> ConfigView {
    if owner_check(c, caller) is Ok && p != anonymous_bytes() && !c.writers.contains(p) {
        ConfigView { writers: c.writers.push(p), ..c }
    } else {
        c
    }
}

/// `s` without the entries equal to `p`, order kept.
pub open spec fn without_principal(s: Seq<Seq<u8>>, p: Seq<u8>) -> Seq<Seq<u8>> {
    s.filter(|w: Seq<u8>| w != p)
}

/// Configuration after `remove_writer(p)` by `caller`.
pub open spec fn remove_writer_post(c: ConfigView, caller: Seq<u8>, p: Seq<u8>) -> ConfigView {
    if owner_check(c, caller) is Ok {
        ConfigView { writers: without_principal(c.writers, p), ..c }
    } else {
        c
    }
}

/// Whether `p`'s bytes occur in `v`.
pub fn principals_contain(v: &Vec<Principal>, p: &Principal) -> (b: bool)
    ensures
        b == principal_views(v@).contains(p@),
{
    let n = v.len();
    let mut i: usize = 0;
    while i < n
        invariant
            n == v@.len(),
            i <= n,
            forall|j: int| 0 <= j < i ==> v@[j]@ != p@,
        decreases n - i,
    {
        if v[i].same(p) {
            assert(principal_views(v@)[i as int] == p@);
            return true;
        }
        i = i + 1;
    }
    proof {
        if principal_views(v@).contains(p@) {
            let j = choose|j: int| 0 <= j < principal_views(v@).len() && principal_views(v@)[j] == p@;
            assert(v@[j]@ == p@);
        }
    }
    false
}

/// A copy of `v`.
pub fn copy_principals(v: &Vec<Principal>) -> (r: Vec<Principal>)
    ensures
        r@ == v@,
{
    let n = v.len();
    let mut r: Vec<Principal> = Vec::new();
    let mut i: usize = 0;
    while i < n
        invariant
            n == v@.len(),
            i <= n,
            r@ == v@.subrange(0, i as int),
        decreases n - i,
    {
        r.push(v[i]);
        i = i + 1;
        assert(v@.subrange(0, i as int) =~= v@.subrange(0, i - 1).push(v@[i - 1]));
    }
    assert(v@.subrange(0, n as int) =~= v@);
    r
}

/// `v` without the principals whose bytes are `p`'s, order kept.
pub fn principals_without(v: &Vec<Principal>, p: &Principal) -> (r: Vec<Principal>)
    ensures
        principal_views(r@) == without_principal(principal_views(v@), p@),
{
    let ghost pred = |w: Seq<u8>| w != p@;
    let n = v.len();
    let mut r: Vec<Principal> = Vec::new();
    let mut i: usize = 0;
    while i < n
        invariant
            n == v@.len(),
            i <= n,
            pred == (|w: Seq<u8>| w != p@),
            principal_views(r@) == principal_views(v@).take(i as int).filter(pred),
        decreases n - i,
    {
        let ghost before = principal_views(r@);
        if !v[i].same(p) {
            r.push(v[i]);
            assert(principal_views(r@) =~= before.push(v@[i as int]@));
        } else {
            assert(principal_views(r@) =~= before);
        }
        proof {
            let t = principal_views(v@).take(i + 1);
            assert(t.drop_last() =~= principal_views(v@).take(i as int));
            assert(t.last() == v@[i as int]@);
            reveal_with_fuel(Seq::filter, 1);
        }
        i = i + 1;
    }
    assert(principal_views(v@).take(n as int) =~= principal_views(v@));
    r
}

/// The owner-only gate.
pub fn caller_must_be_owner(config: &CanisterConfig, caller: &Principal) -> (r: Result<(), HopeAndGraceError>)
    ensures
        r == owner_check(config@, caller@),
{
    if caller.is_anonymous() {
        return Err(HopeAndGraceError::AnonymousCaller);
    }
    if !caller.same(&config.owner) {
        return Err(HopeAndGraceError::Unauthorized);
    }
    Ok(())
}

/// The writer-only gate.
pub fn caller_must_be_writer(config: &CanisterConfig, caller: &Principal) -> (r: Result<(), HopeAndGraceError>)
    ensures
        r == writer_check(config@, caller@),
{
    if caller.is_anonymous() {
        return Err(HopeAndGraceError::AnonymousCaller);
    }
    if !principals_contain(&config.writers, caller) {
        return Err(HopeAndGraceError::Unauthorized);
    }
    Ok(())
}

/// The notary's state: archived ceremonies by number, legal documents by
/// (kind, version), and the access configuration.
pub struct HopeAndGraceState {
    ceremonies: SortedMap<u64, SettlementRecord>,
    legal_docs: SortedMap<LegalDocKey, LegalDoc>,
    config: CanisterConfig,
}

impl HopeAndGraceState {
    /// The archived ceremonies, by number.
    pub closed spec fn ceremonies(&self) -> SortedMap<u64, SettlementRecord> {
        self.ceremonies
    }

    /// The published legal documents, by (kind, version).
    pub closed spec fn legal_docs(&self) -> SortedMap<LegalDocKey, LegalDoc> {
        self.legal_docs
    }

    /// The access configuration.
    pub closed spec fn config(&self) -> CanisterConfig {
        self.config
    }

    /// The archived ceremonies.
    pub fn ceremony_store(&self) -> (m: &SortedMap<u64, SettlementRecord>)
        ensures
            *m == self.ceremonies(),
    {
        &self.ceremonies
    }

    /// The access configuration, borrowed.
    pub fn config_ref(&self) -> (c: &CanisterConfig)
        ensures
            *c == self.config(),
    {
        &self.config
    }

    pub open spec fn wf(&self) -> bool {
        self.ceremonies().wf() && self.legal_docs().wf()
    }

    /// A fresh notary: the deployer owns it, nobody may write yet, and
    /// both registers are empty.
    pub fn init(deployer: Principal) -> (s: HopeAndGraceState)
        ensures
            s.wf(),
            s.config()@ == (ConfigView { owner: deployer@, writers: Seq::empty(), pending_owner: None }),
            s.ceremonies()@ == Map::<u64, SettlementRecord>::empty(),
            s.legal_docs()@ == Map::<(Seq<char>, u32), LegalDoc>::empty(),
    {
        let s = HopeAndGraceState {
            ceremonies: SortedMap::new(),
            legal_docs: SortedMap::new(),
            config: CanisterConfig { owner: deployer, writers: Vec::new(), pending_owner: None },
        };
        assert(s.config@ =~= (ConfigView { owner: deployer@, writers: Seq::empty(), pending_owner: None }));
        s
    }

    /// A copy of the access configuration.
    pub fn get_config(&self) -> (c: CanisterConfig)
        ensures
            c@ == self.config()@,
    {
        CanisterConfig {
            owner: self.config.owner,
            writers: copy_principals(&self.config.writers),
            pending_owner: self.config.pending_owner,
        }
    }

    /// Replaces the access configuration.
    pub fn save_config(&mut self, cfg: CanisterConfig)
        ensures
            final(self).config() == cfg,
            final(self).ceremonies() == old(self).ceremonies(),
            final(self).legal_docs() == old(self).legal_docs(),
    {
        self.config = cfg;
    }

    /// Step one of an ownership handover: the owner names the next owner.
    /// The current owner stays in charge until the named principal accepts.
    pub fn set_owner_initiate(&mut self, caller: &Principal, new: Principal) -> (r: Result<(), HopeAndGraceError>)
        ensures
            final(self).config()@ == initiate_post(old(self).config()@, caller@, new@),
            final(self).ceremonies() == old(self).ceremonies(),
            final(self).legal_docs() == old(self).legal_docs(),
            owner_check(old(self).config()@, caller@) is Err ==> r == owner_check(old(self).config()@, caller@),
            owner_check(old(self).config()@, caller@) is Ok && new@ == anonymous_bytes() ==> (r matches Err(HopeAndGraceError::InvalidRecord(m))
                && m@ == "cannot transfer ownership to the anonymous principal"@),
            r is Ok <==> (owner_check(old(self).config()@, caller@) is Ok && new@ != anonymous_bytes()),
    {
        caller_must_be_owner(&self.config, caller)?;
        if new.is_anonymous() {
            return Err(HopeAndGraceError::InvalidRecord(
                String::from_str("cannot transfer ownership to the anonymous principal"),
            ));
        }
        self.config.pending_owner = Some(new);
        proof {
            assert(self.config@ =~= initiate_post(old(self).config@, caller@, new@));
        }
        Ok(())
    }

    /// Step two of an ownership handover: the named principal takes over.
    pub fn set_owner_accept(&mut self, caller: &Principal) -> (r: Result<(), HopeAndGraceError>)
        ensures
            r == accept_verdict(old(self).config()@, caller@),
            final(self).config()@ == accept_post(old(self).config()@, caller@),
            final(self).ceremonies() == old(self).ceremonies(),
            final(self).legal_docs() == old(self).legal_docs(),
    {
        if caller.is_anonymous() {
            return Err(HopeAndGraceError::AnonymousCaller);
        }
        match self.config.pending_owner {
            Some(pending) => {
                if pending.same(caller) {
                    self.config.owner = *caller;
                    self.config.pending_owner = None;
                    proof {
                        assert(self.config@ =~= accept_post(old(self).config@, caller@));
                    }
                    Ok(())
                } else {
                    Err(HopeAndGraceError::Unauthorized)
                }
            },
            None => Err(HopeAndGraceError::NotFound),
        }
    }

    /// Withdraws a pending ownership handover. Owner only.
    pub fn set_owner_cancel(&mut self, caller: &Principal) -> (r: Result<(), HopeAndGraceError>)
        ensures
            r == owner_check(old(self).config()@, caller@),
            final(self).config()@ == cancel_post(old(self).config()@, caller@),
            final(self).ceremonies() == old(self).ceremonies(),
            final(self).legal_docs() == old(self).legal_docs(),
    {
        caller_must_be_owner(&self.config, caller)?;
        self.config.pending_owner = None;
        proof {
            assert(self.config@ =~= cancel_post(old(self).config@, caller@));
        }
        Ok(())
    }

    /// Lets `p` write. Owner only; adding a writer twice changes nothing.
    pub fn add_writer(&mut self, caller: &Principal, p: Principal) -> (r: Result<(), HopeAndGraceError>)
        ensures
            final(self).config()@ == add_writer_post(old(self).config()@, caller@, p@),
            final(self).ceremonies() == old(self).ceremonies(),
            final(self).legal_docs() == old(self).legal_docs(),
            owner_check(old(self).config()@, caller@) is Err ==> r == owner_check(old(self).config()@, caller@),
            owner_check(old(self).config()@, caller@) is Ok && p@ == anonymous_bytes() ==> (r matches Err(HopeAndGraceError::InvalidRecord(m))
                && m@ == "cannot add the anonymous principal as a writer"@),
            r is Ok <==> (owner_check(old(self).config()@, caller@) is Ok && p@ != anonymous_bytes()),
    {
        caller_must_be_owner(&self.config, caller)?;
        if p.is_anonymous() {
            return Err(HopeAndGraceError::InvalidRecord(
                String::from_str("cannot add the anonymous principal as a writer"),
            ));
        }
        if !principals_contain(&self.config.writers, &p) {
            self.config.writers.push(p);
            proof {
                assert(principal_views(self.config.writers@) =~= principal_views(old(self).config.writers@).push(p@));
                assert(self.config@ =~= add_writer_post(old(self).config@, caller@, p@));
            }
        }
        Ok(())
    }

    /// Stops `p` from writing. Owner only; removing a non-writer changes nothing.
    pub fn remove_writer(&mut self, caller: &Principal, p: &Principal) -> (r: Result<(), HopeAndGraceError>)
        ensures
            r == owner_check(old(self).config()@, caller@),
            final(self).config()@ == remove_writer_post(old(self).config()@, caller@, p@),
            final(self).ceremonies() == old(self).ceremonies(),
            final(self).legal_docs() == old(self).legal_docs(),
    {
        caller_must_be_owner(&self.config, caller)?;
        let kept = principals_without(&self.config.writers, p);
        self.config.writers = kept;
        proof {
            assert(self.config@ =~= remove_writer_post(old(self).config@, caller@, p@));
        }
        Ok(())
    }

    /// The current writers, in the order they were added.
    pub fn list_writers(&self) -> (v: Vec<Principal>)
        ensures
            principal_views(v@) == self.config()@.writers,
    {
        copy_principals(&self.config.writers)
    }

    /// The current owner.
    pub fn get_owner(&self) -> (p: Principal)
        ensures
            p@ == self.config()@.owner,
    {
        self.config.owner
    }

    /// The principal named by a pending handover, if any.
    pub fn get_pending_owner(&self) -> (p: Option<Principal>)
        ensures
            p == self.config().pending_owner,
    {
        self.config.pending_owner
    }

    /// Whether `p` may write.
    pub fn is_writer(&self, p: &Principal) -> (b: bool)
        ensures
            b == self.config()@.writers.contains(p@),
    {
        principals_contain(&self.config.writers, p)
    }

    /// Health snapshot at time `now_ns`.
    pub fn health_check(&self, now_ns: u64) -> (h: HealthStatus)
        requires
            self.wf(),
        ensures
            h.canister@ == "hopeandgrace"@,
            h.ok,
            h.ceremony_count == self.ceremonies()@.len(),
            h.legal_doc_count == self.legal_docs()@.len(),
            h.timestamp_ns == now_ns,
    {
        let ceremony_count = self.ceremonies.len() as u64;
        let legal_doc_count = self.legal_docs.len() as u64;
        HealthStatus {
            canister: String::from_str("hopeandgrace"),
            ok: true,
            ceremony_count,
            legal_doc_count,
            timestamp_ns: now_ns,
        }
    }
}

} // verus!
