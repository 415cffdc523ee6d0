//! The vault's state and its operations. Every operation acts for a
//! caller and touches only that caller's records.
use vstd::prelude::*;
use crate::keyed::SortedMap;
use crate::principal::{Principal, ANONYMOUS_TAG};
use crate::auth::types::{
    AuthError, AuthErrorView, CredentialEntry, CredentialEntryView, HealthStatus, User,
};
use crate::auth::vault_key::VaultKey;

verus! {

/// Longest credential label, in bytes.
pub const MAX_LABEL_BYTES: usize = 128;

/// Largest credential blob, in bytes (64 KiB).
pub const MAX_BLOB_BYTES: usize = 65536;

/// Bytes of the anonymous principal.
pub open spec fn anonymous_bytes() -> Seq<u8> {
    seq![ANONYMOUS_TAG]
}

/// The user record after `register` by `caller` at `now_ns`: a new record,
/// or the old one with `last_seen` moved to now.
pub open spec fn registered_user(users: Map<Seq<u8>, User>, caller: Principal, now_ns: u64) -> User {
    if users.contains_key(caller@) {
        User { last_seen: now_ns, ..users[caller@] }
    } else {
        User { id: caller, registered: now_ns, last_seen: now_ns }
    }
}

/// Why a caller is refused vault access, if it is.
pub open spec fn registration_verdict(users: Map<Seq<u8>, User>, caller: Seq<u8>) -> Option<AuthErrorView> {
    if caller == anonymous_bytes() {
        Some(AuthErrorView::Unauthorized)
    } else if !users.contains_key(caller) {
        Some(AuthErrorView::NotRegistered)
    } else {
        None
    }
}

/// Why `put_credential` refuses, if it does, in the order of its checks.
pub open spec fn put_verdict(
    users: Map<Seq<u8>, User>,
    caller: Seq<u8>,
    label: Seq<char>,
    data: Seq<u8>,
) -> Option<AuthErrorView> {
    if registration_verdict(users, caller) is Some {
        registration_verdict(users, caller)
    } else if label.len() == 0 || vstd::utf8::encode_utf8(label).len() > MAX_LABEL_BYTES {
        Some(AuthErrorView::BadInput("label must be 1..=128 chars"@))
    } else if data.len() > MAX_BLOB_BYTES {
        Some(AuthErrorView::BadInput("blob exceeds 64KiB limit"@))
    } else {
        None
    }
}

/// The entry stored by a successful `put_credential`: a first write
/// creates it now, a rewrite keeps the creation time.
pub open spec fn put_entry(
    vault: Map<(Seq<u8>, Seq<char>), CredentialEntry>,
    caller: Seq<u8>,
    label: Seq<char>,
    data: Seq<u8>,
    now_ns: u64,
) -> CredentialEntryView {
    CredentialEntryView {
        label,
        data,
        created_ns: if vault.contains_key((caller, label)) {
            vault[(caller, label)].created_ns
        } else {
            now_ns
        },
        updated_ns: now_ns,
    }
}

/// The vault `after` is `before` with `data` stored under (caller, label)
/// at `now_ns`; every other entry is as it was.
pub open spec fn stored(
    after: Map<(Seq<u8>, Seq<char>), CredentialEntry>,
    before: Map<(Seq<u8>, Seq<char>), CredentialEntry>,
    caller: Seq<u8>,
    label: Seq<char>,
    data: Seq<u8>,
    now_ns: u64,
) -> bool {
    &&& after.dom() == before.dom().insert((caller, label))
    &&& after[(caller, label)]@ == put_entry(before, caller, label, data, now_ns)
    &&& forall|k: (Seq<u8>, Seq<char>)|
        k != (caller, label) && #[trigger] before.contains_key(k) ==> after[k] == before[k]
}

/// Whether a vault entry belongs to `owner`.
pub open spec fn vault_entry_of(owner: Seq<u8>) -> spec_fn(((Seq<u8>, Seq<char>), CredentialEntry)) -> bool {
    |e: ((Seq<u8>, Seq<char>), CredentialEntry)| e.0.0 == owner
}

/// The label of a vault entry.
pub open spec fn entry_label() -> spec_fn(((Seq<u8>, Seq<char>), CredentialEntry)) -> Seq<char> {
    |e: ((Seq<u8>, Seq<char>), CredentialEntry)| e.0.1
}

/// The labels of `owner`'s credentials, in ascending label order.
pub open spec fn owner_labels(
    entries: Seq<((Seq<u8>, Seq<char>), CredentialEntry)>,
    owner: Seq<u8>,
) -> Seq<Seq<char>> {
    entries.filter(vault_entry_of(owner)).map_values(entry_label())
}

/// The vault's state.
pub struct AuthState {
    /// Users by principal.
    users: SortedMap<Principal, User>,
    /// Credentials by (owner, label).
    vault: SortedMap<VaultKey, CredentialEntry>,
}

/// The users of a saved list, each under its principal; a later record of
/// the same principal replaces an earlier one.
pub open spec fn users_from(list: Seq<User>) -> Map<Seq<u8>, User>
    decreases list.len(),
{
    if list.len() == 0 {
        Map::empty()
    } else {
        users_from(list.drop_last()).insert(list.last().id@, list.last())
    }
}

/// The credentials of a saved list of (owner, entry), each under (owner,
/// label), taken by their views; a later entry of the same key replaces
/// an earlier one.
pub open spec fn vault_from(list: Seq<(Principal, CredentialEntry)>) -> Map<(Seq<u8>, Seq<char>), CredentialEntryView>
    decreases list.len(),
{
    if list.len() == 0 {
        Map::empty()
    } else {
        vault_from(list.drop_last()).insert((list.last().0@, list.last().1.label@), list.last().1@)
    }
}

/// The vault's entries taken by their views.
pub open spec fn vault_views(m: Map<(Seq<u8>, Seq<char>), CredentialEntry>) -> Map<(Seq<u8>, Seq<char>), CredentialEntryView> {
    m.map_values(|e: CredentialEntry| e@)
}

impl AuthState {
    /// The registered users, by principal.
    pub closed spec fn users(&self) -> SortedMap<Principal, User> {
        self.users
    }

    /// The credentials, by (owner, label).
    pub closed spec fn vault(&self) -> SortedMap<VaultKey, CredentialEntry> {
        self.vault
    }

    /// Every user record, in principal order.
    pub fn user_records(&self) -> (v: Vec<User>)
        requires
            self.wf(),
        ensures
            v@ == self.users().ordered().map_values(|e: (Seq<u8>, User)| e.1),
    {
        let n = self.users.len();
        let mut out: Vec<User> = Vec::new();
        let mut i: usize = 0;
        while i < n
            invariant
                self.wf(),
                n == self.users.ordered().len(),
                i <= n,
                out@ == self.users.ordered().take(i as int).map_values(|e: (Seq<u8>, User)| e.1),
            decreases n - i,
        {
            out.push(*self.users.value_at(i));
            i = i + 1;
            assert(self.users.ordered().take(i as int) =~= self.users.ordered().take(i - 1).push(
                self.users.ordered()[i - 1],
            ));
            assert(out@ =~= self.users.ordered().take(i as int).map_values(|e: (Seq<u8>, User)| e.1));
        }
        assert(self.users.ordered().take(n as int) =~= self.users.ordered());
        out
    }

    /// Every credential with its owner, in (owner, label) order.
    pub fn vault_records(&self) -> (v: Vec<(Principal, CredentialEntry)>)
        requires
            self.wf(),
        ensures
            v@.len() == self.vault().ordered().len(),
            forall|i: int|
                0 <= i < v@.len() ==> (#[trigger] v@[i]).0@ == self.vault().ordered()[i].0.0
                    && v@[i].1@ == self.vault().ordered()[i].1@,
    {
        let n = self.vault.len();
        let mut out: Vec<(Principal, CredentialEntry)> = Vec::new();
        let mut i: usize = 0;
        while i < n
            invariant
                self.wf(),
                n == self.vault.ordered().len(),
                i <= n,
                out@.len() == i,
                forall|j: int|
                    0 <= j < i ==> (#[trigger] out@[j]).0@ == self.vault.ordered()[j].0.0
                        && out@[j].1@ == self.vault.ordered()[j].1@,
            decreases n - i,
        {
            let k = self.vault.key_at(i);
            let e = self.vault.value_at(i);
            out.push((k.owner, e.duplicate()));
            i = i + 1;
        }
        out
    }

    /// A vault holding the saved users and credentials: each user under its
    /// principal, each credential under its owner and its label.
    pub fn restore(users: Vec<User>, vault: Vec<(Principal, CredentialEntry)>) -> (s: AuthState)
        ensures
            s.wf(),
            s.users()@ == users_from(users@),
            vault_views(s.vault()@) == vault_from(vault@),
    {
        let mut s = AuthState::new();
        let n = users.len();
        let mut i: usize = 0;
        while i < n
            invariant
                s.wf(),
                n == users@.len(),
                i <= n,
                s.users@ == users_from(users@.take(i as int)),
                s.vault@ == Map::<(Seq<u8>, Seq<char>), CredentialEntry>::empty(),
            decreases n - i,
        {
            let u = users[i];
            let ghost before = s;
            s.users.insert(u.id, u);
            proof {
                assert(users@.take(i + 1).drop_last() =~= users@.take(i as int));
                assert forall|p: Seq<u8>| #[trigger] s.users@.contains_key(p) implies s.users@[p].id@ == p by {
                    if p != u.id@ {
                        assert(before.users@.contains_key(p));
                    }
                }
            }
            i = i + 1;
        }
        assert(users@.take(n as int) =~= users@);
        let m = vault.len();
        let mut j: usize = 0;
        assert(vault_views(s.vault@) =~= vault_from(vault@.take(0)));
        while j < m
            invariant
                s.wf(),
                m == vault@.len(),
                j <= m,
                s.users@ == users_from(users@),
                vault_views(s.vault@) == vault_from(vault@.take(j as int)),
            decreases m - j,
        {
            let owner = vault[j].0;
            let entry = vault[j].1.duplicate();
            let key = VaultKey { owner, label: entry.label.clone() };
            let ghost before = s;
            let ghost ev = entry@;
            s.vault.insert(key, entry);
            proof {
                assert(vault@.take(j + 1).drop_last() =~= vault@.take(j as int));
                assert(vault_views(s.vault@) =~= vault_views(before.vault@).insert((owner@, ev.label), ev));
                assert forall|k: (Seq<u8>, Seq<char>)| #[trigger] s.vault@.contains_key(k) implies s.vault@[k].label@ == k.1 by {
                    if k != (owner@, ev.label) {
                        assert(before.vault@.contains_key(k));
                    }
                }
            }
            j = j + 1;
        }
        assert(vault@.take(m as int) =~= vault@);
        s
    }

    pub open spec fn wf(&self) -> bool {
        &&& self.users().wf()
        &&& self.vault().wf()
        &&& forall|p: Seq<u8>| #[trigger] self.users()@.contains_key(p) ==> self.users()@[p].id@ == p
        &&& forall|k: (Seq<u8>, Seq<char>)|
            #[trigger] self.vault()@.contains_key(k) ==> self.vault()@[k].label@ == k.1
    }

    /// An empty vault.
    pub fn new() -> (s: AuthState)
        ensures
            s.wf(),
            s.users()@ == Map::<Seq<u8>, User>::empty(),
            s.vault()@ == Map::<(Seq<u8>, Seq<char>), CredentialEntry>::empty(),
    {
        AuthState { users: SortedMap::new(), vault: SortedMap::new() }
    }

    /// Registers `caller` at `now_ns`, or refreshes `last_seen` of an
    /// existing registration; either way returns the record. The
    /// anonymous principal cannot register.
    pub fn register(&mut self, caller: &Principal, now_ns: u64) -> (u: User)
        requires
            old(self).wf(),
            !caller.spec_is_anonymous(),
        ensures
            final(self).wf(),
            u == registered_user(old(self).users()@, *caller, now_ns),
            final(self).users()@ == old(self).users()@.insert(caller@, u),
            final(self).vault()@ == old(self).vault()@,
    {
        let u = match self.users.get(caller) {
            Some(existing) => User { last_seen: now_ns, ..*existing },
            None => User { id: *caller, registered: now_ns, last_seen: now_ns },
        };
        self.users.insert(*caller, u);
        proof {
            let o = old(self);
            assert forall|p: Seq<u8>| #[trigger] self.users@.contains_key(p) implies self.users@[p].id@ == p by {
                if p != caller@ {
                    assert(o.users@.contains_key(p));
                }
            }
        }
        u
    }

    /// The caller's own record, without touching `last_seen`.
    pub fn get_me(&self, caller: &Principal) -> (r: Result<User, AuthError>)
        requires
            self.wf(),
        ensures
            match r {
                Ok(u) => self.users()@.contains_key(caller@) && u == self.users()@[caller@],
                Err(e) => !self.users()@.contains_key(caller@) && e == AuthError::NotRegistered,
            },
    {
        match self.users.get(caller) {
            Some(u) => Ok(*u),
            None => Err(AuthError::NotRegistered),
        }
    }

    /// Number of registered users.
    pub fn user_count(&self) -> (n: u64)
        requires
            self.wf(),
        ensures
            n == self.users()@.len(),
    {
        self.users.len() as u64
    }

    /// Checked before every vault operation: the caller must not be
    /// anonymous and must be registered.
    pub fn require_registered(&self, caller: &Principal) -> (r: Result<(), AuthError>)
        requires
            self.wf(),
        ensures
            match registration_verdict(self.users()@, caller@) {
                Some(e) => r matches Err(x) && x@ == e,
                None => r is Ok,
            },
    {
        if caller.is_anonymous() {
            return Err(AuthError::Unauthorized);
        }
        if self.users.contains_key(caller) {
            Ok(())
        } else {
            Err(AuthError::NotRegistered)
        }
    }

    /// Stores `data` under `label` in the caller's vault at `now_ns`,
    /// keeping the creation time of an earlier entry.
    pub fn put_credential(&mut self, caller: &Principal, now_ns: u64, label: String, data: Vec<u8>) -> (r: Result<CredentialEntry, AuthError>)
        requires
            old(self).wf(),
        ensures
            final(self).wf(),
            final(self).users()@ == old(self).users()@,
            match put_verdict(old(self).users()@, caller@, label@, data@) {
                Some(e) => r matches Err(x) && x@ == e && final(self).vault()@ == old(self).vault()@,
                None => r matches Ok(entry) && entry@ == put_entry(old(self).vault()@, caller@, label@, data@, now_ns)
                    && stored(final(self).vault()@, old(self).vault()@, caller@, label@, data@, now_ns),
            },
    {
        self.require_registered(caller)?;
        let n = label.as_str().as_bytes().len();
        if label.as_str().is_empty() || n > MAX_LABEL_BYTES {
            return Err(AuthError::BadInput(String::from_str("label must be 1..=128 chars")));
        }
        if data.len() > MAX_BLOB_BYTES {
            return Err(AuthError::BadInput(String::from_str("blob exceeds 64KiB limit")));
        }
        let key = VaultKey { owner: *caller, label: label.clone() };
        let created_ns = match self.vault.get(&key) {
            Some(existing) => existing.created_ns,
            None => now_ns,
        };
        let entry = CredentialEntry { label, data, created_ns, updated_ns: now_ns };
        let copy = entry.duplicate();
        self.vault.insert(key, entry);
        proof {
            let o = old(self);
            assert(self.vault@.dom() =~= o.vault@.dom().insert((caller@, copy.label@)));
            assert forall|k: (Seq<u8>, Seq<char>)| #[trigger] self.vault@.contains_key(k) implies self.vault@[k].label@ == k.1 by {
                if k != (caller@, copy.label@) {
                    assert(o.vault@.contains_key(k));
                }
            }
        }
        Ok(copy)
    }

    /// One of the caller's credentials.
    pub fn get_credential(&self, caller: &Principal, label: String) -> (r: Result<CredentialEntry, AuthError>)
        requires
            self.wf(),
        ensures
            match registration_verdict(self.users()@, caller@) {
                Some(e) => r matches Err(x) && x@ == e,
                None => match r {
                    Ok(entry) => self.vault()@.contains_key((caller@, label@)) && entry@ == self.vault()@[(caller@, label@)]@,
                    Err(e) => !self.vault()@.contains_key((caller@, label@)) && e == AuthError::NotFound,
                },
            },
    {
        self.require_registered(caller)?;
        let key = VaultKey { owner: *caller, label };
        match self.vault.get(&key) {
            Some(entry) => Ok(entry.duplicate()),
            None => Err(AuthError::NotFound),
        }
    }

    /// The labels of the caller's credentials, in ascending label order
    /// (the blobs are not read).
    pub fn list_credentials(&self, caller: &Principal) -> (r: Result<Vec<String>, AuthError>)
        requires
            self.wf(),
        ensures
            match registration_verdict(self.users()@, caller@) {
                Some(e) => r matches Err(x) && x@ == e,
                None => r matches Ok(labels) && labels@.map_values(|s: String| s@) == owner_labels(
                    self.vault().ordered(),
                    caller@,
                ),
            },
    {
        self.require_registered(caller)?;
        let ghost ord = self.vault.ordered();
        let ghost pred = vault_entry_of(caller@);
        let ghost f = entry_label();
        let n = self.vault.len();
        let mut out: Vec<String> = Vec::new();
        let mut i: usize = 0;
        while i < n
            invariant
                self.wf(),
                ord == self.vault.ordered(),
                n == ord.len(),
                i <= n,
                pred == vault_entry_of(caller@),
                f == entry_label(),
                out@.map_values(|s: String| s@) == ord.take(i as int).filter(pred).map_values(f),
            decreases n - i,
        {
            let k = self.vault.key_at(i);
            let ghost before = ord.take(i as int).filter(pred);
            proof {
                assert(ord.take(i + 1).drop_last() =~= ord.take(i as int));
                assert(ord.take(i + 1).last() == ord[i as int]);
                reveal_with_fuel(Seq::filter, 1);
            }
            if k.owner.same(caller) {
                let ghost old_out = out@;
                let lbl = k.label.clone();
                assert(lbl@ == ord[i as int].0.1);
                out.push(lbl);
                assert(ord.take(i + 1).filter(pred) == before.push(ord[i as int]));
                assert(out@ =~= old_out.push(lbl));
                assert(out@.map_values(|s: String| s@) =~= old_out.map_values(|s: String| s@).push(lbl@));
                assert(out@.map_values(|s: String| s@) =~= ord.take(i + 1).filter(pred).map_values(f));
            } else {
                assert(ord.take(i + 1).filter(pred) == before);
            }
            i = i + 1;
        }
        assert(ord.take(n as int) =~= ord);
        Ok(out)
    }

    /// Deletes one of the caller's credentials; tells whether it existed.
    pub fn delete_credential(&mut self, caller: &Principal, label: String) -> (r: Result<bool, AuthError>)
        requires
            old(self).wf(),
        ensures
            final(self).wf(),
            final(self).users()@ == old(self).users()@,
            match registration_verdict(old(self).users()@, caller@) {
                Some(e) => r matches Err(x) && x@ == e && final(self).vault()@ == old(self).vault()@,
                None => r == Ok::<bool, AuthError>(old(self).vault()@.contains_key((caller@, label@)))
                    && final(self).vault()@ == old(self).vault()@.remove((caller@, label@)),
            },
    {
        self.require_registered(caller)?;
        let key = VaultKey { owner: *caller, label };
        let removed = self.vault.remove(&key);
        proof {
            let o = old(self);
            assert forall|k: (Seq<u8>, Seq<char>)| #[trigger] self.vault@.contains_key(k) implies self.vault@[k].label@ == k.1 by {
                assert(o.vault@.contains_key(k));
            }
        }
        Ok(removed.is_some())
    }

    /// Health snapshot at time `now_ns`.
    pub fn health_check(&self, now_ns: u64) -> (h: HealthStatus)
        requires
            self.wf(),
        ensures
            h.canister@ == "auth"@,
            h.ok,
            h.user_count == self.users()@.len(),
            h.vault_entries == self.vault()@.len(),
            h.timestamp_ns == now_ns,
    {
        HealthStatus {
            canister: String::from_str("auth"),
            ok: true,
            user_count: self.users.len() as u64,
            vault_entries: self.vault.len() as u64,
            timestamp_ns: now_ns,
        }
    }
}

} // verus!
