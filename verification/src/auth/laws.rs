//! What the vault promises across calls.
use vstd::prelude::*;
use crate::principal::Principal;
use crate::auth::state::{
    owner_labels, put_entry, put_verdict, registered_user, registration_verdict, stored,
    vault_entry_of, AuthState,
};
use crate::auth::types::{CredentialEntry, CredentialEntryView, User};

verus! {

proof fn lemma_filter_from<A>(s: Seq<A>, pred: spec_fn(A) -> bool, i: int)
    requires
        0 <= i < s.filter(pred).len(),
    ensures
        s.contains(s.filter(pred)[i]),
    decreases s.len(),
{
    reveal(Seq::filter);
    if s.len() > 0 {
        let sub = s.drop_last().filter(pred);
        if i < sub.len() {
            lemma_filter_from(s.drop_last(), pred, i);
            let k = choose|k: int| 0 <= k < s.drop_last().len() && s.drop_last()[k] == sub[i];
            assert(s[k] == s.filter(pred)[i]);
        } else {
            assert(s.filter(pred)[i] == s[s.len() - 1]);
        }
    }
}

/// Listing a caller's credentials gives exactly the caller's labels: each
/// listed label has a credential of the caller, and every credential of
/// the caller is listed.
pub proof fn lemma_owner_labels_exact(s: AuthState, owner: Seq<u8>)
    requires
        s.wf(),
    ensures
        forall|i: int|
            0 <= i < owner_labels(s.vault().ordered(), owner).len() ==> s.vault()@.contains_key(
                (owner, #[trigger] owner_labels(s.vault().ordered(), owner)[i]),
            ),
        forall|l: Seq<char>|
            #[trigger] s.vault()@.contains_key((owner, l)) ==> owner_labels(s.vault().ordered(), owner).contains(l),
{
    let ord = s.vault().ordered();
    let pred = vault_entry_of(owner);
    let filtered = ord.filter(pred);
    s.vault().lemma_ordered();
    ord.filter_lemma(pred);
    assert forall|i: int| 0 <= i < owner_labels(ord, owner).len() implies s.vault()@.contains_key(
        (owner, #[trigger] owner_labels(ord, owner)[i]),
    ) by {
        let e = filtered[i];
        assert(pred(e));
        lemma_filter_from(ord, pred, i);
        let k = choose|k: int| 0 <= k < ord.len() && ord[k] == e;
        assert(s.vault()@.contains_key(ord[k].0));
        assert(e.0 == (owner, e.0.1));
    }
    assert forall|l: Seq<char>| #[trigger] s.vault()@.contains_key((owner, l)) implies owner_labels(ord, owner).contains(l) by {
        let j = choose|j: int| 0 <= j < ord.len() && ord[j].0 == (owner, l);
        assert(pred(ord[j]));
        assert(filtered.contains(ord[j]));
        let i = choose|i: int| 0 <= i < filtered.len() && filtered[i] == ord[j];
        assert(owner_labels(ord, owner)[i] == l);
    }
}

/// A caller that is anonymous or unregistered cannot store anything.
pub proof fn lemma_unregistered_cannot_store(
    users: Map<Seq<u8>, User>,
    caller: Seq<u8>,
    label: Seq<char>,
    data: Seq<u8>,
)
    requires
        registration_verdict(users, caller) is Some,
    ensures
        put_verdict(users, caller, label, data) == registration_verdict(users, caller),
{
}

/// A caller reads back what it stored: after a store, the entry under
/// (caller, label) holds that label, that blob and the time of the store,
/// and every other entry (of this caller or of anyone else) is untouched.
pub proof fn lemma_read_back_what_was_stored(
    before: Map<(Seq<u8>, Seq<char>), CredentialEntry>,
    after: Map<(Seq<u8>, Seq<char>), CredentialEntry>,
    caller: Seq<u8>,
    label: Seq<char>,
    data: Seq<u8>,
    now_ns: u64,
    other: (Seq<u8>, Seq<char>),
)
    requires
        stored(after, before, caller, label, data, now_ns),
    ensures
        after.contains_key((caller, label)),
        after[(caller, label)]@.label == label,
        after[(caller, label)]@.data == data,
        after[(caller, label)]@.updated_ns == now_ns,
        other != (caller, label) ==> {
            &&& after.contains_key(other) == before.contains_key(other)
            &&& before.contains_key(other) ==> after[other] == before[other]
        },
{
    assert(after.dom().contains((caller, label)));
    if other != (caller, label) {
        assert(after.dom().contains(other) == before.dom().contains(other));
    }
}

/// Rewriting a credential keeps the time it was first stored and takes
/// the new blob and time.
pub proof fn lemma_rewrite_keeps_creation(
    first: Map<(Seq<u8>, Seq<char>), CredentialEntry>,
    after: Map<(Seq<u8>, Seq<char>), CredentialEntry>,
    caller: Seq<u8>,
    label: Seq<char>,
    data1: Seq<u8>,
    t1: u64,
    data2: Seq<u8>,
    t2: u64,
)
    requires
        after.contains_key((caller, label)),
        after[(caller, label)]@ == put_entry(first, caller, label, data1, t1),
    ensures
        put_entry(after, caller, label, data2, t2) == (CredentialEntryView {
            label,
            data: data2,
            created_ns: put_entry(first, caller, label, data1, t1).created_ns,
            updated_ns: t2,
        }),
{
}

/// Registering again keeps the first registration time and moves
/// `last_seen` to the latest call.
pub proof fn lemma_register_again_keeps_first_time(
    users: Map<Seq<u8>, User>,
    caller: Principal,
    t1: u64,
    t2: u64,
)
    ensures
        registered_user(users.insert(caller@, registered_user(users, caller, t1)), caller, t2) == (User {
            last_seen: t2,
            ..registered_user(users, caller, t1)
        }),
{
}

} // verus!
