//! What the access rules promise across calls.
use vstd::prelude::*;
use crate::hopeandgrace::state::{
    accept_post, accept_verdict, add_writer_post, anonymous_bytes, cancel_post, initiate_post,
    owner_check, remove_writer_post, without_principal, writer_check,
};
use crate::hopeandgrace::invariants::{ledger_consistent, ledger_step_ok};
use crate::hopeandgrace::types::{ConfigView, LedgerEntry};

verus! {

/// The writers list names nobody twice and never the anonymous principal.
pub open spec fn writers_well_kept(c: ConfigView) -> bool {
    c.writers.no_duplicates() && !c.writers.contains(anonymous_bytes())
}

proof fn lemma_filter_keeps(s: Seq<Seq<u8>>, p: Seq<u8>)
    ensures
        forall|x: Seq<u8>| #[trigger] without_principal(s, p).contains(x) ==> s.contains(x) && x != p,
        s.no_duplicates() ==> without_principal(s, p).no_duplicates(),
    decreases s.len(),
{
    reveal(Seq::filter);
    if s.len() > 0 {
        let d = s.drop_last();
        lemma_filter_keeps(d, p);
        let sub = without_principal(d, p);
        let out = without_principal(s, p);
        if s.last() != p {
            assert(out =~= sub.push(s.last()));
        } else {
            assert(out =~= sub);
        }
        assert forall|x: Seq<u8>| #[trigger] out.contains(x) implies s.contains(x) && x != p by {
            let j = choose|j: int| 0 <= j < out.len() && out[j] == x;
            if s.last() != p && j == sub.len() {
                assert(s[s.len() - 1] == x);
            } else {
                assert(sub[j] == x);
                assert(sub.contains(x));
                let k = choose|k: int| 0 <= k < d.len() && d[k] == x;
                assert(s[k] == x);
            }
        }
        if s.no_duplicates() {
            assert(d.no_duplicates());
            if s.last() != p {
                assert(!sub.contains(s.last())) by {
                    if sub.contains(s.last()) {
                        let k = choose|k: int| 0 <= k < d.len() && d[k] == s.last();
                        assert(s[k] == s[s.len() - 1]);
                    }
                }
            }
        }
    }
}

/// An ownership handover by the owner, accepted by the named principal,
/// makes that principal the owner, clears the pending slot and leaves the
/// writers alone.
pub proof fn lemma_ownership_handover(c: ConfigView, new: Seq<u8>)
    requires
        c.owner != anonymous_bytes(),
        new != anonymous_bytes(),
    ensures
        accept_verdict(initiate_post(c, c.owner, new), new) is Ok,
        accept_post(initiate_post(c, c.owner, new), new) == (ConfigView {
            owner: new,
            writers: c.writers,
            pending_owner: None,
        }),
{
    let mid = initiate_post(c, c.owner, new);
    assert(mid.pending_owner == Some(new));
    assert(accept_post(mid, new) =~= (ConfigView { owner: new, writers: c.writers, pending_owner: None }));
}

/// Naming a next owner never changes the owner: the transfer waits for
/// acceptance.
pub proof fn lemma_initiate_keeps_owner(c: ConfigView, caller: Seq<u8>, new: Seq<u8>)
    ensures
        initiate_post(c, caller, new).owner == c.owner,
        initiate_post(c, caller, new).writers == c.writers,
{
}

/// Nobody but the pending owner can accept: any other caller is refused
/// and the configuration stays as it was.
pub proof fn lemma_only_pending_owner_accepts(c: ConfigView, caller: Seq<u8>)
    requires
        c.pending_owner != Some(caller),
    ensures
        accept_verdict(c, caller) is Err,
        accept_post(c, caller) == c,
{
}

/// After the owner cancels, no handover can be accepted.
pub proof fn lemma_cancel_disarms(c: ConfigView, anyone: Seq<u8>)
    requires
        owner_check(c, c.owner) is Ok,
    ensures
        accept_verdict(cancel_post(c, c.owner), anyone) is Err,
        cancel_post(c, c.owner).owner == c.owner,
{
}

/// A caller that is not the owner changes nothing through the owner-only
/// methods.
pub proof fn lemma_non_owner_changes_nothing(c: ConfigView, caller: Seq<u8>, p: Seq<u8>)
    requires
        owner_check(c, caller) is Err,
    ensures
        initiate_post(c, caller, p) == c,
        cancel_post(c, caller) == c,
        add_writer_post(c, caller, p) == c,
        remove_writer_post(c, caller, p) == c,
{
}

/// Once the owner adds `p` (not anonymous), `p` passes the writer gate;
/// adding again changes nothing.
pub proof fn lemma_add_writer_grants(c: ConfigView, p: Seq<u8>)
    requires
        owner_check(c, c.owner) is Ok,
        p != anonymous_bytes(),
    ensures
        writer_check(add_writer_post(c, c.owner, p), p) is Ok,
        add_writer_post(add_writer_post(c, c.owner, p), c.owner, p) == add_writer_post(c, c.owner, p),
{
    let a = add_writer_post(c, c.owner, p);
    if !c.writers.contains(p) {
        assert(a.writers[a.writers.len() - 1] == p);
    }
}

/// Once the owner removes `p`, `p` fails the writer gate; removing again
/// changes nothing.
pub proof fn lemma_remove_writer_revokes(c: ConfigView, p: Seq<u8>)
    requires
        owner_check(c, c.owner) is Ok,
    ensures
        writer_check(remove_writer_post(c, c.owner, p), p) is Err,
        remove_writer_post(remove_writer_post(c, c.owner, p), c.owner, p) == remove_writer_post(c, c.owner, p),
{
    let r = remove_writer_post(c, c.owner, p);
    lemma_filter_keeps(c.writers, p);
    assert(!r.writers.contains(p));
    lemma_filter_keeps(r.writers, p);
    assert(without_principal(r.writers, p) =~= r.writers) by {
        lemma_filter_all(r.writers, p);
    }
}

proof fn lemma_filter_all(s: Seq<Seq<u8>>, p: Seq<u8>)
    requires
        !s.contains(p),
    ensures
        without_principal(s, p) == s,
    decreases s.len(),
{
    reveal(Seq::filter);
    if s.len() > 0 {
        let d = s.drop_last();
        assert(!d.contains(p)) by {
            if d.contains(p) {
                let k = choose|k: int| 0 <= k < d.len() && d[k] == p;
                assert(s[k] == p);
            }
        }
        lemma_filter_all(d, p);
        assert(s.last() != p);
        assert(d.push(s.last()) =~= s);
    }
}

/// Every access operation keeps the writers list free of duplicates and of
/// the anonymous principal.
pub proof fn lemma_writers_stay_well_kept(c: ConfigView, caller: Seq<u8>, p: Seq<u8>)
    requires
        writers_well_kept(c),
    ensures
        writers_well_kept(initiate_post(c, caller, p)),
        writers_well_kept(accept_post(c, caller)),
        writers_well_kept(cancel_post(c, caller)),
        writers_well_kept(add_writer_post(c, caller, p)),
        writers_well_kept(remove_writer_post(c, caller, p)),
{
    let a = add_writer_post(c, caller, p);
    if a != c {
        assert forall|i: int, j: int|
            0 <= i < a.writers.len() && 0 <= j < a.writers.len() && i != j implies a.writers[i]
            != a.writers[j] by {
            if i == c.writers.len() {
                assert(a.writers[i] == p);
                assert(a.writers[j] == c.writers[j]);
                if c.writers[j] == p {
                    assert(c.writers.contains(p));
                }
            } else if j == c.writers.len() {
                assert(a.writers[j] == p);
                assert(a.writers[i] == c.writers[i]);
                if c.writers[i] == p {
                    assert(c.writers.contains(p));
                }
            } else {
                assert(a.writers[i] == c.writers[i]);
                assert(a.writers[j] == c.writers[j]);
            }
        }
        assert(!a.writers.contains(anonymous_bytes())) by {
            if a.writers.contains(anonymous_bytes()) {
                let k = choose|k: int| 0 <= k < a.writers.len() && a.writers[k] == anonymous_bytes();
                if k < c.writers.len() {
                    assert(c.writers[k] == anonymous_bytes());
                }
            }
        }
    }
    lemma_filter_keeps(c.writers, p);
}


proof fn lemma_filter_keeps_others(s: Seq<Seq<u8>>, p: Seq<u8>, x: Seq<u8>)
    requires
        s.contains(x),
        x != p,
    ensures
        without_principal(s, p).contains(x),
    decreases s.len(),
{
    reveal(Seq::filter);
    let d = s.drop_last();
    let sub = without_principal(d, p);
    if s.last() == x {
        assert(without_principal(s, p) =~= sub.push(x));
        assert(without_principal(s, p)[sub.len() as int] == x);
    } else {
        let k = choose|k: int| 0 <= k < s.len() && s[k] == x;
        assert(d[k] == x);
        lemma_filter_keeps_others(d, p, x);
        let j = choose|j: int| 0 <= j < sub.len() && sub[j] == x;
        if s.last() != p {
            assert(without_principal(s, p) =~= sub.push(s.last()));
            assert(without_principal(s, p)[j] == x);
        } else {
            assert(without_principal(s, p) =~= sub);
        }
    }
}

/// Adding a writer keeps every earlier writer: when the owner adds `p`
/// (not anonymous), the writers afterwards are exactly the earlier writers
/// and `p`, in their earlier order with a new `p` at the end; every other
/// principal's writer verdict stays as it was, and `p` may write.
pub proof fn lemma_add_writer_keeps_others(c: ConfigView, p: Seq<u8>, q: Seq<u8>)
    requires
        owner_check(c, c.owner) is Ok,
        p != anonymous_bytes(),
    ensures
        add_writer_post(c, c.owner, p).writers.contains(q) <==> (c.writers.contains(q) || q == p),
        c.writers.contains(p) ==> add_writer_post(c, c.owner, p).writers == c.writers,
        !c.writers.contains(p) ==> add_writer_post(c, c.owner, p).writers == c.writers.push(p),
        q != p ==> writer_check(add_writer_post(c, c.owner, p), q) == writer_check(c, q),
        writer_check(add_writer_post(c, c.owner, p), p) is Ok,
        add_writer_post(c, c.owner, p).owner == c.owner,
        add_writer_post(c, c.owner, p).pending_owner == c.pending_owner,
{
    let a = add_writer_post(c, c.owner, p);
    if !c.writers.contains(p) {
        assert(a.writers[c.writers.len() as int] == p);
        if c.writers.contains(q) {
            let k = choose|k: int| 0 <= k < c.writers.len() && c.writers[k] == q;
            assert(a.writers[k] == q);
        }
        if a.writers.contains(q) && q != p {
            let k = choose|k: int| 0 <= k < a.writers.len() && a.writers[k] == q;
            assert(c.writers[k] == q);
        }
    }
}

/// Removing a writer revokes only that writer: when the owner removes `p`,
/// the writers afterwards are exactly the earlier writers other than `p`;
/// every other principal's writer verdict stays as it was, and `p` may no
/// longer write.
pub proof fn lemma_remove_writer_keeps_others(c: ConfigView, p: Seq<u8>, q: Seq<u8>)
    requires
        owner_check(c, c.owner) is Ok,
    ensures
        remove_writer_post(c, c.owner, p).writers.contains(q) <==> (c.writers.contains(q) && q != p),
        q != p ==> writer_check(remove_writer_post(c, c.owner, p), q) == writer_check(c, q),
        writer_check(remove_writer_post(c, c.owner, p), p) is Err,
        !c.writers.contains(p) ==> remove_writer_post(c, c.owner, p) == c,
        remove_writer_post(c, c.owner, p).owner == c.owner,
        remove_writer_post(c, c.owner, p).pending_owner == c.pending_owner,
{
    let r = remove_writer_post(c, c.owner, p);
    lemma_filter_keeps(c.writers, p);
    if c.writers.contains(q) && q != p {
        lemma_filter_keeps_others(c.writers, p, q);
    }
    assert(r.writers.contains(q) ==> c.writers.contains(q) && q != p);
    if !c.writers.contains(p) {
        lemma_filter_all(c.writers, p);
        assert(r =~= c);
    }
}

/// The ledger is a running balance: a ledger of one entry is consistent
/// (the first entry only seeds the walk), and appending an entry to a
/// non-empty ledger keeps it consistent exactly when the ledger was
/// consistent and the new entry's balance is the last entry's balance plus
/// the new entry's amount.
pub proof fn lemma_ledger_running_balance(l: Seq<LedgerEntry>, e: LedgerEntry)
    ensures
        ledger_consistent(seq![e]),
        l.len() > 0 ==> (ledger_consistent(l.push(e)) <==> (ledger_consistent(l)
            && l.last().balance_after_cents + e.amount_cents == e.balance_after_cents)),
{
    if l.len() > 0 {
        let m = l.push(e);
        assert forall|i: int| 0 <= i < l.len() implies m[i] == l[i] by {}
        assert(m[l.len() as int] == e);
        assert(m[l.len() - 1] == l.last());
        if ledger_consistent(m) {
            assert(ledger_step_ok(m, l.len() as int));
            assert forall|i: int| 1 <= i < l.len() implies #[trigger] ledger_step_ok(l, i) by {
                assert(ledger_step_ok(m, i));
            }
        }
        if ledger_consistent(l) && l.last().balance_after_cents + e.amount_cents == e.balance_after_cents {
            assert forall|i: int| 1 <= i < m.len() implies #[trigger] ledger_step_ok(m, i) by {
                if i < l.len() {
                    assert(ledger_step_ok(l, i));
                }
            }
        }
    }
}

} // verus!
