//! What the registry promises across calls.
use vstd::prelude::*;
use vstd::utf8::encode_utf8;
use crate::keyed::{lemma_bytes_lt_irreflexive, principal_text_lt};
use crate::principal::Principal;
use crate::registry::state::{
    fresh_site, index_entry_of, owner_verdict, register_verdict, RegistryState,
};
use crate::registry::types::{OwnershipProof, RegistryErrorView, Smartsite};
use crate::registry::validate::{cid_error, domain_error, first_segment_error, segment_error, split_dots};

verus! {

/// Listing an owner's sites through the index gives exactly that owner's
/// sites: each listed site is stored under its domain and belongs to the
/// owner, and every site of the owner is listed.
pub proof fn lemma_owned_sites_exact(s: RegistryState, owner: Seq<u8>)
    requires
        s.wf(),
    ensures
        forall|i: int|
            0 <= i < s.owned_sites(owner).len() ==> {
                let site = #[trigger] s.owned_sites(owner)[i];
                &&& site.owner@ == owner
                &&& s.sites()@.contains_key(site.domain@)
                &&& s.sites()@[site.domain@] == site
            },
        forall|d: Seq<char>|
            #[trigger] s.sites()@.contains_key(d) && s.sites()@[d].owner@ == owner ==> s.owned_sites(
                owner,
            ).contains(s.sites()@[d]),
{
    let ord = s.owner_index().ordered();
    let pred = index_entry_of(owner);
    let f = s.site_of_entry();
    let filtered = ord.filter(pred);
    s.owner_index().lemma_ordered();
    ord.filter_lemma(pred);
    assert(s.owned_sites(owner) =~= filtered.map_values(f));
    assert forall|i: int| 0 <= i < s.owned_sites(owner).len() implies {
        let site = #[trigger] s.owned_sites(owner)[i];
        &&& site.owner@ == owner
        &&& s.sites()@.contains_key(site.domain@)
        &&& s.sites()@[site.domain@] == site
    } by {
        let e = filtered[i];
        assert(pred(e));
        assert(filtered.contains(e));
        let j = choose|j: int| 0 <= j < filtered.len() && filtered[j] == e;
        assert(ord.contains(e)) by {
            lemma_filter_from(ord, pred, i);
        }
        let k = choose|k: int| 0 <= k < ord.len() && ord[k] == e;
        assert(s.owner_index()@.contains_key(ord[k].0));
        assert(s.owner_index()@.contains_key((e.0.0, e.0.1)));
    }
    assert forall|d: Seq<char>| #[trigger] s.sites()@.contains_key(d) && s.sites()@[d].owner@ == owner implies s.owned_sites(
        owner,
    ).contains(s.sites()@[d]) by {
        assert(s.owner_index()@.contains_key((owner, d)));
        let j = choose|j: int| 0 <= j < ord.len() && ord[j].0 == (owner, d);
        assert(pred(ord[j]));
        assert(filtered.contains(ord[j]));
        let i = choose|i: int| 0 <= i < filtered.len() && filtered[i] == ord[j];
        assert(s.owned_sites(owner)[i] == s.sites()@[d]);
    }
}

proof fn lemma_filter_from<A>(s: Seq<A>, pred: spec_fn(A) -> bool, i: int)
    requires
        0 <= i < s.filter(pred).len(),
    ensures
        s.contains(s.filter(pred)[i]),
    decreases s.len(),
{
    reveal(Seq::filter);
    if s.len() > 0 {
        let sub = s.drop_last().filter(pred);
        if i < sub.len() {
            lemma_filter_from(s.drop_last(), pred, i);
            let k = choose|k: int| 0 <= k < s.drop_last().len() && s.drop_last()[k] == sub[i];
            assert(s[k] == s.filter(pred)[i]);
        } else {
            assert(s.filter(pred)[i] == s[s.len() - 1]);
        }
    }
}

/// Filtering an index listing keeps its keys strictly ascending.
proof fn lemma_filter_keeps_order(
    s: Seq<((Seq<u8>, Seq<char>), u8)>,
    pred: spec_fn(((Seq<u8>, Seq<char>), u8)) -> bool,
)
    requires
        forall|i: int, j: int| 0 <= i < j < s.len() ==> principal_text_lt(#[trigger] s[i].0, #[trigger] s[j].0),
    ensures
        forall|i: int, j: int|
            0 <= i < j < s.filter(pred).len() ==> principal_text_lt(
                #[trigger] s.filter(pred)[i].0,
                #[trigger] s.filter(pred)[j].0,
            ),
    decreases s.len(),
{
    reveal(Seq::filter);
    if s.len() > 0 {
        let init = s.drop_last();
        let sub = init.filter(pred);
        lemma_filter_keeps_order(init, pred);
        if pred(s.last()) {
            let f = s.filter(pred);
            assert(f == sub.push(s.last()));
            assert forall|i: int, j: int| 0 <= i < j < f.len() implies principal_text_lt(
                #[trigger] f[i].0,
                #[trigger] f[j].0,
            ) by {
                if j == sub.len() {
                    lemma_filter_from(init, pred, i);
                    let k = choose|k: int| 0 <= k < init.len() && init[k] == sub[i];
                    assert(s[k] == f[i]);
                    assert(s[s.len() - 1] == f[j]);
                } else {
                    assert(f[i] == sub[i]);
                    assert(f[j] == sub[j]);
                }
            }
        } else {
            assert(s.filter(pred) == sub);
        }
    }
}

/// `sites_by_owner` lists each of the owner's sites once: no two entries
/// of the listing share a domain.
pub proof fn lemma_owned_sites_distinct(s: RegistryState, owner: Seq<u8>)
    requires
        s.wf(),
    ensures
        forall|i: int, j: int|
            0 <= i < j < s.owned_sites(owner).len() ==> (#[trigger] s.owned_sites(owner)[i]).domain@
                != (#[trigger] s.owned_sites(owner)[j]).domain@,
{
    let ord = s.owner_index().ordered();
    let pred = index_entry_of(owner);
    let filtered = ord.filter(pred);
    s.owner_index().lemma_ordered();
    ord.filter_lemma(pred);
    lemma_filter_keeps_order(ord, pred);
    assert(s.owned_sites(owner) =~= filtered.map_values(s.site_of_entry()));
    assert forall|i: int, j: int| 0 <= i < j < s.owned_sites(owner).len() implies (
    #[trigger] s.owned_sites(owner)[i]).domain@ != (#[trigger] s.owned_sites(owner)[j]).domain@ by {
        let ei = filtered[i];
        let ej = filtered[j];
        assert(pred(ei) && pred(ej));
        lemma_filter_from(ord, pred, i);
        lemma_filter_from(ord, pred, j);
        let ki = choose|k: int| 0 <= k < ord.len() && ord[k] == ei;
        let kj = choose|k: int| 0 <= k < ord.len() && ord[k] == ej;
        assert(s.owner_index()@.contains_key(ord[ki].0));
        assert(s.owner_index()@.contains_key(ord[kj].0));
        assert(s.sites()@.contains_key(ei.0.1));
        assert(s.sites()@.contains_key(ej.0.1));
        assert(principal_text_lt(ei.0, ej.0));
        lemma_bytes_lt_irreflexive(owner);
        lemma_bytes_lt_irreflexive(encode_utf8(ei.0.1));
    }
}

/// A domain can be registered once: after a successful registration,
/// every further registration of it is refused, whoever asks.
pub proof fn lemma_domain_registered_once(
    sites: Map<Seq<char>, Smartsite>,
    caller: Principal,
    domain: String,
    cid: String,
    now_ns: u64,
    ownership: OwnershipProof,
    other: Seq<u8>,
    cid2: Seq<char>,
    ownership2: OwnershipProof,
)
    requires
        register_verdict(sites, caller@, domain@, cid@, ownership) is None,
    ensures
        register_verdict(
            sites.insert(domain@, fresh_site(domain, caller, cid, now_ns, ownership)),
            other,
            domain@,
            cid2,
            ownership2,
        ) is Some,
{
}

/// Deleting a site frees its domain: the same registration that was
/// refused as taken is accepted afterwards.
pub proof fn lemma_delete_frees_domain(
    sites: Map<Seq<char>, Smartsite>,
    caller: Seq<u8>,
    domain: Seq<char>,
    cid: Seq<char>,
    ownership: OwnershipProof,
)
    requires
        register_verdict(sites, caller, domain, cid, ownership) == Some(RegistryErrorView::AlreadyRegistered),
        owner_verdict(sites, caller, domain) is None,
    ensures
        register_verdict(sites.remove(domain), caller, domain, cid, ownership) is None,
{
}

/// Only the owner of a site is let through the owner test of the owner-only
/// operations (CID, status, container, delete).
pub proof fn lemma_only_owner_passes(sites: Map<Seq<char>, Smartsite>, caller: Seq<u8>, domain: Seq<char>)
    requires
        owner_verdict(sites, caller, domain) is None,
    ensures
        sites.contains_key(domain),
        sites[domain].owner@ == caller,
{
}


/// A label of 1..=63 bytes made of ASCII letters (either case), ASCII
/// digits and hyphens, neither starting nor ending with a hyphen, is a
/// valid domain label.
pub proof fn lemma_alnum_hyphen_label_is_valid(seg: Seq<char>)
    requires
        seg.len() >= 1,
        1 <= encode_utf8(seg).len() <= 63,
        seg[0] != '-',
        seg[seg.len() - 1] != '-',
        forall|i: int|
            0 <= i < seg.len() ==> ('a' <= #[trigger] seg[i] && seg[i] <= 'z') || ('A' <= seg[i] && seg[i]
                <= 'Z') || ('0' <= seg[i] && seg[i] <= '9') || seg[i] == '-',
    ensures
        segment_error(seg) is None,
{
}

/// A label of the right length and without a hyphen at either end that
/// holds any character other than an ASCII letter, digit or hyphen is
/// refused for its characters.
pub proof fn lemma_label_with_other_char_is_refused(seg: Seq<char>, i: int)
    requires
        seg.len() >= 1,
        1 <= encode_utf8(seg).len() <= 63,
        seg[0] != '-',
        seg[seg.len() - 1] != '-',
        0 <= i < seg.len(),
        !(('a' <= seg[i] && seg[i] <= 'z') || ('A' <= seg[i] && seg[i] <= 'Z') || ('0' <= seg[i] && seg[i]
            <= '9') || seg[i] == '-'),
    ensures
        segment_error(seg) == Some("segment '"@ + seg + "' has invalid characters"@),
{
}

proof fn lemma_no_segment_error(segs: Seq<Seq<char>>)
    requires
        forall|k: int| 0 <= k < segs.len() ==> (#[trigger] segment_error(segs[k])) is None,
    ensures
        first_segment_error(segs) is None,
    decreases segs.len(),
{
    if segs.len() > 0 {
        assert(segment_error(segs[0]) is None);
        assert forall|k: int| 0 <= k < segs.drop_first().len() implies (#[trigger] segment_error(
            segs.drop_first()[k],
        )) is None by {
            assert(segs.drop_first()[k] == segs[k + 1]);
        }
        lemma_no_segment_error(segs.drop_first());
    }
}

/// A domain of 1..=253 bytes with a dot, whose labels are each 1..=63
/// bytes of ASCII letters, digits and hyphens with no hyphen at either
/// end, is accepted.
pub proof fn lemma_alnum_hyphen_domain_is_valid(d: Seq<char>)
    requires
        d.len() >= 1,
        encode_utf8(d).len() <= 253,
        d.contains('.'),
        forall|k: int|
            0 <= k < split_dots(d).len() ==> {
                let seg = #[trigger] split_dots(d)[k];
                &&& seg.len() >= 1
                &&& 1 <= encode_utf8(seg).len() <= 63
                &&& seg[0] != '-'
                &&& seg[seg.len() - 1] != '-'
                &&& forall|i: int|
                    0 <= i < seg.len() ==> ('a' <= #[trigger] seg[i] && seg[i] <= 'z') || ('A' <= seg[i]
                        && seg[i] <= 'Z') || ('0' <= seg[i] && seg[i] <= '9') || seg[i] == '-'
            },
    ensures
        domain_error(d) is None,
{
    let segs = split_dots(d);
    assert forall|k: int| 0 <= k < segs.len() implies (#[trigger] segment_error(segs[k])) is None by {
        lemma_alnum_hyphen_label_is_valid(segs[k]);
    }
    lemma_no_segment_error(segs);
}

/// The empty CID is accepted (the site is hosted off IPFS), and so is any
/// CID of 46..=100 bytes of ASCII letters (either case) and digits, as
/// base32 and base58 CIDs are.
pub proof fn lemma_alnum_cid_is_valid(c: Seq<char>)
    requires
        c.len() == 0 || (46 <= encode_utf8(c).len() <= 100 && forall|i: int|
            0 <= i < c.len() ==> ('a' <= #[trigger] c[i] && c[i] <= 'z') || ('A' <= c[i] && c[i] <= 'Z')
                || ('0' <= c[i] && c[i] <= '9')),
    ensures
        cid_error(c) is None,
{
}

/// A CID of the right length that holds any character other than an ASCII
/// letter or digit is refused for its characters.
pub proof fn lemma_cid_with_other_char_is_refused(c: Seq<char>, i: int)
    requires
        46 <= encode_utf8(c).len() <= 100,
        0 <= i < c.len(),
        !(('a' <= c[i] && c[i] <= 'z') || ('A' <= c[i] && c[i] <= 'Z') || ('0' <= c[i] && c[i] <= '9')),
    ensures
        cid_error(c) == Some("CID must be alphanumeric (base32 or base58)"@),
{
}

} // verus!
