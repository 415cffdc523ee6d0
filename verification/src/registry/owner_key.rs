//! The key of the owner index: (owner, domain).
use vstd::prelude::*;
use crate::keyed::{
    compare_principal_text, lemma_principal_text_lt_irreflexive, lemma_principal_text_lt_total,
    lemma_principal_text_lt_transitive, principal_text_lt, KeyCmp, OrderedKey,
};
use crate::principal::{
    decode_principal_text, encode_principal_text, principal_text_bytes, principal_text_decodable,
    principal_text_decoded, Principal,
};

verus! {

/// An entry of the owner index: `owner` owns the site `domain`.
#[derive(Clone, Debug, PartialEq, Eq, PartialOrd, Ord)]
pub struct OwnerKey {
    pub owner: Principal,
    pub domain: String,
}

impl View for OwnerKey {
    type V = (Seq<u8>, Seq<char>);

    open spec fn view(&self) -> (Seq<u8>, Seq<char>) {
        (self.owner@, self.domain@)
    }
}

impl OwnerKey {
    /// Bytes `principal length | principal | domain (UTF-8)`.
    pub fn to_bytes(&self) -> (out: Vec<u8>)
        ensures
            out@ == principal_text_bytes(self.owner@, self.domain@),
    {
        encode_principal_text(&self.owner, self.domain.as_str())
    }

    /// The key whose bytes are `b`.
    pub fn from_bytes(b: &[u8]) -> (k: OwnerKey)
        requires
            principal_text_decodable(b@),
        ensures
            k@ == principal_text_decoded(b@),
    {
        let (owner, domain) = decode_principal_text(b);
        OwnerKey { owner, domain }
    }
}

impl OrderedKey for OwnerKey {
    /// By owner (shorter principals first, then byte-wise), then by domain.
    open spec fn key_lt(a: (Seq<u8>, Seq<char>), b: (Seq<u8>, Seq<char>)) -> bool {
        principal_text_lt(a, b)
    }

    proof fn lemma_key_lt_irreflexive(a: (Seq<u8>, Seq<char>)) {
        lemma_principal_text_lt_irreflexive(a);
    }

    proof fn lemma_key_lt_transitive(
        a: (Seq<u8>, Seq<char>),
        b: (Seq<u8>, Seq<char>),
        c: (Seq<u8>, Seq<char>),
    ) {
        lemma_principal_text_lt_transitive(a, b, c);
    }

    proof fn lemma_key_lt_total(a: (Seq<u8>, Seq<char>), b: (Seq<u8>, Seq<char>)) {
        lemma_principal_text_lt_total(a, b);
    }

    fn compare_key(&self, other: &OwnerKey) -> (c: KeyCmp) {
        compare_principal_text(&self.owner, self.domain.as_str(), &other.owner, other.domain.as_str())
    }

    fn copy_key(&self) -> (r: OwnerKey) {
        OwnerKey { owner: self.owner, domain: self.domain.clone() }
    }
}

} // verus!
