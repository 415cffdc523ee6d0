//! The key of the credential vault: (owner, label).
use vstd::prelude::*;
use crate::keyed::{
    compare_principal_text, lemma_principal_text_lt_irreflexive, lemma_principal_text_lt_total,
    lemma_principal_text_lt_transitive, principal_text_lt, KeyCmp, OrderedKey,
};
use crate::principal::{
    decode_principal_text, encode_principal_text, principal_text_bytes, principal_text_decodable,
    principal_text_decoded, Principal,
};

verus! {

/// A credential of `owner` under `label`.
#[derive(Clone, Debug, PartialEq, Eq, PartialOrd, Ord)]
pub struct VaultKey {
    pub owner: Principal,
    pub label: String,
}

impl View for VaultKey {
    type V = (Seq<u8>, Seq<char>);

    open spec fn view(&self) -> (Seq<u8>, Seq<char>) {
        (self.owner@, self.label@)
    }
}

impl VaultKey {
    /// Bytes `principal length | principal | label (UTF-8)`.
    pub fn to_bytes(&self) -> (out: Vec<u8>)
        ensures
            out@ == principal_text_bytes(self.owner@, self.label@),
    {
        encode_principal_text(&self.owner, self.label.as_str())
    }

    /// The key whose bytes are `b`.
    pub fn from_bytes(b: &[u8]) -> (k: VaultKey)
        requires
            principal_text_decodable(b@),
        ensures
            k@ == principal_text_decoded(b@),
    {
        let (owner, label) = decode_principal_text(b);
        VaultKey { owner, label }
    }
}

impl OrderedKey for VaultKey {
    /// By owner (shorter principals first, then byte-wise), then by label.
    open spec fn key_lt(a: (Seq<u8>, Seq<char>), b: (Seq<u8>, Seq<char>)) -> bool {
        principal_text_lt(a, b)
    }

    proof fn lemma_key_lt_irreflexive(a: (Seq<u8>, Seq<char>)) {
        lemma_principal_text_lt_irreflexive(a);
    }

    proof fn lemma_key_lt_transitive(
        a: (Seq<u8>, Seq<char>),
        b: (Seq<u8>, Seq<char>),
        c: (Seq<u8>, Seq<char>),
    ) {
        lemma_principal_text_lt_transitive(a, b, c);
    }

    proof fn lemma_key_lt_total(a: (Seq<u8>, Seq<char>), b: (Seq<u8>, Seq<char>)) {
        lemma_principal_text_lt_total(a, b);
    }

    fn compare_key(&self, other: &VaultKey) -> (c: KeyCmp) {
        compare_principal_text(&self.owner, self.label.as_str(), &other.owner, other.label.as_str())
    }

    fn copy_key(&self) -> (r: VaultKey) {
        VaultKey { owner: self.owner, label: self.label.clone() }
    }
}

} // verus!
