//! The key of the legal document registry: (kind, version), and its byte
//! encoding `kind length (1 byte) | kind (UTF-8) | version (4 bytes, big-endian)`.
use vstd::prelude::*;
use vstd::utf8::*;
use crate::keyed::{
    bytes_lt, compare_str, lemma_bytes_lt_common_prefix, lemma_bytes_lt_equal_length_heads,
    lemma_bytes_lt_irreflexive, lemma_bytes_lt_transitive, lemma_principal_lt_transitive,
    lemma_str_lt_total, str_lt, KeyCmp, OrderedKey,
};
use crate::text::{copy_bytes, push_bytes, string_from_utf8};

verus! {

/// Key of a legal document: its kind and version.
#[derive(Clone, Debug, PartialEq, Eq, PartialOrd, Ord)]
pub struct LegalDocKey {
    pub kind: String,
    pub version: u32,
}

impl View for LegalDocKey {
    type V = (Seq<char>, u32);

    open spec fn view(&self) -> (Seq<char>, u32) {
        (self.kind@, self.version)
    }
}

/// Big-endian bytes of `v`.
pub open spec fn be_u32_bytes(v: u32) -> Seq<u8> {
    seq![(v >> 24u32) as u8, (v >> 16u32) as u8, (v >> 8u32) as u8, v as u8]
}

/// The number whose big-endian bytes are `b0 b1 b2 b3`.
pub open spec fn be_u32_value(b0: u8, b1: u8, b2: u8, b3: u8) -> u32 {
    ((b0 as u32) << 24u32) | ((b1 as u32) << 16u32) | ((b2 as u32) << 8u32) | (b3 as u32)
}

/// The byte encoding of the key (kind, version). The length byte holds
/// the kind's byte length modulo 256.
pub open spec fn legal_doc_key_bytes(kind: Seq<char>, version: u32) -> Seq<u8> {
    seq![(encode_utf8(kind).len() as u8)] + encode_utf8(kind) + be_u32_bytes(version)
}

/// Bytes that `LegalDocKey::from_bytes` accepts: a length byte, that many
/// bytes of valid UTF-8, then at least four more bytes.
pub open spec fn legal_doc_key_decodable(b: Seq<u8>) -> bool {
    &&& b.len() >= 1
    &&& 1 + b[0] + 4 <= b.len()
    &&& valid_utf8(b.subrange(1, 1 + b[0]))
}

/// The key that decodable bytes stand for (trailing bytes are ignored).
pub open spec fn legal_doc_key_decoded(b: Seq<u8>) -> (Seq<char>, u32) {
    let k = b[0] as int;
    (
        decode_utf8(b.subrange(1, 1 + k)),
        be_u32_value(b[1 + k], b[2 + k], b[3 + k], b[4 + k]),
    )
}

proof fn lemma_be_u32_roundtrip(v: u32)
    ensures
        be_u32_value((v >> 24u32) as u8, (v >> 16u32) as u8, (v >> 8u32) as u8, v as u8) == v,
{
    assert(((((v >> 24u32) as u8) as u32) << 24u32) | ((((v >> 16u32) as u8) as u32) << 16u32) | ((
    ((v >> 8u32) as u8) as u32) << 8u32) | ((v as u8) as u32) == v) by (bit_vector);
}

/// Encoding a key whose kind is at most 255 bytes long and decoding the
/// bytes gives the key back.
pub proof fn lemma_legal_doc_key_roundtrip(kind: Seq<char>, version: u32)
    requires
        encode_utf8(kind).len() <= 255,
    ensures
        legal_doc_key_decodable(legal_doc_key_bytes(kind, version)),
        legal_doc_key_decoded(legal_doc_key_bytes(kind, version)) == (kind, version),
{
    let kb = encode_utf8(kind);
    let b = legal_doc_key_bytes(kind, version);
    let k = kb.len() as int;
    assert(b[0] == k);
    assert(b.subrange(1, 1 + k) =~= kb);
    encode_utf8_valid_utf8(kind);
    encode_utf8_decode_utf8(kind);
    assert(b[1 + k] == (version >> 24u32) as u8);
    assert(b[2 + k] == (version >> 16u32) as u8);
    assert(b[3 + k] == (version >> 8u32) as u8);
    assert(b[4 + k] == version as u8);
    lemma_be_u32_roundtrip(version);
}

/// Order of kinds in the key bytes: shorter UTF-8 first, then byte-wise.
pub open spec fn kind_lt(a: Seq<char>, b: Seq<char>) -> bool {
    encode_utf8(a).len() < encode_utf8(b).len() || (encode_utf8(a).len() == encode_utf8(b).len()
        && bytes_lt(encode_utf8(a), encode_utf8(b)))
}

/// Big-endian bytes sort as the numbers do.
proof fn lemma_be_u32_order(v: u32, w: u32)
    ensures
        bytes_lt(be_u32_bytes(v), be_u32_bytes(w)) == (v < w),
{
    let a = be_u32_bytes(v);
    let b = be_u32_bytes(w);
    assert(a.drop_first() =~= seq![(v >> 16u32) as u8, (v >> 8u32) as u8, v as u8]);
    assert(b.drop_first() =~= seq![(w >> 16u32) as u8, (w >> 8u32) as u8, w as u8]);
    assert(a.drop_first().drop_first() =~= seq![(v >> 8u32) as u8, v as u8]);
    assert(b.drop_first().drop_first() =~= seq![(w >> 8u32) as u8, w as u8]);
    assert(a.drop_first().drop_first().drop_first() =~= seq![v as u8]);
    assert(b.drop_first().drop_first().drop_first() =~= seq![w as u8]);
    assert(a.drop_first().drop_first().drop_first().drop_first() =~= Seq::<u8>::empty());
    assert(b.drop_first().drop_first().drop_first().drop_first() =~= Seq::<u8>::empty());
    reveal_with_fuel(bytes_lt, 5);
    assert((v < w) == (((v >> 24u32) as u8) < ((w >> 24u32) as u8) || (((v >> 24u32) as u8) == ((w
        >> 24u32) as u8) && (((v >> 16u32) as u8) < ((w >> 16u32) as u8) || (((v >> 16u32) as u8)
        == ((w >> 16u32) as u8) && (((v >> 8u32) as u8) < ((w >> 8u32) as u8) || (((v >> 8u32) as u8)
        == ((w >> 8u32) as u8) && (v as u8) < (w as u8)))))))) by (bit_vector);
}

/// The bytes of encoded legal document keys sort by kind (shorter kinds
/// first, then byte-wise), then by version.
pub proof fn lemma_legal_doc_key_bytes_order(a: Seq<char>, v: u32, b: Seq<char>, w: u32)
    requires
        encode_utf8(a).len() <= 255,
        encode_utf8(b).len() <= 255,
    ensures
        bytes_lt(legal_doc_key_bytes(a, v), legal_doc_key_bytes(b, w)) == (kind_lt(a, b) || (a == b
            && v < w)),
{
    let ea = encode_utf8(a);
    let eb = encode_utf8(b);
    let e1 = legal_doc_key_bytes(a, v);
    let e2 = legal_doc_key_bytes(b, w);
    assert(e1[0] == ea.len());
    assert(e2[0] == eb.len());
    encode_utf8_decode_utf8(a);
    encode_utf8_decode_utf8(b);
    if ea.len() == eb.len() {
        assert(e1.drop_first() =~= ea + be_u32_bytes(v));
        assert(e2.drop_first() =~= eb + be_u32_bytes(w));
        if ea == eb {
            lemma_bytes_lt_irreflexive(ea);
            lemma_bytes_lt_common_prefix(ea, be_u32_bytes(v), be_u32_bytes(w));
            lemma_be_u32_order(v, w);
        } else {
            lemma_bytes_lt_equal_length_heads(ea, eb, be_u32_bytes(v), be_u32_bytes(w));
        }
    }
}

/// Within one kind, the key bytes sort by version, ascending.
pub proof fn lemma_legal_doc_versions_ascend(kind: Seq<char>, v: u32, w: u32)
    requires
        encode_utf8(kind).len() <= 255,
    ensures
        bytes_lt(legal_doc_key_bytes(kind, v), legal_doc_key_bytes(kind, w)) == (v < w),
{
    lemma_bytes_lt_irreflexive(encode_utf8(kind));
    lemma_legal_doc_key_bytes_order(kind, v, kind, w);
}

/// In the byte order of the keys, the versions of one kind are
/// contiguous: no key of another kind sorts between two of them.
pub proof fn lemma_legal_doc_kinds_contiguous(a: Seq<char>, v: u32, c: Seq<char>, x: u32, w: u32)
    requires
        encode_utf8(a).len() <= 255,
        encode_utf8(c).len() <= 255,
        bytes_lt(legal_doc_key_bytes(a, v), legal_doc_key_bytes(c, x)),
        bytes_lt(legal_doc_key_bytes(c, x), legal_doc_key_bytes(a, w)),
    ensures
        c == a,
{
    lemma_legal_doc_key_bytes_order(a, v, c, x);
    lemma_legal_doc_key_bytes_order(c, x, a, w);
    if c != a {
        lemma_principal_lt_transitive(encode_utf8(a), encode_utf8(c), encode_utf8(a));
        lemma_bytes_lt_irreflexive(encode_utf8(a));
    }
}

impl LegalDocKey {
    /// The key's byte encoding.
    pub fn to_bytes(&self) -> (out: Vec<u8>)
        ensures
            out@ == legal_doc_key_bytes(self.kind@, self.version),
    {
        let kind_bytes = self.kind.as_str().as_bytes();
        let mut out: Vec<u8> = Vec::new();
        out.push(kind_bytes.len() as u8);
        push_bytes(&mut out, kind_bytes);
        let v = self.version;
        out.push((v >> 24u32) as u8);
        out.push((v >> 16u32) as u8);
        out.push((v >> 8u32) as u8);
        out.push(v as u8);
        assert(out@ =~= legal_doc_key_bytes(self.kind@, self.version));
        out
    }

    /// Decodes a key from its byte encoding.
    pub fn from_bytes(b: &[u8]) -> (key: LegalDocKey)
        requires
            legal_doc_key_decodable(b@),
        ensures
            key@ == legal_doc_key_decoded(b@),
    {
        let kind_len = b[0] as usize;
        let kind_bytes = copy_bytes(b, 1, kind_len);
        let kind = match string_from_utf8(kind_bytes) {
            Some(s) => s,
            None => {
                assert(false);
                String::new()
            },
        };
        let version = ((b[1 + kind_len] as u32) << 24u32) | ((b[2 + kind_len] as u32) << 16u32)
            | ((b[3 + kind_len] as u32) << 8u32) | (b[4 + kind_len] as u32);
        LegalDocKey { kind, version }
    }
}

impl OrderedKey for LegalDocKey {
    /// By kind, then by version.
    open spec fn key_lt(a: (Seq<char>, u32), b: (Seq<char>, u32)) -> bool {
        str_lt(a.0, b.0) || (a.0 == b.0 && a.1 < b.1)
    }

    proof fn lemma_key_lt_irreflexive(a: (Seq<char>, u32)) {
        lemma_bytes_lt_irreflexive(encode_utf8(a.0));
    }

    proof fn lemma_key_lt_transitive(a: (Seq<char>, u32), b: (Seq<char>, u32), c: (Seq<char>, u32)) {
        if str_lt(a.0, b.0) && str_lt(b.0, c.0) {
            lemma_bytes_lt_transitive(encode_utf8(a.0), encode_utf8(b.0), encode_utf8(c.0));
        }
    }

    proof fn lemma_key_lt_total(a: (Seq<char>, u32), b: (Seq<char>, u32)) {
        lemma_str_lt_total(a.0, b.0);
    }

    fn compare_key(&self, other: &LegalDocKey) -> (c: KeyCmp) {
        match compare_str(self.kind.as_str(), other.kind.as_str()) {
            KeyCmp::Less => KeyCmp::Less,
            KeyCmp::Greater => KeyCmp::Greater,
            KeyCmp::Equal => {
                if self.version < other.version {
                    KeyCmp::Less
                } else if self.version == other.version {
                    KeyCmp::Equal
                } else {
                    KeyCmp::Greater
                }
            },
        }
    }

    fn copy_key(&self) -> (r: LegalDocKey) {
        LegalDocKey { kind: self.kind.clone(), version: self.version }
    }
}

} // verus!
