//! Principals: the up-to-29-byte identities of the Internet Computer.
use vstd::prelude::*;
use vstd::std_specs::cmp::PartialEqSpecImpl;
use vstd::utf8::{decode_utf8, encode_utf8, encode_utf8_decode_utf8, encode_utf8_valid_utf8, valid_utf8};
use crate::text::{copy_bytes, push_bytes, string_from_utf8};

verus! {

/// Longest principal, in bytes.
pub const MAX_PRINCIPAL_LEN: usize = 29;

/// The tag byte that makes up the anonymous principal.
pub const ANONYMOUS_TAG: u8 = 4;

/// An Internet Computer principal: `len` significant bytes, zero padded.
/// Ordered first by length, then by bytes, like the IC's own principal type.
#[derive(Clone, Copy, Debug, Eq, PartialOrd, Ord, Hash)]
pub struct Principal {
    len: u8,
    bytes: [u8; 29],
}

impl View for Principal {
    type V = Seq<u8>;

    /// The significant bytes.
    closed spec fn view(&self) -> Seq<u8> {
        self.bytes@.subrange(0, self.len as int)
    }
}

impl Principal {
    #[verifier::type_invariant]
    spec fn inv(self) -> bool {
        &&& self.len <= 29
        &&& forall|i: int| self.len <= i < 29 ==> #[trigger] self.bytes@[i] == 0
    }

    /// Builds a principal from its bytes.
    pub fn from_slice(slice: &[u8]) -> (p: Principal)
        requires
            slice@.len() <= MAX_PRINCIPAL_LEN,
        ensures
            p@ == slice@,
    {
        let mut bytes = [0u8; 29];
        let n = slice.len();
        let mut i: usize = 0;
        while i < n
            invariant
                n == slice@.len(),
                n <= 29,
                i <= n,
                forall|j: int| 0 <= j < i ==> bytes@[j] == slice@[j],
                forall|j: int| n <= j < 29 ==> bytes@[j] == 0,
            decreases n - i,
        {
            bytes[i] = slice[i];
            i = i + 1;
        }
        let p = Principal { len: n as u8, bytes };
        assert(p@ =~= slice@);
        p
    }

    /// The anonymous principal: the single byte 4.
    pub fn anonymous() -> (p: Principal)
        ensures
            p@ == seq![ANONYMOUS_TAG],
    {
        let mut bytes = [0u8; 29];
        bytes[0] = ANONYMOUS_TAG;
        let p = Principal { len: 1, bytes };
        assert(p@ =~= seq![ANONYMOUS_TAG]);
        p
    }

    /// Number of significant bytes.
    pub fn len(&self) -> (n: usize)
        ensures
            n == self@.len(),
            n <= MAX_PRINCIPAL_LEN,
    {
        proof { use_type_invariant(self); }
        self.len as usize
    }

    /// The significant bytes.
    pub fn as_slice(&self) -> (s: &[u8])
        ensures
            s@ == self@,
            s@.len() <= MAX_PRINCIPAL_LEN,
    {
        proof { use_type_invariant(self); }
        vstd::slice::slice_subrange(vstd::array::array_as_slice(&self.bytes), 0, self.len as usize)
    }

    /// Whether this is the anonymous principal.
    pub open spec fn spec_is_anonymous(self) -> bool {
        self@ == seq![ANONYMOUS_TAG]
    }

    /// Whether this is the anonymous principal.
    pub fn is_anonymous(&self) -> (b: bool)
        ensures
            b == self.spec_is_anonymous(),
    {
        let a = Principal::anonymous();
        self.same(&a)
    }

    /// Byte-wise equality of the significant bytes.
    pub fn same(&self, other: &Principal) -> (b: bool)
        ensures
            b == (self@ == other@),
    {
        proof {
            use_type_invariant(self);
            use_type_invariant(other);
        }
        if self.len != other.len {
            assert(self@.len() != other@.len());
            return false;
        }
        let n = self.len as usize;
        let mut i: usize = 0;
        while i < n
            invariant
                n == self.len,
                n == other.len,
                n <= 29,
                i <= n,
                forall|j: int| 0 <= j < i ==> self.bytes@[j] == other.bytes@[j],
            decreases n - i,
        {
            if self.bytes[i] != other.bytes[i] {
                assert(self@[i as int] != other@[i as int]);
                return false;
            }
            i = i + 1;
        }
        assert(self@ =~= other@);
        true
    }
}

// ---------------------------------------------------------------------------
// Keys made of a principal and a text: `principal length (1 byte) |
// principal bytes | text (UTF-8)`. The length byte first keeps all keys of
// one principal together.
// ---------------------------------------------------------------------------

/// The byte encoding of the key (owner, text).
pub open spec fn principal_text_bytes(owner: Seq<u8>, text: Seq<char>) -> Seq<u8> {
    seq![owner.len() as u8] + owner + encode_utf8(text)
}

/// Bytes that decode to a key: a length byte of at most 29, that many
/// principal bytes, then valid UTF-8 to the end.
pub open spec fn principal_text_decodable(b: Seq<u8>) -> bool {
    &&& b.len() >= 1
    &&& b[0] <= MAX_PRINCIPAL_LEN
    &&& 1 + b[0] <= b.len()
    &&& valid_utf8(b.subrange(1 + b[0], b.len() as int))
}

/// The key that decodable bytes stand for.
pub open spec fn principal_text_decoded(b: Seq<u8>) -> (Seq<u8>, Seq<char>) {
    (b.subrange(1, 1 + b[0]), decode_utf8(b.subrange(1 + b[0], b.len() as int)))
}

/// Encoding a key and decoding the bytes gives the key back.
pub proof fn lemma_principal_text_roundtrip(owner: Seq<u8>, text: Seq<char>)
    requires
        owner.len() <= MAX_PRINCIPAL_LEN,
    ensures
        principal_text_decodable(principal_text_bytes(owner, text)),
        principal_text_decoded(principal_text_bytes(owner, text)) == (owner, text),
{
    let b = principal_text_bytes(owner, text);
    let k = owner.len() as int;
    assert(b[0] == k);
    assert(b.subrange(1, 1 + k) =~= owner);
    assert(b.subrange(1 + k, b.len() as int) =~= encode_utf8(text));
    encode_utf8_valid_utf8(text);
    encode_utf8_decode_utf8(text);
}

/// Encodes the key (owner, text).
pub fn encode_principal_text(owner: &Principal, text: &str) -> (out: Vec<u8>)
    ensures
        out@ == principal_text_bytes(owner@, text@),
{
    let p = owner.as_slice();
    let mut out: Vec<u8> = Vec::new();
    out.push(p.len() as u8);
    push_bytes(&mut out, p);
    push_bytes(&mut out, text.as_bytes());
    assert(out@ =~= principal_text_bytes(owner@, text@));
    out
}

/// Decodes the key (owner, text).
pub fn decode_principal_text(b: &[u8]) -> (r: (Principal, String))
    requires
        principal_text_decodable(b@),
    ensures
        (r.0@, r.1@) == principal_text_decoded(b@),
{
    let plen = b[0] as usize;
    let owner_bytes = copy_bytes(b, 1, plen);
    let owner = Principal::from_slice(owner_bytes.as_slice());
    let n = b.len();
    let text_bytes = copy_bytes(b, 1 + plen, n - 1 - plen);
    assert(text_bytes@ =~= b@.subrange(1 + plen, n as int));
    let text = match string_from_utf8(text_bytes) {
        Some(t) => t,
        None => {
            assert(false);
            String::new()
        },
    };
    (owner, text)
}

impl PartialEq for Principal {
    fn eq(&self, other: &Principal) -> (b: bool) {
        self.same(other)
    }
}

impl PartialEqSpecImpl for Principal {
    open spec fn obeys_eq_spec() -> bool {
        true
    }

    open spec fn eq_spec(&self, other: &Principal) -> bool {
        self@ == other@
    }
}

} // verus!
