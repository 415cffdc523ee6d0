//! Ordered keys and the sorted key-value store that every canister keeps
//! its records in. Entries are held in ascending key order, so walking a
//! store visits keys from smallest to largest.
//!
//! A stable-memory map (`ic_stable_structures::StableBTreeMap`) can hold
//! only keys and values that implement its `Storable` trait. The records
//! kept here are this library's own verified types: they cannot implement
//! that outside trait here, and a crate that uses the library cannot
//! implement it for them either. So the records live in this store, whose
//! contents and order are proved, and the canisters save them to stable
//! memory across upgrades through each state's `restore` constructor.
use vstd::prelude::*;
use vstd::utf8::*;
use crate::principal::{principal_text_bytes, Principal, MAX_PRINCIPAL_LEN};

verus! {

/// Outcome of comparing two keys.
#[derive(Clone, Copy, Debug, PartialEq, Eq, Structural)]
pub enum KeyCmp {
    Less,
    Equal,
    Greater,
}

/// Keys with a strict total order on their views.
pub trait OrderedKey: View + Sized {
    spec fn key_lt(a: Self::V, b: Self::V) -> bool;

    proof fn lemma_key_lt_irreflexive(a: Self::V)
        ensures
            !Self::key_lt(a, a),
    ;

    proof fn lemma_key_lt_transitive(a: Self::V, b: Self::V, c: Self::V)
        requires
            Self::key_lt(a, b),
            Self::key_lt(b, c),
        ensures
            Self::key_lt(a, c),
    ;

    proof fn lemma_key_lt_total(a: Self::V, b: Self::V)
        ensures
            a == b || Self::key_lt(a, b) || Self::key_lt(b, a),
    ;

    fn compare_key(&self, other: &Self) -> (c: KeyCmp)
        ensures
            c == KeyCmp::Less ==> Self::key_lt(self@, other@),
            c == KeyCmp::Equal ==> self@ == other@,
            c == KeyCmp::Greater ==> Self::key_lt(other@, self@),
    ;

    fn copy_key(&self) -> (r: Self)
        ensures
            r@ == self@,
    ;
}

// ---------------------------------------------------------------------------
// Lexicographic order on byte strings
// ---------------------------------------------------------------------------

/// Lexicographic "less than" on byte strings (a proper prefix is smaller).
pub open spec fn bytes_lt(a: Seq<u8>, b: Seq<u8>) -> bool
    decreases a.len(),
{
    if a.len() == 0 {
        b.len() > 0
    } else if b.len() == 0 {
        false
    } else if a[0] < b[0] {
        true
    } else if a[0] > b[0] {
        false
    } else {
        bytes_lt(a.drop_first(), b.drop_first())
    }
}

pub proof fn lemma_bytes_lt_irreflexive(a: Seq<u8>)
    ensures
        !bytes_lt(a, a),
    decreases a.len(),
{
    if a.len() > 0 {
        lemma_bytes_lt_irreflexive(a.drop_first());
    }
}

pub proof fn lemma_bytes_lt_transitive(a: Seq<u8>, b: Seq<u8>, c: Seq<u8>)
    requires
        bytes_lt(a, b),
        bytes_lt(b, c),
    ensures
        bytes_lt(a, c),
    decreases a.len(),
{
    if a.len() > 0 && b.len() > 0 && c.len() > 0 && a[0] == b[0] && b[0] == c[0] {
        lemma_bytes_lt_transitive(a.drop_first(), b.drop_first(), c.drop_first());
    }
}

pub proof fn lemma_bytes_lt_total(a: Seq<u8>, b: Seq<u8>)
    ensures
        a == b || bytes_lt(a, b) || bytes_lt(b, a),
    decreases a.len(),
{
    if a.len() == 0 && b.len() == 0 {
        assert(a =~= b);
    } else if a.len() > 0 && b.len() > 0 && a[0] == b[0] {
        lemma_bytes_lt_total(a.drop_first(), b.drop_first());
        if a.drop_first() == b.drop_first() {
            assert(a =~= seq![a[0]] + a.drop_first());
            assert(b =~= seq![b[0]] + b.drop_first());
        }
    }
}

/// A common prefix leaves the order of two byte strings as it was.
pub proof fn lemma_bytes_lt_common_prefix(p: Seq<u8>, x: Seq<u8>, y: Seq<u8>)
    ensures
        bytes_lt(p + x, p + y) == bytes_lt(x, y),
    decreases p.len(),
{
    if p.len() == 0 {
        assert(p + x =~= x);
        assert(p + y =~= y);
    } else {
        assert((p + x).drop_first() =~= p.drop_first() + x);
        assert((p + y).drop_first() =~= p.drop_first() + y);
        lemma_bytes_lt_common_prefix(p.drop_first(), x, y);
    }
}

/// Two different byte strings of one length are ordered as they are,
/// whatever follows each of them.
pub proof fn lemma_bytes_lt_equal_length_heads(a: Seq<u8>, b: Seq<u8>, x: Seq<u8>, y: Seq<u8>)
    requires
        a.len() == b.len(),
        a != b,
    ensures
        bytes_lt(a + x, b + y) == bytes_lt(a, b),
    decreases a.len(),
{
    if a.len() == 0 {
        assert(a =~= b);
    } else {
        assert((a + x)[0] == a[0]);
        assert((b + y)[0] == b[0]);
        if a[0] == b[0] {
            assert((a + x).drop_first() =~= a.drop_first() + x);
            assert((b + y).drop_first() =~= b.drop_first() + y);
            if a.drop_first() == b.drop_first() {
                assert(a =~= seq![a[0]] + a.drop_first());
                assert(b =~= seq![b[0]] + b.drop_first());
            }
            lemma_bytes_lt_equal_length_heads(a.drop_first(), b.drop_first(), x, y);
        }
    }
}

/// Compares two byte strings lexicographically.
pub fn compare_bytes(a: &[u8], b: &[u8]) -> (c: KeyCmp)
    ensures
        c == KeyCmp::Less ==> bytes_lt(a@, b@),
        c == KeyCmp::Equal ==> a@ == b@,
        c == KeyCmp::Greater ==> bytes_lt(b@, a@),
{
    let n = a.len();
    let m = b.len();
    let mut i: usize = 0;
    assert(a@.skip(0) =~= a@);
    assert(b@.skip(0) =~= b@);
    while i < n && i < m
        invariant
            n == a@.len(),
            m == b@.len(),
            i <= n,
            i <= m,
            a@.subrange(0, i as int) == b@.subrange(0, i as int),
            bytes_lt(a@, b@) == bytes_lt(a@.skip(i as int), b@.skip(i as int)),
            bytes_lt(b@, a@) == bytes_lt(b@.skip(i as int), a@.skip(i as int)),
        decreases n - i,
    {
        let x = a[i];
        let y = b[i];
        if x < y {
            return KeyCmp::Less;
        }
        if x > y {
            return KeyCmp::Greater;
        }
        assert(a@.skip(i as int).drop_first() =~= a@.skip(i + 1));
        assert(b@.skip(i as int).drop_first() =~= b@.skip(i + 1));
        assert(a@.subrange(0, i + 1) =~= a@.subrange(0, i as int).push(x));
        assert(b@.subrange(0, i + 1) =~= b@.subrange(0, i as int).push(y));
        i = i + 1;
    }
    if n < m {
        KeyCmp::Less
    } else if m < n {
        KeyCmp::Greater
    } else {
        assert(a@ =~= a@.subrange(0, i as int));
        assert(b@ =~= b@.subrange(0, i as int));
        KeyCmp::Equal
    }
}

// ---------------------------------------------------------------------------
// Key orders of the primitive key types
// ---------------------------------------------------------------------------

impl OrderedKey for u8 {
    open spec fn key_lt(a: u8, b: u8) -> bool {
        a < b
    }

    proof fn lemma_key_lt_irreflexive(a: u8) {
    }

    proof fn lemma_key_lt_transitive(a: u8, b: u8, c: u8) {
    }

    proof fn lemma_key_lt_total(a: u8, b: u8) {
    }

    fn compare_key(&self, other: &u8) -> (c: KeyCmp) {
        if *self < *other {
            KeyCmp::Less
        } else if *self == *other {
            KeyCmp::Equal
        } else {
            KeyCmp::Greater
        }
    }

    fn copy_key(&self) -> (r: u8) {
        *self
    }
}

impl OrderedKey for u64 {
    open spec fn key_lt(a: u64, b: u64) -> bool {
        a < b
    }

    proof fn lemma_key_lt_irreflexive(a: u64) {
    }

    proof fn lemma_key_lt_transitive(a: u64, b: u64, c: u64) {
    }

    proof fn lemma_key_lt_total(a: u64, b: u64) {
    }

    fn compare_key(&self, other: &u64) -> (c: KeyCmp) {
        if *self < *other {
            KeyCmp::Less
        } else if *self == *other {
            KeyCmp::Equal
        } else {
            KeyCmp::Greater
        }
    }

    fn copy_key(&self) -> (r: u64) {
        *self
    }
}

/// Order of principals: shorter first, then byte-wise.
pub open spec fn principal_lt(a: Seq<u8>, b: Seq<u8>) -> bool {
    a.len() < b.len() || (a.len() == b.len() && bytes_lt(a, b))
}

pub proof fn lemma_principal_lt_transitive(a: Seq<u8>, b: Seq<u8>, c: Seq<u8>)
    requires
        principal_lt(a, b),
        principal_lt(b, c),
    ensures
        principal_lt(a, c),
{
    if a.len() == b.len() && b.len() == c.len() {
        lemma_bytes_lt_transitive(a, b, c);
    }
}

impl OrderedKey for Principal {
    open spec fn key_lt(a: Seq<u8>, b: Seq<u8>) -> bool {
        a.len() < b.len() || (a.len() == b.len() && bytes_lt(a, b))
    }

    proof fn lemma_key_lt_irreflexive(a: Seq<u8>) {
        lemma_bytes_lt_irreflexive(a);
    }

    proof fn lemma_key_lt_transitive(a: Seq<u8>, b: Seq<u8>, c: Seq<u8>) {
        lemma_principal_lt_transitive(a, b, c);
    }

    proof fn lemma_key_lt_total(a: Seq<u8>, b: Seq<u8>) {
        lemma_bytes_lt_total(a, b);
    }

    fn compare_key(&self, other: &Principal) -> (c: KeyCmp) {
        let n = self.len();
        let m = other.len();
        assert(<Principal as OrderedKey>::key_lt(self@, other@) == principal_lt(self@, other@));
        if n < m {
            assert(principal_lt(self@, other@));
            KeyCmp::Less
        } else if m < n {
            assert(principal_lt(other@, self@));
            KeyCmp::Greater
        } else {
            let c = compare_bytes(self.as_slice(), other.as_slice());
            assert(c == KeyCmp::Less ==> principal_lt(self@, other@));
            assert(c == KeyCmp::Greater ==> principal_lt(other@, self@));
            c
        }
    }

    fn copy_key(&self) -> (r: Principal) {
        *self
    }
}

/// Order of strings: byte-wise on their UTF-8 encodings.
pub open spec fn str_lt(a: Seq<char>, b: Seq<char>) -> bool {
    bytes_lt(encode_utf8(a), encode_utf8(b))
}

pub proof fn lemma_str_lt_total(a: Seq<char>, b: Seq<char>)
    ensures
        a == b || str_lt(a, b) || str_lt(b, a),
{
    lemma_bytes_lt_total(encode_utf8(a), encode_utf8(b));
    if encode_utf8(a) == encode_utf8(b) {
        encode_utf8_decode_utf8(a);
        encode_utf8_decode_utf8(b);
    }
}

/// Compares two strings byte-wise.
pub fn compare_str(a: &str, b: &str) -> (c: KeyCmp)
    ensures
        c == KeyCmp::Less ==> str_lt(a@, b@),
        c == KeyCmp::Equal ==> a@ == b@,
        c == KeyCmp::Greater ==> str_lt(b@, a@),
{
    let c = compare_bytes(a.as_bytes(), b.as_bytes());
    proof {
        if c == KeyCmp::Equal {
            encode_utf8_decode_utf8(a@);
            encode_utf8_decode_utf8(b@);
        }
    }
    c
}

impl OrderedKey for String {
    open spec fn key_lt(a: Seq<char>, b: Seq<char>) -> bool {
        str_lt(a, b)
    }

    proof fn lemma_key_lt_irreflexive(a: Seq<char>) {
        lemma_bytes_lt_irreflexive(encode_utf8(a));
    }

    proof fn lemma_key_lt_transitive(a: Seq<char>, b: Seq<char>, c: Seq<char>) {
        lemma_bytes_lt_transitive(encode_utf8(a), encode_utf8(b), encode_utf8(c));
    }

    proof fn lemma_key_lt_total(a: Seq<char>, b: Seq<char>) {
        lemma_str_lt_total(a, b);
    }

    fn compare_key(&self, other: &String) -> (c: KeyCmp) {
        compare_str(self.as_str(), other.as_str())
    }

    fn copy_key(&self) -> (r: String) {
        self.clone()
    }
}

/// Order of (principal, text) keys: by principal, then by text.
pub open spec fn principal_text_lt(a: (Seq<u8>, Seq<char>), b: (Seq<u8>, Seq<char>)) -> bool {
    principal_lt(a.0, b.0) || (a.0 == b.0 && str_lt(a.1, b.1))
}

pub proof fn lemma_principal_text_lt_irreflexive(a: (Seq<u8>, Seq<char>))
    ensures
        !principal_text_lt(a, a),
{
    lemma_bytes_lt_irreflexive(a.0);
    lemma_bytes_lt_irreflexive(encode_utf8(a.1));
}

pub proof fn lemma_principal_text_lt_transitive(
    a: (Seq<u8>, Seq<char>),
    b: (Seq<u8>, Seq<char>),
    c: (Seq<u8>, Seq<char>),
)
    requires
        principal_text_lt(a, b),
        principal_text_lt(b, c),
    ensures
        principal_text_lt(a, c),
{
    if principal_lt(a.0, b.0) && principal_lt(b.0, c.0) {
        lemma_principal_lt_transitive(a.0, b.0, c.0);
    }
    lemma_bytes_lt_irreflexive(a.0);
    lemma_bytes_lt_irreflexive(b.0);
    if a.0 == b.0 && b.0 == c.0 {
        lemma_bytes_lt_transitive(encode_utf8(a.1), encode_utf8(b.1), encode_utf8(c.1));
    }
}

pub proof fn lemma_principal_text_lt_total(a: (Seq<u8>, Seq<char>), b: (Seq<u8>, Seq<char>))
    ensures
        a == b || principal_text_lt(a, b) || principal_text_lt(b, a),
{
    lemma_bytes_lt_total(a.0, b.0);
    lemma_str_lt_total(a.1, b.1);
}

/// In the order of (principal, text) keys, the keys of one principal are
/// contiguous: nothing of another principal sorts between two of them.
pub proof fn lemma_principal_keys_contiguous(
    a: (Seq<u8>, Seq<char>),
    b: (Seq<u8>, Seq<char>),
    c: (Seq<u8>, Seq<char>),
)
    requires
        principal_text_lt(a, b),
        principal_text_lt(b, c),
        a.0 == c.0,
    ensures
        b.0 == a.0,
{
    lemma_bytes_lt_irreflexive(a.0);
    if b.0 != a.0 {
        if principal_lt(b.0, c.0) {
            lemma_principal_lt_transitive(a.0, b.0, c.0);
        }
    }
}

/// The bytes of encoded (owner, text) keys sort in the key order: by
/// owner (shorter first, then byte-wise), then by text. With the lemma
/// above, a byte-ordered store keeps the keys of one owner together.
pub proof fn lemma_principal_text_bytes_order(o1: Seq<u8>, t1: Seq<char>, o2: Seq<u8>, t2: Seq<char>)
    requires
        o1.len() <= MAX_PRINCIPAL_LEN,
        o2.len() <= MAX_PRINCIPAL_LEN,
    ensures
        bytes_lt(principal_text_bytes(o1, t1), principal_text_bytes(o2, t2)) == principal_text_lt(
            (o1, t1),
            (o2, t2),
        ),
{
    let b1 = principal_text_bytes(o1, t1);
    let b2 = principal_text_bytes(o2, t2);
    assert(b1[0] == o1.len());
    assert(b2[0] == o2.len());
    if o1.len() == o2.len() {
        assert(b1.drop_first() =~= o1 + encode_utf8(t1));
        assert(b2.drop_first() =~= o2 + encode_utf8(t2));
        if o1 == o2 {
            lemma_bytes_lt_irreflexive(o1);
            lemma_bytes_lt_common_prefix(o1, encode_utf8(t1), encode_utf8(t2));
        } else {
            lemma_bytes_lt_equal_length_heads(o1, o2, encode_utf8(t1), encode_utf8(t2));
        }
    }
}

/// Compares the keys (o1, t1) and (o2, t2).
pub fn compare_principal_text(o1: &Principal, t1: &str, o2: &Principal, t2: &str) -> (c: KeyCmp)
    ensures
        c == KeyCmp::Less ==> principal_text_lt((o1@, t1@), (o2@, t2@)),
        c == KeyCmp::Equal ==> (o1@, t1@) == (o2@, t2@),
        c == KeyCmp::Greater ==> principal_text_lt((o2@, t2@), (o1@, t1@)),
{
    match o1.compare_key(o2) {
        KeyCmp::Less => KeyCmp::Less,
        KeyCmp::Greater => KeyCmp::Greater,
        KeyCmp::Equal => compare_str(t1, t2),
    }
}

// ---------------------------------------------------------------------------
// The sorted store
// ---------------------------------------------------------------------------

/// Keys strictly ascend along `s`.
pub open spec fn seq_sorted<K: OrderedKey, V>(s: Seq<(K, V)>) -> bool {
    forall|i: int, j: int|
        0 <= i < j < s.len() ==> K::key_lt(#[trigger] s[i].0@, #[trigger] s[j].0@)
}

/// Some entry of `s` has key `k`.
pub open spec fn seq_has_key<K: OrderedKey, V>(s: Seq<(K, V)>, k: K::V) -> bool {
    exists|i: int| 0 <= i < s.len() && s[i].0@ == k
}

/// An index of `s` whose key is `k`.
pub open spec fn seq_key_index<K: OrderedKey, V>(s: Seq<(K, V)>, k: K::V) -> int {
    choose|i: int| 0 <= i < s.len() && s[i].0@ == k
}

/// The map that an entry sequence stands for.
pub open spec fn seq_map<K: OrderedKey, V>(s: Seq<(K, V)>) -> Map<K::V, V> {
    Map::new(|k: K::V| seq_has_key(s, k), |k: K::V| s[seq_key_index(s, k)].1)
}

proof fn lemma_seq_distinct<K: OrderedKey, V>(s: Seq<(K, V)>)
    requires
        seq_sorted(s),
    ensures
        forall|i: int, j: int|
            0 <= i < s.len() && 0 <= j < s.len() && i != j ==> s[i].0@ != s[j].0@,
{
    assert forall|i: int, j: int| 0 <= i < s.len() && 0 <= j < s.len() && i != j implies s[i].0@
        != s[j].0@ by {
        if i < j {
            K::lemma_key_lt_irreflexive(s[i].0@);
        } else {
            K::lemma_key_lt_irreflexive(s[j].0@);
        }
    }
}

proof fn lemma_seq_at<K: OrderedKey, V>(s: Seq<(K, V)>, i: int)
    requires
        seq_sorted(s),
        0 <= i < s.len(),
    ensures
        seq_map(s).contains_key(s[i].0@),
        seq_map(s)[s[i].0@] == s[i].1,
{
    lemma_seq_distinct(s);
    assert(seq_has_key(s, s[i].0@));
}

proof fn lemma_seq_set<K: OrderedKey, V>(old_s: Seq<(K, V)>, new_s: Seq<(K, V)>, i: int)
    requires
        seq_sorted(old_s),
        seq_sorted(new_s),
        0 <= i < old_s.len(),
        new_s == old_s.update(i, new_s[i]),
        new_s[i].0@ == old_s[i].0@,
    ensures
        seq_map(new_s) == seq_map(old_s).insert(new_s[i].0@, new_s[i].1),
{
    let kv = new_s[i].0@;
    let target = seq_map(old_s).insert(kv, new_s[i].1);
    assert forall|y: K::V| #[trigger] seq_map(new_s).contains_key(y) <==> target.contains_key(y) by {
        if seq_has_key(new_s, y) {
            let j = seq_key_index(new_s, y);
            if j != i {
                assert(old_s[j].0@ == y);
            }
        }
        if seq_has_key(old_s, y) {
            let j = seq_key_index(old_s, y);
            assert(new_s[j].0@ == y);
        }
        if y == kv {
            assert(new_s[i].0@ == y);
        }
    }
    assert forall|y: K::V| #[trigger] seq_map(new_s).contains_key(y) implies seq_map(new_s)[y]
        == target[y] by {
        let j = seq_key_index(new_s, y);
        lemma_seq_at(new_s, j);
        lemma_seq_distinct(new_s);
        if j != i {
            lemma_seq_at(old_s, j);
        }
    }
    assert(seq_map(new_s) =~= target);
}

proof fn lemma_seq_insert<K: OrderedKey, V>(old_s: Seq<(K, V)>, new_s: Seq<(K, V)>, i: int)
    requires
        seq_sorted(old_s),
        seq_sorted(new_s),
        0 <= i <= old_s.len(),
        new_s == old_s.insert(i, new_s[i]),
    ensures
        seq_map(new_s) == seq_map(old_s).insert(new_s[i].0@, new_s[i].1),
{
    let kv = new_s[i].0@;
    let target = seq_map(old_s).insert(kv, new_s[i].1);
    assert forall|y: K::V| #[trigger] seq_map(new_s).contains_key(y) <==> target.contains_key(y) by {
        if seq_has_key(new_s, y) {
            let j = seq_key_index(new_s, y);
            if j < i {
                assert(old_s[j].0@ == y);
            } else if j > i {
                assert(old_s[j - 1].0@ == y);
            }
        }
        if seq_has_key(old_s, y) {
            let j = seq_key_index(old_s, y);
            if j < i {
                assert(new_s[j].0@ == y);
            } else {
                assert(new_s[j + 1].0@ == y);
            }
        }
        if y == kv {
            assert(new_s[i].0@ == y);
        }
    }
    assert forall|y: K::V| #[trigger] seq_map(new_s).contains_key(y) implies seq_map(new_s)[y]
        == target[y] by {
        let j = seq_key_index(new_s, y);
        lemma_seq_at(new_s, j);
        lemma_seq_distinct(new_s);
        if j < i {
            lemma_seq_at(old_s, j);
            lemma_seq_at(new_s, i);
        } else if j > i {
            lemma_seq_at(old_s, j - 1);
            lemma_seq_at(new_s, i);
        }
    }
    assert(seq_map(new_s) =~= target);
}

proof fn lemma_seq_remove<K: OrderedKey, V>(old_s: Seq<(K, V)>, new_s: Seq<(K, V)>, i: int)
    requires
        seq_sorted(old_s),
        0 <= i < old_s.len(),
        new_s == old_s.remove(i),
    ensures
        seq_sorted(new_s),
        seq_map(new_s) == seq_map(old_s).remove(old_s[i].0@),
{
    let kv = old_s[i].0@;
    let target = seq_map(old_s).remove(kv);
    lemma_seq_distinct(old_s);
    assert forall|a: int, b: int| 0 <= a < b < new_s.len() implies K::key_lt(
        #[trigger] new_s[a].0@,
        #[trigger] new_s[b].0@,
    ) by {
        let oa = if a < i { a } else { a + 1 };
        let ob = if b < i { b } else { b + 1 };
        assert(new_s[a] == old_s[oa]);
        assert(new_s[b] == old_s[ob]);
    }
    assert forall|y: K::V| #[trigger] seq_map(new_s).contains_key(y) <==> target.contains_key(y) by {
        if seq_has_key(new_s, y) {
            let j = seq_key_index(new_s, y);
            if j < i {
                assert(old_s[j].0@ == y);
            } else {
                assert(old_s[j + 1].0@ == y);
            }
        }
        if seq_has_key(old_s, y) && y != kv {
            let j = seq_key_index(old_s, y);
            if j < i {
                assert(new_s[j].0@ == y);
            } else {
                assert(new_s[j - 1].0@ == y);
            }
        }
    }
    assert forall|y: K::V| #[trigger] seq_map(new_s).contains_key(y) implies seq_map(new_s)[y]
        == target[y] by {
        let j = seq_key_index(new_s, y);
        lemma_seq_at(new_s, j);
        if j < i {
            lemma_seq_at(old_s, j);
        } else {
            lemma_seq_at(old_s, j + 1);
        }
    }
    assert(seq_map(new_s) =~= target);
}

/// A key-value store whose entries are kept in strictly ascending key order.
pub struct SortedMap<K, V> {
    entries: Vec<(K, V)>,
}

impl<K: OrderedKey, V> View for SortedMap<K, V> {
    type V = Map<K::V, V>;

    /// The stored key-value pairs, keys taken by their views.
    closed spec fn view(&self) -> Map<K::V, V> {
        seq_map(self.entries@)
    }
}

impl<K: OrderedKey, V> SortedMap<K, V> {
    /// Keys strictly ascend along the entries.
    pub closed spec fn wf(self) -> bool {
        seq_sorted(self.entries@)
    }

    /// The entries in ascending key order, keys taken by their views.
    pub closed spec fn ordered(self) -> Seq<(K::V, V)> {
        self.entries@.map_values(|e: (K, V)| (e.0@, e.1))
    }

    /// What the ordered entries say of the store: keys ascend, each entry
    /// is in the store, every stored key has its entry, and there are as
    /// many entries as keys.
    pub proof fn lemma_ordered(self)
        requires
            self.wf(),
        ensures
            self@.dom().finite(),
            self.ordered().len() == self@.len(),
            forall|i: int, j: int|
                0 <= i < j < self.ordered().len() ==> K::key_lt(
                    #[trigger] self.ordered()[i].0,
                    #[trigger] self.ordered()[j].0,
                ),
            forall|i: int|
                0 <= i < self.ordered().len() ==> self@.contains_key(#[trigger] self.ordered()[i].0)
                    && self@[self.ordered()[i].0] == self.ordered()[i].1,
            forall|k: K::V|
                #[trigger] self@.contains_key(k) ==> exists|i: int|
                    0 <= i < self.ordered().len() && self.ordered()[i].0 == k,
    {
        let s = self.entries@;
        lemma_seq_distinct(s);
        let keys = s.map_values(|e: (K, V)| e.0@);
        assert(self@.dom() =~= keys.to_set()) by {
            assert forall|k: K::V| self@.dom().contains(k) implies keys.to_set().contains(k) by {
                let i = seq_key_index(s, k);
                assert(keys[i] == k);
            }
            assert forall|k: K::V| keys.to_set().contains(k) implies self@.dom().contains(k) by {
                let i = choose|i: int| 0 <= i < keys.len() && keys[i] == k;
                assert(s[i].0@ == k);
            }
        }
        assert(keys.no_duplicates());
        keys.unique_seq_to_set();
        broadcast use vstd::seq_lib::seq_to_set_is_finite;
        assert forall|i: int|
            0 <= i < self.ordered().len() implies self@.contains_key(
                #[trigger] self.ordered()[i].0,
            ) && self@[self.ordered()[i].0] == self.ordered()[i].1 by {
            lemma_seq_at(s, i);
        }
        assert forall|k: K::V| #[trigger] self@.contains_key(k) implies exists|i: int|
            0 <= i < self.ordered().len() && self.ordered()[i].0 == k by {
            let i = seq_key_index(s, k);
            assert(self.ordered()[i].0 == k);
        }
    }

    /// An empty store.
    pub fn new() -> (m: Self)
        ensures
            m.wf(),
            m@ == Map::<K::V, V>::empty(),
            m.ordered().len() == 0,
    {
        let m = SortedMap { entries: Vec::new() };
        assert(m@ =~= Map::<K::V, V>::empty());
        m
    }

    /// Number of stored entries.
    pub fn len(&self) -> (n: usize)
        requires
            self.wf(),
        ensures
            n == self@.len(),
            n == self.ordered().len(),
    {
        proof {
            self.lemma_ordered();
        }
        self.entries.len()
    }

    /// Index of the entry with key `k`, if any.
    fn find(&self, k: &K) -> (r: Option<usize>)
        requires
            self.wf(),
        ensures
            match r {
                Some(i) => i < self.entries@.len() && self.entries@[i as int].0@ == k@,
                None => !self@.contains_key(k@),
            },
    {
        let n = self.entries.len();
        let mut i: usize = 0;
        while i < n
            invariant
                n == self.entries@.len(),
                i <= n,
                forall|j: int| 0 <= j < i ==> self.entries@[j].0@ != k@,
            decreases n - i,
        {
            if self.entries[i].0.compare_key(k) == KeyCmp::Equal {
                return Some(i);
            }
            proof {
                K::lemma_key_lt_irreflexive(k@);
            }
            i = i + 1;
        }
        None
    }

    /// Whether `k` is stored.
    pub fn contains_key(&self, k: &K) -> (b: bool)
        requires
            self.wf(),
        ensures
            b == self@.contains_key(k@),
    {
        match self.find(k) {
            Some(i) => {
                proof {
                    lemma_seq_at(self.entries@, i as int);
                }
                true
            },
            None => false,
        }
    }

    /// The value stored under `k`, if any.
    pub fn get(&self, k: &K) -> (r: Option<&V>)
        requires
            self.wf(),
        ensures
            match r {
                Some(v) => self@.contains_key(k@) && *v == self@[k@],
                None => !self@.contains_key(k@),
            },
    {
        match self.find(k) {
            Some(i) => {
                proof {
                    lemma_seq_at(self.entries@, i as int);
                }
                Some(&self.entries[i].1)
            },
            None => None,
        }
    }

    /// Key of the `i`-th entry in ascending order.
    pub fn key_at(&self, i: usize) -> (r: &K)
        requires
            i < self.ordered().len(),
        ensures
            r@ == self.ordered()[i as int].0,
    {
        &self.entries[i].0
    }

    /// Value of the `i`-th entry in ascending order.
    pub fn value_at(&self, i: usize) -> (r: &V)
        requires
            i < self.ordered().len(),
        ensures
            *r == self.ordered()[i as int].1,
    {
        &self.entries[i].1
    }

    /// Stores `v` under `k`, replacing any earlier value.
    pub fn insert(&mut self, k: K, v: V)
        requires
            old(self).wf(),
        ensures
            final(self).wf(),
            final(self)@ == old(self)@.insert(k@, v),
    {
        let ghost old_e = self.entries@;
        let n = self.entries.len();
        let mut i: usize = 0;
        let mut found_equal = false;
        while i < n
            invariant_except_break
                n == self.entries@.len(),
                old_e == self.entries@,
                i <= n,
                !found_equal,
                forall|j: int| 0 <= j < i ==> K::key_lt(#[trigger] old_e[j].0@, k@),
            ensures
                n == self.entries@.len(),
                old_e == self.entries@,
                i <= n,
                forall|j: int| 0 <= j < i ==> K::key_lt(#[trigger] old_e[j].0@, k@),
                found_equal ==> i < n && old_e[i as int].0@ == k@,
                !found_equal && i < n ==> K::key_lt(k@, old_e[i as int].0@),
            decreases n - i,
        {
            let c = self.entries[i].0.compare_key(&k);
            if c == KeyCmp::Equal {
                found_equal = true;
                break;
            }
            if c == KeyCmp::Greater {
                break;
            }
            i = i + 1;
        }
        let ghost kv = k@;
        if found_equal {
            self.entries.set(i, (k, v));
            proof {
                let new_e = self.entries@;
                assert forall|a: int, b: int| 0 <= a < b < new_e.len() implies K::key_lt(
                    #[trigger] new_e[a].0@,
                    #[trigger] new_e[b].0@,
                ) by {
                    assert(new_e[a].0@ == old_e[a].0@);
                    assert(new_e[b].0@ == old_e[b].0@);
                }
                lemma_seq_set(old_e, new_e, i as int);
            }
        } else {
            self.entries.insert(i, (k, v));
            proof {
                let new_e = self.entries@;
                assert forall|a: int, b: int| 0 <= a < b < new_e.len() implies K::key_lt(
                    #[trigger] new_e[a].0@,
                    #[trigger] new_e[b].0@,
                ) by {
                    if b < i {
                        assert(new_e[a] == old_e[a]);
                        assert(new_e[b] == old_e[b]);
                    } else if b == i {
                        assert(new_e[a] == old_e[a]);
                    } else if a < i {
                        assert(new_e[a] == old_e[a]);
                        assert(new_e[b] == old_e[b - 1]);
                        if b - 1 > i {
                            K::lemma_key_lt_transitive(kv, old_e[i as int].0@, old_e[b - 1].0@);
                        }
                        K::lemma_key_lt_transitive(old_e[a].0@, kv, old_e[b - 1].0@);
                    } else if a == i {
                        assert(new_e[b] == old_e[b - 1]);
                        if b - 1 > i {
                            K::lemma_key_lt_transitive(kv, old_e[i as int].0@, old_e[b - 1].0@);
                        }
                    } else {
                        assert(new_e[a] == old_e[a - 1]);
                        assert(new_e[b] == old_e[b - 1]);
                    }
                }
                lemma_seq_insert(old_e, new_e, i as int);
            }
        }
    }

    /// Removes the entry under `k`, handing back its value.
    pub fn remove(&mut self, k: &K) -> (r: Option<V>)
        requires
            old(self).wf(),
        ensures
            final(self).wf(),
            final(self)@ == old(self)@.remove(k@),
            match r {
                Some(v) => old(self)@.contains_key(k@) && v == old(self)@[k@],
                None => !old(self)@.contains_key(k@),
            },
    {
        match self.find(k) {
            Some(i) => {
                let ghost old_e = self.entries@;
                proof {
                    lemma_seq_at(old_e, i as int);
                }
                let e = self.entries.remove(i);
                proof {
                    lemma_seq_remove(old_e, self.entries@, i as int);
                }
                Some(e.1)
            },
            None => {
                proof {
                    assert(self@.remove(k@) =~= self@);
                }
                None
            },
        }
    }
}

} // verus!
