//! Checks on domains and IPFS CIDs handed to the registry.
use vstd::prelude::*;
use vstd::utf8::encode_utf8;
use crate::registry::types::RegistryError;

verus! {

/// ASCII letter or digit.
pub open spec fn is_ascii_alnum(c: char) -> bool {
    ('a' <= c && c <= 'z') || ('A' <= c && c <= 'Z') || ('0' <= c && c <= '9')
}

/// A character allowed in a domain label.
pub open spec fn is_label_char(c: char) -> bool {
    is_ascii_alnum(c) || c == '-'
}

fn ascii_alnum(c: char) -> (b: bool)
    ensures
        b == is_ascii_alnum(c),
{
    ('a' <= c && c <= 'z') || ('A' <= c && c <= 'Z') || ('0' <= c && c <= '9')
}

/// The pieces of `s` between '.' characters (`split('.')`): always at
/// least one, possibly empty ones.
pub open spec fn split_dots(s: Seq<char>) -> Seq<Seq<char>>
    decreases s.len(),
{
    if s.len() == 0 {
        seq![Seq::empty()]
    } else {
        let r = split_dots(s.drop_last());
        if s.last() == '.' {
            r.push(Seq::empty())
        } else {
            r.update(r.len() - 1, r.last().push(s.last()))
        }
    }
}

/// Why a domain label is refused, if it is.
pub open spec fn segment_error(seg: Seq<char>) -> Option<Seq<char>> {
    let n = encode_utf8(seg).len();
    if n == 0 || n > 63 {
        Some("segment '"@ + seg + "' must be 1..=63 chars"@)
    } else if seg[0] == '-' || seg[seg.len() - 1] == '-' {
        Some("segment '"@ + seg + "' cannot start or end with hyphen"@)
    } else if !(forall|i: int| 0 <= i < seg.len() ==> is_label_char(#[trigger] seg[i])) {
        Some("segment '"@ + seg + "' has invalid characters"@)
    } else {
        None
    }
}

/// The refusal of the first refused label, if any.
pub open spec fn first_segment_error(segs: Seq<Seq<char>>) -> Option<Seq<char>>
    decreases segs.len(),
{
    if segs.len() == 0 {
        None
    } else {
        match segment_error(segs[0]) {
            Some(m) => Some(m),
            None => first_segment_error(segs.drop_first()),
        }
    }
}

/// Why a domain is refused, if it is: 1..=253 bytes, at least one dot,
/// and every label 1..=63 bytes of letters, digits and inner hyphens.
pub open spec fn domain_error(d: Seq<char>) -> Option<Seq<char>> {
    if d.len() == 0 || encode_utf8(d).len() > 253 {
        Some("length must be 1..=253 chars"@)
    } else if !d.contains('.') {
        Some("must contain at least one dot"@)
    } else {
        first_segment_error(split_dots(d))
    }
}

/// Why a CID is refused, if it is. The empty CID is allowed (site hosted
/// off IPFS); otherwise 46..=100 bytes of ASCII letters and digits.
pub open spec fn cid_error(c: Seq<char>) -> Option<Seq<char>> {
    let n = encode_utf8(c).len();
    if c.len() == 0 {
        None
    } else if n < 46 || n > 100 {
        Some("CID length should be 46..=100 chars"@)
    } else if !(forall|i: int| 0 <= i < c.len() ==> is_ascii_alnum(#[trigger] c[i])) {
        Some("CID must be alphanumeric (base32 or base58)"@)
    } else {
        None
    }
}

proof fn lemma_split_nonempty(s: Seq<char>)
    ensures
        split_dots(s).len() >= 1,
    decreases s.len(),
{
    if s.len() > 0 {
        lemma_split_nonempty(s.drop_last());
    }
}

proof fn lemma_split_prefix(d: Seq<char>, i: int, j: int)
    requires
        0 <= i <= j <= d.len(),
    ensures
        split_dots(d.take(j)).len() >= split_dots(d.take(i)).len(),
        split_dots(d.take(j)).subrange(0, split_dots(d.take(i)).len() - 1) == split_dots(
            d.take(i),
        ).drop_last(),
    decreases j - i,
{
    lemma_split_nonempty(d.take(i));
    if i == j {
        assert(split_dots(d.take(j)).subrange(0, split_dots(d.take(i)).len() - 1) =~= split_dots(
            d.take(i),
        ).drop_last());
    } else {
        lemma_split_prefix(d, i, j - 1);
        lemma_split_nonempty(d.take(j - 1));
        assert(d.take(j).drop_last() =~= d.take(j - 1));
        let a = split_dots(d.take(j - 1));
        let b = split_dots(d.take(j));
        let m = split_dots(d.take(i)).len() - 1;
        assert(b.subrange(0, m) =~= a.subrange(0, m));
    }
}

proof fn lemma_first_error_concat(a: Seq<Seq<char>>, b: Seq<Seq<char>>)
    ensures
        first_segment_error(a + b) == (if first_segment_error(a) is Some {
            first_segment_error(a)
        } else {
            first_segment_error(b)
        }),
    decreases a.len(),
{
    if a.len() == 0 {
        assert(a + b =~= b);
    } else {
        assert((a + b).drop_first() =~= a.drop_first() + b);
        lemma_first_error_concat(a.drop_first(), b);
    }
}

proof fn lemma_first_error_push(a: Seq<Seq<char>>, x: Seq<char>)
    requires
        first_segment_error(a) is None,
    ensures
        first_segment_error(a.push(x)) == segment_error(x),
{
    lemma_first_error_concat(a, seq![x]);
    assert(a + seq![x] =~= a.push(x));
    assert(seq![x].drop_first() =~= Seq::<Seq<char>>::empty());
    assert(first_segment_error(Seq::<Seq<char>>::empty()) is None);
    assert(first_segment_error(seq![x]) == segment_error(x));
}

proof fn lemma_dot_step(d: Seq<char>, done: Seq<Seq<char>>, start: int, i: int)
    requires
        0 <= start <= i < d.len(),
        d[i] == '.',
        split_dots(d.take(i)) == done.push(d.subrange(start, i)),
        first_segment_error(done) is None,
    ensures
        split_dots(d.take(i + 1)) == done.push(d.subrange(start, i)).push(Seq::empty()),
        segment_error(d.subrange(start, i)) is Some ==> first_segment_error(split_dots(d))
            == segment_error(d.subrange(start, i)),
        first_segment_error(done.push(d.subrange(start, i))) == segment_error(d.subrange(start, i)),
{
    let cur = d.subrange(start, i);
    assert(d.take(i + 1).drop_last() =~= d.take(i));
    assert(d.take(i + 1).last() == d[i]);
    assert(split_dots(d.take(i + 1)) == done.push(cur).push(Seq::empty()));
    lemma_split_prefix(d, i + 1, d.len() as int);
    assert(d.take(d.len() as int) =~= d);
    let full = split_dots(d);
    let m: int = done.len() as int + 1;
    assert(full.subrange(0, m) =~= done.push(cur));
    assert(full =~= done.push(cur) + full.subrange(m, full.len() as int));
    lemma_first_error_concat(done.push(cur), full.subrange(m, full.len() as int));
    lemma_first_error_push(done, cur);
}

proof fn lemma_char_step(d: Seq<char>, done: Seq<Seq<char>>, start: int, i: int)
    requires
        0 <= start <= i < d.len(),
        d[i] != '.',
        split_dots(d.take(i)) == done.push(d.subrange(start, i)),
    ensures
        split_dots(d.take(i + 1)) == done.push(d.subrange(start, i + 1)),
{
    let cur = d.subrange(start, i);
    let c = d[i];
    assert(d.take(i + 1).drop_last() =~= d.take(i));
    assert(d.take(i + 1).last() == c);
    assert(split_dots(d.take(i + 1)) =~= done.push(cur).update(done.len() as int, cur.push(c)));
    assert(cur.push(c) =~= d.subrange(start, i + 1));
    assert(done.push(cur).update(done.len() as int, cur.push(c)) =~= done.push(d.subrange(start, i + 1)));
}

/// `prefix` + `text` + `suffix` as a new string.
fn framed(prefix: &str, text: &str, suffix: &str) -> (s: String)
    ensures
        s@ == prefix@ + text@ + suffix@,
{
    let mut s = String::from_str(prefix);
    s.append(text);
    s.append(suffix);
    s
}

/// Checks one domain label; the refusal text if it is refused.
fn check_segment(seg: &str) -> (r: Option<String>)
    ensures
        match r {
            Some(m) => segment_error(seg@) == Some(m@),
            None => segment_error(seg@) is None,
        },
{
    let n = seg.as_bytes().len();
    if n == 0 || n > 63 {
        return Some(framed("segment '", seg, "' must be 1..=63 chars"));
    }
    let k = seg.unicode_len();
    if seg.get_char(0) == '-' || seg.get_char(k - 1) == '-' {
        return Some(framed("segment '", seg, "' cannot start or end with hyphen"));
    }
    let mut j: usize = 0;
    while j < k
        invariant
            k == seg@.len(),
            0 < encode_utf8(seg@).len() <= 63,
            seg@[0] != '-',
            seg@[k - 1] != '-',
            j <= k,
            forall|t: int| 0 <= t < j ==> is_label_char(#[trigger] seg@[t]),
        decreases k - j,
    {
        let c = seg.get_char(j);
        if !(ascii_alnum(c) || c == '-') {
            assert(!is_label_char(seg@[j as int]));
            return Some(framed("segment '", seg, "' has invalid characters"));
        }
        j = j + 1;
    }
    None
}

/// Checks a domain: 1..=253 bytes, at least one dot, and every label
/// 1..=63 bytes of ASCII letters, digits and hyphens, not starting or
/// ending with a hyphen. The first label that fails is named.
pub fn validate_domain(domain: &str) -> (r: Result<(), RegistryError>)
    ensures
        match r {
            Ok(()) => domain_error(domain@) is None,
            Err(e) => e matches RegistryError::InvalidDomain(m) && domain_error(domain@) == Some(m@),
        },
{
    let ghost d = domain@;
    if domain.is_empty() || domain.as_bytes().len() > 253 {
        return Err(RegistryError::InvalidDomain(String::from_str("length must be 1..=253 chars")));
    }
    let k = domain.unicode_len();
    let mut has_dot = false;
    let mut j: usize = 0;
    while j < k
        invariant_except_break
            k == d.len(),
            d == domain@,
            j <= k,
            !has_dot,
            forall|t: int| 0 <= t < j ==> d[t] != '.',
        ensures
            has_dot <==> d.contains('.'),
        decreases k - j,
    {
        if domain.get_char(j) == '.' {
            has_dot = true;
            break;
        }
        j = j + 1;
    }
    if !has_dot {
        return Err(RegistryError::InvalidDomain(String::from_str("must contain at least one dot")));
    }
    let ghost mut done: Seq<Seq<char>> = Seq::empty();
    let mut start: usize = 0;
    let mut i: usize = 0;
    assert(d.take(0) =~= Seq::<char>::empty());
    assert(d.subrange(0, 0) =~= Seq::<char>::empty());
    assert(split_dots(d.take(0)) =~= done.push(d.subrange(0, 0)));
    while i < k
        invariant
            k == d.len(),
            d == domain@,
            start <= i <= k,
            split_dots(d.take(i as int)) == done.push(d.subrange(start as int, i as int)),
            first_segment_error(done) is None,
            domain_error(d) == first_segment_error(split_dots(d)),
        decreases k - i,
    {
        let c = domain.get_char(i);
        if c == '.' {
            let seg = domain.substring_char(start, i);
            proof {
                lemma_dot_step(d, done, start as int, i as int);
            }
            match check_segment(seg) {
                Some(m) => {
                    return Err(RegistryError::InvalidDomain(m));
                },
                None => {},
            }
            proof {
                done = done.push(d.subrange(start as int, i as int));
                assert(d.subrange(i + 1, i + 1) =~= Seq::<char>::empty());
            }
            start = i + 1;
        } else {
            proof {
                lemma_char_step(d, done, start as int, i as int);
            }
        }
        i = i + 1;
    }
    let seg = domain.substring_char(start, k);
    proof {
        assert(d.take(k as int) =~= d);
        lemma_first_error_push(done, d.subrange(start as int, k as int));
    }
    match check_segment(seg) {
        Some(m) => Err(RegistryError::InvalidDomain(m)),
        None => Ok(()),
    }
}

/// Checks a CID: empty is fine (off-IPFS hosting); otherwise 46..=100
/// bytes of ASCII letters and digits. The multihash itself is not decoded.
pub fn validate_cid_optional(cid: &str) -> (r: Result<(), RegistryError>)
    ensures
        match r {
            Ok(()) => cid_error(cid@) is None,
            Err(e) => e matches RegistryError::InvalidCid(m) && cid_error(cid@) == Some(m@),
        },
{
    if cid.is_empty() {
        return Ok(());
    }
    let n = cid.as_bytes().len();
    if n < 46 || n > 100 {
        return Err(RegistryError::InvalidCid(String::from_str("CID length should be 46..=100 chars")));
    }
    let k = cid.unicode_len();
    let mut j: usize = 0;
    while j < k
        invariant
            k == cid@.len(),
            k > 0,
            46 <= encode_utf8(cid@).len() <= 100,
            j <= k,
            forall|t: int| 0 <= t < j ==> is_ascii_alnum(#[trigger] cid@[t]),
        decreases k - j,
    {
        if !ascii_alnum(cid.get_char(j)) {
            assert(!is_ascii_alnum(cid@[j as int]));
            return Err(RegistryError::InvalidCid(
                String::from_str("CID must be alphanumeric (base32 or base58)"),
            ));
        }
        j = j + 1;
    }
    Ok(())
}

} // verus!
