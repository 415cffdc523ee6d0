//! Text helpers: decimal rendering of integers and UTF-8 decoding.
use vstd::prelude::*;
use vstd::utf8::*;

verus! {

/// The ASCII digit for `d` (0..=9).
pub open spec fn digit_char(d: int) -> char {
    if d == 0 {
        '0'
    } else if d == 1 {
        '1'
    } else if d == 2 {
        '2'
    } else if d == 3 {
        '3'
    } else if d == 4 {
        '4'
    } else if d == 5 {
        '5'
    } else if d == 6 {
        '6'
    } else if d == 7 {
        '7'
    } else if d == 8 {
        '8'
    } else {
        '9'
    }
}

/// Decimal digits of `n`, most significant first, without leading zeros.
pub open spec fn decimal(n: nat) -> Seq<char>
    decreases n,
{
    if n < 10 {
        seq![digit_char(n as int)]
    } else {
        decimal(n / 10).push(digit_char((n % 10) as int))
    }
}

/// Decimal rendering of an integer, with a leading '-' when negative.
pub open spec fn signed_decimal(x: int) -> Seq<char> {
    if x < 0 {
        seq!['-'] + decimal((-x) as nat)
    } else {
        decimal(x as nat)
    }
}

fn digit_str(d: u128) -> (s: &'static str)
    requires
        d < 10,
    ensures
        s@ == seq![digit_char(d as int)],
{
    if d == 0 {
        proof { reveal_strlit("0"); }
        "0"
    } else if d == 1 {
        proof { reveal_strlit("1"); }
        "1"
    } else if d == 2 {
        proof { reveal_strlit("2"); }
        "2"
    } else if d == 3 {
        proof { reveal_strlit("3"); }
        "3"
    } else if d == 4 {
        proof { reveal_strlit("4"); }
        "4"
    } else if d == 5 {
        proof { reveal_strlit("5"); }
        "5"
    } else if d == 6 {
        proof { reveal_strlit("6"); }
        "6"
    } else if d == 7 {
        proof { reveal_strlit("7"); }
        "7"
    } else if d == 8 {
        proof { reveal_strlit("8"); }
        "8"
    } else {
        proof { reveal_strlit("9"); }
        "9"
    }
}

/// Renders `n` in decimal.
pub fn decimal_string(n: u128) -> (s: String)
    ensures
        s@ == decimal(n as nat),
    decreases n,
{
    if n < 10 {
        String::from_str(digit_str(n))
    } else {
        let mut s = decimal_string(n / 10);
        s.append(digit_str(n % 10));
        s
    }
}

/// Renders `x` in decimal, with a leading '-' when negative.
pub fn signed_decimal_string(x: i128) -> (s: String)
    ensures
        s@ == signed_decimal(x as int),
{
    if x < 0 {
        let mag: u128 = if x == i128::MIN {
            170141183460469231731687303715884105728u128
        } else {
            (-x) as u128
        };
        proof {
            reveal_strlit("-");
        }
        let digits = decimal_string(mag);
        let mut s = String::from_str("-");
        s.append(digits.as_str());
        s
    } else {
        decimal_string(x as u128)
    }
}

/// Appends the decimal rendering of `n` to `s`.
pub fn push_decimal(s: &mut String, n: u128)
    ensures
        final(s)@ == old(s)@ + decimal(n as nat),
{
    let d = decimal_string(n);
    s.append(d.as_str());
}

/// Appends the signed decimal rendering of `x` to `s`.
pub fn push_signed_decimal(s: &mut String, x: i128)
    ensures
        final(s)@ == old(s)@ + signed_decimal(x as int),
{
    let d = signed_decimal_string(x);
    s.append(d.as_str());
}

/// Appends the bytes of `src` to `out`.
pub fn push_bytes(out: &mut Vec<u8>, src: &[u8])
    ensures
        final(out)@ == old(out)@ + src@,
{
    let n = src.len();
    let mut i: usize = 0;
    while i < n
        invariant
            n == src@.len(),
            i <= n,
            out@ == old(out)@ + src@.subrange(0, i as int),
        decreases n - i,
    {
        out.push(src[i]);
        i = i + 1;
        assert(src@.subrange(0, i as int) =~= src@.subrange(0, i - 1).push(src@[i - 1]));
    }
    assert(src@.subrange(0, n as int) =~= src@);
}

/// Copies `len` bytes of `src` starting at `from`.
pub fn copy_bytes(src: &[u8], from: usize, len: usize) -> (out: Vec<u8>)
    requires
        from + len <= src@.len(),
    ensures
        out@ == src@.subrange(from as int, from + len),
{
    let mut out: Vec<u8> = Vec::new();
    let n = src.len();
    let mut i: usize = 0;
    while i < len
        invariant
            n == src@.len(),
            from + len <= src@.len(),
            i <= len,
            out@ == src@.subrange(from as int, from + i),
        decreases len - i,
    {
        out.push(src[from + i]);
        i = i + 1;
        assert(src@.subrange(from as int, from + i) =~= src@.subrange(from as int, from + i - 1).push(src@[from + i - 1]));
    }
    out
}

/// Decodes UTF-8 bytes into a string (std's `String::from_utf8`): succeeds
/// exactly on valid UTF-8, and then holds the decoded characters.
#[verifier::external_body]
pub(crate) fn string_from_utf8(bytes: Vec<u8>) -> (r: Option<String>)
    ensures
        r is Some <==> valid_utf8(bytes@),
        r matches Some(s) ==> s@ == decode_utf8(bytes@),
{
    String::from_utf8(bytes).ok()
}

} // verus!
