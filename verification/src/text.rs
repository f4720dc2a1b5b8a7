//! Small text utilities shared by the URL builder, the JSON codec and the
//! character-count helpers: conversions between `String` and `Vec<char>`,
//! string equality, decimal rendering of integers, and byte-level counting
//! specifications.

use vstd::prelude::*;
use vstd::string::StrSliceExecFns;
use vstd::string::StringExecFns;
use vstd::string::StringSliceAdditionalSpecFns;

verus! {

/// Number of occurrences of the byte `b` in `s`.
pub open spec fn byte_count(s: Seq<u8>, b: u8) -> nat
    decreases s.len(),
{
    if s.len() == 0 {
        0
    } else {
        byte_count(s.drop_last(), b) + if s.last() == b {
            1nat
        } else {
            0nat
        }
    }
}

/// Number of bytes in `s` that are not UTF-8 continuation bytes, i.e. the
/// bytes that start the encoding of a code point.  On well-formed UTF-8 this
/// is the number of code points.
pub open spec fn lead_byte_count(s: Seq<u8>) -> nat
    decreases s.len(),
{
    if s.len() == 0 {
        0
    } else {
        lead_byte_count(s.drop_last()) + if s.last() < 0x80 || s.last() >= 0xc0 {
            1nat
        } else {
            0nat
        }
    }
}

/// Every space byte starts a code point, so there are never more spaces than
/// code points.
pub proof fn lemma_space_count_le_lead_count(s: Seq<u8>)
    ensures
        byte_count(s, 0x20) <= lead_byte_count(s),
    decreases s.len(),
{
    if s.len() > 0 {
        lemma_space_count_le_lead_count(s.drop_last());
    }
}

/// Relies on `bytecount::num_chars`, which counts the bytes of a slice that
/// do not have the UTF-8 continuation-byte form `10xxxxxx`.
#[verifier::external_body]
pub fn count_code_points(s: &str) -> (r: usize)
    ensures
        r == lead_byte_count(s.spec_bytes()),
{
    bytecount::num_chars(s.as_bytes())
}

/// Relies on `bytecount::count`, which counts the occurrences of one byte in
/// a slice.
#[verifier::external_body]
pub fn count_space_bytes(s: &str) -> (r: usize)
    ensures
        r == byte_count(s.spec_bytes(), 0x20),
{
    bytecount::count(s.as_bytes(), 0x20)
}

/// Relies on `String`'s `FromIterator<char>` impl, which concatenates the
/// characters of the iterator in order.
#[verifier::external_body]
pub fn chars_to_string(v: &Vec<char>) -> (r: String)
    ensures
        r@ == v@,
{
    v.iter().collect()
}

/// Collects the characters of a string slice into a vector.
pub fn str_to_chars(s: &str) -> (r: Vec<char>)
    ensures
        r@ == s@,
{
    let n = s.unicode_len();
    let mut v: Vec<char> = Vec::new();
    let mut i: usize = 0;
    while i < n
        invariant
            n == s@.len(),
            i <= n,
            v@ =~= s@.subrange(0, i as int),
        decreases n - i,
    {
        v.push(s.get_char(i));
        i = i + 1;
    }
    assert(v@ =~= s@);
    v
}

/// Character-for-character equality of two string slices.
pub fn str_eq(a: &str, b: &str) -> (r: bool)
    ensures
        r == (a@ == b@),
{
    let sa = a.to_owned();
    let sb = b.to_owned();
    sa == sb
}

/// The decimal digit character for `d`.
pub open spec fn digit_char(d: nat) -> char {
    if d == 0 {
        '0'
    } else if d == 1 {
        '1'
    } else if d == 2 {
        '2'
    } else if d == 3 {
        '3'
    } else if d == 4 {
        '4'
    } else if d == 5 {
        '5'
    } else if d == 6 {
        '6'
    } else if d == 7 {
        '7'
    } else if d == 8 {
        '8'
    } else {
        '9'
    }
}

/// The decimal rendering of `n`, most significant digit first.
pub open spec fn dec_chars(n: nat) -> Seq<char>
    decreases n,
{
    if n < 10 {
        seq![digit_char(n)]
    } else {
        dec_chars(n / 10) + seq![digit_char(n % 10)]
    }
}

fn u64_to_dec_chars(n: u64) -> (r: Vec<char>)
    ensures
        r@ == dec_chars(n as nat),
    decreases n,
{
    let d: u64 = n % 10;
    let c: char = if d == 0 {
        '0'
    } else if d == 1 {
        '1'
    } else if d == 2 {
        '2'
    } else if d == 3 {
        '3'
    } else if d == 4 {
        '4'
    } else if d == 5 {
        '5'
    } else if d == 6 {
        '6'
    } else if d == 7 {
        '7'
    } else if d == 8 {
        '8'
    } else {
        '9'
    };
    if n < 10 {
        let mut v: Vec<char> = Vec::new();
        v.push(c);
        assert(v@ =~= dec_chars(n as nat));
        v
    } else {
        let mut v = u64_to_dec_chars(n / 10);
        v.push(c);
        assert(v@ =~= dec_chars(n as nat));
        v
    }
}

/// The decimal rendering of `n` as a `String`.
pub fn u64_to_dec_string(n: u64) -> (r: String)
    ensures
        r@ == dec_chars(n as nat),
{
    let v = u64_to_dec_chars(n);
    chars_to_string(&v)
}

/// The decimal rendering of an integer of either sign.
pub open spec fn int_dec_chars(n: int) -> Seq<char> {
    if n >= 0 {
        dec_chars(n as nat)
    } else {
        seq!['-'] + dec_chars((-n) as nat)
    }
}

/// The decimal rendering of `n` as a `String`.
pub fn i64_to_dec_string(n: i64) -> (r: String)
    ensures
        r@ == int_dec_chars(n as int),
{
    if n >= 0 {
        u64_to_dec_string(n as u64)
    } else {
        let magnitude: u64 = ((-(n + 1)) as u64) + 1;
        assert(magnitude == -(n as int));
        let digits = u64_to_dec_string(magnitude);
        let mut r = String::new();
        r.append("-");
        r.append(digits.as_str());
        proof {
            reveal_strlit("-");
            assert("-"@ =~= seq!['-']);
            assert(r@ =~= int_dec_chars(n as int));
        }
        r
    }
}

/// Caps a mathematical count at the machine word range.
pub open spec fn clamp_usize(n: nat) -> nat {
    if n <= usize::MAX {
        n
    } else {
        usize::MAX as nat
    }
}

/// Saturating addition on machine words.
pub fn sat_add(a: usize, b: usize) -> (r: usize)
    ensures
        r == clamp_usize(a as nat + b as nat),
{
    if a <= usize::MAX - b {
        a + b
    } else {
        usize::MAX
    }
}

/// The number of billed characters of a text: its code points, spaces
/// excluded, both counted on the UTF-8 encoding.
pub open spec fn text_unit_count(t: Seq<char>) -> nat {
    (lead_byte_count(vstd::utf8::encode_utf8(t)) - byte_count(
        vstd::utf8::encode_utf8(t),
        0x20,
    )) as nat
}

/// Counts the billed characters of a text.
pub fn count_text_units(s: &str) -> (r: usize)
    ensures
        r == text_unit_count(s@),
{
    let leads = count_code_points(s);
    let spaces = count_space_bytes(s);
    proof {
        lemma_space_count_le_lead_count(s.spec_bytes());
    }
    leads - spaces
}


} // verus!
