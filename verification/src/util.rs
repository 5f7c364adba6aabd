//! Small verified helpers on byte vectors and strings that the codecs share.

use vstd::prelude::*;

verus! {

use vstd::string::StringSliceAdditionalSpecFns;
use vstd::utf8::{valid_utf8, decode_utf8};

/// Copy of `v[from..to]` as a fresh vector.
pub fn vec_subrange(v: &Vec<u8>, from: usize, to: usize) -> (r: Vec<u8>)
    requires
        from <= to <= v@.len(),
    ensures
        r@ == v@.subrange(from as int, to as int),
{
    let mut r: Vec<u8> = Vec::new();
    let mut i: usize = from;
    while i < to
        invariant
            from <= i <= to <= v@.len(),
            r@ == v@.subrange(from as int, i as int),
        decreases to - i,
    {
        r.push(v[i]);
        i = i + 1;
        assert(r@ =~= v@.subrange(from as int, i as int));
    }
    r
}

/// Append every byte of `src` to `dst`.
pub fn vec_push_all(dst: &mut Vec<u8>, src: &Vec<u8>)
    ensures
        final(dst)@ == old(dst)@ + src@,
{
    let mut i: usize = 0;
    assert(dst@ =~= old(dst)@ + src@.subrange(0, 0));
    while i < src.len()
        invariant
            0 <= i <= src@.len(),
            dst@ == old(dst)@ + src@.subrange(0, i as int),
        decreases src@.len() - i,
    {
        dst.push(src[i]);
        i = i + 1;
        assert(dst@ =~= old(dst)@ + src@.subrange(0, i as int));
    }
    assert(dst@ =~= old(dst)@ + src@);
}

/// Append every byte of the slice `src` to `dst`.
pub fn vec_push_slice(dst: &mut Vec<u8>, src: &[u8])
    ensures
        final(dst)@ == old(dst)@ + src@,
{
    let mut i: usize = 0;
    assert(dst@ =~= old(dst)@ + src@.subrange(0, 0));
    while i < src.len()
        invariant
            0 <= i <= src@.len(),
            dst@ == old(dst)@ + src@.subrange(0, i as int),
        decreases src@.len() - i,
    {
        dst.push(src[i]);
        i = i + 1;
        assert(dst@ =~= old(dst)@ + src@.subrange(0, i as int));
    }
    assert(dst@ =~= old(dst)@ + src@);
}

/// Index of the first occurrence of `b` in `v` at or after `from`.
pub fn find_byte(v: &Vec<u8>, b: u8, from: usize) -> (r: Option<usize>)
    requires
        from <= v@.len(),
    ensures
        match r {
            Some(i) => from <= i < v@.len() && v@[i as int] == b
                && forall|j: int| from <= j < i ==> v@[j] != b,
            None => forall|j: int| from <= j < v@.len() ==> v@[j] != b,
        },
{
    let mut i: usize = from;
    while i < v.len()
        invariant
            from <= i <= v@.len(),
            forall|j: int| from <= j < i ==> v@[j] != b,
        decreases v@.len() - i,
    {
        if v[i] == b {
            return Some(i);
        }
        i = i + 1;
    }
    None
}

/// Byte-for-byte equality of two slices.
pub fn slice_eq(a: &[u8], b: &[u8]) -> (r: bool)
    ensures
        r == (a@ == b@),
{
    if a.len() != b.len() {
        assert(a@.len() != b@.len());
        return false;
    }
    let mut i: usize = 0;
    while i < a.len()
        invariant
            0 <= i <= a@.len(),
            a@.len() == b@.len(),
            forall|j: int| 0 <= j < i ==> a@[j] == b@[j],
        decreases a@.len() - i,
    {
        if a[i] != b[i] {
            assert(a@ != b@);
            return false;
        }
        i = i + 1;
    }
    assert(a@ =~= b@);
    true
}

/// Equality of two string slices, decided on their UTF-8 bytes.
pub fn str_eq(a: &str, b: &str) -> (r: bool)
    ensures
        r == (a@ == b@),
{
    let r = slice_eq(a.as_bytes(), b.as_bytes());
    proof {
        if a.spec_bytes() == b.spec_bytes() {
            vstd::utf8::encode_utf8_decode_utf8(a@);
            vstd::utf8::encode_utf8_decode_utf8(b@);
            assert(a@ == b@);
        }
    }
    r
}

/// The decimal digits of a nonnegative number, most significant first.
pub open spec fn dec_bytes_of(n: int) -> Seq<u8>
    decreases n,
    when n >= 0
{
    if n < 10 {
        seq![(48 + n) as u8]
    } else {
        dec_bytes_of(n / 10).push((48 + n % 10) as u8)
    }
}

/// Decimal rendering of a number.
pub fn u64_to_dec(n: u64) -> (r: Vec<u8>)
    ensures
        r@ == dec_bytes_of(n as int),
    decreases n,
{
    if n < 10 {
        let mut r: Vec<u8> = Vec::new();
        r.push(48 + (n as u8));
        assert(r@ =~= dec_bytes_of(n as int));
        r
    } else {
        let mut r = u64_to_dec(n / 10);
        r.push(48 + ((n % 10) as u8));
        r
    }
}

/// The string `v`'s bytes decode to, when they are valid UTF-8.
/// Relies on `String::from_utf8`: `Ok` exactly on valid UTF-8 input, and the
/// returned string holds the decoded characters.
#[verifier::external_body]
pub fn bytes_to_string(v: Vec<u8>) -> (r: Option<String>)
    ensures
        r is Some <==> valid_utf8(v@),
        r is Some ==> r->0@ == decode_utf8(v@),
{
    match String::from_utf8(v) {
        Ok(s) => Some(s),
        Err(_) => None,
    }
}

} // verus!
