//! Error bodies.
//!
//! Every error a handler surfaces travels as the uncompressed JSON object
//! `{"error":"<reason>"}`; the reason is JSON-escaped byte by byte.

use vstd::prelude::*;

verus! {

use vstd::string::StringSliceAdditionalSpecFns;
use crate::util::vec_push_all;

/// Hexadecimal digit for a value below sixteen, lower case.
pub open spec fn hex_digit(n: u8) -> u8
    recommends
        n < 16,
{
    if n < 10 {
        (48 + n) as u8
    } else {
        (87 + n) as u8
    }
}

/// JSON escaping of one byte of a string: quote, backslash and the control
/// characters are escaped, every other byte stands for itself.
pub open spec fn json_escape_byte(b: u8) -> Seq<u8> {
    if b == 34 {
        seq![92u8, 34u8]
    } else if b == 92 {
        seq![92u8, 92u8]
    } else if b == 8 {
        seq![92u8, 98u8]
    } else if b == 12 {
        seq![92u8, 102u8]
    } else if b == 10 {
        seq![92u8, 110u8]
    } else if b == 13 {
        seq![92u8, 114u8]
    } else if b == 9 {
        seq![92u8, 116u8]
    } else if b < 32 {
        seq![92u8, 117u8, 48u8, 48u8, hex_digit(b / 16), hex_digit(b % 16)]
    } else {
        seq![b]
    }
}

/// JSON escaping of a byte string.
pub open spec fn json_escape_bytes(s: Seq<u8>) -> Seq<u8>
    decreases s.len(),
{
    if s.len() == 0 {
        Seq::empty()
    } else {
        json_escape_byte(s[0]) + json_escape_bytes(s.drop_first())
    }
}

/// The bytes of the JSON object `{"error":"<msg escaped>"}`.
pub open spec fn error_json_of(msg: Seq<u8>) -> Seq<u8> {
    seq![123u8, 34u8, 101u8, 114u8, 114u8, 111u8, 114u8, 34u8, 58u8, 34u8] + json_escape_bytes(msg)
        + seq![34u8, 125u8]
}

proof fn lemma_json_escape_snoc(s: Seq<u8>, b: u8)
    ensures
        json_escape_bytes(s.push(b)) == json_escape_bytes(s) + json_escape_byte(b),
    decreases s.len(),
{
    let e = s.push(b);
    if s.len() == 0 {
        assert(e.drop_first() =~= Seq::<u8>::empty());
        assert(json_escape_bytes(Seq::<u8>::empty()) == Seq::<u8>::empty());
        assert(json_escape_bytes(e) =~= json_escape_bytes(s) + json_escape_byte(b));
    } else {
        assert(e.drop_first() =~= s.drop_first().push(b));
        lemma_json_escape_snoc(s.drop_first(), b);
        assert(json_escape_bytes(e) =~= json_escape_bytes(s) + json_escape_byte(b));
    }
}

fn push_escaped_byte(out: &mut Vec<u8>, b: u8)
    ensures
        final(out)@ == old(out)@ + json_escape_byte(b),
{
    if b == 34 {
        out.push(92);
        out.push(34);
    } else if b == 92 {
        out.push(92);
        out.push(92);
    } else if b == 8 {
        out.push(92);
        out.push(98);
    } else if b == 12 {
        out.push(92);
        out.push(102);
    } else if b == 10 {
        out.push(92);
        out.push(110);
    } else if b == 13 {
        out.push(92);
        out.push(114);
    } else if b == 9 {
        out.push(92);
        out.push(116);
    } else if b < 32 {
        let hi = b / 16;
        let lo = b % 16;
        out.push(92);
        out.push(117);
        out.push(48);
        out.push(48);
        out.push(if hi < 10 {
            48 + hi
        } else {
            87 + hi
        });
        out.push(if lo < 10 {
            48 + lo
        } else {
            87 + lo
        });
    } else {
        out.push(b);
    }
    assert(out@ =~= old(out)@ + json_escape_byte(b));
}

/// The JSON-escaped bytes of a string's UTF-8 form.
pub fn json_escape(msg: &str) -> (r: Vec<u8>)
    ensures
        r@ == json_escape_bytes(msg.spec_bytes()),
{
    let bytes = msg.as_bytes();
    let mut out: Vec<u8> = Vec::new();
    let mut i: usize = 0;
    assert(bytes@.subrange(0, 0) =~= Seq::<u8>::empty());
    while i < bytes.len()
        invariant
            0 <= i <= bytes@.len(),
            out@ == json_escape_bytes(bytes@.subrange(0, i as int)),
        decreases bytes@.len() - i,
    {
        push_escaped_byte(&mut out, bytes[i]);
        proof {
            lemma_json_escape_snoc(bytes@.subrange(0, i as int), bytes@[i as int]);
            assert(bytes@.subrange(0, i + 1) =~= bytes@.subrange(0, i as int).push(
                bytes@[i as int],
            ));
        }
        i = i + 1;
    }
    assert(bytes@.subrange(0, bytes@.len() as int) =~= bytes@);
    out
}

/// The error body `{"error":"<msg>"}`, the message JSON-escaped.
pub fn make_error_bytes(msg: &str) -> (r: Vec<u8>)
    ensures
        r@ == error_json_of(msg.spec_bytes()),
{
    let mut r: Vec<u8> = Vec::new();
    // {"error":"
    r.push(123);
    r.push(34);
    r.push(101);
    r.push(114);
    r.push(114);
    r.push(111);
    r.push(114);
    r.push(34);
    r.push(58);
    r.push(34);
    let esc = json_escape(msg);
    vec_push_all(&mut r, &esc);
    // "}
    r.push(34);
    r.push(125);
    assert(r@ =~= error_json_of(msg.spec_bytes()));
    r
}

/// An error body behind a fixed byte prefix.
pub fn make_error_bytes_with_prefix(prefix: Vec<u8>, msg: &str) -> (r: Vec<u8>)
    ensures
        r@ == prefix@ + error_json_of(msg.spec_bytes()),
{
    let mut r = prefix;
    let body = make_error_bytes(msg);
    vec_push_all(&mut r, &body);
    r
}

} // verus!
