//! Terminal resizing.
//!
//! The peer sends a control payload `resize/<rows>/<cols>`; the agent
//! applies the size to its terminal and answers with a control message
//! `size/<rows>/<cols>` reporting the size it holds.

use vstd::prelude::*;

verus! {

use crate::commands::request_or_response::{first_sep_from, lemma_first_sep_found, lemma_first_sep_none};
use crate::message::{Message, MessageTypeToStream, MessageV};
use crate::util::{vec_subrange, vec_push_all, find_byte, u64_to_dec, dec_bytes_of};

/// Decimal parsing with an accumulator, refusing anything but digits and
/// any value above `u16::MAX`.
pub open spec fn parse_u16_digits(s: Seq<u8>, acc: int) -> Option<u16>
    decreases s.len(),
{
    if acc > 65535 {
        None
    } else if s.len() == 0 {
        Some(acc as u16)
    } else if 48 <= s[0] <= 57 {
        parse_u16_digits(s.drop_first(), acc * 10 + (s[0] - 48))
    } else {
        None
    }
}

/// The number a decimal field denotes: an optional leading `+`, then
/// digits, value at most `u16::MAX`.
pub open spec fn parse_u16_of(s: Seq<u8>) -> Option<u16> {
    if s.len() == 0 {
        None
    } else if s[0] == 43 {
        if s.len() == 1 {
            None
        } else {
            parse_u16_digits(s.drop_first(), 0)
        }
    } else {
        parse_u16_digits(s, 0)
    }
}

/// The number a wire field holds, when present and in range.
pub fn maybe_u16(v: Option<&[u8]>) -> (r: Option<u16>)
    ensures
        r == match v {
            Some(b) => parse_u16_of(b@),
            None => None::<u16>,
        },
{
    let b = match v {
        Some(b) => b,
        None => {
            return None;
        },
    };
    let n = b.len();
    if n == 0 {
        return None;
    }
    let mut i: usize = 0;
    if b[0] == 43 {
        if n == 1 {
            return None;
        }
        i = 1;
        assert(b@.skip(1) =~= b@.drop_first());
    } else {
        assert(b@.skip(0) =~= b@);
    }
    let mut acc: u32 = 0;
    while i < n
        invariant
            v == Some(b),
            0 <= i <= n,
            n == b@.len(),
            acc <= 65535,
            parse_u16_of(b@) == parse_u16_digits(b@.skip(i as int), acc as int),
        decreases n - i,
    {
        let d = b[i];
        proof {
            assert(b@.skip(i as int)[0] == b@[i as int]);
            assert(b@.skip(i as int).drop_first() =~= b@.skip(i + 1));
        }
        if d < 48 || d > 57 {
            assert(parse_u16_digits(b@.skip(i as int), acc as int) is None);
            return None;
        }
        let acc2: u32 = acc * 10 + ((d - 48) as u32);
        if acc2 > 65535 {
            proof {
                assert(parse_u16_digits(b@.skip(i + 1), acc2 as int) is None);
                assert(parse_u16_digits(b@.skip(i as int), acc as int) is None);
            }
            return None;
        }
        acc = acc2;
        i = i + 1;
    }
    proof {
        assert(b@.skip(n as int) =~= Seq::<u8>::empty());
    }
    Some(acc as u16)
}

/// The rows and columns of a `resize/<rows>/<cols>` payload, if well
/// formed: the second field is the rows, the remainder after the second
/// separator the columns.
pub open spec fn parse_resize_of(s: Seq<u8>) -> Option<(u16, u16)> {
    match first_sep_from(s, 0) {
        None => None,
        Some(i1) => match first_sep_from(s, i1 + 1) {
            None => None,
            Some(i2) => match (parse_u16_of(s.subrange(i1 + 1, i2)), parse_u16_of(
                s.subrange(i2 + 1, s.len() as int),
            )) {
                (Some(r), Some(c)) => Some((r, c)),
                _ => None,
            },
        },
    }
}

/// Read the rows and columns out of a resize control payload.
pub fn parse_resize_payload(c: &Vec<u8>) -> (r: Option<(u16, u16)>)
    ensures
        r == parse_resize_of(c@),
{
    let n = c.len();
    assert(n == c@.len());
    let i1 = match find_byte(c, 47, 0) {
        Some(i) => i,
        None => {
            proof {
                lemma_first_sep_none(c@, 0);
            }
            return None;
        },
    };
    proof {
        lemma_first_sep_found(c@, 0, i1 as int);
    }
    let i2 = match find_byte(c, 47, i1 + 1) {
        Some(i) => i,
        None => {
            proof {
                lemma_first_sep_none(c@, i1 + 1);
            }
            return None;
        },
    };
    proof {
        lemma_first_sep_found(c@, i1 + 1, i2 as int);
    }
    let rows_field = vec_subrange(c, i1 + 1, i2);
    let cols_field = vec_subrange(c, i2 + 1, n);
    let rows = maybe_u16(Some(rows_field.as_slice()));
    let cols = maybe_u16(Some(cols_field.as_slice()));
    match (rows, cols) {
        (Some(r), Some(co)) => Some((r, co)),
        _ => None,
    }
}

/// The control payload `size/<rows>/<cols>`.
pub open spec fn size_payload(rows: u16, cols: u16) -> Seq<u8> {
    seq![115u8, 105u8, 122u8, 101u8, 47u8] + dec_bytes_of(rows as int) + seq![47u8]
        + dec_bytes_of(cols as int)
}

/// The control message reporting the terminal's size back to the peer.
pub fn make_size_message(rows: u16, cols: u16) -> (r: Message<MessageTypeToStream>)
    ensures
        r@ == (MessageV {
            mtype: MessageTypeToStream::COMMAND,
            content: Some(size_payload(rows, cols)),
        }),
{
    let mut content: Vec<u8> = Vec::new();
    // size/
    content.push(115);
    content.push(105);
    content.push(122);
    content.push(101);
    content.push(47);
    let rd = u64_to_dec(rows as u64);
    vec_push_all(&mut content, &rd);
    content.push(47);
    let cd = u64_to_dec(cols as u64);
    vec_push_all(&mut content, &cd);
    assert(content@ =~= size_payload(rows, cols));
    Message { mtype: MessageTypeToStream::COMMAND, content: Some(content) }
}

} // verus!
