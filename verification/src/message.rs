//! Outer stream codec.
//!
//! A frame on the wire is `base64(body) ++ "-kkk" ++ "---\n"` where `kkk`
//! names the kind of the message (`ooo` terminal output, `hhh` header,
//! `ccc` control).  A bare `"---\n"` is a keepalive and carries no message.
//! Decoding keeps an accumulator across reads: it splits on `"---\n"`,
//! retains the trailing split as the new accumulator, and surfaces every
//! earlier split that ends in a recognized kind and decodes as base64;
//! anything else is dropped.

use vstd::prelude::*;

verus! {

use crate::util::{vec_push_all, vec_subrange};

/// Kind of a message handed to the in-process dispatcher.
#[derive(Clone, Copy, PartialEq, Eq, Structural, Debug)]
pub enum MessageTypeToCmd {
    STDIN,
    COMMAND,
}

/// Kind of a message bound for (or taken from) the stream.
#[derive(Clone, Copy, PartialEq, Eq, Structural, Debug)]
pub enum MessageTypeToStream {
    STDOUT,
    HEADER,
    COMMAND,
}

/// One message of the outer codec; `content` is opaque body bytes.
#[derive(Debug, PartialEq)]
pub struct Message<T> {
    pub mtype: T,
    pub content: Option<Vec<u8>>,
}

/// Mathematical value of a message: its kind and its body bytes.
pub struct MessageV<T> {
    pub mtype: T,
    pub content: Option<Seq<u8>>,
}

impl<T: Copy> View for Message<T> {
    type V = MessageV<T>;

    open spec fn view(&self) -> MessageV<T> {
        MessageV {
            mtype: self.mtype,
            content: match self.content {
                Some(v) => Some(v@),
                None => None,
            },
        }
    }
}

impl<T: Copy> Clone for Message<T> {
    fn clone(&self) -> (r: Self)
        ensures
            r@ == self@,
    {
        let content = match &self.content {
            Some(v) => {
                let mut c: Vec<u8> = Vec::new();
                vec_push_all(&mut c, v);
                assert(c@ =~= v@);
                Some(c)
            },
            None => None,
        };
        Message { mtype: self.mtype, content }
    }
}

/// The four bytes `"---\n"` that end every frame.
pub open spec fn frame_terminator() -> Seq<u8> {
    seq![45u8, 45u8, 45u8, 10u8]
}

/// The four-byte trailer naming a message kind: `-ooo`, `-hhh` or `-ccc`.
pub open spec fn kind_trailer(t: MessageTypeToStream) -> Seq<u8> {
    match t {
        MessageTypeToStream::STDOUT => seq![45u8, 111u8, 111u8, 111u8],
        MessageTypeToStream::HEADER => seq![45u8, 104u8, 104u8, 104u8],
        MessageTypeToStream::COMMAND => seq![45u8, 99u8, 99u8, 99u8],
    }
}

/// What the base64 engine's `encode` returns on the given bytes.
pub uninterp spec fn b64_encode_of(bytes: Seq<u8>) -> Seq<u8>;

/// What the base64 engine's `decode` returns on the given text, `None`
/// standing for a decode error.
pub uninterp spec fn b64_decode_of(text: Seq<u8>) -> Option<Seq<u8>>;

/// Bytes of the standard base64 alphabet, plus the padding byte `=`.
pub open spec fn is_base64_byte(b: u8) -> bool {
    (65 <= b <= 90) || (97 <= b <= 122) || (48 <= b <= 57) || b == 43 || b == 47 || b == 61
}

/// Relies on base64's STANDARD engine: `encode` writes only bytes of the
/// standard alphabet (RFC 4648: `A`-`Z`, `a`-`z`, `0`-`9`, `+`, `/`) and `=`
/// padding, and `decode` restores exactly the bytes that were encoded.
#[verifier::external_body]
fn base64_encode(content: &Vec<u8>) -> (r: Vec<u8>)
    requires
        content@.len() < 0x1000_0000_0000_0000,
    ensures
        r@ == b64_encode_of(content@),
        b64_decode_of(r@) == Some(content@),
        forall|i: int| 0 <= i < r@.len() ==> is_base64_byte(#[trigger] r@[i]),
{
    base64::Engine::encode(&base64::engine::general_purpose::STANDARD, content).into_bytes()
}

/// Relies on base64's STANDARD engine `decode`: its result is a function of
/// the input text alone.
#[verifier::external_body]
fn base64_decode(text: &Vec<u8>) -> (r: Option<Vec<u8>>)
    ensures
        r is Some <==> b64_decode_of(text@) is Some,
        r is Some ==> r->0@ == b64_decode_of(text@)->0,
{
    match base64::Engine::decode(&base64::engine::general_purpose::STANDARD, text) {
        Ok(v) => Some(v),
        Err(_) => None,
    }
}

/// One fully framed message: base64 body, kind trailer, terminator.
pub open spec fn encoded_frame(t: MessageTypeToStream, body: Seq<u8>) -> Seq<u8> {
    b64_encode_of(body) + kind_trailer(t) + frame_terminator()
}

/// The frame terminator starts at position `i` of `s`.
pub open spec fn is_term_at(s: Seq<u8>, i: int) -> bool {
    0 <= i && i + 4 <= s.len() && s[i] == 45u8 && s[i + 1] == 45u8 && s[i + 2] == 45u8 && s[i + 3]
        == 10u8
}

/// Splitting `s` on the terminator, scanning from `j` with the current part
/// beginning at `start`; the final element is the unterminated remainder.
pub open spec fn split_terms_aux(s: Seq<u8>, start: int, j: int) -> Seq<Seq<u8>>
    recommends
        0 <= start <= j <= s.len(),
    decreases s.len() - j,
    when 0 <= j <= s.len()
{
    if j + 4 > s.len() {
        seq![s.subrange(start, s.len() as int)]
    } else if is_term_at(s, j) {
        seq![s.subrange(start, j)] + split_terms_aux(s, j + 4, j + 4)
    } else {
        split_terms_aux(s, start, j + 1)
    }
}

/// The splits of `s` on `"---\n"`; all but the last are candidate frames,
/// the last is the remainder to accumulate.
pub open spec fn split_terms(s: Seq<u8>) -> Seq<Seq<u8>> {
    split_terms_aux(s, 0, 0)
}

/// The message a candidate split decodes to: it must end in a recognized
/// kind trailer and its leading part must decode as base64.
pub open spec fn parse_candidate(p: Seq<u8>) -> Option<(MessageTypeToStream, Seq<u8>)> {
    if p.len() >= 4 {
        let body = p.subrange(0, p.len() - 4);
        let trail = p.subrange(p.len() - 4, p.len() as int);
        let kind: Option<MessageTypeToStream> = if trail == kind_trailer(
            MessageTypeToStream::STDOUT,
        ) {
            Some(MessageTypeToStream::STDOUT)
        } else if trail == kind_trailer(MessageTypeToStream::HEADER) {
            Some(MessageTypeToStream::HEADER)
        } else if trail == kind_trailer(MessageTypeToStream::COMMAND) {
            Some(MessageTypeToStream::COMMAND)
        } else {
            None
        };
        match kind {
            Some(t) => match b64_decode_of(body) {
                Some(d) => Some((t, d)),
                None => None,
            },
            None => None,
        }
    } else {
        None
    }
}

/// The messages carried by a sequence of candidate splits, in order,
/// unrecognized candidates dropped.
pub open spec fn decoded_msgs(parts: Seq<Seq<u8>>) -> Seq<(MessageTypeToStream, Seq<u8>)>
    decreases parts.len(),
{
    if parts.len() == 0 {
        Seq::empty()
    } else {
        match parse_candidate(parts[0]) {
            Some(m) => seq![m] + decoded_msgs(parts.drop_first()),
            None => decoded_msgs(parts.drop_first()),
        }
    }
}

/// Kind and body of each decoded message, in order.
pub open spec fn msgs_view(msgs: Seq<Message<MessageTypeToStream>>) -> Seq<
    (MessageTypeToStream, Seq<u8>),
> {
    msgs.map_values(|m: Message<MessageTypeToStream>| (m.mtype, m.content->0@))
}

proof fn lemma_decoded_msgs_concat(a: Seq<Seq<u8>>, b: Seq<Seq<u8>>)
    ensures
        decoded_msgs(a + b) == decoded_msgs(a) + decoded_msgs(b),
    decreases a.len(),
{
    if a.len() == 0 {
        assert(a + b =~= b);
        assert(decoded_msgs(a) =~= Seq::empty());
        assert(decoded_msgs(a) + decoded_msgs(b) =~= decoded_msgs(b));
    } else {
        lemma_decoded_msgs_concat(a.drop_first(), b);
        assert((a + b).drop_first() =~= a.drop_first() + b);
        assert((a + b)[0] == a[0]);
        match parse_candidate(a[0]) {
            Some(m) => {
                assert(decoded_msgs(a + b) =~= seq![m] + (decoded_msgs(a.drop_first())
                    + decoded_msgs(b)));
                assert(decoded_msgs(a) + decoded_msgs(b) =~= seq![m] + (decoded_msgs(
                    a.drop_first(),
                ) + decoded_msgs(b)));
            },
            None => {},
        }
    }
}

/// Split an accumulated byte stream into frames.  `buffer` is the
/// per-connection accumulator: the unterminated tail stays in it, every
/// terminated candidate either decodes to a message or is dropped.
/// A bare keepalive (`"---\n"` alone) therefore surfaces no message.
pub fn separate_messages(buffer: &mut Vec<u8>, new_data: &Vec<u8>) -> (msgs: Vec<
    Message<MessageTypeToStream>,
>)
    ensures
        ({
            let parts = split_terms(old(buffer)@ + new_data@);
            &&& final(buffer)@ == parts.last()
            &&& msgs_view(msgs@) == decoded_msgs(parts.drop_last())
            &&& forall|i: int| 0 <= i < msgs@.len() ==> (#[trigger] msgs@[i]).content is Some
        }),
{
    let ghost whole0: Seq<u8> = buffer@ + new_data@;
    let mut whole: Vec<u8> = Vec::new();
    vec_push_all(&mut whole, buffer);
    vec_push_all(&mut whole, new_data);
    assert(whole@ =~= whole0);

    let n = whole.len();
    let mut start: usize = 0;
    let mut j: usize = 0;
    let mut msgs: Vec<Message<MessageTypeToStream>> = Vec::new();
    let ghost mut parts_done: Seq<Seq<u8>> = Seq::empty();

    assert(split_terms(whole0) == parts_done + split_terms_aux(whole0, 0, 0)) by {
        assert(parts_done + split_terms_aux(whole0, 0, 0) =~= split_terms_aux(whole0, 0, 0));
    }

    while n - j >= 4
        invariant
            whole@ == whole0,
            n == whole0.len(),
            0 <= start <= j <= n,
            split_terms(whole0) == parts_done + split_terms_aux(whole0, start as int, j as int),
            decoded_msgs(parts_done) == msgs_view(msgs@),
            forall|i: int| 0 <= i < msgs@.len() ==> (#[trigger] msgs@[i]).content is Some,
        decreases n - j,
    {
        if whole[j] == 45 && whole[j + 1] == 45 && whole[j + 2] == 45 && whole[j + 3] == 10 {
            assert(is_term_at(whole0, j as int));
            let part = vec_subrange(&whole, start, j);
            let ghost part0 = whole0.subrange(start as int, j as int);
            let pl = part.len();
            if pl >= 4 {
                let t0 = part[pl - 4];
                let t1 = part[pl - 3];
                let t2 = part[pl - 2];
                let t3 = part[pl - 1];
                let kind: Option<MessageTypeToStream> = if t0 == 45 && t1 == 111 && t2 == 111 && t3
                    == 111 {
                    Some(MessageTypeToStream::STDOUT)
                } else if t0 == 45 && t1 == 104 && t2 == 104 && t3 == 104 {
                    Some(MessageTypeToStream::HEADER)
                } else if t0 == 45 && t1 == 99 && t2 == 99 && t3 == 99 {
                    Some(MessageTypeToStream::COMMAND)
                } else {
                    None
                };
                proof {
                    let trail = part0.subrange(pl - 4, pl as int);
                    match kind {
                        Some(t) => {
                            assert(trail =~= kind_trailer(t));
                        },
                        None => {
                            assert(trail != kind_trailer(MessageTypeToStream::STDOUT)
                                && trail != kind_trailer(MessageTypeToStream::HEADER) && trail
                                != kind_trailer(MessageTypeToStream::COMMAND)) by {
                                assert(trail[0] == t0 && trail[1] == t1 && trail[2] == t2
                                    && trail[3] == t3);
                            }
                        },
                    }
                }
                match kind {
                    Some(t) => {
                        let body = vec_subrange(&part, 0, pl - 4);
                        assert(body@ =~= part0.subrange(0, pl - 4));
                        match base64_decode(&body) {
                            Some(d) => {
                                let ghost dv = d@;
                                msgs.push(Message { mtype: t, content: Some(d) });
                                proof {
                                    assert(parse_candidate(part0) == Some((t, dv)));
                                    assert(msgs_view(msgs@) =~= msgs_view(msgs@.drop_last()).push(
                                        (t, dv),
                                    ));
                                }
                            },
                            None => {
                                assert(parse_candidate(part0) is None);
                            },
                        }
                    },
                    None => {
                        assert(parse_candidate(part0) is None);
                    },
                }
            } else {
                assert(parse_candidate(part0) is None);
            }
            proof {
                let old_parts = parts_done;
                parts_done = parts_done.push(part0);
                assert(parts_done =~= old_parts + seq![part0]);
                lemma_decoded_msgs_concat(old_parts, seq![part0]);
                assert(decoded_msgs(seq![part0]) == match parse_candidate(part0) {
                    Some(m) => seq![m],
                    None => Seq::<(MessageTypeToStream, Seq<u8>)>::empty(),
                }) by {
                    assert(seq![part0].drop_first() =~= Seq::<Seq<u8>>::empty());
                    assert(decoded_msgs(Seq::<Seq<u8>>::empty()) == Seq::<
                        (MessageTypeToStream, Seq<u8>),
                    >::empty());
                    match parse_candidate(part0) {
                        Some(m) => {
                            assert(decoded_msgs(seq![part0]) =~= seq![m]);
                        },
                        None => {},
                    }
                }
                assert(decoded_msgs(parts_done) =~= msgs_view(msgs@));
                assert(split_terms_aux(whole0, start as int, j as int) == seq![part0]
                    + split_terms_aux(whole0, j + 4, j + 4));
                assert(parts_done + split_terms_aux(whole0, j + 4, j + 4) =~= old_parts + (
                seq![part0] + split_terms_aux(whole0, j + 4, j + 4)));
            }
            start = j + 4;
            j = j + 4;
        } else {
            proof {
                assert(!is_term_at(whole0, j as int));
                assert(split_terms_aux(whole0, start as int, j as int) == split_terms_aux(
                    whole0,
                    start as int,
                    j + 1,
                ));
            }
            j = j + 1;
        }
    }
    assert(split_terms_aux(whole0, start as int, j as int) == seq![
        whole0.subrange(start as int, n as int),
    ]);
    let remainder = vec_subrange(&whole, start, n);
    *buffer = remainder;
    proof {
        let parts = split_terms(whole0);
        assert(parts =~= parts_done.push(whole0.subrange(start as int, n as int)));
        assert(parts.drop_last() =~= parts_done);
        assert(parts.last() == whole0.subrange(start as int, n as int));
    }
    msgs
}

/// Frame one message for the stream: `base64(body) ++ "-kkk" ++ "---\n"`.
/// A message without content yields nothing.
///
/// The second clause of the `Some` case is the frame round trip: fed back
/// through the decoder's model, the encoded frame surfaces exactly the
/// encoded message and leaves an empty accumulator.
pub fn encode_message(msg: &Message<MessageTypeToStream>) -> (r: Option<Vec<u8>>)
    requires
        msg.content is Some ==> msg.content->0@.len() < 0x1000_0000_0000_0000,
    ensures
        match msg.content {
            Some(content) => r is Some && r->0@ == encoded_frame(msg.mtype, content@) && ({
                let parts = split_terms(r->0@);
                &&& parts.last() =~= Seq::<u8>::empty()
                &&& decoded_msgs(parts.drop_last()) =~= seq![(msg.mtype, content@)]
            }),
            None => r is None,
        },
{
    match &msg.content {
        None => None,
        Some(content) => {
            let mut frame = base64_encode(content);
            let ghost b64 = frame@;
            let k0: u8 = match msg.mtype {
                MessageTypeToStream::STDOUT => 111,
                MessageTypeToStream::HEADER => 104,
                MessageTypeToStream::COMMAND => 99,
            };
            frame.push(45);
            frame.push(k0);
            frame.push(k0);
            frame.push(k0);
            frame.push(45);
            frame.push(45);
            frame.push(45);
            frame.push(10);
            proof {
                let fv = frame@;
                assert(fv =~= b64 + kind_trailer(msg.mtype) + frame_terminator());
                lemma_encoded_frame_decodes(msg.mtype, msg.content->0@, b64);
            }
            Some(frame)
        },
    }
}

/// A bare keepalive — the four terminator bytes alone reaching a fresh
/// accumulator — surfaces no message and leaves the accumulator empty.
pub proof fn lemma_keepalive_surfaces_nothing()
    ensures
        ({
            let parts = split_terms(frame_terminator());
            &&& decoded_msgs(parts.drop_last()) =~= Seq::<(MessageTypeToStream, Seq<u8>)>::empty()
            &&& parts.last() =~= Seq::<u8>::empty()
        }),
{
    let s = frame_terminator();
    assert(is_term_at(s, 0));
    let rest = s.subrange(4, 4);
    assert(split_terms_aux(s, 0, 0) == seq![s.subrange(0, 0)] + split_terms_aux(s, 4, 4));
    let parts = split_terms(s);
    assert(parts =~= seq![s.subrange(0, 0), s.subrange(4, 4)]);
    assert(parts.drop_last() =~= seq![s.subrange(0, 0)]);
    assert(parse_candidate(s.subrange(0, 0)) is None);
    assert(seq![s.subrange(0, 0)].drop_first() =~= Seq::<Seq<u8>>::empty());
    assert(decoded_msgs(Seq::<Seq<u8>>::empty()) == Seq::<(MessageTypeToStream, Seq<u8>)>::empty());
}

/// Scanning from `i` finds no terminator before `t`, and one at `t`.
proof fn lemma_first_term_scan(s: Seq<u8>, start: int, i: int, t: int)
    requires
        0 <= start <= i <= t,
        is_term_at(s, t),
        forall|k: int| i <= k < t ==> !is_term_at(s, k),
    ensures
        split_terms_aux(s, start, i) == seq![s.subrange(start, t)] + split_terms_aux(
            s,
            t + 4,
            t + 4,
        ),
    decreases t - i,
{
    if i == t {
    } else {
        lemma_first_term_scan(s, start, i + 1, t);
    }
}

/// No terminator occurs at or after `i`; the scan returns one final part.
proof fn lemma_no_term_scan(s: Seq<u8>, start: int, i: int)
    requires
        0 <= start <= i <= s.len(),
        forall|k: int| i <= k ==> !is_term_at(s, k),
    ensures
        split_terms_aux(s, start, i) == seq![s.subrange(start, s.len() as int)],
    decreases s.len() - i,
{
    if i + 4 > s.len() {
    } else {
        lemma_no_term_scan(s, start, i + 1);
    }
}

proof fn lemma_encoded_frame_decodes(t: MessageTypeToStream, body: Seq<u8>, b64: Seq<u8>)
    requires
        b64 == b64_encode_of(body),
        b64_decode_of(b64) == Some(body),
        forall|i: int| 0 <= i < b64.len() ==> is_base64_byte(#[trigger] b64[i]),
    ensures
        ({
            let fv = b64 + kind_trailer(t) + frame_terminator();
            let parts = split_terms(fv);
            &&& parts.last() =~= Seq::<u8>::empty()
            &&& decoded_msgs(parts.drop_last()) =~= seq![(t, body)]
        }),
{
    let fv = b64 + kind_trailer(t) + frame_terminator();
    let cl = b64.len() as int + 4;
    // No terminator inside the candidate: the only dash past the base64
    // bytes is the first trailer byte, and it is followed by a kind letter.
    assert forall|k: int| 0 <= k < cl implies !is_term_at(fv, k) by {
        if k + 4 <= fv.len() {
            if k < b64.len() {
                assert(fv[k] == b64[k]);
                assert(is_base64_byte(b64[k]));
            } else {
                // k in the trailer: k == b64.len() has fv[k+1] a kind letter,
                // later positions have fewer than four bytes before the end
                // or start with a letter.
                if k == b64.len() {
                    assert(fv[k + 1] != 45u8);
                }
            }
        }
    }
    assert(is_term_at(fv, cl));
    lemma_first_term_scan(fv, 0, 0, cl);
    let rest = fv.subrange(cl + 4, fv.len() as int);
    assert(rest =~= Seq::<u8>::empty());
    assert forall|k: int| 0 <= k implies !(#[trigger] is_term_at(rest, k)) by {
        assert(rest.len() == 0);
    }
    lemma_no_term_scan(rest, 0, 0);
    assert(split_terms_aux(fv, cl + 4, cl + 4) == split_terms_aux(rest, 0, 0)) by {
        lemma_split_terms_aux_shift(fv, cl + 4, cl + 4);
    }
    let cand = fv.subrange(0, cl);
    let parts = split_terms(fv);
    assert(parts =~= seq![cand, Seq::<u8>::empty()]);
    assert(cand.subrange(0, cand.len() - 4) =~= b64);
    assert(cand.subrange(cand.len() - 4, cand.len() as int) =~= kind_trailer(t));
    assert(kind_trailer(t) != kind_trailer(MessageTypeToStream::STDOUT) ==> t
        != MessageTypeToStream::STDOUT);
    assert(parse_candidate(cand) == Some((t, body))) by {
        let trail = cand.subrange(cand.len() - 4, cand.len() as int);
        match t {
            MessageTypeToStream::STDOUT => {},
            MessageTypeToStream::HEADER => {
                assert(trail != kind_trailer(MessageTypeToStream::STDOUT)) by {
                    assert(trail[1] == 104u8);
                }
            },
            MessageTypeToStream::COMMAND => {
                assert(trail != kind_trailer(MessageTypeToStream::STDOUT)) by {
                    assert(trail[1] == 99u8);
                }
                assert(trail != kind_trailer(MessageTypeToStream::HEADER)) by {
                    assert(trail[1] == 99u8);
                }
            },
        }
    }
    assert(parts.drop_last() =~= seq![cand]);
    assert(decoded_msgs(seq![cand]) =~= seq![(t, body)]) by {
        assert(seq![cand].drop_first() =~= Seq::<Seq<u8>>::empty());
        assert(decoded_msgs(Seq::<Seq<u8>>::empty()) == Seq::<
            (MessageTypeToStream, Seq<u8>),
        >::empty());
    }
}

/// Scanning a suffix equals scanning the suffix as its own sequence.
proof fn lemma_split_terms_aux_shift(s: Seq<u8>, base: int, j: int)
    requires
        0 <= base <= j <= s.len(),
    ensures
        split_terms_aux(s, base, j) == split_terms_aux(
            s.subrange(base, s.len() as int),
            0,
            j - base,
        ),
    decreases s.len() - j,
{
    let sub = s.subrange(base, s.len() as int);
    if j + 4 > s.len() {
        assert(s.subrange(base, s.len() as int) =~= sub.subrange(0, sub.len() as int));
    } else if is_term_at(s, j) {
        assert(is_term_at(sub, j - base));
        assert(s.subrange(base, j) =~= sub.subrange(0, j - base));
        lemma_split_terms_aux_shift(s, j + 4, j + 4);
        lemma_split_terms_aux_shift(sub, j - base + 4, j - base + 4);
        assert(sub.subrange(j - base + 4, sub.len() as int) =~= s.subrange(
            j + 4,
            s.len() as int,
        ));
    } else {
        assert(!is_term_at(sub, j - base));
        lemma_split_terms_aux_shift(s, base, j + 1);
    }
}

} // verus!
