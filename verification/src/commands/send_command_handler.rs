//! Pure core of the client driver: collecting the response chunks that
//! answer one request, and folding them into the final response.
//!
//! The surrounding loop — sockets, TLS, timeouts — lives outside the
//! library; it feeds decoded messages in and performs what the results ask.

use vstd::prelude::*;

verus! {

use crate::commands::request_or_response::{
    ChunkedRequestOrResponse, ChunkedRequestOrResponseV, ChunkedResponse, ChunkedResponseV,
    ChunkType, Request, Response, ResponseV, StatusCode, parse_chunked, concat_res_payloads,
};
use crate::compress::{zstd_decompress, zstd_decompress_of};
use crate::message::{Message, MessageTypeToStream, MessageV};
use crate::util::{vec_push_all, str_eq};

/// What one batch of decoded messages did to the wait for a response.
#[derive(Copy, Clone, PartialEq, Eq, Structural, Debug)]
pub enum ParseCommandResponseResult {
    /// Nothing decisive: keep reading.
    CanContinue,
    /// The final chunk arrived: the collected chunks are complete.
    ReachedLastChunk,
    /// The response cannot be completed (stray frame or error status).
    Error,
}

/// Why a command failed on the client side.
#[derive(Copy, Clone, PartialEq, Eq, Structural, Debug)]
pub enum CommandError {
    /// No frame arrived within the command timeout.
    Timeout,
    /// The stream could not be read.
    ReadFailed,
    /// A response carried an error status or could not be parsed.
    ResponseError,
    /// The wait ended without a single response chunk.
    NoResponse,
    /// The collected payload did not decompress.
    DecompressFailed,
}

/// One pass over a batch of decoded messages: the response chunks collected
/// so far grow, until a message settles the wait.  A non-command frame ends
/// it with `Error`; a matching response with an error status is appended —
/// its payload carries the error body — and also ends it with `Error`; a
/// stray frame (wrong id, a request, or nothing parsable) stops the pass
/// but the wait goes on; the matching `Last` chunk completes it.
pub open spec fn collect_responses(
    req_mid: Seq<char>,
    msgs: Seq<MessageV<MessageTypeToStream>>,
    acc: Seq<ChunkedResponseV>,
    now: u64,
) -> (Seq<ChunkedResponseV>, ParseCommandResponseResult)
    decreases msgs.len(),
{
    if msgs.len() == 0 {
        (acc, ParseCommandResponseResult::CanContinue)
    } else {
        let m = msgs[0];
        if m.mtype != MessageTypeToStream::COMMAND {
            (acc, ParseCommandResponseResult::Error)
        } else {
            match m.content {
                None => (acc, ParseCommandResponseResult::Error),
                Some(content) => match parse_chunked(content, now) {
                    ChunkedRequestOrResponseV::Request(_) => (
                        acc,
                        ParseCommandResponseResult::CanContinue,
                    ),
                    ChunkedRequestOrResponseV::Nothing => (
                        acc,
                        ParseCommandResponseResult::CanContinue,
                    ),
                    ChunkedRequestOrResponseV::Response(res) => {
                        if res.message_id != req_mid {
                            (acc, ParseCommandResponseResult::CanContinue)
                        } else if res.status_code != StatusCode::Okay {
                            (acc.push(res), ParseCommandResponseResult::Error)
                        } else if res.chunk_type == ChunkType::Last {
                            (acc.push(res), ParseCommandResponseResult::ReachedLastChunk)
                        } else {
                            collect_responses(req_mid, msgs.drop_first(), acc.push(res), now)
                        }
                    },
                },
            }
        }
    }
}

/// Fold one batch of decoded messages into the chunks collected for `req`.
/// A message that settles the wait — stray frame, error status, or the
/// final chunk — stops the pass there; later messages of the batch are not
/// examined.
pub fn parse_command_response_message(
    req: &Request,
    messages: &Vec<Message<MessageTypeToStream>>,
    all_res: &mut Vec<ChunkedResponse>,
    now: u64,
) -> (r: ParseCommandResponseResult)
    ensures
        ({
            let (acc2, res) = collect_responses(
                req.message_id@,
                messages@.map_values(|m: Message<MessageTypeToStream>| m@),
                old(all_res)@.map_values(|c: ChunkedResponse| c@),
                now,
            );
            &&& final(all_res)@.map_values(|c: ChunkedResponse| c@) == acc2
            &&& r == res
        }),
{
    let ghost msgs_v = messages@.map_values(|m: Message<MessageTypeToStream>| m@);
    let n = messages.len();
    let mut i: usize = 0;
    proof {
        assert(msgs_v.skip(0) =~= msgs_v);
    }
    while i < n
        invariant
            0 <= i <= n,
            n == messages@.len(),
            msgs_v == messages@.map_values(|m: Message<MessageTypeToStream>| m@),
            collect_responses(
                req.message_id@,
                msgs_v,
                old(all_res)@.map_values(|c: ChunkedResponse| c@),
                now,
            ) == collect_responses(
                req.message_id@,
                msgs_v.skip(i as int),
                all_res@.map_values(|c: ChunkedResponse| c@),
                now,
            ),
        decreases n - i,
    {
        proof {
            assert(msgs_v.skip(i as int)[0] == msgs_v[i as int]);
            assert(msgs_v.skip(i as int).drop_first() =~= msgs_v.skip(i + 1));
        }
        let message = &messages[i];
        match message.mtype {
            MessageTypeToStream::COMMAND => {},
            _ => {
                return ParseCommandResponseResult::Error;
            },
        }
        let content = match &message.content {
            Some(c) => c,
            None => {
                return ParseCommandResponseResult::Error;
            },
        };
        match ChunkedRequestOrResponse::deserialize(content, now) {
            ChunkedRequestOrResponse::Request(_) => {
                return ParseCommandResponseResult::CanContinue;
            },
            ChunkedRequestOrResponse::Nothing => {
                return ParseCommandResponseResult::CanContinue;
            },
            ChunkedRequestOrResponse::Response(res) => {
                if !str_eq(res.message_id.as_str(), req.message_id.as_str()) {
                    return ParseCommandResponseResult::CanContinue;
                }
                let is_ok = match res.status_code {
                    StatusCode::Okay => true,
                    _ => false,
                };
                if !is_ok {
                    let ghost acc_snap = all_res@.map_values(|c: ChunkedResponse| c@);
                    let ghost res_v = res@;
                    all_res.push(res);
                    proof {
                        assert(all_res@.map_values(|c: ChunkedResponse| c@) =~= acc_snap.push(
                            res_v,
                        ));
                    }
                    return ParseCommandResponseResult::Error;
                }
                let is_last = match res.chunk_type {
                    ChunkType::Last => true,
                    _ => false,
                };
                let ghost acc_snap = all_res@.map_values(|c: ChunkedResponse| c@);
                let ghost res_v = res@;
                all_res.push(res);
                proof {
                    assert(all_res@.map_values(|c: ChunkedResponse| c@) =~= acc_snap.push(res_v));
                }
                if is_last {
                    return ParseCommandResponseResult::ReachedLastChunk;
                }
            },
        }
        i = i + 1;
    }
    proof {
        assert(msgs_v.skip(n as int) =~= Seq::<MessageV<MessageTypeToStream>>::empty());
    }
    ParseCommandResponseResult::CanContinue
}

/// Fold the collected chunks into the final response: their payloads are
/// concatenated in arrival order and decompressed, and the first chunk
/// gives the response its command, id, status and creation time.  An empty
/// collection means no response arrived; bytes that do not decompress fail
/// the command.
pub fn finalize_response(all_res: &Vec<ChunkedResponse>) -> (r: Result<Response, CommandError>)
    ensures
        ({
            let views = all_res@.map_values(|c: ChunkedResponse| c@);
            if views.len() == 0 {
                r == Err::<Response, CommandError>(CommandError::NoResponse)
            } else {
                match zstd_decompress_of(concat_res_payloads(views)) {
                    Some(p) => r is Ok && r->Ok_0@ == (ResponseV {
                        creation_timestamp: views[0].creation_timestamp,
                        cmd: views[0].cmd,
                        message_id: views[0].message_id,
                        status_code: views[0].status_code,
                        payload: p,
                    }),
                    None => r == Err::<Response, CommandError>(CommandError::DecompressFailed),
                }
            }
        }),
{
    let ghost views = all_res@.map_values(|c: ChunkedResponse| c@);
    if all_res.len() == 0 {
        return Err(CommandError::NoResponse);
    }
    let mut compressed: Vec<u8> = Vec::new();
    let mut i: usize = 0;
    proof {
        assert(views.subrange(0, 0) =~= Seq::<ChunkedResponseV>::empty());
        assert(compressed@ =~= concat_res_payloads(views.subrange(0, 0)));
    }
    while i < all_res.len()
        invariant
            0 <= i <= all_res@.len(),
            views == all_res@.map_values(|c: ChunkedResponse| c@),
            compressed@ == concat_res_payloads(views.subrange(0, i as int)),
        decreases all_res@.len() - i,
    {
        vec_push_all(&mut compressed, &all_res[i].payload);
        proof {
            let prev = views.subrange(0, i as int);
            let cur = views.subrange(0, i + 1);
            assert(cur.drop_last() =~= prev);
            assert(cur.last() == views[i as int]);
        }
        i = i + 1;
    }
    proof {
        assert(views.subrange(0, views.len() as int) =~= views);
    }
    let payload = match zstd_decompress(&compressed) {
        Some(p) => p,
        None => {
            return Err(CommandError::DecompressFailed);
        },
    };
    let first = &all_res[0];
    Ok(
        Response {
            creation_timestamp: first.creation_timestamp,
            cmd: first.cmd.clone(),
            message_id: first.message_id.clone(),
            status_code: first.status_code,
            payload,
        },
    )
}

} // verus!
