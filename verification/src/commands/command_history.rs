//! Reassembly of chunked requests and responses.
//!
//! Two tables — one per direction — accumulate the payloads of chunks that
//! share a message id.  A `Last` chunk closes its message: the entry leaves
//! the table and the reassembled message is surfaced.  A lone `Last` chunk
//! is surfaced at once without touching the table.

use vstd::prelude::*;

verus! {

use crate::commands::request_or_response::{
    ChunkedRequestOrResponse, ChunkedRequestOrResponseV, ChunkedRequestV, ChunkedResponseV,
    ChunkType, Request, RequestV, Response, ResponseV, RequestOrResponse, RequestOrResponseV,
    parse_chunked, concat_req_payloads, concat_res_payloads,
};
use crate::util::{vec_push_all, str_eq};

/// The reassembler: requests and responses in flight, keyed by message id.
pub struct CommandHistory {
    past_requests: Vec<Request>,
    past_responses: Vec<Response>,
}

/// Mathematical value of the reassembler: the two tables in insertion order.
pub struct CommandHistoryV {
    pub requests: Seq<RequestV>,
    pub responses: Seq<ResponseV>,
}

impl View for CommandHistory {
    type V = CommandHistoryV;

    closed spec fn view(&self) -> CommandHistoryV {
        CommandHistoryV {
            requests: self.past_requests@.map_values(|r: Request| r@),
            responses: self.past_responses@.map_values(|r: Response| r@),
        }
    }
}

/// Position of the first in-flight request with the given id, from `i` on.
pub open spec fn find_req_from(s: Seq<RequestV>, mid: Seq<char>, i: int) -> Option<int>
    decreases s.len() - i,
    when 0 <= i <= s.len()
{
    if i >= s.len() {
        None
    } else if s[i].message_id == mid {
        Some(i)
    } else {
        find_req_from(s, mid, i + 1)
    }
}

/// Position of the first in-flight response with the given id, from `i` on.
pub open spec fn find_res_from(s: Seq<ResponseV>, mid: Seq<char>, i: int) -> Option<int>
    decreases s.len() - i,
    when 0 <= i <= s.len()
{
    if i >= s.len() {
        None
    } else if s[i].message_id == mid {
        Some(i)
    } else {
        find_res_from(s, mid, i + 1)
    }
}

/// One reassembly step on the request table: the new table and the message
/// emitted, if the chunk closed one.  An existing entry absorbs the chunk's
/// payload; a fresh id opens an entry unless the chunk is already `Last`.
pub open spec fn request_step(tbl: Seq<RequestV>, c: ChunkedRequestV) -> (
    Seq<RequestV>,
    Option<RequestV>,
) {
    match find_req_from(tbl, c.message_id, 0) {
        Some(i) => {
            let merged = RequestV {
                cmd: tbl[i].cmd,
                message_id: tbl[i].message_id,
                target: tbl[i].target,
                payload: tbl[i].payload + c.payload,
            };
            match c.chunk_type {
                ChunkType::Last => (tbl.remove(i), Some(merged)),
                ChunkType::NotLast => (tbl.update(i, merged), None),
            }
        },
        None => {
            let fresh = RequestV {
                cmd: c.cmd,
                message_id: c.message_id,
                target: c.target,
                payload: c.payload,
            };
            match c.chunk_type {
                ChunkType::Last => (tbl, Some(fresh)),
                ChunkType::NotLast => (tbl.push(fresh), None),
            }
        },
    }
}

/// One reassembly step on the response table.
pub open spec fn response_step(tbl: Seq<ResponseV>, c: ChunkedResponseV) -> (
    Seq<ResponseV>,
    Option<ResponseV>,
) {
    match find_res_from(tbl, c.message_id, 0) {
        Some(i) => {
            let merged = ResponseV {
                creation_timestamp: tbl[i].creation_timestamp,
                cmd: tbl[i].cmd,
                message_id: tbl[i].message_id,
                status_code: tbl[i].status_code,
                payload: tbl[i].payload + c.payload,
            };
            match c.chunk_type {
                ChunkType::Last => (tbl.remove(i), Some(merged)),
                ChunkType::NotLast => (tbl.update(i, merged), None),
            }
        },
        None => {
            let fresh = ResponseV {
                creation_timestamp: c.creation_timestamp,
                cmd: c.cmd,
                message_id: c.message_id,
                status_code: c.status_code,
                payload: c.payload,
            };
            match c.chunk_type {
                ChunkType::Last => (tbl, Some(fresh)),
                ChunkType::NotLast => (tbl.push(fresh), None),
            }
        },
    }
}

fn find_request_pos(reqs: &Vec<Request>, mid: &String) -> (r: Option<usize>)
    ensures
        match r {
            Some(i) => 0 <= i < reqs@.len() && reqs@[i as int]@.message_id == mid@ && forall|j: int|
                0 <= j < i ==> reqs@[j]@.message_id != mid@,
            None => forall|j: int| 0 <= j < reqs@.len() ==> reqs@[j]@.message_id != mid@,
        },
{
    let mut i: usize = 0;
    while i < reqs.len()
        invariant
            0 <= i <= reqs@.len(),
            forall|j: int| 0 <= j < i ==> reqs@[j]@.message_id != mid@,
        decreases reqs@.len() - i,
    {
        if str_eq(reqs[i].message_id.as_str(), mid.as_str()) {
            return Some(i);
        }
        i = i + 1;
    }
    None
}

fn find_response_pos(ress: &Vec<Response>, mid: &String) -> (r: Option<usize>)
    ensures
        match r {
            Some(i) => 0 <= i < ress@.len() && ress@[i as int]@.message_id == mid@ && forall|j: int|
                0 <= j < i ==> ress@[j]@.message_id != mid@,
            None => forall|j: int| 0 <= j < ress@.len() ==> ress@[j]@.message_id != mid@,
        },
{
    let mut i: usize = 0;
    while i < ress.len()
        invariant
            0 <= i <= ress@.len(),
            forall|j: int| 0 <= j < i ==> ress@[j]@.message_id != mid@,
        decreases ress@.len() - i,
    {
        if str_eq(ress[i].message_id.as_str(), mid.as_str()) {
            return Some(i);
        }
        i = i + 1;
    }
    None
}

proof fn lemma_find_req_found(s: Seq<RequestV>, mid: Seq<char>, from: int, i: int)
    requires
        0 <= from <= i < s.len(),
        s[i].message_id == mid,
        forall|j: int| from <= j < i ==> s[j].message_id != mid,
    ensures
        find_req_from(s, mid, from) == Some(i),
    decreases i - from,
{
    if from < i {
        lemma_find_req_found(s, mid, from + 1, i);
    }
}

proof fn lemma_find_req_none(s: Seq<RequestV>, mid: Seq<char>, from: int)
    requires
        0 <= from <= s.len(),
        forall|j: int| from <= j < s.len() ==> s[j].message_id != mid,
    ensures
        find_req_from(s, mid, from) is None,
    decreases s.len() - from,
{
    if from < s.len() {
        lemma_find_req_none(s, mid, from + 1);
    }
}

proof fn lemma_find_res_found(s: Seq<ResponseV>, mid: Seq<char>, from: int, i: int)
    requires
        0 <= from <= i < s.len(),
        s[i].message_id == mid,
        forall|j: int| from <= j < i ==> s[j].message_id != mid,
    ensures
        find_res_from(s, mid, from) == Some(i),
    decreases i - from,
{
    if from < i {
        lemma_find_res_found(s, mid, from + 1, i);
    }
}

proof fn lemma_find_res_none(s: Seq<ResponseV>, mid: Seq<char>, from: int)
    requires
        0 <= from <= s.len(),
        forall|j: int| from <= j < s.len() ==> s[j].message_id != mid,
    ensures
        find_res_from(s, mid, from) is None,
    decreases s.len() - from,
{
    if from < s.len() {
        lemma_find_res_none(s, mid, from + 1);
    }
}

/// Folding a whole train of parsed request chunks into the table, in order:
/// the table afterwards, and the reassembled requests emitted on the way.
pub open spec fn run_request_chunks(tbl: Seq<RequestV>, chunks: Seq<ChunkedRequestV>) -> (
    Seq<RequestV>,
    Seq<RequestV>,
)
    decreases chunks.len(),
{
    if chunks.len() == 0 {
        (tbl, Seq::empty())
    } else {
        let (t1, e1) = request_step(tbl, chunks[0]);
        let (t2, es) = run_request_chunks(t1, chunks.drop_first());
        (
            t2,
            match e1 {
                Some(r) => seq![r] + es,
                None => es,
            },
        )
    }
}

proof fn lemma_concat_req_first(s: Seq<ChunkedRequestV>)
    requires
        s.len() > 0,
    ensures
        concat_req_payloads(s) == s[0].payload + concat_req_payloads(s.drop_first()),
    decreases s.len(),
{
    if s.len() == 1 {
        assert(s.drop_last() =~= Seq::<ChunkedRequestV>::empty());
        assert(s.drop_first() =~= Seq::<ChunkedRequestV>::empty());
        assert(s.last() == s[0]);
        assert(concat_req_payloads(s) =~= s[0].payload + concat_req_payloads(s.drop_first()));
    } else {
        lemma_concat_req_first(s.drop_last());
        assert(s.drop_last().drop_first() =~= s.drop_first().drop_last());
        assert(s.drop_first().last() == s.last());
        assert(s.drop_last()[0] == s[0]);
        assert(concat_req_payloads(s) =~= s[0].payload + concat_req_payloads(s.drop_first()));
    }
}

/// Reassembly law: a train of chunks sharing one message id, with exactly
/// one `Last` chunk standing at its end, fed to a table that holds no entry
/// for that id, emits exactly one request — its payload the concatenation of
/// the chunk payloads in arrival order, its command, id and target those of
/// the first chunk — and leaves the table as it was.
pub proof fn lemma_reassembly_concatenates(tbl0: Seq<RequestV>, chunks: Seq<ChunkedRequestV>)
    requires
        chunks.len() > 0,
        forall|k: int|
            0 <= k < chunks.len() ==> (#[trigger] chunks[k]).message_id == chunks[0].message_id,
        forall|k: int|
            0 <= k < chunks.len() ==> (((#[trigger] chunks[k]).chunk_type == ChunkType::Last) <==> k
                == chunks.len() - 1),
        forall|i: int| 0 <= i < tbl0.len() ==> (#[trigger] tbl0[i]).message_id != chunks[0].message_id,
    ensures
        ({
            let (t, es) = run_request_chunks(tbl0, chunks);
            &&& t == tbl0
            &&& es.len() == 1
            &&& es[0].payload == concat_req_payloads(chunks)
            &&& es[0].cmd == chunks[0].cmd
            &&& es[0].message_id == chunks[0].message_id
            &&& es[0].target == chunks[0].target
        }),
{
    let c0 = chunks[0];
    lemma_find_req_none(tbl0, c0.message_id, 0);
    let fresh = RequestV {
        cmd: c0.cmd,
        message_id: c0.message_id,
        target: c0.target,
        payload: c0.payload,
    };
    if chunks.len() == 1 {
        assert(c0.chunk_type == ChunkType::Last);
        let (t1, e1) = request_step(tbl0, c0);
        assert(t1 == tbl0 && e1 == Some(fresh));
        assert(chunks.drop_first() =~= Seq::<ChunkedRequestV>::empty());
        assert(run_request_chunks(t1, chunks.drop_first()) == (t1, Seq::<RequestV>::empty()));
        let (t, es) = run_request_chunks(tbl0, chunks);
        assert(es == seq![fresh] + Seq::<RequestV>::empty());
        assert(es =~= seq![fresh]);
        assert(chunks.drop_last() =~= Seq::<ChunkedRequestV>::empty());
        assert(concat_req_payloads(Seq::<ChunkedRequestV>::empty()) == Seq::<u8>::empty());
        assert(chunks.last() == c0);
        assert(concat_req_payloads(chunks) =~= c0.payload);
    } else {
        assert(c0.chunk_type == ChunkType::NotLast);
        let (t1, e1) = request_step(tbl0, c0);
        assert(t1 == tbl0.push(fresh) && e1 is None);
        let rest = chunks.drop_first();
        assert forall|k: int| 0 <= k < rest.len() implies (#[trigger] rest[k]).message_id
            == fresh.message_id by {
            assert(rest[k] == chunks[k + 1]);
        }
        assert forall|k: int| 0 <= k < rest.len() implies (((#[trigger] rest[k]).chunk_type
            == ChunkType::Last) <==> k == rest.len() - 1) by {
            assert(rest[k] == chunks[k + 1]);
        }
        lemma_run_with_open_entry(tbl0, fresh, rest);
        lemma_concat_req_first(chunks);
        let (t, es) = run_request_chunks(tbl0, chunks);
        assert(fresh.payload + concat_req_payloads(rest) =~= concat_req_payloads(chunks));
    }
}

/// With an open entry for the id sitting at the end of the table, a train of
/// matching chunks ending in `Last` closes that entry, appending every chunk
/// payload in order.
proof fn lemma_run_with_open_entry(tbl0: Seq<RequestV>, acc: RequestV, chunks: Seq<
    ChunkedRequestV,
>)
    requires
        chunks.len() > 0,
        forall|k: int| 0 <= k < chunks.len() ==> (#[trigger] chunks[k]).message_id == acc.message_id,
        forall|k: int|
            0 <= k < chunks.len() ==> (((#[trigger] chunks[k]).chunk_type == ChunkType::Last) <==> k
                == chunks.len() - 1),
        forall|i: int| 0 <= i < tbl0.len() ==> (#[trigger] tbl0[i]).message_id != acc.message_id,
    ensures
        ({
            let (t, es) = run_request_chunks(tbl0.push(acc), chunks);
            &&& t == tbl0
            &&& es == seq![
                RequestV {
                    cmd: acc.cmd,
                    message_id: acc.message_id,
                    target: acc.target,
                    payload: acc.payload + concat_req_payloads(chunks),
                },
            ]
        }),
    decreases chunks.len(),
{
    let tbl = tbl0.push(acc);
    let i = tbl0.len() as int;
    lemma_find_req_found(tbl, acc.message_id, 0, i);
    let c0 = chunks[0];
    let merged = RequestV {
        cmd: acc.cmd,
        message_id: acc.message_id,
        target: acc.target,
        payload: acc.payload + c0.payload,
    };
    if chunks.len() == 1 {
        assert(c0.chunk_type == ChunkType::Last);
        let (t1, e1) = request_step(tbl, c0);
        assert(t1 =~= tbl0);
        assert(e1 == Some(merged));
        assert(chunks.drop_first() =~= Seq::<ChunkedRequestV>::empty());
        assert(run_request_chunks(t1, chunks.drop_first()) == (t1, Seq::<RequestV>::empty()));
        assert(chunks.drop_last() =~= Seq::<ChunkedRequestV>::empty());
        assert(concat_req_payloads(Seq::<ChunkedRequestV>::empty()) == Seq::<u8>::empty());
        assert(chunks.last() == c0);
        assert(concat_req_payloads(chunks) =~= c0.payload);
        let (t, es) = run_request_chunks(tbl, chunks);
        assert(es == seq![merged] + Seq::<RequestV>::empty());
        assert(es =~= seq![merged]);
        assert(merged.payload =~= acc.payload + concat_req_payloads(chunks));
        assert(es =~= seq![
            RequestV {
                cmd: acc.cmd,
                message_id: acc.message_id,
                target: acc.target,
                payload: acc.payload + concat_req_payloads(chunks),
            },
        ]);
    } else {
        assert(c0.chunk_type == ChunkType::NotLast);
        let (t1, e1) = request_step(tbl, c0);
        assert(t1 =~= tbl0.push(merged));
        assert(e1 is None);
        let rest = chunks.drop_first();
        assert forall|k: int| 0 <= k < rest.len() implies (#[trigger] rest[k]).message_id
            == merged.message_id by {
            assert(rest[k] == chunks[k + 1]);
        }
        assert forall|k: int| 0 <= k < rest.len() implies (((#[trigger] rest[k]).chunk_type
            == ChunkType::Last) <==> k == rest.len() - 1) by {
            assert(rest[k] == chunks[k + 1]);
        }
        lemma_run_with_open_entry(tbl0, merged, rest);
        lemma_concat_req_first(chunks);
        assert(merged.payload + concat_req_payloads(rest) =~= acc.payload + concat_req_payloads(
            chunks,
        ));
    }
}

/// Folding a whole train of parsed response chunks into the table, in
/// order: the table afterwards, and the reassembled responses emitted.
pub open spec fn run_response_chunks(tbl: Seq<ResponseV>, chunks: Seq<ChunkedResponseV>) -> (
    Seq<ResponseV>,
    Seq<ResponseV>,
)
    decreases chunks.len(),
{
    if chunks.len() == 0 {
        (tbl, Seq::empty())
    } else {
        let (t1, e1) = response_step(tbl, chunks[0]);
        let (t2, es) = run_response_chunks(t1, chunks.drop_first());
        (
            t2,
            match e1 {
                Some(r) => seq![r] + es,
                None => es,
            },
        )
    }
}

proof fn lemma_concat_res_first(s: Seq<ChunkedResponseV>)
    requires
        s.len() > 0,
    ensures
        concat_res_payloads(s) == s[0].payload + concat_res_payloads(s.drop_first()),
    decreases s.len(),
{
    if s.len() == 1 {
        assert(s.drop_last() =~= Seq::<ChunkedResponseV>::empty());
        assert(s.drop_first() =~= Seq::<ChunkedResponseV>::empty());
        assert(s.last() == s[0]);
        assert(concat_res_payloads(s) =~= s[0].payload + concat_res_payloads(s.drop_first()));
    } else {
        lemma_concat_res_first(s.drop_last());
        assert(s.drop_last().drop_first() =~= s.drop_first().drop_last());
        assert(s.drop_first().last() == s.last());
        assert(s.drop_last()[0] == s[0]);
        assert(concat_res_payloads(s) =~= s[0].payload + concat_res_payloads(s.drop_first()));
    }
}

/// Reassembly law for responses: a train of chunks sharing one message id,
/// with exactly one `Last` chunk standing at its end, fed to a table that
/// holds no entry for that id, emits exactly one response — its payload the
/// concatenation of the chunk payloads in arrival order, its command, id,
/// status and creation time those of the first chunk — and leaves the table
/// as it was.
pub proof fn lemma_response_reassembly_concatenates(
    tbl0: Seq<ResponseV>,
    chunks: Seq<ChunkedResponseV>,
)
    requires
        chunks.len() > 0,
        forall|k: int|
            0 <= k < chunks.len() ==> (#[trigger] chunks[k]).message_id == chunks[0].message_id,
        forall|k: int|
            0 <= k < chunks.len() ==> (((#[trigger] chunks[k]).chunk_type == ChunkType::Last) <==> k
                == chunks.len() - 1),
        forall|i: int|
            0 <= i < tbl0.len() ==> (#[trigger] tbl0[i]).message_id != chunks[0].message_id,
    ensures
        ({
            let (t, es) = run_response_chunks(tbl0, chunks);
            &&& t == tbl0
            &&& es.len() == 1
            &&& es[0].payload == concat_res_payloads(chunks)
            &&& es[0].cmd == chunks[0].cmd
            &&& es[0].message_id == chunks[0].message_id
            &&& es[0].status_code == chunks[0].status_code
            &&& es[0].creation_timestamp == chunks[0].creation_timestamp
        }),
{
    let c0 = chunks[0];
    lemma_find_res_none(tbl0, c0.message_id, 0);
    let fresh = ResponseV {
        creation_timestamp: c0.creation_timestamp,
        cmd: c0.cmd,
        message_id: c0.message_id,
        status_code: c0.status_code,
        payload: c0.payload,
    };
    if chunks.len() == 1 {
        assert(c0.chunk_type == ChunkType::Last);
        let (t1, e1) = response_step(tbl0, c0);
        assert(t1 == tbl0 && e1 == Some(fresh));
        assert(chunks.drop_first() =~= Seq::<ChunkedResponseV>::empty());
        assert(run_response_chunks(t1, chunks.drop_first()) == (t1, Seq::<ResponseV>::empty()));
        let (t, es) = run_response_chunks(tbl0, chunks);
        assert(es == seq![fresh] + Seq::<ResponseV>::empty());
        assert(es =~= seq![fresh]);
        assert(chunks.drop_last() =~= Seq::<ChunkedResponseV>::empty());
        assert(concat_res_payloads(Seq::<ChunkedResponseV>::empty()) == Seq::<u8>::empty());
        assert(chunks.last() == c0);
        assert(concat_res_payloads(chunks) =~= c0.payload);
    } else {
        assert(c0.chunk_type == ChunkType::NotLast);
        let (t1, e1) = response_step(tbl0, c0);
        assert(t1 == tbl0.push(fresh) && e1 is None);
        let rest = chunks.drop_first();
        assert forall|k: int| 0 <= k < rest.len() implies (#[trigger] rest[k]).message_id
            == fresh.message_id by {
            assert(rest[k] == chunks[k + 1]);
        }
        assert forall|k: int| 0 <= k < rest.len() implies (((#[trigger] rest[k]).chunk_type
            == ChunkType::Last) <==> k == rest.len() - 1) by {
            assert(rest[k] == chunks[k + 1]);
        }
        lemma_run_with_open_res_entry(tbl0, fresh, rest);
        lemma_concat_res_first(chunks);
        let (t, es) = run_response_chunks(tbl0, chunks);
        assert(fresh.payload + concat_res_payloads(rest) =~= concat_res_payloads(chunks));
    }
}

/// With an open response entry for the id sitting at the end of the table,
/// a train of matching chunks ending in `Last` closes that entry, appending
/// every chunk payload in order.
proof fn lemma_run_with_open_res_entry(
    tbl0: Seq<ResponseV>,
    acc: ResponseV,
    chunks: Seq<ChunkedResponseV>,
)
    requires
        chunks.len() > 0,
        forall|k: int| 0 <= k < chunks.len() ==> (#[trigger] chunks[k]).message_id == acc.message_id,
        forall|k: int|
            0 <= k < chunks.len() ==> (((#[trigger] chunks[k]).chunk_type == ChunkType::Last) <==> k
                == chunks.len() - 1),
        forall|i: int| 0 <= i < tbl0.len() ==> (#[trigger] tbl0[i]).message_id != acc.message_id,
    ensures
        ({
            let (t, es) = run_response_chunks(tbl0.push(acc), chunks);
            &&& t == tbl0
            &&& es == seq![
                ResponseV {
                    creation_timestamp: acc.creation_timestamp,
                    cmd: acc.cmd,
                    message_id: acc.message_id,
                    status_code: acc.status_code,
                    payload: acc.payload + concat_res_payloads(chunks),
                },
            ]
        }),
    decreases chunks.len(),
{
    let tbl = tbl0.push(acc);
    let i = tbl0.len() as int;
    lemma_find_res_found(tbl, acc.message_id, 0, i);
    let c0 = chunks[0];
    let merged = ResponseV {
        creation_timestamp: acc.creation_timestamp,
        cmd: acc.cmd,
        message_id: acc.message_id,
        status_code: acc.status_code,
        payload: acc.payload + c0.payload,
    };
    if chunks.len() == 1 {
        assert(c0.chunk_type == ChunkType::Last);
        let (t1, e1) = response_step(tbl, c0);
        assert(t1 =~= tbl0);
        assert(e1 == Some(merged));
        assert(chunks.drop_first() =~= Seq::<ChunkedResponseV>::empty());
        assert(run_response_chunks(t1, chunks.drop_first()) == (t1, Seq::<ResponseV>::empty()));
        assert(chunks.drop_last() =~= Seq::<ChunkedResponseV>::empty());
        assert(concat_res_payloads(Seq::<ChunkedResponseV>::empty()) == Seq::<u8>::empty());
        assert(chunks.last() == c0);
        assert(concat_res_payloads(chunks) =~= c0.payload);
        let (t, es) = run_response_chunks(tbl, chunks);
        assert(es == seq![merged] + Seq::<ResponseV>::empty());
        assert(es =~= seq![merged]);
        assert(merged.payload =~= acc.payload + concat_res_payloads(chunks));
        assert(es =~= seq![
            ResponseV {
                creation_timestamp: acc.creation_timestamp,
                cmd: acc.cmd,
                message_id: acc.message_id,
                status_code: acc.status_code,
                payload: acc.payload + concat_res_payloads(chunks),
            },
        ]);
    } else {
        assert(c0.chunk_type == ChunkType::NotLast);
        let (t1, e1) = response_step(tbl, c0);
        assert(t1 =~= tbl0.push(merged));
        assert(e1 is None);
        let rest = chunks.drop_first();
        assert forall|k: int| 0 <= k < rest.len() implies (#[trigger] rest[k]).message_id
            == merged.message_id by {
            assert(rest[k] == chunks[k + 1]);
        }
        assert forall|k: int| 0 <= k < rest.len() implies (((#[trigger] rest[k]).chunk_type
            == ChunkType::Last) <==> k == rest.len() - 1) by {
            assert(rest[k] == chunks[k + 1]);
        }
        lemma_run_with_open_res_entry(tbl0, merged, rest);
        lemma_concat_res_first(chunks);
        assert(merged.payload + concat_res_payloads(rest) =~= acc.payload + concat_res_payloads(
            chunks,
        ));
    }
}

impl CommandHistory {
    /// A reassembler with empty tables.
    pub fn new() -> (r: CommandHistory)
        ensures
            r@.requests =~= Seq::<RequestV>::empty(),
            r@.responses =~= Seq::<ResponseV>::empty(),
    {
        let r = CommandHistory { past_requests: Vec::new(), past_responses: Vec::new() };
        proof {
            assert(r@.requests =~= Seq::<RequestV>::empty());
            assert(r@.responses =~= Seq::<ResponseV>::empty());
        }
        r
    }

    /// Parse one serialized chunk and fold it into the tables; a chunk that
    /// completes its message surfaces it.  An unparsable chunk changes
    /// nothing.  `now` stamps freshly parsed chunks.
    pub fn append(&mut self, msg: &Vec<u8>, now: u64) -> (r: RequestOrResponse)
        ensures
            match parse_chunked(msg@, now) {
                ChunkedRequestOrResponseV::Request(c) => {
                    let (tbl, emit) = request_step(old(self)@.requests, c);
                    &&& final(self)@.requests == tbl
                    &&& final(self)@.responses == old(self)@.responses
                    &&& r@ == match emit {
                        Some(rv) => RequestOrResponseV::Request(rv),
                        None => RequestOrResponseV::Nothing,
                    }
                },
                ChunkedRequestOrResponseV::Response(c) => {
                    let (tbl, emit) = response_step(old(self)@.responses, c);
                    &&& final(self)@.responses == tbl
                    &&& final(self)@.requests == old(self)@.requests
                    &&& r@ == match emit {
                        Some(rv) => RequestOrResponseV::Response(rv),
                        None => RequestOrResponseV::Nothing,
                    }
                },
                ChunkedRequestOrResponseV::Nothing => final(self)@ == old(self)@ && r@
                    == RequestOrResponseV::Nothing,
            },
    {
        let chunk = ChunkedRequestOrResponse::deserialize(msg, now);
        match chunk {
            ChunkedRequestOrResponse::Request(req) => {
                let ghost tbl0 = self@.requests;
                let pos = find_request_pos(&self.past_requests, &req.message_id);
                match pos {
                    Some(i) => {
                        proof {
                            lemma_find_req_found(tbl0, req.message_id@, 0, i as int);
                        }
                        let mut e = self.past_requests.remove(i);
                        vec_push_all(&mut e.payload, &req.payload);
                        match req.chunk_type {
                            ChunkType::Last => {
                                proof {
                                    assert(self@.requests =~= tbl0.remove(i as int));
                                }
                                RequestOrResponse::Request(e)
                            },
                            ChunkType::NotLast => {
                                self.past_requests.insert(i, e);
                                proof {
                                    let (tbl, _) = request_step(tbl0, req@);
                                    assert(self@.requests =~= tbl);
                                }
                                RequestOrResponse::Nothing
                            },
                        }
                    },
                    None => {
                        proof {
                            lemma_find_req_none(tbl0, req.message_id@, 0);
                        }
                        let fresh = Request {
                            cmd: req.cmd,
                            message_id: req.message_id,
                            target: req.target,
                            payload: req.payload,
                        };
                        match req.chunk_type {
                            ChunkType::Last => RequestOrResponse::Request(fresh),
                            ChunkType::NotLast => {
                                self.past_requests.push(fresh);
                                proof {
                                    let (tbl, _) = request_step(tbl0, req@);
                                    assert(self@.requests =~= tbl);
                                }
                                RequestOrResponse::Nothing
                            },
                        }
                    },
                }
            },
            ChunkedRequestOrResponse::Response(res) => {
                let ghost tbl0 = self@.responses;
                let pos = find_response_pos(&self.past_responses, &res.message_id);
                match pos {
                    Some(i) => {
                        proof {
                            lemma_find_res_found(tbl0, res.message_id@, 0, i as int);
                        }
                        let mut e = self.past_responses.remove(i);
                        vec_push_all(&mut e.payload, &res.payload);
                        match res.chunk_type {
                            ChunkType::Last => {
                                proof {
                                    assert(self@.responses =~= tbl0.remove(i as int));
                                }
                                RequestOrResponse::Response(e)
                            },
                            ChunkType::NotLast => {
                                self.past_responses.insert(i, e);
                                proof {
                                    let (tbl, _) = response_step(tbl0, res@);
                                    assert(self@.responses =~= tbl);
                                }
                                RequestOrResponse::Nothing
                            },
                        }
                    },
                    None => {
                        proof {
                            lemma_find_res_none(tbl0, res.message_id@, 0);
                        }
                        let fresh = Response {
                            creation_timestamp: res.creation_timestamp,
                            cmd: res.cmd,
                            message_id: res.message_id,
                            status_code: res.status_code,
                            payload: res.payload,
                        };
                        match res.chunk_type {
                            ChunkType::Last => RequestOrResponse::Response(fresh),
                            ChunkType::NotLast => {
                                self.past_responses.push(fresh);
                                proof {
                                    let (tbl, _) = response_step(tbl0, res@);
                                    assert(self@.responses =~= tbl);
                                }
                                RequestOrResponse::Nothing
                            },
                        }
                    },
                }
            },
            ChunkedRequestOrResponse::Nothing => RequestOrResponse::Nothing,
        }
    }
}

} // verus!
