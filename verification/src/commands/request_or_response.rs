//! Inner wire codec for requests and responses.
//!
//! A chunk travels as six `/`-separated fields:
//! `cmd/req/message_id/target/chunk_type/payload` for requests and
//! `cmd/res/message_id/status_code/chunk_type/payload` for responses.  The
//! payload is the raw sixth field and may itself contain `/`.  Outgoing
//! payloads are split into chunks of at most `COMMAND_PAYLOAD_SIZE` bytes,
//! always at least one, and only the final chunk is marked `last`.

use vstd::prelude::*;

verus! {

use vstd::string::StringSliceAdditionalSpecFns;
use vstd::string::StringExecFns;
use vstd::utf8::{valid_utf8, decode_utf8, encode_utf8};
use crate::constants::COMMAND_PAYLOAD_SIZE;
use crate::constants::MESSAGE_PARTS_SEPARATOR;
use crate::util::{vec_subrange, vec_push_all, vec_push_slice, find_byte, bytes_to_string, str_eq};

/// Marker distinguishing the two directions of the protocol.
#[derive(Copy, Clone, PartialEq, Eq, Structural, Debug)]
pub enum ReqOrRes {
    Req,
    Res,
}

/// Status carried by a response.
#[derive(Copy, Clone, PartialEq, Eq, Structural, Debug)]
pub enum StatusCode {
    Okay,
    IncorrectParams,
    InternalError,
}

/// Whether a chunk ends its logical message.
#[derive(Copy, Clone, PartialEq, Eq, Structural, Debug)]
pub enum ChunkType {
    NotLast,
    Last,
}

/// The bytes `req`.
pub open spec fn req_marker() -> Seq<u8> {
    seq![114u8, 101u8, 113u8]
}

/// The bytes `res`.
pub open spec fn res_marker() -> Seq<u8> {
    seq![114u8, 101u8, 115u8]
}

/// The bytes `not-last`.
pub open spec fn not_last_marker() -> Seq<u8> {
    seq![110u8, 111u8, 116u8, 45u8, 108u8, 97u8, 115u8, 116u8]
}

/// The bytes `last`.
pub open spec fn last_marker() -> Seq<u8> {
    seq![108u8, 97u8, 115u8, 116u8]
}

/// The direction named by a marker field, if any.
pub open spec fn req_or_res_of_bytes(b: Seq<u8>) -> Option<ReqOrRes> {
    if b == req_marker() {
        Some(ReqOrRes::Req)
    } else if b == res_marker() {
        Some(ReqOrRes::Res)
    } else {
        None
    }
}

/// The chunk type named by a field, if any.
pub open spec fn chunk_type_of_bytes(b: Seq<u8>) -> Option<ChunkType> {
    if b == not_last_marker() {
        Some(ChunkType::NotLast)
    } else if b == last_marker() {
        Some(ChunkType::Last)
    } else {
        None
    }
}

/// The status named by a decoded status field, if any.
pub open spec fn status_of_chars(s: Seq<char>) -> Option<StatusCode> {
    if s == seq!['2', '0', '0'] {
        Some(StatusCode::Okay)
    } else if s == seq!['4', '0', '0'] {
        Some(StatusCode::IncorrectParams)
    } else if s == seq!['5', '0', '0'] {
        Some(StatusCode::InternalError)
    } else {
        None
    }
}

/// Wire bytes of a chunk type.
pub open spec fn chunk_type_bytes(t: ChunkType) -> Seq<u8> {
    match t {
        ChunkType::NotLast => not_last_marker(),
        ChunkType::Last => last_marker(),
    }
}

/// Wire bytes of a status code.
pub open spec fn status_code_bytes(s: StatusCode) -> Seq<u8> {
    match s {
        StatusCode::Okay => seq![50u8, 48u8, 48u8],
        StatusCode::IncorrectParams => seq![52u8, 48u8, 48u8],
        StatusCode::InternalError => seq![53u8, 48u8, 48u8],
    }
}

impl ReqOrRes {
    /// The direction a wire field names, `None` for anything else.
    pub fn maybe_from(v: Option<&[u8]>) -> (r: Option<Self>)
        ensures
            r == match v {
                Some(b) => req_or_res_of_bytes(b@),
                None => None::<ReqOrRes>,
            },
    {
        match v {
            Some(b) => {
                if b.len() == 3 && b[0] == 114 && b[1] == 101 && b[2] == 113 {
                    assert(b@ =~= req_marker());
                    Some(ReqOrRes::Req)
                } else if b.len() == 3 && b[0] == 114 && b[1] == 101 && b[2] == 115 {
                    assert(b@ =~= res_marker());
                    Some(ReqOrRes::Res)
                } else {
                    proof {
                        if b@ == req_marker() || b@ == res_marker() {
                            assert(b@.len() == 3);
                            assert(false);
                        }
                    }
                    None
                }
            },
            None => None,
        }
    }

    /// The wire bytes of this direction marker.
    pub fn to_bytes(&self) -> (r: Vec<u8>)
        ensures
            r@ == match self {
                ReqOrRes::Req => req_marker(),
                ReqOrRes::Res => res_marker(),
            },
    {
        let mut r: Vec<u8> = Vec::new();
        r.push(114);
        r.push(101);
        match self {
            ReqOrRes::Req => r.push(113),
            ReqOrRes::Res => r.push(115),
        }
        proof {
            match self {
                ReqOrRes::Req => assert(r@ =~= req_marker()),
                ReqOrRes::Res => assert(r@ =~= res_marker()),
            }
        }
        r
    }
}

impl StatusCode {
    /// The status a decoded field names: exactly `200`, `400` or `500`.
    pub fn maybe_from(code: Option<String>) -> (r: Option<Self>)
        ensures
            r == match code {
                Some(s) => status_of_chars(s@),
                None => None::<StatusCode>,
            },
    {
        proof {
            reveal_strlit("200");
            reveal_strlit("400");
            reveal_strlit("500");
            assert("200"@ =~= seq!['2', '0', '0']);
            assert("400"@ =~= seq!['4', '0', '0']);
            assert("500"@ =~= seq!['5', '0', '0']);
        }
        match code {
            None => None,
            Some(s) => {
                if str_eq(s.as_str(), "200") {
                    Some(StatusCode::Okay)
                } else if str_eq(s.as_str(), "400") {
                    Some(StatusCode::IncorrectParams)
                } else if str_eq(s.as_str(), "500") {
                    Some(StatusCode::InternalError)
                } else {
                    None
                }
            },
        }
    }

    /// The wire bytes of this status.
    pub fn to_bytes(&self) -> (r: Vec<u8>)
        ensures
            r@ == status_code_bytes(*self),
    {
        let mut r: Vec<u8> = Vec::new();
        match self {
            StatusCode::Okay => r.push(50),
            StatusCode::IncorrectParams => r.push(52),
            StatusCode::InternalError => r.push(53),
        }
        r.push(48);
        r.push(48);
        proof {
            assert(r@ =~= status_code_bytes(*self));
        }
        r
    }
}

impl ChunkType {
    /// The chunk type a wire field names, `None` for anything else.
    pub fn maybe_from(v: Option<&[u8]>) -> (r: Option<Self>)
        ensures
            r == match v {
                Some(b) => chunk_type_of_bytes(b@),
                None => None::<ChunkType>,
            },
    {
        match v {
            Some(b) => {
                if b.len() == 8 && b[0] == 110 && b[1] == 111 && b[2] == 116 && b[3] == 45 && b[4]
                    == 108 && b[5] == 97 && b[6] == 115 && b[7] == 116 {
                    assert(b@ =~= not_last_marker());
                    Some(ChunkType::NotLast)
                } else if b.len() == 4 && b[0] == 108 && b[1] == 97 && b[2] == 115 && b[3] == 116 {
                    assert(b@ =~= last_marker());
                    Some(ChunkType::Last)
                } else {
                    proof {
                        if b@ == not_last_marker() {
                            assert(b@.len() == 8);
                            assert(false);
                        }
                        if b@ == last_marker() {
                            assert(b@.len() == 4);
                            assert(false);
                        }
                    }
                    None
                }
            },
            None => None,
        }
    }

    /// The wire bytes of this chunk type.
    pub fn to_bytes(&self) -> (r: Vec<u8>)
        ensures
            r@ == chunk_type_bytes(*self),
    {
        let mut r: Vec<u8> = Vec::new();
        match self {
            ChunkType::NotLast => {
                r.push(110);
                r.push(111);
                r.push(116);
                r.push(45);
                r.push(108);
                r.push(97);
                r.push(115);
                r.push(116);
            },
            ChunkType::Last => {
                r.push(108);
                r.push(97);
                r.push(115);
                r.push(116);
            },
        }
        proof {
            assert(r@ =~= chunk_type_bytes(*self));
        }
        r
    }
}

/// One chunk of a request in flight.
#[derive(Debug, PartialEq)]
pub struct ChunkedRequest {
    pub creation_timestamp: u64,
    pub cmd: String,
    pub message_id: String,
    pub target: String,
    pub chunk_type: ChunkType,
    pub payload: Vec<u8>,
}

/// Mathematical value of a request chunk.
pub struct ChunkedRequestV {
    pub creation_timestamp: u64,
    pub cmd: Seq<char>,
    pub message_id: Seq<char>,
    pub target: Seq<char>,
    pub chunk_type: ChunkType,
    pub payload: Seq<u8>,
}

impl View for ChunkedRequest {
    type V = ChunkedRequestV;

    open spec fn view(&self) -> ChunkedRequestV {
        ChunkedRequestV {
            creation_timestamp: self.creation_timestamp,
            cmd: self.cmd@,
            message_id: self.message_id@,
            target: self.target@,
            chunk_type: self.chunk_type,
            payload: self.payload@,
        }
    }
}

/// A full request before chunking or after reassembly.
#[derive(Debug, PartialEq)]
pub struct Request {
    pub cmd: String,
    pub message_id: String,
    pub target: String,
    pub payload: Vec<u8>,
}

/// Mathematical value of a request.
pub struct RequestV {
    pub cmd: Seq<char>,
    pub message_id: Seq<char>,
    pub target: Seq<char>,
    pub payload: Seq<u8>,
}

impl View for Request {
    type V = RequestV;

    open spec fn view(&self) -> RequestV {
        RequestV {
            cmd: self.cmd@,
            message_id: self.message_id@,
            target: self.target@,
            payload: self.payload@,
        }
    }
}

/// One chunk of a response in flight.
#[derive(Debug, PartialEq)]
pub struct ChunkedResponse {
    pub creation_timestamp: u64,
    pub cmd: String,
    pub message_id: String,
    pub status_code: StatusCode,
    pub chunk_type: ChunkType,
    pub payload: Vec<u8>,
}

/// Mathematical value of a response chunk.
pub struct ChunkedResponseV {
    pub creation_timestamp: u64,
    pub cmd: Seq<char>,
    pub message_id: Seq<char>,
    pub status_code: StatusCode,
    pub chunk_type: ChunkType,
    pub payload: Seq<u8>,
}

impl View for ChunkedResponse {
    type V = ChunkedResponseV;

    open spec fn view(&self) -> ChunkedResponseV {
        ChunkedResponseV {
            creation_timestamp: self.creation_timestamp,
            cmd: self.cmd@,
            message_id: self.message_id@,
            status_code: self.status_code,
            chunk_type: self.chunk_type,
            payload: self.payload@,
        }
    }
}

/// A full response before chunking or after reassembly.
#[derive(Debug, PartialEq)]
pub struct Response {
    pub creation_timestamp: u64,
    pub cmd: String,
    pub message_id: String,
    pub status_code: StatusCode,
    pub payload: Vec<u8>,
}

/// Mathematical value of a response.
pub struct ResponseV {
    pub creation_timestamp: u64,
    pub cmd: Seq<char>,
    pub message_id: Seq<char>,
    pub status_code: StatusCode,
    pub payload: Seq<u8>,
}

impl View for Response {
    type V = ResponseV;

    open spec fn view(&self) -> ResponseV {
        ResponseV {
            creation_timestamp: self.creation_timestamp,
            cmd: self.cmd@,
            message_id: self.message_id@,
            status_code: self.status_code,
            payload: self.payload@,
        }
    }
}

/// A fully reassembled message, or nothing.
pub enum RequestOrResponse {
    Request(Request),
    Response(Response),
    Nothing,
}

/// Mathematical value of a reassembled message.
pub enum RequestOrResponseV {
    Request(RequestV),
    Response(ResponseV),
    Nothing,
}

impl View for RequestOrResponse {
    type V = RequestOrResponseV;

    open spec fn view(&self) -> RequestOrResponseV {
        match self {
            RequestOrResponse::Request(r) => RequestOrResponseV::Request(r@),
            RequestOrResponse::Response(r) => RequestOrResponseV::Response(r@),
            RequestOrResponse::Nothing => RequestOrResponseV::Nothing,
        }
    }
}

/// One parsed chunk, or nothing.
pub enum ChunkedRequestOrResponse {
    Request(ChunkedRequest),
    Response(ChunkedResponse),
    Nothing,
}

/// Mathematical value of a parsed chunk.
pub enum ChunkedRequestOrResponseV {
    Request(ChunkedRequestV),
    Response(ChunkedResponseV),
    Nothing,
}

impl View for ChunkedRequestOrResponse {
    type V = ChunkedRequestOrResponseV;

    open spec fn view(&self) -> ChunkedRequestOrResponseV {
        match self {
            ChunkedRequestOrResponse::Request(c) => ChunkedRequestOrResponseV::Request(c@),
            ChunkedRequestOrResponse::Response(c) => ChunkedRequestOrResponseV::Response(c@),
            ChunkedRequestOrResponse::Nothing => ChunkedRequestOrResponseV::Nothing,
        }
    }
}

/// The single separator byte, as a sequence.
pub open spec fn sep_byte() -> Seq<u8> {
    seq![47u8]
}

/// Wire bytes of one request chunk.
pub open spec fn ser_chunked_request(c: ChunkedRequestV) -> Seq<u8> {
    encode_utf8(c.cmd) + sep_byte() + req_marker() + sep_byte() + encode_utf8(c.message_id)
        + sep_byte() + encode_utf8(c.target) + sep_byte() + chunk_type_bytes(c.chunk_type)
        + sep_byte() + c.payload
}

/// Wire bytes of one response chunk.
pub open spec fn ser_chunked_response(c: ChunkedResponseV) -> Seq<u8> {
    encode_utf8(c.cmd) + sep_byte() + res_marker() + sep_byte() + encode_utf8(c.message_id)
        + sep_byte() + status_code_bytes(c.status_code) + sep_byte() + chunk_type_bytes(
        c.chunk_type,
    ) + sep_byte() + c.payload
}

impl ChunkedRequest {
    /// Serialize this chunk into the six-field wire form.
    pub fn to_message_payload(self) -> (r: Vec<u8>)
        ensures
            r@ == ser_chunked_request(self@),
    {
        let mut r: Vec<u8> = Vec::new();
        vec_push_slice(&mut r, self.cmd.as_str().as_bytes());
        r.push(MESSAGE_PARTS_SEPARATOR);
        let dir = ReqOrRes::Req.to_bytes();
        vec_push_all(&mut r, &dir);
        r.push(MESSAGE_PARTS_SEPARATOR);
        vec_push_slice(&mut r, self.message_id.as_str().as_bytes());
        r.push(MESSAGE_PARTS_SEPARATOR);
        vec_push_slice(&mut r, self.target.as_str().as_bytes());
        r.push(MESSAGE_PARTS_SEPARATOR);
        let ct = self.chunk_type.to_bytes();
        vec_push_all(&mut r, &ct);
        r.push(MESSAGE_PARTS_SEPARATOR);
        vec_push_all(&mut r, &self.payload);
        assert(r@ =~= ser_chunked_request(self@));
        r
    }
}

impl ChunkedResponse {
    /// Serialize this chunk into the six-field wire form.
    pub fn to_message_payload(self) -> (r: Vec<u8>)
        ensures
            r@ == ser_chunked_response(self@),
    {
        let mut r: Vec<u8> = Vec::new();
        vec_push_slice(&mut r, self.cmd.as_str().as_bytes());
        r.push(MESSAGE_PARTS_SEPARATOR);
        let dir = ReqOrRes::Res.to_bytes();
        vec_push_all(&mut r, &dir);
        r.push(MESSAGE_PARTS_SEPARATOR);
        vec_push_slice(&mut r, self.message_id.as_str().as_bytes());
        r.push(MESSAGE_PARTS_SEPARATOR);
        let sc = self.status_code.to_bytes();
        vec_push_all(&mut r, &sc);
        r.push(MESSAGE_PARTS_SEPARATOR);
        let ct = self.chunk_type.to_bytes();
        vec_push_all(&mut r, &ct);
        r.push(MESSAGE_PARTS_SEPARATOR);
        vec_push_all(&mut r, &self.payload);
        assert(r@ =~= ser_chunked_response(self@));
        r
    }
}

/// Position of the first separator at or after `i`, if any.
pub open spec fn first_sep_from(s: Seq<u8>, i: int) -> Option<int>
    decreases s.len() - i,
    when 0 <= i <= s.len()
{
    if i >= s.len() {
        None
    } else if s[i] == 47u8 {
        Some(i)
    } else {
        first_sep_from(s, i + 1)
    }
}

/// The six fields of an inner frame: five separator-terminated fields and
/// the raw remainder.  `None` when fewer than five separators occur.
pub open spec fn parse_fields(s: Seq<u8>) -> Option<Seq<Seq<u8>>> {
    match first_sep_from(s, 0) {
        None => None,
        Some(i1) => match first_sep_from(s, i1 + 1) {
            None => None,
            Some(i2) => match first_sep_from(s, i2 + 1) {
                None => None,
                Some(i3) => match first_sep_from(s, i3 + 1) {
                    None => None,
                    Some(i4) => match first_sep_from(s, i4 + 1) {
                        None => None,
                        Some(i5) => Some(
                            seq![
                                s.subrange(0, i1),
                                s.subrange(i1 + 1, i2),
                                s.subrange(i2 + 1, i3),
                                s.subrange(i3 + 1, i4),
                                s.subrange(i4 + 1, i5),
                                s.subrange(i5 + 1, s.len() as int),
                            ],
                        ),
                    },
                },
            },
        },
    }
}

/// What one serialized chunk parses to: a request or response chunk when
/// every field is recognizable, nothing otherwise.  `now` stamps the parsed
/// chunk's creation time, which the wire does not carry.
pub open spec fn parse_chunked(msg: Seq<u8>, now: u64) -> ChunkedRequestOrResponseV {
    match parse_fields(msg) {
        None => ChunkedRequestOrResponseV::Nothing,
        Some(f) => {
            if !valid_utf8(f[0]) || !valid_utf8(f[2]) || !valid_utf8(f[3]) {
                ChunkedRequestOrResponseV::Nothing
            } else {
                match (req_or_res_of_bytes(f[1]), chunk_type_of_bytes(f[4])) {
                    (Some(ReqOrRes::Req), Some(ct)) => ChunkedRequestOrResponseV::Request(
                        ChunkedRequestV {
                            creation_timestamp: now,
                            cmd: decode_utf8(f[0]),
                            message_id: decode_utf8(f[2]),
                            target: decode_utf8(f[3]),
                            chunk_type: ct,
                            payload: f[5],
                        },
                    ),
                    (Some(ReqOrRes::Res), Some(ct)) => match status_of_chars(decode_utf8(f[3])) {
                        Some(status) => ChunkedRequestOrResponseV::Response(
                            ChunkedResponseV {
                                creation_timestamp: now,
                                cmd: decode_utf8(f[0]),
                                message_id: decode_utf8(f[2]),
                                status_code: status,
                                chunk_type: ct,
                                payload: f[5],
                            },
                        ),
                        None => ChunkedRequestOrResponseV::Nothing,
                    },
                    _ => ChunkedRequestOrResponseV::Nothing,
                }
            }
        },
    }
}

pub proof fn lemma_first_sep_found(s: Seq<u8>, from: int, i: int)
    requires
        0 <= from <= i < s.len(),
        s[i] == 47u8,
        forall|j: int| from <= j < i ==> s[j] != 47u8,
    ensures
        first_sep_from(s, from) == Some(i),
    decreases i - from,
{
    if from < i {
        lemma_first_sep_found(s, from + 1, i);
    }
}

pub proof fn lemma_first_sep_none(s: Seq<u8>, from: int)
    requires
        0 <= from <= s.len(),
        forall|j: int| from <= j < s.len() ==> s[j] != 47u8,
    ensures
        first_sep_from(s, from) is None,
    decreases s.len() - from,
{
    if from < s.len() {
        lemma_first_sep_none(s, from + 1);
    }
}

impl ChunkedRequestOrResponse {
    /// Parse one serialized chunk.  Any missing or unrecognized field makes
    /// the frame worthless and yields `Nothing`; `now` stamps the creation
    /// time of the parsed chunk.
    pub fn deserialize(msg: &Vec<u8>, now: u64) -> (r: Self)
        ensures
            r@ == parse_chunked(msg@, now),
    {
        let n = msg.len();
        assert(n == msg@.len());
        let i1 = match find_byte(msg, MESSAGE_PARTS_SEPARATOR, 0) {
            Some(i) => i,
            None => {
                proof {
                    lemma_first_sep_none(msg@, 0);
                }
                return ChunkedRequestOrResponse::Nothing;
            },
        };
        proof {
            lemma_first_sep_found(msg@, 0, i1 as int);
        }
        let i2 = match find_byte(msg, MESSAGE_PARTS_SEPARATOR, i1 + 1) {
            Some(i) => i,
            None => {
                proof {
                    lemma_first_sep_none(msg@, i1 + 1);
                }
                return ChunkedRequestOrResponse::Nothing;
            },
        };
        proof {
            lemma_first_sep_found(msg@, i1 + 1, i2 as int);
        }
        let i3 = match find_byte(msg, MESSAGE_PARTS_SEPARATOR, i2 + 1) {
            Some(i) => i,
            None => {
                proof {
                    lemma_first_sep_none(msg@, i2 + 1);
                }
                return ChunkedRequestOrResponse::Nothing;
            },
        };
        proof {
            lemma_first_sep_found(msg@, i2 + 1, i3 as int);
        }
        let i4 = match find_byte(msg, MESSAGE_PARTS_SEPARATOR, i3 + 1) {
            Some(i) => i,
            None => {
                proof {
                    lemma_first_sep_none(msg@, i3 + 1);
                }
                return ChunkedRequestOrResponse::Nothing;
            },
        };
        proof {
            lemma_first_sep_found(msg@, i3 + 1, i4 as int);
        }
        let i5 = match find_byte(msg, MESSAGE_PARTS_SEPARATOR, i4 + 1) {
            Some(i) => i,
            None => {
                proof {
                    lemma_first_sep_none(msg@, i4 + 1);
                }
                return ChunkedRequestOrResponse::Nothing;
            },
        };
        proof {
            lemma_first_sep_found(msg@, i4 + 1, i5 as int);
        }
        let f0 = vec_subrange(msg, 0, i1);
        let f1 = vec_subrange(msg, i1 + 1, i2);
        let f2 = vec_subrange(msg, i2 + 1, i3);
        let f3 = vec_subrange(msg, i3 + 1, i4);
        let f4 = vec_subrange(msg, i4 + 1, i5);
        let f5 = vec_subrange(msg, i5 + 1, msg.len());

        let dir = ReqOrRes::maybe_from(Some(f1.as_slice()));
        let ct = ChunkType::maybe_from(Some(f4.as_slice()));
        let cmd = maybe_string(Some(f0.as_slice()));
        let mid = maybe_string(Some(f2.as_slice()));
        let ts = maybe_string(Some(f3.as_slice()));

        match (dir, ct, cmd, mid, ts) {
            (Some(ReqOrRes::Req), Some(ct), Some(cmd), Some(mid), Some(ts)) => {
                ChunkedRequestOrResponse::Request(
                    ChunkedRequest {
                        creation_timestamp: now,
                        cmd,
                        message_id: mid,
                        target: ts,
                        chunk_type: ct,
                        payload: f5,
                    },
                )
            },
            (Some(ReqOrRes::Res), Some(ct), Some(cmd), Some(mid), Some(ts)) => {
                match StatusCode::maybe_from(Some(ts)) {
                    Some(status) => ChunkedRequestOrResponse::Response(
                        ChunkedResponse {
                            creation_timestamp: now,
                            cmd,
                            message_id: mid,
                            status_code: status,
                            chunk_type: ct,
                            payload: f5,
                        },
                    ),
                    None => ChunkedRequestOrResponse::Nothing,
                }
            },
            _ => ChunkedRequestOrResponse::Nothing,
        }
    }
}

/// No byte of `s` is the field separator.
pub open spec fn sep_free(s: Seq<u8>) -> bool {
    forall|i: int| 0 <= i < s.len() ==> s[i] != 47u8
}

/// Wire round trip: a request chunk whose command, id and target contain no
/// separator byte parses back from its serialized form unchanged, with the
/// parse-time stamp in place of its creation time (the wire does not carry
/// one).
pub proof fn lemma_request_chunk_round_trip(c: ChunkedRequestV, now: u64)
    requires
        sep_free(encode_utf8(c.cmd)),
        sep_free(encode_utf8(c.message_id)),
        sep_free(encode_utf8(c.target)),
    ensures
        parse_chunked(ser_chunked_request(c), now) == ChunkedRequestOrResponseV::Request(
            ChunkedRequestV {
                creation_timestamp: now,
                cmd: c.cmd,
                message_id: c.message_id,
                target: c.target,
                chunk_type: c.chunk_type,
                payload: c.payload,
            },
        ),
{
    let a = encode_utf8(c.cmd);
    let b = req_marker();
    let m = encode_utf8(c.message_id);
    let d = encode_utf8(c.target);
    let e = chunk_type_bytes(c.chunk_type);
    let p = c.payload;
    let fv = ser_chunked_request(c);
    let i1 = a.len() as int;
    let i2 = i1 + 1 + b.len();
    let i3 = i2 + 1 + m.len();
    let i4 = i3 + 1 + d.len();
    let i5 = i4 + 1 + e.len();
    assert(fv.len() == i5 + 1 + p.len());
    assert(sep_free(b)) by {
        assert(forall|i: int| 0 <= i < 3 ==> req_marker()[i] != 47u8) by {
            assert(req_marker()[0] == 114u8 && req_marker()[1] == 101u8 && req_marker()[2]
                == 113u8);
        }
    }
    assert(sep_free(e)) by {
        match c.chunk_type {
            ChunkType::NotLast => {
                assert(forall|i: int| 0 <= i < 8 ==> not_last_marker()[i] != 47u8) by {
                    assert(not_last_marker()[0] == 110u8 && not_last_marker()[1] == 111u8
                        && not_last_marker()[2] == 116u8 && not_last_marker()[3] == 45u8
                        && not_last_marker()[4] == 108u8 && not_last_marker()[5] == 97u8
                        && not_last_marker()[6] == 115u8 && not_last_marker()[7] == 116u8);
                }
            },
            ChunkType::Last => {
                assert(forall|i: int| 0 <= i < 4 ==> last_marker()[i] != 47u8) by {
                    assert(last_marker()[0] == 108u8 && last_marker()[1] == 97u8 && last_marker()[2]
                        == 115u8 && last_marker()[3] == 116u8);
                }
            },
        }
    }
    assert(fv[i1] == 47u8 && fv[i2] == 47u8 && fv[i3] == 47u8 && fv[i4] == 47u8 && fv[i5]
        == 47u8);
    assert forall|j: int| 0 <= j < i1 implies fv[j] != 47u8 by {
        assert(fv[j] == a[j]);
    }
    assert forall|j: int| i1 < j < i2 implies fv[j] != 47u8 by {
        assert(fv[j] == b[j - i1 - 1]);
    }
    assert forall|j: int| i2 < j < i3 implies fv[j] != 47u8 by {
        assert(fv[j] == m[j - i2 - 1]);
    }
    assert forall|j: int| i3 < j < i4 implies fv[j] != 47u8 by {
        assert(fv[j] == d[j - i3 - 1]);
    }
    assert forall|j: int| i4 < j < i5 implies fv[j] != 47u8 by {
        assert(fv[j] == e[j - i4 - 1]);
    }
    lemma_first_sep_found(fv, 0, i1);
    lemma_first_sep_found(fv, i1 + 1, i2);
    lemma_first_sep_found(fv, i2 + 1, i3);
    lemma_first_sep_found(fv, i3 + 1, i4);
    lemma_first_sep_found(fv, i4 + 1, i5);
    assert(fv.subrange(0, i1) =~= a);
    assert(fv.subrange(i1 + 1, i2) =~= b);
    assert(fv.subrange(i2 + 1, i3) =~= m);
    assert(fv.subrange(i3 + 1, i4) =~= d);
    assert(fv.subrange(i4 + 1, i5) =~= e);
    assert(fv.subrange(i5 + 1, fv.len() as int) =~= p);
    vstd::utf8::encode_utf8_valid_utf8(c.cmd);
    vstd::utf8::encode_utf8_valid_utf8(c.message_id);
    vstd::utf8::encode_utf8_valid_utf8(c.target);
    vstd::utf8::encode_utf8_decode_utf8(c.cmd);
    vstd::utf8::encode_utf8_decode_utf8(c.message_id);
    vstd::utf8::encode_utf8_decode_utf8(c.target);
    assert(req_or_res_of_bytes(b) == Some(ReqOrRes::Req));
    assert(chunk_type_of_bytes(e) == Some(c.chunk_type)) by {
        match c.chunk_type {
            ChunkType::NotLast => {},
            ChunkType::Last => {
                assert(last_marker() != not_last_marker()) by {
                    assert(last_marker().len() == 4 && not_last_marker().len() == 8);
                }
            },
        }
    }
}

/// A sequence of plain ASCII bytes is valid UTF-8 and decodes to the same
/// bytes read as characters.
proof fn lemma_ascii_bytes_decode(s: Seq<u8>)
    requires
        forall|i: int| 0 <= i < s.len() ==> (#[trigger] s[i]) < 128,
    ensures
        valid_utf8(s),
        decode_utf8(s) == s.map_values(|b: u8| b as char),
    decreases s.len(),
{
    if s.len() > 0 {
        let b0 = s[0];
        assert(b0 >> 7 == 0) by (bit_vector)
            requires
                b0 < 128,
        ;
        assert(vstd::utf8::is_leading_byte_width_1(b0));
        assert(vstd::utf8::length_of_first_scalar(s) == 1);
        let rest = vstd::utf8::pop_first_scalar(s);
        assert(rest =~= s.drop_first());
        lemma_ascii_bytes_decode(rest);
        assert(b0 & 0x7f == b0) by (bit_vector)
            requires
                b0 < 128,
        ;
        assert(vstd::utf8::decode_first_scalar(s) == b0 as u32);
        assert((b0 as u32) as char == b0 as char);
        assert(decode_utf8(s) =~= s.map_values(|b: u8| b as char));
    } else {
        assert(decode_utf8(s) =~= s.map_values(|b: u8| b as char));
    }
}

/// Wire round trip for response chunks, under the same conditions; the
/// status travels as its three-digit code.
pub proof fn lemma_response_chunk_round_trip(c: ChunkedResponseV, now: u64)
    requires
        sep_free(encode_utf8(c.cmd)),
        sep_free(encode_utf8(c.message_id)),
    ensures
        parse_chunked(ser_chunked_response(c), now) == ChunkedRequestOrResponseV::Response(
            ChunkedResponseV {
                creation_timestamp: now,
                cmd: c.cmd,
                message_id: c.message_id,
                status_code: c.status_code,
                chunk_type: c.chunk_type,
                payload: c.payload,
            },
        ),
{
    let a = encode_utf8(c.cmd);
    let b = res_marker();
    let m = encode_utf8(c.message_id);
    let d = status_code_bytes(c.status_code);
    let e = chunk_type_bytes(c.chunk_type);
    let p = c.payload;
    let fv = ser_chunked_response(c);
    let i1 = a.len() as int;
    let i2 = i1 + 1 + b.len();
    let i3 = i2 + 1 + m.len();
    let i4 = i3 + 1 + d.len();
    let i5 = i4 + 1 + e.len();
    assert(fv.len() == i5 + 1 + p.len());
    assert(sep_free(b)) by {
        assert(forall|i: int| 0 <= i < 3 ==> res_marker()[i] != 47u8) by {
            assert(res_marker()[0] == 114u8 && res_marker()[1] == 101u8 && res_marker()[2]
                == 115u8);
        }
    }
    assert(d.len() == 3 && d[0] != 47u8 && d[1] != 47u8 && d[2] != 47u8 && d[0] < 128 && d[1]
        < 128 && d[2] < 128) by {
        match c.status_code {
            StatusCode::Okay => {},
            StatusCode::IncorrectParams => {},
            StatusCode::InternalError => {},
        }
    }
    assert(sep_free(e)) by {
        match c.chunk_type {
            ChunkType::NotLast => {
                assert(forall|i: int| 0 <= i < 8 ==> not_last_marker()[i] != 47u8) by {
                    assert(not_last_marker()[0] == 110u8 && not_last_marker()[1] == 111u8
                        && not_last_marker()[2] == 116u8 && not_last_marker()[3] == 45u8
                        && not_last_marker()[4] == 108u8 && not_last_marker()[5] == 97u8
                        && not_last_marker()[6] == 115u8 && not_last_marker()[7] == 116u8);
                }
            },
            ChunkType::Last => {
                assert(forall|i: int| 0 <= i < 4 ==> last_marker()[i] != 47u8) by {
                    assert(last_marker()[0] == 108u8 && last_marker()[1] == 97u8 && last_marker()[2]
                        == 115u8 && last_marker()[3] == 116u8);
                }
            },
        }
    }
    assert(fv[i1] == 47u8 && fv[i2] == 47u8 && fv[i3] == 47u8 && fv[i4] == 47u8 && fv[i5]
        == 47u8);
    assert forall|j: int| 0 <= j < i1 implies fv[j] != 47u8 by {
        assert(fv[j] == a[j]);
    }
    assert forall|j: int| i1 < j < i2 implies fv[j] != 47u8 by {
        assert(fv[j] == b[j - i1 - 1]);
    }
    assert forall|j: int| i2 < j < i3 implies fv[j] != 47u8 by {
        assert(fv[j] == m[j - i2 - 1]);
    }
    assert forall|j: int| i3 < j < i4 implies fv[j] != 47u8 by {
        assert(fv[j] == d[j - i3 - 1]);
    }
    assert forall|j: int| i4 < j < i5 implies fv[j] != 47u8 by {
        assert(fv[j] == e[j - i4 - 1]);
    }
    lemma_first_sep_found(fv, 0, i1);
    lemma_first_sep_found(fv, i1 + 1, i2);
    lemma_first_sep_found(fv, i2 + 1, i3);
    lemma_first_sep_found(fv, i3 + 1, i4);
    lemma_first_sep_found(fv, i4 + 1, i5);
    assert(fv.subrange(0, i1) =~= a);
    assert(fv.subrange(i1 + 1, i2) =~= b);
    assert(fv.subrange(i2 + 1, i3) =~= m);
    assert(fv.subrange(i3 + 1, i4) =~= d);
    assert(fv.subrange(i4 + 1, i5) =~= e);
    assert(fv.subrange(i5 + 1, fv.len() as int) =~= p);
    vstd::utf8::encode_utf8_valid_utf8(c.cmd);
    vstd::utf8::encode_utf8_valid_utf8(c.message_id);
    vstd::utf8::encode_utf8_decode_utf8(c.cmd);
    vstd::utf8::encode_utf8_decode_utf8(c.message_id);
    assert forall|i: int| 0 <= i < d.len() implies (#[trigger] d[i]) < 128 by {}
    lemma_ascii_bytes_decode(d);
    assert(status_of_chars(decode_utf8(d)) == Some(c.status_code)) by {
        let chars = d.map_values(|x: u8| x as char);
        assert(chars.len() == 3 && chars[0] == d[0] as char && chars[1] == d[1] as char
            && chars[2] == d[2] as char);
        match c.status_code {
            StatusCode::Okay => {
                assert(chars =~= seq!['2', '0', '0']);
            },
            StatusCode::IncorrectParams => {
                assert(chars =~= seq!['4', '0', '0']);
                assert(chars != seq!['2', '0', '0']) by {
                    assert(chars[0] == '4');
                }
            },
            StatusCode::InternalError => {
                assert(chars =~= seq!['5', '0', '0']);
                assert(chars != seq!['2', '0', '0'] && chars != seq!['4', '0', '0']) by {
                    assert(chars[0] == '5');
                }
            },
        }
    }
    assert(req_or_res_of_bytes(b) == Some(ReqOrRes::Res)) by {
        assert(b != req_marker()) by {
            assert(req_marker()[2] == 113u8 && b[2] == 115u8);
        }
    }
    assert(chunk_type_of_bytes(e) == Some(c.chunk_type)) by {
        match c.chunk_type {
            ChunkType::NotLast => {},
            ChunkType::Last => {
                assert(last_marker() != not_last_marker()) by {
                    assert(last_marker().len() == 4 && not_last_marker().len() == 8);
                }
            },
        }
    }
}

/// Number of chunks a payload of the given length splits into: one chunk
/// per started block of `COMMAND_PAYLOAD_SIZE` bytes, and at least one.
pub open spec fn num_chunks(len: int) -> int
    decreases len,
    when len >= 0
{
    if len <= COMMAND_PAYLOAD_SIZE {
        1
    } else {
        1 + num_chunks(len - COMMAND_PAYLOAD_SIZE)
    }
}

/// The chunk count equals `max(1, ceil(len / COMMAND_PAYLOAD_SIZE))`.
pub proof fn lemma_num_chunks_is_ceil(len: int)
    requires
        len >= 0,
    ensures
        num_chunks(len) == if len == 0 {
            1int
        } else {
            (len + COMMAND_PAYLOAD_SIZE - 1) / (COMMAND_PAYLOAD_SIZE as int)
        },
    decreases len,
{
    let c = COMMAND_PAYLOAD_SIZE as int;
    if len == 0 {
    } else if len <= c {
        assert((len + c - 1) / c == 1);
    } else {
        lemma_num_chunks_is_ceil(len - c);
        assert(num_chunks(len - c) == (len - 1) / c) by {
            assert(len - c + c - 1 == len - 1);
        }
        assert((len - 1) / c + 1 == (len - 1 + c) / c) by {
            vstd::arithmetic::div_mod::lemma_hoist_over_denominator(len - 1, 1, c as nat);
        }
    }
}

proof fn lemma_num_chunks_at_least_one(len: int)
    requires
        len >= 0,
    ensures
        num_chunks(len) >= 1,
    decreases len,
{
    if len > COMMAND_PAYLOAD_SIZE {
        lemma_num_chunks_at_least_one(len - COMMAND_PAYLOAD_SIZE);
    }
}

/// The payload of the chunk at index `k`.
pub open spec fn chunk_payload_at(p: Seq<u8>, k: int) -> Seq<u8> {
    let start = k * (COMMAND_PAYLOAD_SIZE as int);
    let end = if start + COMMAND_PAYLOAD_SIZE <= p.len() {
        start + COMMAND_PAYLOAD_SIZE
    } else {
        p.len() as int
    };
    p.subrange(start, end)
}

/// The chunk at index `k` of `total` that a request splits into: every chunk
/// shares the request's command, id and target, and only the final chunk is
/// marked `Last`.
pub open spec fn request_chunk_at(r: RequestV, now: u64, k: int, total: int) -> ChunkedRequestV {
    ChunkedRequestV {
        creation_timestamp: now,
        cmd: r.cmd,
        message_id: r.message_id,
        target: r.target,
        chunk_type: if k == total - 1 {
            ChunkType::Last
        } else {
            ChunkType::NotLast
        },
        payload: chunk_payload_at(r.payload, k),
    }
}

/// The chunk at index `k` of `total` that a response splits into.
pub open spec fn response_chunk_at(r: ResponseV, k: int, total: int) -> ChunkedResponseV {
    ChunkedResponseV {
        creation_timestamp: r.creation_timestamp,
        cmd: r.cmd,
        message_id: r.message_id,
        status_code: r.status_code,
        chunk_type: if k == total - 1 {
            ChunkType::Last
        } else {
            ChunkType::NotLast
        },
        payload: chunk_payload_at(r.payload, k),
    }
}

/// Concatenation of the payloads of a sequence of request chunks.
pub open spec fn concat_req_payloads(s: Seq<ChunkedRequestV>) -> Seq<u8>
    decreases s.len(),
{
    if s.len() == 0 {
        Seq::empty()
    } else {
        concat_req_payloads(s.drop_last()) + s.last().payload
    }
}

/// Concatenation of the payloads of a sequence of response chunks.
pub open spec fn concat_res_payloads(s: Seq<ChunkedResponseV>) -> Seq<u8>
    decreases s.len(),
{
    if s.len() == 0 {
        Seq::empty()
    } else {
        concat_res_payloads(s.drop_last()) + s.last().payload
    }
}

impl Request {
    /// Split this request into its wire chunks: at most
    /// `COMMAND_PAYLOAD_SIZE` payload bytes each, at least one chunk even
    /// for an empty payload, exactly the final chunk marked `Last`, and the
    /// chunk payloads concatenating back to the request payload.
    pub fn chunk(&self, now: u64) -> (r: Vec<ChunkedRequest>)
        ensures
            r@.len() == num_chunks(self.payload@.len() as int),
            forall|k: int|
                0 <= k < r@.len() ==> (#[trigger] r@[k])@ == request_chunk_at(
                    self@,
                    now,
                    k,
                    r@.len() as int,
                ),
            concat_req_payloads(r@.map_values(|c: ChunkedRequest| c@)) == self.payload@,
            forall|k: int|
                0 <= k < r@.len() ==> (((#[trigger] r@[k])@.chunk_type == ChunkType::Last) <==> k
                    == r@.len() - 1),
    {
        let ghost total = num_chunks(self.payload@.len() as int);
        let n = self.payload.len();
        let mut r: Vec<ChunkedRequest> = Vec::new();
        if n == 0 {
            let c = ChunkedRequest {
                creation_timestamp: now,
                cmd: self.cmd.clone(),
                message_id: self.message_id.clone(),
                target: self.target.clone(),
                chunk_type: ChunkType::Last,
                payload: Vec::new(),
            };
            r.push(c);
            proof {
                assert(total == 1);
                assert(chunk_payload_at(self.payload@, 0) =~= Seq::<u8>::empty());
                assert(r@[0]@ == request_chunk_at(self@, now, 0, 1));
                let m = r@.map_values(|c: ChunkedRequest| c@);
                assert(m.len() == 1);
                assert(m.last() == r@[0]@);
                assert(m.drop_last() =~= Seq::<ChunkedRequestV>::empty());
                assert(concat_req_payloads(m.drop_last()) == Seq::<u8>::empty());
                assert(concat_req_payloads(m) =~= self.payload@);
            }
            return r;
        }
        let mut pos: usize = 0;
        while pos < n
            invariant
                n == self.payload@.len(),
                n > 0,
                pos <= n,
                total == num_chunks(n as int),
                pos < n ==> (pos == r@.len() * (COMMAND_PAYLOAD_SIZE as int) && r@.len()
                    + num_chunks(n - pos) == total),
                pos == n ==> r@.len() == total,
                forall|k: int|
                    0 <= k < r@.len() ==> (#[trigger] r@[k])@ == request_chunk_at(
                        self@,
                        now,
                        k,
                        total,
                    ),
                concat_req_payloads(r@.map_values(|c: ChunkedRequest| c@)) == self.payload@
                    .subrange(0, pos as int),
            decreases n - pos,
        {
            let start = pos;
            let end = if n - pos >= COMMAND_PAYLOAD_SIZE {
                pos + COMMAND_PAYLOAD_SIZE
            } else {
                n
            };
            let part = vec_subrange(&self.payload, start, end);
            let is_last = end == n;
            let c = ChunkedRequest {
                creation_timestamp: now,
                cmd: self.cmd.clone(),
                message_id: self.message_id.clone(),
                target: self.target.clone(),
                chunk_type: if is_last {
                    ChunkType::Last
                } else {
                    ChunkType::NotLast
                },
                payload: part,
            };
            let ghost r_snap = r@;
            proof {
                let k = r@.len() as int;
                if is_last {
                    assert(num_chunks(n - pos) == 1);
                    assert(k == total - 1);
                } else {
                    assert(n - pos > COMMAND_PAYLOAD_SIZE);
                    assert(num_chunks(n - pos) == 1 + num_chunks(n - pos - COMMAND_PAYLOAD_SIZE));
                    lemma_num_chunks_at_least_one(n - pos - COMMAND_PAYLOAD_SIZE);
                    assert(k < total - 1);
                }
                assert(c@.payload =~= chunk_payload_at(self.payload@, k));
            }
            r.push(c);
            proof {
                let k = r@.len() - 1;
                assert(r@[k]@ == request_chunk_at(self@, now, k, total));
                let m_new = r@.map_values(|c: ChunkedRequest| c@);
                let m_old = r_snap.map_values(|c: ChunkedRequest| c@);
                assert(m_new.drop_last() =~= m_old);
                assert(m_new.last() == r@[k]@);
                assert(concat_req_payloads(m_new) == concat_req_payloads(m_old) + r@[k]@.payload);
                assert(concat_req_payloads(m_old) == self.payload@.subrange(0, pos as int));
                assert(self.payload@.subrange(0, pos as int) + self.payload@.subrange(
                    pos as int,
                    end as int,
                ) =~= self.payload@.subrange(0, end as int));
            }
            pos = end;
        }
        proof {
            assert(self.payload@.subrange(0, n as int) =~= self.payload@);
        }
        r
    }
}

impl Response {
    /// Split this response into its wire chunks, with the same shape
    /// guarantees as request chunking; every chunk keeps the response's
    /// creation time and status.
    pub fn chunk(self) -> (r: Vec<ChunkedResponse>)
        ensures
            r@.len() == num_chunks(self.payload@.len() as int),
            forall|k: int|
                0 <= k < r@.len() ==> (#[trigger] r@[k])@ == response_chunk_at(
                    self@,
                    k,
                    r@.len() as int,
                ),
            concat_res_payloads(r@.map_values(|c: ChunkedResponse| c@)) == self.payload@,
            forall|k: int|
                0 <= k < r@.len() ==> (((#[trigger] r@[k])@.chunk_type == ChunkType::Last) <==> k
                    == r@.len() - 1),
    {
        let ghost total = num_chunks(self.payload@.len() as int);
        let n = self.payload.len();
        let mut r: Vec<ChunkedResponse> = Vec::new();
        if n == 0 {
            let c = ChunkedResponse {
                creation_timestamp: self.creation_timestamp,
                cmd: self.cmd.clone(),
                message_id: self.message_id.clone(),
                status_code: self.status_code,
                chunk_type: ChunkType::Last,
                payload: Vec::new(),
            };
            r.push(c);
            proof {
                assert(total == 1);
                assert(chunk_payload_at(self.payload@, 0) =~= Seq::<u8>::empty());
                assert(r@[0]@ == response_chunk_at(self@, 0, 1));
                let m = r@.map_values(|c: ChunkedResponse| c@);
                assert(m.len() == 1);
                assert(m.last() == r@[0]@);
                assert(m.drop_last() =~= Seq::<ChunkedResponseV>::empty());
                assert(concat_res_payloads(m.drop_last()) == Seq::<u8>::empty());
                assert(concat_res_payloads(m) =~= self.payload@);
            }
            return r;
        }
        let mut pos: usize = 0;
        while pos < n
            invariant
                n == self.payload@.len(),
                n > 0,
                pos <= n,
                total == num_chunks(n as int),
                pos < n ==> (pos == r@.len() * (COMMAND_PAYLOAD_SIZE as int) && r@.len()
                    + num_chunks(n - pos) == total),
                pos == n ==> r@.len() == total,
                forall|k: int|
                    0 <= k < r@.len() ==> (#[trigger] r@[k])@ == response_chunk_at(self@, k, total),
                concat_res_payloads(r@.map_values(|c: ChunkedResponse| c@)) == self.payload@
                    .subrange(0, pos as int),
            decreases n - pos,
        {
            let start = pos;
            let end = if n - pos >= COMMAND_PAYLOAD_SIZE {
                pos + COMMAND_PAYLOAD_SIZE
            } else {
                n
            };
            let part = vec_subrange(&self.payload, start, end);
            let is_last = end == n;
            let c = ChunkedResponse {
                creation_timestamp: self.creation_timestamp,
                cmd: self.cmd.clone(),
                message_id: self.message_id.clone(),
                status_code: self.status_code,
                chunk_type: if is_last {
                    ChunkType::Last
                } else {
                    ChunkType::NotLast
                },
                payload: part,
            };
            let ghost r_snap = r@;
            proof {
                let k = r@.len() as int;
                if is_last {
                    assert(num_chunks(n - pos) == 1);
                    assert(k == total - 1);
                } else {
                    assert(n - pos > COMMAND_PAYLOAD_SIZE);
                    assert(num_chunks(n - pos) == 1 + num_chunks(n - pos - COMMAND_PAYLOAD_SIZE));
                    lemma_num_chunks_at_least_one(n - pos - COMMAND_PAYLOAD_SIZE);
                    assert(k < total - 1);
                }
                assert(c@.payload =~= chunk_payload_at(self.payload@, k));
            }
            r.push(c);
            proof {
                let k = r@.len() - 1;
                assert(r@[k]@ == response_chunk_at(self@, k, total));
                let m_new = r@.map_values(|c: ChunkedResponse| c@);
                let m_old = r_snap.map_values(|c: ChunkedResponse| c@);
                assert(m_new.drop_last() =~= m_old);
                assert(m_new.last() == r@[k]@);
                assert(concat_res_payloads(m_new) == concat_res_payloads(m_old) + r@[k]@.payload);
                assert(concat_res_payloads(m_old) == self.payload@.subrange(0, pos as int));
                assert(self.payload@.subrange(0, pos as int) + self.payload@.subrange(
                    pos as int,
                    end as int,
                ) =~= self.payload@.subrange(0, end as int));
            }
            pos = end;
        }
        proof {
            assert(self.payload@.subrange(0, n as int) =~= self.payload@);
        }
        r
    }
}

/// The string a wire field decodes to, when present and valid UTF-8.
pub fn maybe_string(v: Option<&[u8]>) -> (r: Option<String>)
    ensures
        match v {
            Some(b) => (r is Some <==> valid_utf8(b@)) && (r is Some ==> r->0@ == decode_utf8(b@)),
            None => r is None,
        },
{
    match v {
        Some(b) => {
            let mut owned: Vec<u8> = Vec::new();
            vec_push_slice(&mut owned, b);
            assert(owned@ =~= b@);
            bytes_to_string(owned)
        },
        None => None,
    }
}

/// The routing target naming one shell: `shell:` followed by its id.
pub fn make_shell_target(shell_id: &String) -> (r: String)
    ensures
        r@ == "shell:"@ + shell_id@,
{
    let mut r = String::from_str("shell:");
    r.append(shell_id.as_str());
    r
}

} // verus!
