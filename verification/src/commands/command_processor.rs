//! Command routing.
//!
//! A serialized chunk runs through the reassembler; a completed request is
//! mapped to the command it names, for its handler to execute; the handler's
//! outcome is then folded into a response: a successful payload compressed,
//! a handler error carried as an uncompressed `{"error": ...}` body, a
//! compression failure reported as an internal error with an empty payload.

use vstd::prelude::*;

verus! {

use vstd::string::StringSliceAdditionalSpecFns;
use vstd::string::StringExecFns;
use vstd::utf8::encode_utf8;
use crate::commands::command_error::{error_json_of, make_error_bytes};
use crate::commands::command_history::{
    CommandHistory, CommandHistoryV, request_step, response_step,
};
use crate::commands::request_or_response::{
    ChunkedRequestOrResponseV, Request, RequestV, RequestOrResponse, Response, ResponseV,
    StatusCode, parse_chunked,
};
use crate::compress::{zstd_compress, zstd_compress_of, zstd_decompress_of};
use crate::constants::RESPONSE_COMPRESSION_LEVEL;
use crate::util::str_eq;

/// The commands an agent can execute.
#[derive(Copy, Clone, PartialEq, Eq, Structural, Debug)]
pub enum CommandKind {
    Ls,
    Glob,
    Download,
    Http,
    Tcp,
    Scripts,
}

/// The command a request's `cmd` field names, if any.
pub open spec fn kind_of_cmd(cmd: Seq<char>) -> Option<CommandKind> {
    if cmd == "ls"@ {
        Some(CommandKind::Ls)
    } else if cmd == "glob"@ {
        Some(CommandKind::Glob)
    } else if cmd == "download"@ {
        Some(CommandKind::Download)
    } else if cmd == "http"@ {
        Some(CommandKind::Http)
    } else if cmd == "tcp"@ {
        Some(CommandKind::Tcp)
    } else if cmd == "scripts"@ {
        Some(CommandKind::Scripts)
    } else {
        None
    }
}

/// The command a name denotes.
pub fn parse_command_kind(cmd: &str) -> (r: Option<CommandKind>)
    ensures
        r == kind_of_cmd(cmd@),
{
    if str_eq(cmd, "ls") {
        Some(CommandKind::Ls)
    } else if str_eq(cmd, "glob") {
        Some(CommandKind::Glob)
    } else if str_eq(cmd, "download") {
        Some(CommandKind::Download)
    } else if str_eq(cmd, "http") {
        Some(CommandKind::Http)
    } else if str_eq(cmd, "tcp") {
        Some(CommandKind::Tcp)
    } else if str_eq(cmd, "scripts") {
        Some(CommandKind::Scripts)
    } else {
        None
    }
}

/// What routing one inbound chunk asks of the caller.
pub enum ProcessedMsg {
    /// The chunk was absorbed, dropped, or closed a response: nothing to do.
    Nothing,
    /// A request is complete and names a known command: execute it and hand
    /// the outcome to `finish_request`.
    Execute(Request, CommandKind),
    /// A response is owed right away (the request named no known command).
    Reply(Response),
}

/// Mathematical value of a routing outcome.
pub enum ProcessedMsgV {
    Nothing,
    Execute(RequestV, CommandKind),
    Reply(ResponseV),
}

impl View for ProcessedMsg {
    type V = ProcessedMsgV;

    open spec fn view(&self) -> ProcessedMsgV {
        match self {
            ProcessedMsg::Nothing => ProcessedMsgV::Nothing,
            ProcessedMsg::Execute(r, k) => ProcessedMsgV::Execute(r@, *k),
            ProcessedMsg::Reply(r) => ProcessedMsgV::Reply(r@),
        }
    }
}

/// The response owed for a request whose command is unknown.
pub open spec fn unknown_command_response(rv: RequestV, now: u64) -> ResponseV {
    ResponseV {
        creation_timestamp: now,
        cmd: rv.cmd,
        message_id: rv.message_id,
        status_code: StatusCode::IncorrectParams,
        payload: error_json_of(encode_utf8("Unknown command"@)),
    }
}

/// The router: reassembles inbound chunks and decides what each completed
/// request asks for.
pub struct CommandProcessor {
    history: CommandHistory,
}

impl View for CommandProcessor {
    type V = CommandHistoryV;

    closed spec fn view(&self) -> CommandHistoryV {
        self.history@
    }
}

impl CommandProcessor {
    /// A router with an empty reassembler.
    pub fn new() -> (r: CommandProcessor)
        ensures
            r@.requests =~= Seq::<RequestV>::empty(),
            r@.responses =~= Seq::<ResponseV>::empty(),
    {
        CommandProcessor { history: CommandHistory::new() }
    }

    /// Fold one serialized chunk into the reassembler and route the request
    /// it may have completed.  A completed request naming a known command is
    /// handed back for execution; one naming no command is answered at once
    /// with an `{"error": ...}` body; everything else asks for nothing.
    pub fn process_msg(&mut self, msg: &Vec<u8>, now: u64) -> (r: ProcessedMsg)
        ensures
            match parse_chunked(msg@, now) {
                ChunkedRequestOrResponseV::Request(c) => {
                    let (tbl, emit) = request_step(old(self)@.requests, c);
                    &&& final(self)@.requests == tbl
                    &&& final(self)@.responses == old(self)@.responses
                    &&& r@ == match emit {
                        Some(rv) => match kind_of_cmd(rv.cmd) {
                            Some(k) => ProcessedMsgV::Execute(rv, k),
                            None => ProcessedMsgV::Reply(unknown_command_response(rv, now)),
                        },
                        None => ProcessedMsgV::Nothing,
                    }
                },
                ChunkedRequestOrResponseV::Response(c) => {
                    let (tbl, emit) = response_step(old(self)@.responses, c);
                    &&& final(self)@.responses == tbl
                    &&& final(self)@.requests == old(self)@.requests
                    &&& r@ == ProcessedMsgV::Nothing
                },
                ChunkedRequestOrResponseV::Nothing => final(self)@ == old(self)@ && r@
                    == ProcessedMsgV::Nothing,
            },
    {
        let cmd = self.history.append(msg, now);
        match cmd {
            RequestOrResponse::Request(req) => {
                match parse_command_kind(req.cmd.as_str()) {
                    Some(k) => ProcessedMsg::Execute(req, k),
                    None => {
                        let payload = make_error_bytes("Unknown command");
                        ProcessedMsg::Reply(
                            Response {
                                creation_timestamp: now,
                                cmd: req.cmd,
                                message_id: req.message_id,
                                status_code: StatusCode::IncorrectParams,
                                payload,
                            },
                        )
                    },
                }
            },
            RequestOrResponse::Response(_) => ProcessedMsg::Nothing,
            RequestOrResponse::Nothing => ProcessedMsg::Nothing,
        }
    }
}

/// Fold a handler's outcome into the response owed for `req`.
///
/// A successful payload is compressed at the fixed level, and what was
/// compressed decompresses back to that payload; if compression fails the
/// status is an internal error and the payload empty.  A handler error is
/// answered with the `IncorrectParams` status and the uncompressed body
/// `{"error":"<reason>"}` — never compressed.
pub fn finish_request(req: &Request, outcome: Result<Vec<u8>, String>, now: u64) -> (r: Response)
    ensures
        r.creation_timestamp == now,
        r.cmd@ == req.cmd@,
        r.message_id@ == req.message_id@,
        match outcome {
            Ok(p) => (r.status_code == StatusCode::Okay && r.payload@ == zstd_compress_of(
                p@,
                RESPONSE_COMPRESSION_LEVEL as int,
            ) && zstd_decompress_of(r.payload@) == Some(p@)) || (r.status_code
                == StatusCode::InternalError && r.payload@.len() == 0),
            Err(e) => r.status_code == StatusCode::IncorrectParams && r.payload@ == error_json_of(
                encode_utf8(e@),
            ),
        },
{
    match outcome {
        Ok(p) => {
            match zstd_compress(&p, RESPONSE_COMPRESSION_LEVEL) {
                Some(compressed) => Response {
                    creation_timestamp: now,
                    cmd: req.cmd.clone(),
                    message_id: req.message_id.clone(),
                    status_code: StatusCode::Okay,
                    payload: compressed,
                },
                None => Response {
                    creation_timestamp: now,
                    cmd: req.cmd.clone(),
                    message_id: req.message_id.clone(),
                    status_code: StatusCode::InternalError,
                    payload: Vec::new(),
                },
            }
        },
        Err(e) => {
            let payload = make_error_bytes(e.as_str());
            Response {
                creation_timestamp: now,
                cmd: req.cmd.clone(),
                message_id: req.message_id.clone(),
                status_code: StatusCode::IncorrectParams,
                payload,
            }
        },
    }
}

} // verus!
