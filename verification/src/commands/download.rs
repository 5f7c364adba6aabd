//! The `download` command: fetch a remote file's bytes.

use vstd::prelude::*;

verus! {

use vstd::string::StringExecFns;
use vstd::string::StrSliceExecFns;
use vstd::utf8::encode_utf8;
use crate::commands::request_or_response::{Request, RequestV, make_shell_target};

pub const COMMAND_NAME: &'static str = "download";

pub const COMMAND_ALIAS: &'static str = "cp";

/// Build the request downloading `file_path` from the addressed shell; the
/// payload is the path itself.
pub fn make_download_request(message_id: String, shell_id: &String, file_path: &String) -> (r:
    Request)
    ensures
        r@ == (RequestV {
            cmd: "download"@,
            message_id: message_id@,
            target: "shell:"@ + shell_id@,
            payload: encode_utf8(file_path@),
        }),
{
    Request {
        cmd: String::from_str("download"),
        message_id,
        target: make_shell_target(shell_id),
        payload: file_path.as_str().as_bytes_vec(),
    }
}

} // verus!
