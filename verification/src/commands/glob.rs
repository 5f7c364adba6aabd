//! The `glob` command: list the files matching a pattern.

use vstd::prelude::*;

verus! {

use vstd::string::StringExecFns;
use vstd::string::StrSliceExecFns;
use vstd::utf8::encode_utf8;
use crate::commands::request_or_response::{Request, RequestV, make_shell_target};

pub const COMMAND_NAME: &'static str = "glob";

/// Build the request matching `glob_pattern` on the addressed shell; the
/// payload is the pattern itself.
pub fn make_glob_request(message_id: String, shell_id: &String, glob_pattern: &String) -> (r:
    Request)
    ensures
        r@ == (RequestV {
            cmd: "glob"@,
            message_id: message_id@,
            target: "shell:"@ + shell_id@,
            payload: encode_utf8(glob_pattern@),
        }),
{
    Request {
        cmd: String::from_str("glob"),
        message_id,
        target: make_shell_target(shell_id),
        payload: glob_pattern.as_str().as_bytes_vec(),
    }
}

} // verus!
