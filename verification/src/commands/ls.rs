//! The `ls` command: list a directory.

use vstd::prelude::*;

verus! {

use vstd::string::StringExecFns;
use vstd::string::StrSliceExecFns;
use vstd::utf8::encode_utf8;
use crate::commands::request_or_response::{Request, RequestV, make_shell_target};

pub const COMMAND_NAME: &'static str = "ls";

/// Build the request listing `folder_path` on the addressed shell; the
/// payload is the path itself.
pub fn make_ls_request(message_id: String, shell_id: &String, folder_path: &String) -> (r: Request)
    ensures
        r@ == (RequestV {
            cmd: "ls"@,
            message_id: message_id@,
            target: "shell:"@ + shell_id@,
            payload: encode_utf8(folder_path@),
        }),
{
    Request {
        cmd: String::from_str("ls"),
        message_id,
        target: make_shell_target(shell_id),
        payload: folder_path.as_str().as_bytes_vec(),
    }
}

} // verus!
