//! The `scripts` command: run a named executable from the scripts folder.
//!
//! The request body is the JSON object `{"name":"<script>"}`.  A successful
//! response payload is four little-endian bytes of the exit code followed by
//! the captured standard output.

use vstd::prelude::*;

verus! {

use vstd::string::StringExecFns;
use vstd::utf8::encode_utf8;
use crate::commands::command_error::{json_escape_bytes, json_escape};
use crate::commands::request_or_response::{Request, RequestV, make_shell_target};
use crate::util::{vec_push_all, vec_subrange};

pub const COMMAND_NAME: &'static str = "scripts";

/// The request body `{"name":"<name escaped>"}`.
pub open spec fn scripts_request_body(name: Seq<u8>) -> Seq<u8> {
    seq![123u8, 34u8, 110u8, 97u8, 109u8, 101u8, 34u8, 58u8, 34u8] + json_escape_bytes(name) + seq![34u8, 125u8]
}

/// Build the request running the named script on the addressed shell.
pub fn make_scripts_request(message_id: String, shell_id: &String, name: String) -> (r: Request)
    ensures
        r@ == (RequestV {
            cmd: "scripts"@,
            message_id: message_id@,
            target: "shell:"@ + shell_id@,
            payload: scripts_request_body(encode_utf8(name@)),
        }),
{
    let mut r: Vec<u8> = Vec::new();
    // {"name":"
    r.push(123);
    r.push(34);
    r.push(110);
    r.push(97);
    r.push(109);
    r.push(101);
    r.push(34);
    r.push(58);
    r.push(34);
    let esc = json_escape(name.as_str());
    vec_push_all(&mut r, &esc);
    // "}
    r.push(34);
    r.push(125);
    assert(r@ =~= scripts_request_body(encode_utf8(name@)));
    Request {
        cmd: String::from_str("scripts"),
        message_id,
        target: make_shell_target(shell_id),
        payload: r,
    }
}

/// The four little-endian bytes of a 32-bit value.
pub open spec fn u32_le_bytes(u: u32) -> Seq<u8> {
    seq![
        (u & 0xff) as u8,
        ((u >> 8) & 0xff) as u8,
        ((u >> 16) & 0xff) as u8,
        ((u >> 24) & 0xff) as u8,
    ]
}

/// The little-endian bytes of a script's exit code.
pub open spec fn exit_code_bytes(code: i32) -> Seq<u8> {
    u32_le_bytes(code as u32)
}

/// The exit code at the front of a script response payload.
pub open spec fn le_exit_code(s: Seq<u8>) -> i32
    recommends
        s.len() >= 4,
{
    (((s[0] as u32) | ((s[1] as u32) << 8)) | (((s[2] as u32) << 16) | ((s[3] as u32) << 24))) as i32
}

/// Frame a script's outcome: exit code in little-endian order, then output.
pub fn encode_script_payload(code: i32, output: &Vec<u8>) -> (r: Vec<u8>)
    ensures
        r@ == exit_code_bytes(code) + output@,
{
    let u = code as u32;
    let mut r: Vec<u8> = Vec::new();
    r.push((u & 0xff) as u8);
    r.push(((u >> 8) & 0xff) as u8);
    r.push(((u >> 16) & 0xff) as u8);
    r.push(((u >> 24) & 0xff) as u8);
    vec_push_all(&mut r, output);
    assert(r@ =~= exit_code_bytes(code) + output@);
    r
}

/// Split a script response payload into exit code and output; fewer than
/// four bytes cannot carry a code.
pub fn split_script_response(payload: &Vec<u8>) -> (r: Option<(i32, Vec<u8>)>)
    ensures
        payload@.len() < 4 ==> r is None,
        payload@.len() >= 4 ==> r is Some && (r->0).0 == le_exit_code(payload@) && ((r->0).1)@
            == payload@.subrange(4, payload@.len() as int),
{
    if payload.len() < 4 {
        return None;
    }
    let u: u32 = ((payload[0] as u32) | ((payload[1] as u32) << 8)) | (((payload[2] as u32) << 16)
        | ((payload[3] as u32) << 24));
    let rest = vec_subrange(payload, 4, payload.len());
    Some(((u as i32), rest))
}

/// Framing round trip: the code encoded in front of any output is the code
/// read back.
pub proof fn lemma_exit_code_round_trip(code: i32, output: Seq<u8>)
    ensures
        le_exit_code(exit_code_bytes(code) + output) == code,
{
    let u = code as u32;
    let s = exit_code_bytes(code) + output;
    assert(s[0] == (u & 0xff) as u8 && s[1] == ((u >> 8) & 0xff) as u8 && s[2] == ((u >> 16)
        & 0xff) as u8 && s[3] == ((u >> 24) & 0xff) as u8);
    assert((((((u & 0xff) as u8) as u32) | ((((u >> 8) & 0xff) as u8) as u32) << 8) | (((((u >> 16)
        & 0xff) as u8) as u32) << 16 | ((((u >> 24) & 0xff) as u8) as u32) << 24)) == u)
        by (bit_vector);
    assert((u as i32) as u32 == u) by (bit_vector);
    assert(((code as u32) as i32) == code) by (bit_vector);
}

} // verus!
