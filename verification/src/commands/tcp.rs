//! The `tcp` command: write bytes to a remote host and read what comes back.
//!
//! The request body is the JSON object
//! `{"host":"<host>","port":<port>,"payload":[<bytes>]}`.

use vstd::prelude::*;

verus! {

use vstd::string::StringExecFns;
use vstd::utf8::encode_utf8;
use crate::commands::command_error::{json_escape_bytes, json_escape};
use crate::commands::request_or_response::{Request, RequestV, make_shell_target};
use crate::util::{vec_push_all, u64_to_dec, dec_bytes_of};

pub const COMMAND_NAME: &'static str = "tcp";

/// The decimal items of a JSON byte array, comma separated.
pub open spec fn json_u8_items(s: Seq<u8>) -> Seq<u8>
    decreases s.len(),
{
    if s.len() == 0 {
        Seq::empty()
    } else if s.len() == 1 {
        dec_bytes_of(s[0] as int)
    } else {
        json_u8_items(s.drop_last()) + seq![44u8] + dec_bytes_of(s.last() as int)
    }
}

/// The request body `{"host":"<host escaped>","port":<port>,"payload":[..]}`.
pub open spec fn tcp_request_body(host: Seq<u8>, port: u16, payload: Seq<u8>) -> Seq<u8> {
    seq![123u8, 34u8, 104u8, 111u8, 115u8, 116u8, 34u8, 58u8, 34u8] + json_escape_bytes(host) + seq![34u8, 44u8, 34u8, 112u8, 111u8, 114u8, 116u8, 34u8, 58u8] + dec_bytes_of(port as int)
        + seq![44u8, 34u8, 112u8, 97u8, 121u8, 108u8, 111u8, 97u8, 100u8, 34u8, 58u8, 91u8] + json_u8_items(payload) + seq![93u8, 125u8]
}

/// Build the request forwarding `payload` to `host:port` through the
/// addressed shell.
pub fn make_tcp_request(
    message_id: String,
    shell_id: &String,
    host: String,
    port: u16,
    payload: Vec<u8>,
) -> (r: Request)
    ensures
        r@ == (RequestV {
            cmd: "tcp"@,
            message_id: message_id@,
            target: "shell:"@ + shell_id@,
            payload: tcp_request_body(encode_utf8(host@), port, payload@),
        }),
{
    let mut items: Vec<u8> = Vec::new();
    let mut i: usize = 0;
    proof {
        assert(items@ =~= json_u8_items(payload@.subrange(0, 0)));
    }
    while i < payload.len()
        invariant
            0 <= i <= payload@.len(),
            items@ == json_u8_items(payload@.subrange(0, i as int)),
        decreases payload@.len() - i,
    {
        if i > 0 {
            items.push(44);
        }
        let d = u64_to_dec(payload[i] as u64);
        vec_push_all(&mut items, &d);
        proof {
            let prev = payload@.subrange(0, i as int);
            let cur = payload@.subrange(0, i + 1);
            assert(cur.drop_last() =~= prev);
            assert(cur.last() == payload@[i as int]);
            assert(items@ =~= json_u8_items(cur));
        }
        i = i + 1;
    }
    proof {
        assert(payload@.subrange(0, payload@.len() as int) =~= payload@);
    }
    let mut r: Vec<u8> = Vec::new();
    // {"host":"
    r.push(123);
    r.push(34);
    r.push(104);
    r.push(111);
    r.push(115);
    r.push(116);
    r.push(34);
    r.push(58);
    r.push(34);
    let esc = json_escape(host.as_str());
    vec_push_all(&mut r, &esc);
    // ","port":
    r.push(34);
    r.push(44);
    r.push(34);
    r.push(112);
    r.push(111);
    r.push(114);
    r.push(116);
    r.push(34);
    r.push(58);
    let d = u64_to_dec(port as u64);
    vec_push_all(&mut r, &d);
    // ,"payload":[
    r.push(44);
    r.push(34);
    r.push(112);
    r.push(97);
    r.push(121);
    r.push(108);
    r.push(111);
    r.push(97);
    r.push(100);
    r.push(34);
    r.push(58);
    r.push(91);
    vec_push_all(&mut r, &items);
    // ]}
    r.push(93);
    r.push(125);
    assert(r@ =~= tcp_request_body(encode_utf8(host@), port, payload@));
    Request {
        cmd: String::from_str("tcp"),
        message_id,
        target: make_shell_target(shell_id),
        payload: r,
    }
}

} // verus!
