//! The `http` command: perform an HTTP request from the agent's side.
//!
//! The request body is the JSON object
//! `{"verb":"<verb>","url":"<url>","headers":{},"body":<string or null>}`.

use vstd::prelude::*;

verus! {

use vstd::string::StringExecFns;
use vstd::utf8::encode_utf8;
use crate::commands::command_error::{json_escape_bytes, json_escape};
use crate::commands::request_or_response::{Request, RequestV, make_shell_target};
use crate::util::{vec_push_all, str_eq};

pub const COMMAND_NAME: &'static str = "http";

/// The verbs the command understands.
#[derive(Copy, Clone, PartialEq, Eq, Structural, Debug)]
pub enum HttpVerb {
    GET,
    POST,
    PUT,
    DELETE,
}

/// The verb a lower-case name denotes, if any.
pub open spec fn verb_of_chars(s: Seq<char>) -> Option<HttpVerb> {
    if s == "get"@ {
        Some(HttpVerb::GET)
    } else if s == "post"@ {
        Some(HttpVerb::POST)
    } else if s == "put"@ {
        Some(HttpVerb::PUT)
    } else if s == "delete"@ {
        Some(HttpVerb::DELETE)
    } else {
        None
    }
}

/// The JSON name of a verb.
pub open spec fn verb_json(v: HttpVerb) -> Seq<u8> {
    match v {
        HttpVerb::GET => seq![103u8, 101u8, 116u8],
        HttpVerb::POST => seq![112u8, 111u8, 115u8, 116u8],
        HttpVerb::PUT => seq![112u8, 117u8, 116u8],
        HttpVerb::DELETE => seq![100u8, 101u8, 108u8, 101u8, 116u8, 101u8],
    }
}

/// The request body: verb, url, empty header map, optional string body.
pub open spec fn http_request_body(v: HttpVerb, url: Seq<u8>, body: Option<Seq<u8>>) -> Seq<u8> {
    seq![123u8, 34u8, 118u8, 101u8, 114u8, 98u8, 34u8, 58u8, 34u8] + verb_json(v) + seq![34u8, 44u8, 34u8, 117u8, 114u8, 108u8, 34u8, 58u8, 34u8] + json_escape_bytes(url)
        + seq![34u8, 44u8, 34u8, 104u8, 101u8, 97u8, 100u8, 101u8, 114u8, 115u8, 34u8, 58u8, 123u8, 125u8, 44u8, 34u8, 98u8, 111u8, 100u8, 121u8, 34u8, 58u8] + (match body {
        Some(b) => seq![34u8] + json_escape_bytes(b) + seq![34u8],
        None => seq![110u8, 117u8, 108u8, 108u8],
    }) + seq![125u8]
}

/// The verb an argument names.
pub fn parse_http_verb(s: &str) -> (r: Option<HttpVerb>)
    ensures
        r == verb_of_chars(s@),
{
    if str_eq(s, "get") {
        Some(HttpVerb::GET)
    } else if str_eq(s, "post") {
        Some(HttpVerb::POST)
    } else if str_eq(s, "put") {
        Some(HttpVerb::PUT)
    } else if str_eq(s, "delete") {
        Some(HttpVerb::DELETE)
    } else {
        None
    }
}

/// Build the request performing an HTTP call through the addressed shell.
/// The arguments are the verb, the url, and optionally a request body; a
/// missing url or an unknown verb yields nothing.
#[verifier::rlimit(100)]
pub fn make_http_request(message_id: String, shell_id: &String, args: &Vec<String>) -> (r: Option<
    Request,
>)
    ensures
        r is Some <==> (args@.len() >= 2 && verb_of_chars(args@[0]@) is Some),
        r is Some ==> r->0@ == (RequestV {
            cmd: "http"@,
            message_id: message_id@,
            target: "shell:"@ + shell_id@,
            payload: http_request_body(
                verb_of_chars(args@[0]@)->0,
                encode_utf8(args@[1]@),
                if args@.len() > 2 {
                    Some(encode_utf8(args@[2]@))
                } else {
                    None
                },
            ),
        }),
{
    if args.len() < 2 {
        return None;
    }
    let verb = match parse_http_verb(args[0].as_str()) {
        Some(v) => v,
        None => {
            return None;
        },
    };
    let mut r: Vec<u8> = Vec::new();
    // {"verb":"
    r.push(123);
    r.push(34);
    r.push(118);
    r.push(101);
    r.push(114);
    r.push(98);
    r.push(34);
    r.push(58);
    r.push(34);
    let ghost g1 = seq![123u8, 34u8, 118u8, 101u8, 114u8, 98u8, 34u8, 58u8, 34u8];
    assert(r@ =~= g1);
    match verb {
        HttpVerb::GET => {
            r.push(103);
            r.push(101);
            r.push(116);
        },
        HttpVerb::POST => {
            r.push(112);
            r.push(111);
            r.push(115);
            r.push(116);
        },
        HttpVerb::PUT => {
            r.push(112);
            r.push(117);
            r.push(116);
        },
        HttpVerb::DELETE => {
            r.push(100);
            r.push(101);
            r.push(108);
            r.push(101);
            r.push(116);
            r.push(101);
        },
    }
    let ghost g2 = g1 + verb_json(verb);
    assert(r@ =~= g2);
    // ","url":"
    r.push(34);
    r.push(44);
    r.push(34);
    r.push(117);
    r.push(114);
    r.push(108);
    r.push(34);
    r.push(58);
    r.push(34);
    let ghost g3 = g2 + seq![34u8, 44u8, 34u8, 117u8, 114u8, 108u8, 34u8, 58u8, 34u8];
    assert(r@ =~= g3);
    let esc = json_escape(args[1].as_str());
    vec_push_all(&mut r, &esc);
    let ghost g4 = g3 + json_escape_bytes(encode_utf8(args@[1]@));
    // ","headers":{},"body":
    r.push(34);
    r.push(44);
    r.push(34);
    r.push(104);
    r.push(101);
    r.push(97);
    r.push(100);
    r.push(101);
    r.push(114);
    r.push(115);
    r.push(34);
    r.push(58);
    r.push(123);
    r.push(125);
    r.push(44);
    r.push(34);
    r.push(98);
    r.push(111);
    r.push(100);
    r.push(121);
    r.push(34);
    r.push(58);
    let ghost g5 = g4 + seq![34u8, 44u8, 34u8, 104u8, 101u8, 97u8, 100u8, 101u8, 114u8, 115u8, 34u8, 58u8, 123u8, 125u8, 44u8, 34u8, 98u8, 111u8, 100u8, 121u8, 34u8, 58u8];
    assert(r@ =~= g5);
    if args.len() > 2 {
        r.push(34);
        let escb = json_escape(args[2].as_str());
        vec_push_all(&mut r, &escb);
        r.push(34);
        assert(r@ =~= g5 + (seq![34u8] + json_escape_bytes(encode_utf8(args@[2]@)) + seq![34u8]));
    } else {
        r.push(110);
        r.push(117);
        r.push(108);
        r.push(108);
        assert(r@ =~= g5 + seq![110u8, 117u8, 108u8, 108u8]);
    }
    let ghost g6 = g5 + (match (if args@.len() > 2 {
        Some(encode_utf8(args@[2]@))
    } else {
        None
    }) {
        Some(b) => seq![34u8] + json_escape_bytes(b) + seq![34u8],
        None => seq![110u8, 117u8, 108u8, 108u8],
    });
    assert(r@ == g6);
    r.push(125);
    assert(r@ =~= g6 + seq![125u8]);
    assert(r@ == http_request_body(
        verb_of_chars(args@[0]@)->0,
        encode_utf8(args@[1]@),
        if args@.len() > 2 {
            Some(encode_utf8(args@[2]@))
        } else {
            None
        },
    ));
    Some(
        Request {
            cmd: String::from_str("http"),
            message_id,
            target: make_shell_target(shell_id),
            payload: r,
        },
    )
}

} // verus!
