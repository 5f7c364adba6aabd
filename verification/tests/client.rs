use hoposhell::commands::request_or_response::{
    ChunkType, ChunkedRequest, ChunkedResponse, Request, StatusCode,
};
use hoposhell::commands::send_command_handler::{
    finalize_response, parse_command_response_message, CommandError, ParseCommandResponseResult,
};
use hoposhell::message::{Message, MessageTypeToStream};

fn request() -> Request {
    Request {
        cmd: "ls".to_string(),
        message_id: "me:1".to_string(),
        target: "shell:1".to_string(),
        payload: vec![],
    }
}

fn response_frame(mid: &str, status: StatusCode, kind: ChunkType, payload: &[u8]) -> Message<
    MessageTypeToStream,
> {
    let body = ChunkedResponse {
        creation_timestamp: 50,
        cmd: "ls".to_string(),
        message_id: mid.to_string(),
        status_code: status,
        chunk_type: kind,
        payload: payload.to_vec(),
    }
    .to_message_payload();
    Message { mtype: MessageTypeToStream::COMMAND, content: Some(body) }
}

#[test]
fn matching_chunks_collect_until_last() {
    let req = request();
    let mut all_res: Vec<ChunkedResponse> = vec![];
    let msgs = vec![response_frame("me:1", StatusCode::Okay, ChunkType::NotLast, b"ab")];
    assert_eq!(
        parse_command_response_message(&req, &msgs, &mut all_res, 1),
        ParseCommandResponseResult::CanContinue
    );
    let msgs = vec![response_frame("me:1", StatusCode::Okay, ChunkType::Last, b"cd")];
    assert_eq!(
        parse_command_response_message(&req, &msgs, &mut all_res, 1),
        ParseCommandResponseResult::ReachedLastChunk
    );
    assert_eq!(all_res.len(), 2);
    assert_eq!(all_res[0].payload, b"ab".to_vec());
    assert_eq!(all_res[1].payload, b"cd".to_vec());
}

#[test]
fn stray_ids_are_ignored_and_errors_fail() {
    let req = request();
    let mut all_res: Vec<ChunkedResponse> = vec![];
    let msgs = vec![response_frame("someone-else", StatusCode::Okay, ChunkType::Last, b"zz")];
    assert_eq!(
        parse_command_response_message(&req, &msgs, &mut all_res, 1),
        ParseCommandResponseResult::CanContinue
    );
    assert!(all_res.is_empty());
    let msgs = vec![response_frame("me:1", StatusCode::IncorrectParams, ChunkType::Last, b"{}")];
    assert_eq!(
        parse_command_response_message(&req, &msgs, &mut all_res, 1),
        ParseCommandResponseResult::Error
    );
    let msgs = vec![Message { mtype: MessageTypeToStream::STDOUT, content: Some(b"x".to_vec()) }];
    assert_eq!(
        parse_command_response_message(&req, &msgs, &mut all_res, 1),
        ParseCommandResponseResult::Error
    );
}

#[test]
fn inbound_requests_and_noise_do_not_end_the_wait() {
    let req = request();
    let mut all_res: Vec<ChunkedResponse> = vec![];
    let stray_req = ChunkedRequest {
        creation_timestamp: 1,
        cmd: "ls".to_string(),
        message_id: "me:1".to_string(),
        target: "shell:1".to_string(),
        chunk_type: ChunkType::Last,
        payload: vec![],
    }
    .to_message_payload();
    let msgs = vec![Message { mtype: MessageTypeToStream::COMMAND, content: Some(stray_req) }];
    assert_eq!(
        parse_command_response_message(&req, &msgs, &mut all_res, 1),
        ParseCommandResponseResult::CanContinue
    );
    let msgs = vec![Message {
        mtype: MessageTypeToStream::COMMAND,
        content: Some(b"not a frame".to_vec()),
    }];
    assert_eq!(
        parse_command_response_message(&req, &msgs, &mut all_res, 1),
        ParseCommandResponseResult::CanContinue
    );
    assert!(all_res.is_empty());
}

#[test]
fn finalize_decompresses_collected_chunks() {
    let body: Vec<u8> = (0..30000u32).map(|i| (i % 17) as u8).collect();
    let compressed = zstd::stream::encode_all(body.as_slice(), 4).unwrap();
    let mut all_res: Vec<ChunkedResponse> = vec![];
    for (i, part) in compressed.chunks(100).enumerate() {
        all_res.push(ChunkedResponse {
            creation_timestamp: 42,
            cmd: "download".to_string(),
            message_id: "me:1".to_string(),
            status_code: StatusCode::Okay,
            chunk_type: if (i + 1) * 100 >= compressed.len() {
                ChunkType::Last
            } else {
                ChunkType::NotLast
            },
            payload: part.to_vec(),
        });
    }
    let res = finalize_response(&all_res).expect("decompressible");
    assert_eq!(res.payload, body);
    assert_eq!(res.creation_timestamp, 42);
    assert_eq!(res.cmd, "download");
    assert_eq!(res.status_code, StatusCode::Okay);
}

#[test]
fn finalize_reports_missing_and_broken_responses() {
    let empty: Vec<ChunkedResponse> = vec![];
    assert_eq!(finalize_response(&empty), Err(CommandError::NoResponse));
    let broken = vec![ChunkedResponse {
        creation_timestamp: 1,
        cmd: "ls".to_string(),
        message_id: "m".to_string(),
        status_code: StatusCode::Okay,
        chunk_type: ChunkType::Last,
        payload: b"{\"error\":\"oops\"}".to_vec(),
    }];
    assert_eq!(finalize_response(&broken), Err(CommandError::DecompressFailed));
}
