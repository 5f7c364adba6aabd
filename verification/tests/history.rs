use hoposhell::commands::command_history::CommandHistory;
use hoposhell::commands::request_or_response::{
    ChunkType, ChunkedRequest, ChunkedResponse, Request, RequestOrResponse, StatusCode,
};

fn req_chunk(mid: &str, kind: ChunkType, payload: &[u8]) -> Vec<u8> {
    ChunkedRequest {
        creation_timestamp: 1,
        cmd: "download".to_string(),
        message_id: mid.to_string(),
        target: "shell:9".to_string(),
        chunk_type: kind,
        payload: payload.to_vec(),
    }
    .to_message_payload()
}

#[test]
fn lone_last_chunk_is_surfaced_at_once() {
    let mut history = CommandHistory::new();
    let out = history.append(&req_chunk("m1", ChunkType::Last, b"whole"), 2);
    match out {
        RequestOrResponse::Request(r) => {
            assert_eq!(r.cmd, "download");
            assert_eq!(r.message_id, "m1");
            assert_eq!(r.target, "shell:9");
            assert_eq!(r.payload, b"whole".to_vec());
        },
        _ => panic!("expected a request"),
    }
}

#[test]
fn chunk_train_concatenates_in_order() {
    let mut history = CommandHistory::new();
    assert!(matches!(
        history.append(&req_chunk("m1", ChunkType::NotLast, b"aa"), 2),
        RequestOrResponse::Nothing
    ));
    assert!(matches!(
        history.append(&req_chunk("m1", ChunkType::NotLast, b"bb"), 3),
        RequestOrResponse::Nothing
    ));
    match history.append(&req_chunk("m1", ChunkType::Last, b"cc"), 4) {
        RequestOrResponse::Request(r) => {
            assert_eq!(r.payload, b"aabbcc".to_vec());
            assert_eq!(r.message_id, "m1");
        },
        _ => panic!("expected a request"),
    }
}

#[test]
fn interleaved_ids_reassemble_separately() {
    let mut history = CommandHistory::new();
    history.append(&req_chunk("a", ChunkType::NotLast, b"a1"), 1);
    history.append(&req_chunk("b", ChunkType::NotLast, b"b1"), 1);
    history.append(&req_chunk("a", ChunkType::NotLast, b"a2"), 1);
    match history.append(&req_chunk("b", ChunkType::Last, b"b2"), 1) {
        RequestOrResponse::Request(r) => assert_eq!(r.payload, b"b1b2".to_vec()),
        _ => panic!("expected request b"),
    }
    match history.append(&req_chunk("a", ChunkType::Last, b"a3"), 1) {
        RequestOrResponse::Request(r) => assert_eq!(r.payload, b"a1a2a3".to_vec()),
        _ => panic!("expected request a"),
    }
}

#[test]
fn responses_reassemble_and_keep_first_chunk_fields() {
    let mut history = CommandHistory::new();
    let c1 = ChunkedResponse {
        creation_timestamp: 77,
        cmd: "ls".to_string(),
        message_id: "r1".to_string(),
        status_code: StatusCode::Okay,
        chunk_type: ChunkType::NotLast,
        payload: b"xx".to_vec(),
    }
    .to_message_payload();
    let c2 = ChunkedResponse {
        creation_timestamp: 78,
        cmd: "ls".to_string(),
        message_id: "r1".to_string(),
        status_code: StatusCode::Okay,
        chunk_type: ChunkType::Last,
        payload: b"yy".to_vec(),
    }
    .to_message_payload();
    assert!(matches!(history.append(&c1, 77), RequestOrResponse::Nothing));
    match history.append(&c2, 78) {
        RequestOrResponse::Response(r) => {
            assert_eq!(r.payload, b"xxyy".to_vec());
            assert_eq!(r.creation_timestamp, 77);
            assert_eq!(r.status_code, StatusCode::Okay);
            assert_eq!(r.cmd, "ls");
        },
        _ => panic!("expected a response"),
    }
}

#[test]
fn broken_chunk_changes_nothing() {
    let mut history = CommandHistory::new();
    assert!(matches!(
        history.append(&b"not a frame".to_vec(), 1),
        RequestOrResponse::Nothing
    ));
    // the earlier entry is still intact
    history.append(&req_chunk("m", ChunkType::NotLast, b"12"), 1);
    assert!(matches!(
        history.append(&b"cmd/req/only-three".to_vec(), 1),
        RequestOrResponse::Nothing
    ));
    match history.append(&req_chunk("m", ChunkType::Last, b"34"), 1) {
        RequestOrResponse::Request(r) => assert_eq!(r.payload, b"1234".to_vec()),
        _ => panic!("expected a request"),
    }
}

#[test]
fn request_round_trip_through_chunker_and_reassembler() {
    let payload: Vec<u8> = (0..25000u32).map(|i| (i * 7 % 253) as u8).collect();
    let req = Request {
        cmd: "download".to_string(),
        message_id: "big:1".to_string(),
        target: "shell:2".to_string(),
        payload: payload.clone(),
    };
    let mut history = CommandHistory::new();
    let chunks = req.chunk(9);
    assert_eq!(chunks.len(), 3);
    let mut surfaced = None;
    for chunk in chunks {
        match history.append(&chunk.to_message_payload(), 9) {
            RequestOrResponse::Request(r) => surfaced = Some(r),
            RequestOrResponse::Nothing => {},
            _ => panic!("unexpected response"),
        }
    }
    let r = surfaced.expect("last chunk closes the message");
    assert_eq!(r.payload, payload);
    assert_eq!(r.cmd, "download");
    assert_eq!(r.target, "shell:2");
}
