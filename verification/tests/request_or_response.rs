use hoposhell::commands::request_or_response::{
    make_shell_target, maybe_string, ChunkType, ChunkedRequestOrResponse, Request, Response,
    StatusCode,
};
use hoposhell::constants::COMMAND_PAYLOAD_SIZE;

#[test]
fn test_chunked_request_single_chunk() {
    let req = Request {
        cmd: "cmd".to_string(),
        message_id: "42".to_string(),
        target: "shell:42".to_string(),
        payload: "~/.ssh".as_bytes().to_vec(),
    };

    let chunked_reqs = req.chunk(1700000000);

    assert_eq!(chunked_reqs.len(), 1);
    let first_chunk = &chunked_reqs[0];

    assert_ne!(first_chunk.creation_timestamp, 0);
    assert_eq!(first_chunk.cmd, "cmd");
    assert_eq!(first_chunk.message_id, "42");
    assert_eq!(first_chunk.target, "shell:42");
    assert_eq!(first_chunk.chunk_type, ChunkType::Last);
    assert_eq!(first_chunk.payload, "~/.ssh".as_bytes().to_vec());
}

#[test]
fn test_chunked_request_two_chunks() {
    let req = Request {
        cmd: "cmd".to_string(),
        message_id: "42".to_string(),
        target: "shell:42".to_string(),
        payload: [0; COMMAND_PAYLOAD_SIZE + 200].to_vec(),
    };

    let chunked_reqs = req.chunk(1700000000);

    assert_eq!(chunked_reqs.len(), 2);
    let first_chunk = &chunked_reqs[0];
    let second_chunk = &chunked_reqs[1];

    assert_eq!(first_chunk.creation_timestamp, second_chunk.creation_timestamp);
    assert_eq!(first_chunk.cmd, second_chunk.cmd);
    assert_eq!(first_chunk.message_id, second_chunk.message_id);
    assert_eq!(first_chunk.target, second_chunk.target);
    assert_eq!(first_chunk.chunk_type, ChunkType::NotLast);
    assert_eq!(first_chunk.payload.len(), COMMAND_PAYLOAD_SIZE);
    assert_eq!(second_chunk.payload.len(), 200);
}

#[test]
fn test_serialize_and_deserialize_request() {
    let req = Request {
        cmd: "cmd".to_string(),
        message_id: "42".to_string(),
        target: "shell:42".to_string(),
        payload: "~/.ssh".as_bytes().to_vec(),
    };

    let chunks = req.chunk(1700000000);
    assert_eq!(chunks.len(), 1);

    for chunk in chunks {
        let serialized = chunk.to_message_payload();
        let deserialized = ChunkedRequestOrResponse::deserialize(&serialized, 1700000000);

        match deserialized {
            ChunkedRequestOrResponse::Request(deserialized) => {
                assert_eq!(deserialized.cmd, "cmd");
                assert_eq!(deserialized.message_id, "42");
                assert_eq!(deserialized.target, "shell:42");
                assert_eq!(deserialized.chunk_type, ChunkType::Last);
                assert_eq!(deserialized.payload, "~/.ssh".as_bytes().to_vec());
            },
            _ => assert!(false),
        }
    }
}

#[test]
fn test_serialize_and_deserialize_response() {
    let res = Response {
        creation_timestamp: 0,
        cmd: "cmd".to_string(),
        message_id: "42".to_string(),
        status_code: StatusCode::Okay,
        payload: "~/.ssh".as_bytes().to_vec(),
    };

    let chunks = res.chunk();
    assert_eq!(chunks.len(), 1);

    for chunk in chunks {
        let serialized = chunk.to_message_payload();
        let deserialized = ChunkedRequestOrResponse::deserialize(&serialized, 1700000000);

        match deserialized {
            ChunkedRequestOrResponse::Response(deserialized) => {
                assert_eq!(deserialized.cmd, "cmd");
                assert_eq!(deserialized.message_id, "42");
                assert_eq!(deserialized.status_code, StatusCode::Okay);
                assert_eq!(deserialized.chunk_type, ChunkType::Last);
                assert_eq!(deserialized.payload, "~/.ssh".as_bytes().to_vec());
            },
            _ => assert!(false),
        }
    }
}

#[test]
fn chunker_splits_and_concatenates() {
    let payload: Vec<u8> = (0..25000u32).map(|i| (i % 251) as u8).collect();
    let req = Request {
        cmd: "download".to_string(),
        message_id: "id:abc".to_string(),
        target: "shell:1".to_string(),
        payload: payload.clone(),
    };
    let chunks = req.chunk(7);
    assert_eq!(chunks.len(), 3);
    assert_eq!(chunks[0].payload.len(), COMMAND_PAYLOAD_SIZE);
    assert_eq!(chunks[1].payload.len(), COMMAND_PAYLOAD_SIZE);
    assert_eq!(chunks[2].payload.len(), 25000 - 2 * COMMAND_PAYLOAD_SIZE);
    let last_marks: Vec<bool> = chunks.iter().map(|c| c.chunk_type == ChunkType::Last).collect();
    assert_eq!(last_marks, vec![false, false, true]);
    let mut glued: Vec<u8> = vec![];
    for c in &chunks {
        glued.extend_from_slice(&c.payload);
    }
    assert_eq!(glued, payload);
}

#[test]
fn chunker_boundary_sizes() {
    let mk = |n: usize| Request {
        cmd: "download".to_string(),
        message_id: "id".to_string(),
        target: "shell:1".to_string(),
        payload: vec![7u8; n],
    };
    assert_eq!(mk(COMMAND_PAYLOAD_SIZE).chunk(1).len(), 1);
    assert_eq!(mk(COMMAND_PAYLOAD_SIZE + 1).chunk(1).len(), 2);
    assert_eq!(mk(2 * COMMAND_PAYLOAD_SIZE).chunk(1).len(), 2);
    let chunks = mk(COMMAND_PAYLOAD_SIZE).chunk(1);
    assert_eq!(chunks[0].chunk_type, ChunkType::Last);
}

#[test]
fn chunker_empty_payload_still_yields_one_last_chunk() {
    let req = Request {
        cmd: "ls".to_string(),
        message_id: "id:x".to_string(),
        target: "shell:1".to_string(),
        payload: vec![],
    };
    let chunks = req.chunk(7);
    assert_eq!(chunks.len(), 1);
    assert_eq!(chunks[0].chunk_type, ChunkType::Last);
    assert_eq!(chunks[0].payload.len(), 0);

    let res = Response {
        creation_timestamp: 9,
        cmd: "ls".to_string(),
        message_id: "id:x".to_string(),
        status_code: StatusCode::Okay,
        payload: vec![],
    };
    let chunks = res.chunk();
    assert_eq!(chunks.len(), 1);
    assert_eq!(chunks[0].chunk_type, ChunkType::Last);
}

#[test]
fn deserialize_rejects_malformed_frames() {
    let now = 5;
    // fewer than five separators
    let msg = b"cmd/req/42/shell:42/last".to_vec();
    assert!(matches!(
        ChunkedRequestOrResponse::deserialize(&msg, now),
        ChunkedRequestOrResponse::Nothing
    ));
    // unknown direction
    let msg = b"cmd/rex/42/shell:42/last/x".to_vec();
    assert!(matches!(
        ChunkedRequestOrResponse::deserialize(&msg, now),
        ChunkedRequestOrResponse::Nothing
    ));
    // unknown chunk type
    let msg = b"cmd/req/42/shell:42/middle/x".to_vec();
    assert!(matches!(
        ChunkedRequestOrResponse::deserialize(&msg, now),
        ChunkedRequestOrResponse::Nothing
    ));
    // a response status outside the three codes
    let msg = b"cmd/res/42/201/last/x".to_vec();
    assert!(matches!(
        ChunkedRequestOrResponse::deserialize(&msg, now),
        ChunkedRequestOrResponse::Nothing
    ));
    // a padded status is not a status
    let msg = b"cmd/res/42/0200/last/x".to_vec();
    assert!(matches!(
        ChunkedRequestOrResponse::deserialize(&msg, now),
        ChunkedRequestOrResponse::Nothing
    ));
}

#[test]
fn deserialize_keeps_separators_inside_payload() {
    let msg = b"cmd/req/42/shell:42/last/a/b/c".to_vec();
    match ChunkedRequestOrResponse::deserialize(&msg, 5) {
        ChunkedRequestOrResponse::Request(req) => {
            assert_eq!(req.payload, b"a/b/c".to_vec());
        },
        _ => panic!("expected a request"),
    }
}

#[test]
fn status_and_chunk_type_wire_values() {
    assert_eq!(StatusCode::Okay.to_bytes(), b"200".to_vec());
    assert_eq!(StatusCode::IncorrectParams.to_bytes(), b"400".to_vec());
    assert_eq!(StatusCode::InternalError.to_bytes(), b"500".to_vec());
    assert_eq!(StatusCode::maybe_from(Some("200".to_string())), Some(StatusCode::Okay));
    assert_eq!(StatusCode::maybe_from(Some("400".to_string())), Some(StatusCode::IncorrectParams));
    assert_eq!(StatusCode::maybe_from(Some("500".to_string())), Some(StatusCode::InternalError));
    assert_eq!(StatusCode::maybe_from(Some("42".to_string())), None);
    assert_eq!(StatusCode::maybe_from(None), None);
    assert_eq!(ChunkType::Last.to_bytes(), b"last".to_vec());
    assert_eq!(ChunkType::NotLast.to_bytes(), b"not-last".to_vec());
    assert_eq!(ChunkType::maybe_from(Some(b"last")), Some(ChunkType::Last));
    assert_eq!(ChunkType::maybe_from(Some(b"not-last")), Some(ChunkType::NotLast));
    assert_eq!(ChunkType::maybe_from(Some(b"first")), None);
    assert_eq!(ChunkType::maybe_from(None), None);
}

#[test]
fn maybe_string_decodes_utf8_only() {
    assert_eq!(maybe_string(Some(b"hello")), Some("hello".to_string()));
    assert_eq!(maybe_string(Some(&[0xffu8, 0xfe])), None);
    assert_eq!(maybe_string(None), None);
}

#[test]
fn shell_target_shape() {
    assert_eq!(make_shell_target(&"42".to_string()), "shell:42".to_string());
}
