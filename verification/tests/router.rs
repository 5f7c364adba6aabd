use hoposhell::commands::command_processor::{
    finish_request, CommandKind, CommandProcessor, ProcessedMsg,
};
use hoposhell::commands::file_list::{file_list_json, FileInfos, FileType};
use hoposhell::commands::request_or_response::{
    ChunkType, ChunkedRequest, Request, StatusCode,
};

fn request_frame(cmd: &str, mid: &str, payload: &[u8]) -> Vec<u8> {
    ChunkedRequest {
        creation_timestamp: 1,
        cmd: cmd.to_string(),
        message_id: mid.to_string(),
        target: "shell:1".to_string(),
        chunk_type: ChunkType::Last,
        payload: payload.to_vec(),
    }
    .to_message_payload()
}

fn plain_request(cmd: &str) -> Request {
    Request {
        cmd: cmd.to_string(),
        message_id: "m:1".to_string(),
        target: "shell:1".to_string(),
        payload: vec![],
    }
}

#[test]
fn known_commands_are_handed_out_for_execution() {
    let mut processor = CommandProcessor::new();
    for (name, kind) in [
        ("ls", CommandKind::Ls),
        ("glob", CommandKind::Glob),
        ("download", CommandKind::Download),
        ("http", CommandKind::Http),
        ("tcp", CommandKind::Tcp),
        ("scripts", CommandKind::Scripts),
    ] {
        match processor.process_msg(&request_frame(name, "m", b"x"), 3) {
            ProcessedMsg::Execute(req, k) => {
                assert_eq!(k, kind);
                assert_eq!(req.cmd, name.to_string());
                assert_eq!(req.payload, b"x".to_vec());
            },
            _ => panic!("expected an execution for {}", name),
        }
    }
}

#[test]
fn unknown_command_answers_bad_request_with_error_json() {
    let mut processor = CommandProcessor::new();
    match processor.process_msg(&request_frame("frobnicate", "m", b""), 3) {
        ProcessedMsg::Reply(res) => {
            assert_eq!(res.status_code, StatusCode::IncorrectParams);
            assert_eq!(res.message_id, "m");
            let v: serde_json::Value = serde_json::from_slice(&res.payload).expect("error json");
            assert_eq!(v.get("error").and_then(|e| e.as_str()), Some("Unknown command"));
        },
        _ => panic!("expected an immediate reply"),
    }
}

#[test]
fn garbage_and_responses_ask_for_nothing() {
    let mut processor = CommandProcessor::new();
    assert!(matches!(
        processor.process_msg(&b"???".to_vec(), 1),
        ProcessedMsg::Nothing
    ));
    let frame = b"ls/res/m/200/last/abc".to_vec();
    assert!(matches!(processor.process_msg(&frame, 1), ProcessedMsg::Nothing));
}

#[test]
fn ok_outcome_is_compressed_and_decompresses_back() {
    let req = plain_request("ls");
    let body = b"{\"entries\":[]}".to_vec();
    let res = finish_request(&req, Ok(body.clone()), 11);
    assert_eq!(res.status_code, StatusCode::Okay);
    assert_eq!(res.creation_timestamp, 11);
    assert_eq!(res.cmd, "ls");
    assert_eq!(res.message_id, "m:1");
    let restored = zstd::stream::decode_all(res.payload.as_slice()).expect("zstd frame");
    assert_eq!(restored, body);
}

#[test]
fn error_outcome_is_uncompressed_error_json() {
    let req = plain_request("ls");
    let res = finish_request(&req, Err("No folder path provided".to_string()), 11);
    assert_eq!(res.status_code, StatusCode::IncorrectParams);
    let v: serde_json::Value = serde_json::from_slice(&res.payload).expect("error json");
    let text = v.get("error").and_then(|e| e.as_str()).expect("error key");
    assert_eq!(text, "No folder path provided");
    assert!(!text.is_empty());
    // the error body is not a zstd frame
    assert!(zstd::stream::decode_all(res.payload.as_slice()).is_err());
}

#[test]
fn error_reason_is_json_escaped() {
    let req = plain_request("ls");
    let reason = "a \"quoted\" path\\with\nnewline".to_string();
    let res = finish_request(&req, Err(reason.clone()), 1);
    let v: serde_json::Value = serde_json::from_slice(&res.payload).expect("error json");
    assert_eq!(v.get("error").and_then(|e| e.as_str()), Some(reason.as_str()));
}

#[test]
fn listing_payload_round_trips_through_router() {
    // a directory with one 100-byte file and one folder
    let entries = vec![
        FileInfos {
            name: "a".to_string(),
            file_type: FileType::File,
            creation_timestamp: 1000,
            modification_timestamp: 2000,
            size_in_bytes: 100,
        },
        FileInfos {
            name: "b".to_string(),
            file_type: FileType::Folder,
            creation_timestamp: 1000,
            modification_timestamp: 2000,
            size_in_bytes: 4096,
        },
    ];
    let payload = file_list_json(&entries);
    let req = plain_request("ls");
    let res = finish_request(&req, Ok(payload), 11);
    assert_eq!(res.status_code, StatusCode::Okay);
    let restored = zstd::stream::decode_all(res.payload.as_slice()).expect("zstd frame");
    let v: serde_json::Value = serde_json::from_slice(&restored).expect("listing json");
    let list = v.get("entries").and_then(|e| e.as_array()).expect("entries");
    assert_eq!(list.len(), 2);
    assert_eq!(list[0].get("name").and_then(|x| x.as_str()), Some("a"));
    assert_eq!(list[0].get("fileType").and_then(|x| x.as_str()), Some("file"));
    assert_eq!(list[0].get("sizeInBytes").and_then(|x| x.as_u64()), Some(100));
    assert_eq!(list[1].get("name").and_then(|x| x.as_str()), Some("b"));
    assert_eq!(list[1].get("fileType").and_then(|x| x.as_str()), Some("dir"));
    assert_eq!(list[1].get("sizeInBytes").and_then(|x| x.as_u64()), Some(4096));
}

#[test]
fn large_response_splits_with_single_trailing_last() {
    let body: Vec<u8> = (0..25000u32).map(|i| (i % 256) as u8).collect();
    let req = plain_request("download");
    let res = finish_request(&req, Ok(body.clone()), 11);
    let chunks = res.chunk();
    assert!(chunks.len() >= 1);
    for (i, c) in chunks.iter().enumerate() {
        assert_eq!(c.chunk_type == ChunkType::Last, i == chunks.len() - 1);
    }
    let mut glued: Vec<u8> = vec![];
    for c in &chunks {
        glued.extend_from_slice(&c.payload);
    }
    let restored = zstd::stream::decode_all(glued.as_slice()).expect("zstd frame");
    assert_eq!(restored, body);
}
