use hoposhell::message::{encode_message, separate_messages, Message, MessageTypeToStream};

#[test]
fn frame_round_trip_all_kinds() {
    for kind in [
        MessageTypeToStream::STDOUT,
        MessageTypeToStream::HEADER,
        MessageTypeToStream::COMMAND,
    ] {
        let msg = Message { mtype: kind, content: Some(b"hello world".to_vec()) };
        let frame = encode_message(&msg).expect("encodable");
        let mut buffer: Vec<u8> = vec![];
        let decoded = separate_messages(&mut buffer, &frame);
        assert_eq!(decoded.len(), 1);
        assert_eq!(decoded[0].mtype, kind);
        assert_eq!(decoded[0].content, Some(b"hello world".to_vec()));
        assert!(buffer.is_empty());
    }
}

#[test]
fn frame_round_trip_empty_body() {
    let msg = Message { mtype: MessageTypeToStream::COMMAND, content: Some(vec![]) };
    let frame = encode_message(&msg).expect("encodable");
    let mut buffer: Vec<u8> = vec![];
    let decoded = separate_messages(&mut buffer, &frame);
    assert_eq!(decoded.len(), 1);
    assert_eq!(decoded[0].content, Some(vec![]));
}

#[test]
fn encode_produces_base64_and_trailer() {
    let msg = Message { mtype: MessageTypeToStream::STDOUT, content: Some(b"hi".to_vec()) };
    let frame = encode_message(&msg).expect("encodable");
    assert_eq!(frame, b"aGk=-ooo---\n".to_vec());
    let msg = Message { mtype: MessageTypeToStream::HEADER, content: None };
    assert!(encode_message(&msg).is_none());
}

#[test]
fn keepalive_surfaces_no_frame() {
    let mut buffer: Vec<u8> = vec![];
    let decoded = separate_messages(&mut buffer, &b"---\n".to_vec());
    assert_eq!(decoded.len(), 0);
    assert!(buffer.is_empty());
}

#[test]
fn partial_frames_accumulate_across_reads() {
    let msg = Message { mtype: MessageTypeToStream::COMMAND, content: Some(b"abcdef".to_vec()) };
    let frame = encode_message(&msg).expect("encodable");
    let (first, second) = frame.split_at(5);
    let mut buffer: Vec<u8> = vec![];
    let decoded = separate_messages(&mut buffer, &first.to_vec());
    assert_eq!(decoded.len(), 0);
    assert_eq!(buffer, first.to_vec());
    let decoded = separate_messages(&mut buffer, &second.to_vec());
    assert_eq!(decoded.len(), 1);
    assert_eq!(decoded[0].content, Some(b"abcdef".to_vec()));
    assert!(buffer.is_empty());
}

#[test]
fn unrecognized_candidates_are_dropped() {
    let mut buffer: Vec<u8> = vec![];
    // terminated, but no kind trailer
    let decoded = separate_messages(&mut buffer, &b"garbage---\n".to_vec());
    assert_eq!(decoded.len(), 0);
    assert!(buffer.is_empty());
    // recognized trailer but broken base64: dropped, stream goes on
    let mut data = b"!!!!-ooo---\n".to_vec();
    let good = encode_message(&Message {
        mtype: MessageTypeToStream::STDOUT,
        content: Some(b"ok".to_vec()),
    })
    .unwrap();
    data.extend_from_slice(&good);
    let decoded = separate_messages(&mut buffer, &data);
    assert_eq!(decoded.len(), 1);
    assert_eq!(decoded[0].content, Some(b"ok".to_vec()));
}

#[test]
fn several_frames_in_one_read_stay_ordered() {
    let mut data: Vec<u8> = vec![];
    for body in [b"one".to_vec(), b"two".to_vec(), b"three".to_vec()] {
        let frame = encode_message(&Message {
            mtype: MessageTypeToStream::STDOUT,
            content: Some(body),
        })
        .unwrap();
        data.extend_from_slice(&frame);
    }
    let mut buffer: Vec<u8> = vec![];
    let decoded = separate_messages(&mut buffer, &data);
    let bodies: Vec<Vec<u8>> = decoded.into_iter().map(|m| m.content.unwrap()).collect();
    assert_eq!(bodies, vec![b"one".to_vec(), b"two".to_vec(), b"three".to_vec()]);
}
