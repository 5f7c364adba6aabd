use hoposhell::connect::{handshake_messages, keepalive_due, make_command_header, MessageHistory};
use hoposhell::constants::MAX_MESSAGE_HISTORY_SIZE;
use hoposhell::message::{Message, MessageTypeToStream};

fn stdout_msg(body: &[u8]) -> Message<MessageTypeToStream> {
    Message { mtype: MessageTypeToStream::STDOUT, content: Some(body.to_vec()) }
}

#[test]
fn replay_order_is_header_then_size_then_history() {
    let mut history = MessageHistory::new();
    let bodies: Vec<Vec<u8>> = (0..5u8).map(|i| vec![i, i, i]).collect();
    for b in &bodies {
        history.push(stdout_msg(b));
    }
    let version = "1.2.3".to_string();
    let frames = handshake_messages(&version, 24, 80, &history);
    assert_eq!(frames.len(), 7);
    assert_eq!(frames[0].mtype, MessageTypeToStream::HEADER);
    assert_eq!(frames[0].content, Some(b"v1.2.3".to_vec()));
    assert_eq!(frames[1].mtype, MessageTypeToStream::COMMAND);
    assert_eq!(frames[1].content, Some(b"size/24/80".to_vec()));
    for (i, b) in bodies.iter().enumerate() {
        assert_eq!(frames[2 + i].mtype, MessageTypeToStream::STDOUT);
        assert_eq!(frames[2 + i].content, Some(b.clone()));
    }
}

#[test]
fn history_ring_is_bounded_and_fifo() {
    let mut history = MessageHistory::new();
    let extra = 5;
    for i in 0..(MAX_MESSAGE_HISTORY_SIZE + extra) {
        history.push(stdout_msg(&(i as u32).to_le_bytes()));
    }
    assert_eq!(history.len(), MAX_MESSAGE_HISTORY_SIZE);
    // the oldest five entries were evicted, in order
    let first = history.get(0);
    assert_eq!(first.content, Some((extra as u32).to_le_bytes().to_vec()));
    let last = history.get(MAX_MESSAGE_HISTORY_SIZE - 1);
    assert_eq!(
        last.content,
        Some(((MAX_MESSAGE_HISTORY_SIZE + extra - 1) as u32).to_le_bytes().to_vec())
    );
}

#[test]
fn command_header_names_the_command_channel() {
    let header = make_command_header(&"0.9".to_string());
    assert_eq!(header.mtype, MessageTypeToStream::HEADER);
    assert_eq!(header.content, Some(b"v0.9/command".to_vec()));
}

#[test]
fn keepalive_cadence() {
    // a fresh connection owes one at once
    assert!(keepalive_due(1000, None, 200));
    // exactly the configured delay later, the next one is due
    assert!(keepalive_due(1000, Some(800), 200));
    assert!(keepalive_due(1050, Some(800), 200));
    // not a millisecond earlier
    assert!(!keepalive_due(999, Some(800), 200));
    assert!(!keepalive_due(800, Some(800), 200));
    // a clock that moved backwards owes nothing
    assert!(!keepalive_due(700, Some(800), 200));
}
