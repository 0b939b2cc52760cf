use simple_chat::framing::{read_message, write_message};
use simple_chat::types::message::{Message, MessageError, METADATA_BYTES};
use simple_chat::types::session_info::SessionInfo;

fn sample() -> Message {
    let mut name = [0u8; 32];
    name[..5].copy_from_slice(b"alice");
    Message {
        timestamp_secs: 0x0102_0304_0506_0708,
        sender_name: name,
        sender_ip: [192, 168, 1, 20],
        content: b"hello".to_vec(),
    }
}

#[test]
fn serialize_layout() {
    let bytes = sample().serialize();
    assert_eq!(bytes.len(), METADATA_BYTES + 5);
    assert_eq!(&bytes[0..2], &[0, 1]);
    assert_eq!(&bytes[2..10], &[1, 2, 3, 4, 5, 6, 7, 8]);
    assert_eq!(&bytes[10..15], b"alice");
    assert!(bytes[15..42].iter().all(|b| *b == 0));
    assert_eq!(&bytes[42..46], &[192, 168, 1, 20]);
    assert_eq!(&bytes[46..], b"hello");
}

#[test]
fn deserialize_gives_back_serialized_message() {
    let m = sample();
    let back = Message::deserialize(&m.serialize()).unwrap();
    assert_eq!(back.timestamp_secs, m.timestamp_secs);
    assert_eq!(back.sender_name, m.sender_name);
    assert_eq!(back.sender_ip, m.sender_ip);
    assert_eq!(back.content, m.content);
}

#[test]
fn short_buffer_is_refused() {
    assert_eq!(
        Message::deserialize(&[0u8; 46]).err(),
        Some(MessageError::BufferTooShort)
    );
    let mut empty = sample();
    empty.content.clear();
    assert_eq!(
        Message::deserialize(&empty.serialize()).err(),
        Some(MessageError::BufferTooShort)
    );
}

#[test]
fn wrong_version_is_refused() {
    let mut bytes = sample().serialize();
    bytes[1] = 2;
    assert_eq!(Message::deserialize(&bytes).err(), Some(MessageError::VersionMismatch));
}

#[test]
fn message_from_session() {
    let mut info = SessionInfo::default();
    info.read_in_name("bob\n").unwrap();
    info.ip = [10, 0, 0, 1];
    let m = Message::with_timestamp(&info, "hi there", 42);
    assert_eq!(m.timestamp_secs, 42);
    assert_eq!(&m.sender_name[..3], b"bob");
    assert_eq!(m.sender_ip, [10, 0, 0, 1]);
    assert_eq!(m.content, b"hi there".to_vec());
    let stamped = Message::new(&info, "now").unwrap();
    assert_eq!(stamped.content, b"now".to_vec());
    assert!(stamped.timestamp_secs > 1_600_000_000);
}

#[test]
fn message_survives_framing() {
    let m = sample();
    let mut stream = write_message(&m.serialize()).unwrap();
    stream.extend_from_slice(&[9, 9, 9]);
    let payload = read_message(&stream).unwrap();
    let back = Message::deserialize(&payload).unwrap();
    assert_eq!(back.content, m.content);
    assert_eq!(back.sender_name, m.sender_name);
    assert_eq!(back.timestamp_secs, m.timestamp_secs);
}
