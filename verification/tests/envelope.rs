use simple_chat::client::state::ClientState;
use simple_chat::client::view::{
    envelope_line, envelope_timestamp, input_cursor, input_view_start, visible_input,
};
use simple_chat::framing::{read_message, write_message};
use simple_chat::types::message::{
    Envelope, Message, MessageError, SystemMessage, KIND_CHAT, KIND_SYSTEM,
};

fn chat() -> Message {
    let mut name = [0u8; 32];
    name[..3].copy_from_slice(b"amy");
    Message {
        timestamp_secs: 7,
        sender_name: name,
        sender_ip: [1, 2, 3, 4],
        content: b"yo".to_vec(),
    }
}

#[test]
fn system_message_layout_and_round_trip() {
    let notice = SystemMessage::with_timestamp("amy (1.2.3.4:5) connected", 0x0102);
    let bytes = notice.serialize();
    assert_eq!(&bytes[..10], &[0, 1, 0, 0, 0, 0, 0, 0, 1, 2]);
    assert_eq!(&bytes[10..], b"amy (1.2.3.4:5) connected");
    let back = SystemMessage::deserialize(&bytes).unwrap();
    assert_eq!(back.timestamp_secs, 0x0102);
    assert_eq!(back.content, notice.content);
    assert_eq!(
        SystemMessage::deserialize(&bytes[..10]).err(),
        Some(MessageError::BufferTooShort)
    );
    let mut wrong = bytes.clone();
    wrong[0] = 9;
    assert_eq!(SystemMessage::deserialize(&wrong).err(), Some(MessageError::VersionMismatch));
}

#[test]
fn envelope_kind_byte_and_round_trip() {
    let chat_bytes = Envelope::Chat(chat()).serialize();
    assert_eq!(chat_bytes[0], KIND_CHAT);
    assert_eq!(&chat_bytes[1..], chat().serialize().as_slice());
    match Envelope::deserialize(&chat_bytes) {
        Ok(Envelope::Chat(m)) => assert_eq!(m.content, b"yo".to_vec()),
        _ => panic!("expected a chat message"),
    }
    let sys = Envelope::System(SystemMessage::with_timestamp("hello", 3));
    let sys_bytes = sys.serialize();
    assert_eq!(sys_bytes[0], KIND_SYSTEM);
    match Envelope::deserialize(&sys_bytes) {
        Ok(Envelope::System(m)) => {
            assert_eq!(m.content, b"hello".to_vec());
            assert_eq!(m.timestamp_secs, 3);
        }
        _ => panic!("expected a system message"),
    }
}

#[test]
fn envelope_errors() {
    assert_eq!(Envelope::deserialize(&[]).err(), Some(MessageError::BufferTooShort));
    assert_eq!(Envelope::deserialize(&[7, 0, 1]).err(), Some(MessageError::UnknownKind));
    assert_eq!(Envelope::deserialize(&[0, 0, 1]).err(), Some(MessageError::BufferTooShort));
}

#[test]
fn envelope_survives_framing() {
    let bytes = Envelope::System(SystemMessage::with_timestamp("bye", 1)).serialize();
    let mut stream = write_message(&bytes).unwrap();
    stream.push(0);
    let payload = read_message(&stream).unwrap();
    assert!(matches!(Envelope::deserialize(&payload), Ok(Envelope::System(_))));
}

#[test]
fn notices_show_without_sender() {
    let sys = Envelope::System(SystemMessage::with_timestamp("amy (p) connected \n", 5));
    assert_eq!(envelope_line(&sys, "10:00:00"), "[10:00:00] amy (p) connected");
    assert_eq!(envelope_timestamp(&sys), 5);
    let c = Envelope::Chat(chat());
    assert_eq!(envelope_line(&c, "10:00:01"), "[10:00:01] amy: yo");
    assert_eq!(envelope_timestamp(&c), 7);
}

#[test]
fn received_messages_are_appended() {
    let mut s = ClientState::new("me".to_string(), "r".to_string());
    assert_eq!(s.receive(&Envelope::Chat(chat()).serialize()), Ok(()));
    assert_eq!(
        s.receive(&Envelope::System(SystemMessage::with_timestamp("x", 1)).serialize()),
        Ok(())
    );
    assert_eq!(s.receive(&[5]), Err(MessageError::UnknownKind));
    assert_eq!(s.messages.len(), 2);
    assert!(matches!(s.messages[0], Envelope::Chat(_)));
    assert!(matches!(s.messages[1], Envelope::System(_)));
}

#[test]
fn input_view_shows_the_tail() {
    assert_eq!(input_view_start("hello", 10), 0);
    assert_eq!(input_view_start("hello world", 7), 6);
    assert_eq!(visible_input("hello world", 7), "world");
    assert_eq!(visible_input("abc", 2), "");
    assert_eq!(input_cursor(3, 4, 5), (10, 5));
}
