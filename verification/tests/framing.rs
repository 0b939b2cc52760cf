use simple_chat::framing::{
    frame_payload_len, read_message, write_message, FramingError, MAX_MESSAGE_SIZE,
};

#[test]
fn frame_has_big_endian_length_prefix() {
    let frame = write_message(b"hi").unwrap();
    assert_eq!(frame, vec![0, 0, 0, 2, b'h', b'i']);
}

#[test]
fn empty_payload_frames_to_header_only() {
    let frame = write_message(&[]).unwrap();
    assert_eq!(frame, vec![0, 0, 0, 0]);
    assert_eq!(read_message(&frame).unwrap(), Vec::<u8>::new());
}

#[test]
fn read_gives_back_what_write_framed() {
    let payload: Vec<u8> = (0..300u32).map(|i| (i % 251) as u8).collect();
    let frame = write_message(&payload).unwrap();
    assert_eq!(frame.len(), 4 + 300);
    assert_eq!(&frame[..4], &[0, 0, 1, 44]);
    assert_eq!(read_message(&frame).unwrap(), payload);
}

#[test]
fn read_ignores_bytes_after_the_frame() {
    let mut stream = write_message(b"first").unwrap();
    stream.extend_from_slice(&write_message(b"second").unwrap());
    assert_eq!(read_message(&stream).unwrap(), b"first".to_vec());
}

#[test]
fn largest_payload_is_accepted() {
    let payload = vec![7u8; MAX_MESSAGE_SIZE];
    let frame = write_message(&payload).unwrap();
    assert_eq!(&frame[..4], &[0, 1, 0, 0]);
    assert_eq!(read_message(&frame).unwrap().len(), MAX_MESSAGE_SIZE);
}

#[test]
fn oversized_payload_is_refused_on_write() {
    let payload = vec![0u8; MAX_MESSAGE_SIZE + 1];
    assert_eq!(write_message(&payload), Err(FramingError::MessageTooLarge));
}

#[test]
fn oversized_header_is_refused_on_read() {
    let header = [0u8, 1, 0, 1];
    assert_eq!(read_message(&header), Err(FramingError::MessageTooLarge));
    assert_eq!(frame_payload_len(&header), Err(FramingError::MessageTooLarge));
}

#[test]
fn short_input_is_incomplete() {
    assert_eq!(read_message(&[0, 0, 0]), Err(FramingError::Incomplete));
    assert_eq!(read_message(&[0, 0, 0, 3, 1, 2]), Err(FramingError::Incomplete));
}

#[test]
fn header_length_is_decoded_big_endian() {
    assert_eq!(frame_payload_len(&[0, 0, 1, 2]), Ok(258));
    assert_eq!(frame_payload_len(&[0, 1, 0, 0]), Ok(65536));
}
