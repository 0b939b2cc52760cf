use simple_chat::client::state::{ClientState, Key, KeyOutcome, MAX_MESSAGE_LEN};
use simple_chat::client::view::{first_visible_line, message_line, title_line};
use simple_chat::types::message::Message;

fn state() -> ClientState {
    ClientState::new("alice".to_string(), "10.0.0.1:42003".to_string())
}

#[test]
fn typing_and_backspace() {
    let mut s = state();
    assert!(matches!(s.handle_key(Key::Char('h')), KeyOutcome::Nothing));
    assert!(matches!(s.handle_key(Key::Char('i')), KeyOutcome::Nothing));
    assert_eq!(s.input, "hi");
    s.handle_key(Key::Backspace);
    assert_eq!(s.input, "h");
    s.handle_key(Key::Backspace);
    s.handle_key(Key::Backspace);
    assert_eq!(s.input, "");
}

#[test]
fn enter_sends_trimmed_text_and_clears() {
    let mut s = state();
    for c in "  hello  ".chars() {
        s.handle_key(Key::Char(c));
    }
    match s.handle_key(Key::Enter) {
        KeyOutcome::Send(text) => assert_eq!(text, "hello"),
        _ => panic!("expected send"),
    }
    assert_eq!(s.input, "");
}

#[test]
fn enter_on_blank_input_sends_nothing() {
    let mut s = state();
    s.handle_key(Key::Char(' '));
    assert!(matches!(s.handle_key(Key::Enter), KeyOutcome::Nothing));
    assert_eq!(s.input, "");
}

#[test]
fn escape_quits_and_other_keys_do_nothing() {
    let mut s = state();
    s.handle_key(Key::Char('a'));
    assert!(matches!(s.handle_key(Key::Other), KeyOutcome::Nothing));
    assert!(matches!(s.handle_key(Key::Esc), KeyOutcome::Quit));
    assert_eq!(s.input, "a");
}

#[test]
fn input_stops_growing_at_limit() {
    let mut s = state();
    for _ in 0..MAX_MESSAGE_LEN + 10 {
        s.handle_key(Key::Char('x'));
    }
    assert_eq!(s.input.len(), MAX_MESSAGE_LEN);
    let mut t = state();
    for _ in 0..MAX_MESSAGE_LEN - 1 {
        t.handle_key(Key::Char('x'));
    }
    t.handle_key(Key::Char('\u{1F600}'));
    assert_eq!(t.input.len(), MAX_MESSAGE_LEN + 3);
    t.handle_key(Key::Char('y'));
    assert_eq!(t.input.len(), MAX_MESSAGE_LEN + 3);
}

#[test]
fn lines_shown() {
    let mut name = [0u8; 32];
    name[..3].copy_from_slice(b"bob");
    let m = Message {
        timestamp_secs: 0,
        sender_name: name,
        sender_ip: [0; 4],
        content: b"hey  \n".to_vec(),
    };
    assert_eq!(message_line(&m, "12:00:00"), "[12:00:00] bob: hey");
    let bad = Message {
        timestamp_secs: 0,
        sender_name: [0xff; 32],
        sender_ip: [0; 4],
        content: vec![b'a', 0xff],
    };
    assert_eq!(message_line(&bad, "t"), "[t] ???: a\u{FFFD}");
    assert_eq!(title_line(&state()), "lan-chat | Connected to 10.0.0.1:42003 as alice");
}

#[test]
fn visible_window() {
    assert_eq!(first_visible_line(10, 5), 7);
    assert_eq!(first_visible_line(2, 5), 0);
    assert_eq!(first_visible_line(4, 1), 4);
}
