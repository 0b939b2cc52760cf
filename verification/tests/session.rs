use simple_chat::handshake::{
    check_peer_version, client_hello, protocol_version_bytes, HandshakeError,
};
use simple_chat::server::presence_notice;
use simple_chat::types::session_info::{LocalAddr, SessionError, SessionInfo};

#[test]
fn default_session_is_empty() {
    let info = SessionInfo::default();
    assert_eq!(info.name, [0u8; 32]);
    assert_eq!(info.ip, [0, 0, 0, 0]);
    assert_eq!(info.name_as_str(), "");
}

#[test]
fn name_is_trimmed_and_stored() {
    let mut info = SessionInfo::default();
    assert_eq!(info.read_in_name("  Zoë \t\n"), Ok(()));
    assert_eq!(&info.name[..4], "Zoë".as_bytes());
    assert_eq!(info.name_as_str(), "Zoë");
}

#[test]
fn long_name_is_refused() {
    let mut info = SessionInfo::default();
    let long = "x".repeat(33);
    assert_eq!(info.read_in_name(&long), Err(SessionError::NameTooLong));
    assert_eq!(info.name, [0u8; 32]);
    assert_eq!(info.read_in_name(&"y".repeat(32)), Ok(()));
    assert_eq!(info.name, [b'y'; 32]);
}

#[test]
fn invalid_utf8_name_reads_as_question_mark() {
    let mut info = SessionInfo::default();
    info.name[0] = 0xff;
    assert_eq!(info.name_as_str(), "?");
}

#[test]
fn ip_is_taken_from_ipv4_only() {
    let mut info = SessionInfo::default();
    assert_eq!(info.read_in_ip(LocalAddr::V4([127, 0, 0, 1])), Ok(()));
    assert_eq!(info.ip, [127, 0, 0, 1]);
    assert_eq!(info.read_in_ip(LocalAddr::V6), Err(SessionError::Ipv6Unsupported));
    assert_eq!(info.ip, [127, 0, 0, 1]);
}

#[test]
fn handshake_versions_agree() {
    let mine = protocol_version_bytes();
    assert_eq!(mine, vec![0, 1]);
    assert_eq!(check_peer_version(&mine), Ok(()));
    assert_eq!(check_peer_version(&[0, 2]), Err(HandshakeError::VersionMismatch));
    assert_eq!(check_peer_version(&[1, 1]), Err(HandshakeError::VersionMismatch));
}

#[test]
fn client_hello_carries_version_and_name() {
    let mut info = SessionInfo::default();
    info.read_in_name("carol").unwrap();
    let hello = client_hello(&info);
    assert_eq!(hello.len(), 34);
    assert_eq!(check_peer_version(&hello[..2]), Ok(()));
    assert_eq!(&hello[2..7], b"carol");
}

#[test]
fn presence_notices() {
    let mut name = [0u8; 32];
    name[..4].copy_from_slice(b"dave");
    assert_eq!(presence_notice(&name, "10.0.0.2:5000", true), "dave (10.0.0.2:5000) connected");
    assert_eq!(presence_notice(&name, "10.0.0.2:5000", false), "dave (10.0.0.2:5000) disconnected");
    let mut spaced = [0u8; 32];
    spaced[..4].copy_from_slice(b"ed  ");
    assert_eq!(presence_notice(&spaced, "p", true), "ed (p) connected");
    let mut bad = [0u8; 32];
    bad[0] = 0xc3;
    assert_eq!(presence_notice(&bad, "p", true), "\u{FFFD} (p) connected");
}
