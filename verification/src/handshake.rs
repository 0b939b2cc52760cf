//! The connection handshake.
//!
//! The server sends its protocol version (2 bytes, big-endian); the client
//! checks it, then sends its own version followed by the user's name field.
//! The server checks the client's version in turn and reads the name.

use vstd::prelude::*;
use crate::PROTOCOL_VERSION;
use crate::endian::{be_bytes, be_value, byte_space, lemma_be_bytes_len, lemma_be_value_of_bytes, push_be, read_be};
use crate::types::session_info::{MAX_NAME_LEN, SessionInfo};

verus! {

/// The size of the version field of the handshake.
pub const VERSION_FIELD_LEN: usize = 2;

/// Why a handshake failed.
#[derive(Debug, Clone, Copy, PartialEq, Eq, Structural)]
pub enum HandshakeError {
    /// The peer speaks another protocol version.
    VersionMismatch,
}

/// The version field that each side sends.
pub open spec fn version_field() -> Seq<u8> {
    be_bytes(PROTOCOL_VERSION as nat, VERSION_FIELD_LEN as nat)
}

/// What the client sends after it has accepted the server's version.
pub open spec fn spec_client_hello(name: Seq<u8>) -> Seq<u8> {
    version_field() + name
}

/// Whether a received version field names this protocol version.
pub open spec fn version_accepted(field: Seq<u8>) -> bool {
    be_value(field) == PROTOCOL_VERSION
}

/// The version field to send to the peer.
pub fn protocol_version_bytes() -> (r: Vec<u8>)
    ensures
        r@ == version_field(),
{
    let mut out: Vec<u8> = Vec::new();
    push_be(&mut out, PROTOCOL_VERSION as u64, VERSION_FIELD_LEN);
    out
}

/// Checks the version field received from the peer.
pub fn check_peer_version(received: &[u8]) -> (r: Result<(), HandshakeError>)
    requires
        received@.len() == VERSION_FIELD_LEN,
    ensures
        r is Ok <==> version_accepted(received@),
        r matches Err(e) ==> e == HandshakeError::VersionMismatch,
{
    let v = read_be(received, 0, VERSION_FIELD_LEN);
    proof {
        assert(received@.subrange(0, VERSION_FIELD_LEN as int) =~= received@);
    }
    if v == PROTOCOL_VERSION as u64 {
        Ok(())
    } else {
        Err(HandshakeError::VersionMismatch)
    }
}

/// The bytes the client sends: its version field, then the user's name field.
pub fn client_hello(session_info: &SessionInfo) -> (r: Vec<u8>)
    ensures
        r@ == spec_client_hello(session_info.name@),
{
    let mut out = protocol_version_bytes();
    let mut i: usize = 0;
    while i < MAX_NAME_LEN
        invariant
            i <= MAX_NAME_LEN,
            out@ == version_field() + session_info.name@.take(i as int),
        decreases MAX_NAME_LEN - i,
    {
        out.push(session_info.name[i]);
        i = i + 1;
        proof {
            assert(out@ =~= version_field() + session_info.name@.take(i as int));
        }
    }
    proof {
        assert(session_info.name@.take(i as int) =~= session_info.name@);
    }
    out
}

/// Each side accepts the version field that the other sends.
pub proof fn lemma_own_version_accepted()
    ensures
        version_field().len() == VERSION_FIELD_LEN,
        version_accepted(version_field()),
{
    lemma_be_bytes_len(PROTOCOL_VERSION as nat, VERSION_FIELD_LEN as nat);
    reveal_with_fuel(byte_space, 3);
    lemma_be_value_of_bytes(PROTOCOL_VERSION as nat, VERSION_FIELD_LEN as nat);
}

/// The server, reading a client's hello as a version field and then a name
/// field, accepts the version and reads the client's name.
pub proof fn lemma_client_hello_accepted(name: Seq<u8>)
    requires
        name.len() == MAX_NAME_LEN,
    ensures
        version_accepted(spec_client_hello(name).take(VERSION_FIELD_LEN as int)),
        spec_client_hello(name).subrange(
            VERSION_FIELD_LEN as int,
            VERSION_FIELD_LEN + MAX_NAME_LEN,
        ) == name,
        spec_client_hello(name).len() == VERSION_FIELD_LEN + MAX_NAME_LEN,
{
    lemma_own_version_accepted();
    let h = spec_client_hello(name);
    assert(h.take(VERSION_FIELD_LEN as int) =~= version_field());
    assert(h.subrange(VERSION_FIELD_LEN as int, VERSION_FIELD_LEN + MAX_NAME_LEN) =~= name);
}

} // verus!
