//! The messages that travel between client and server, and their binary encoding.
//!
//! A chat message is laid out, all numbers big-endian, as
//! version (2 bytes) | timestamp in seconds (8) | sender name (32) |
//! sender IPv4 address (4) | content (the rest).
//!
//! A system message (a notice from the server) is laid out as
//! version (2 bytes) | timestamp in seconds (8) | content (the rest).
//!
//! On the wire each is preceded by one byte that tells the kind:
//! [`KIND_CHAT`] or [`KIND_SYSTEM`].

use vstd::prelude::*;
use vstd::utf8::encode_utf8;
use crate::endian::{
    be_bytes, be_value, byte_space, lemma_be_bytes_len, lemma_be_bytes_of_value,
    lemma_be_value_bound, lemma_be_value_of_bytes, push_be, read_be,
};
use crate::framing::{lemma_read_after_write, spec_frame, spec_read_frame, FramingError, MAX_MESSAGE_SIZE};
use crate::helpers::get_timestamp;
use crate::types::session_info::{MAX_NAME_LEN, SessionInfo};

verus! {

/// The version of the message layout that this library writes and accepts.
pub const MESSAGE_VERSION: u16 = 1;

/// Sizes of the fixed fields.
pub const VERSION_BYTES: usize = 2;
pub const TIMESTAMP_BYTES: usize = 8;
pub const SENDER_NAME_BYTES: usize = MAX_NAME_LEN;
pub const SENDER_IP_BYTES: usize = 4;

/// Offsets of the fields.
pub const VERSION_OFFSET: usize = 0;
pub const TIMESTAMP_OFFSET: usize = VERSION_OFFSET + VERSION_BYTES;
pub const SENDER_NAME_OFFSET: usize = TIMESTAMP_OFFSET + TIMESTAMP_BYTES;
pub const SENDER_IP_OFFSET: usize = SENDER_NAME_OFFSET + SENDER_NAME_BYTES;
pub const CONTENT_OFFSET: usize = SENDER_IP_OFFSET + SENDER_IP_BYTES;

/// The bytes that precede the content.
pub const METADATA_BYTES: usize = 46;

/// A chat message: when it was written, by whom, from which address, and its text as bytes.
pub struct Message {
    pub timestamp_secs: u64,
    pub sender_name: [u8; MAX_NAME_LEN],
    pub sender_ip: [u8; 4],
    pub content: Vec<u8>,
}

/// A message with its fields taken as byte sequences.
#[verifier::ext_equal]
pub struct MessageView {
    pub timestamp_secs: u64,
    pub sender_name: Seq<u8>,
    pub sender_ip: Seq<u8>,
    pub content: Seq<u8>,
}

impl View for Message {
    type V = MessageView;

    open spec fn view(&self) -> MessageView {
        MessageView {
            timestamp_secs: self.timestamp_secs,
            sender_name: self.sender_name@,
            sender_ip: self.sender_ip@,
            content: self.content@,
        }
    }
}

/// Why bytes could not be read as a message.
#[derive(Debug, Clone, Copy, PartialEq, Eq, Structural)]
pub enum MessageError {
    /// The bytes hold no more than the fixed fields.
    BufferTooShort,
    /// The version field is not [`MESSAGE_VERSION`].
    VersionMismatch,
    /// The kind byte is neither [`KIND_CHAT`] nor [`KIND_SYSTEM`].
    UnknownKind,
}

/// Whether a message view has fields of the sizes that the layout gives them.
pub open spec fn well_sized(m: MessageView) -> bool {
    m.sender_name.len() == SENDER_NAME_BYTES && m.sender_ip.len() == SENDER_IP_BYTES
}

/// The bytes of a message.
pub open spec fn spec_serialize(m: MessageView) -> Seq<u8> {
    be_bytes(MESSAGE_VERSION as nat, VERSION_BYTES as nat) + be_bytes(
        m.timestamp_secs as nat,
        TIMESTAMP_BYTES as nat,
    ) + m.sender_name + m.sender_ip + m.content
}

/// What reading `b` as a message gives. A buffer must hold at least one byte
/// of content, and the version it names must be [`MESSAGE_VERSION`].
pub open spec fn spec_deserialize(b: Seq<u8>) -> Result<MessageView, MessageError> {
    if b.len() <= METADATA_BYTES {
        Err(MessageError::BufferTooShort)
    } else if be_value(b.subrange(VERSION_OFFSET as int, TIMESTAMP_OFFSET as int))
        != MESSAGE_VERSION {
        Err(MessageError::VersionMismatch)
    } else {
        Ok(
            MessageView {
                timestamp_secs: be_value(
                    b.subrange(TIMESTAMP_OFFSET as int, SENDER_NAME_OFFSET as int),
                ) as u64,
                sender_name: b.subrange(SENDER_NAME_OFFSET as int, SENDER_IP_OFFSET as int),
                sender_ip: b.subrange(SENDER_IP_OFFSET as int, CONTENT_OFFSET as int),
                content: b.subrange(CONTENT_OFFSET as int, b.len() as int),
            },
        )
    }
}

/// A deserialisation result taken by its view.
pub open spec fn message_result_view(r: Result<Message, MessageError>) -> Result<
    MessageView,
    MessageError,
> {
    match r {
        Ok(m) => Ok(m@),
        Err(e) => Err(e),
    }
}

/// The message that `session_info` writes with text `content` at time `timestamp_secs`.
pub open spec fn spec_new_message(
    session_info: SessionInfo,
    content: Seq<char>,
    timestamp_secs: u64,
) -> MessageView {
    MessageView {
        timestamp_secs,
        sender_name: session_info.name@,
        sender_ip: session_info.ip@,
        content: encode_utf8(content),
    }
}

impl Message {
    /// A message from `session_info` with text `content`, stamped with the
    /// current time; `None` when the system clock reads before the UNIX epoch.
    pub fn new(session_info: &SessionInfo, content: &str) -> (r: Option<Message>)
        ensures
            r matches Some(m) ==> m@ == spec_new_message(*session_info, content@, m.timestamp_secs),
    {
        match get_timestamp() {
            Some(now) => Some(Message::with_timestamp(session_info, content, now)),
            None => None,
        }
    }

    /// A message from `session_info` with text `content`, stamped with `timestamp_secs`.
    pub fn with_timestamp(session_info: &SessionInfo, content: &str, timestamp_secs: u64) -> (r:
        Message)
        ensures
            r@ == spec_new_message(*session_info, content@, timestamp_secs),
    {
        Message {
            timestamp_secs,
            sender_name: session_info.name,
            sender_ip: session_info.ip,
            content: vstd::slice::slice_to_vec(content.as_bytes()),
        }
    }

    /// The bytes of this message, laid out as the module describes.
    pub fn serialize(&self) -> (r: Vec<u8>)
        ensures
            r@ == spec_serialize(self@),
    {
        let mut buf: Vec<u8> = Vec::new();
        push_be(&mut buf, MESSAGE_VERSION as u64, VERSION_BYTES);
        push_be(&mut buf, self.timestamp_secs, TIMESTAMP_BYTES);
        append_bytes(&mut buf, self.sender_name.as_slice());
        append_bytes(&mut buf, self.sender_ip.as_slice());
        append_bytes(&mut buf, self.content.as_slice());
        proof {
            assert(buf@ =~= spec_serialize(self@));
        }
        buf
    }

    /// Reads a message from `buffer`: see [`spec_deserialize`].
    pub fn deserialize(buffer: &[u8]) -> (r: Result<Message, MessageError>)
        ensures
            message_result_view(r) == spec_deserialize(buffer@),
    {
        if buffer.len() <= METADATA_BYTES {
            return Err(MessageError::BufferTooShort);
        }
        let version = read_be(buffer, VERSION_OFFSET, VERSION_BYTES);
        if version != MESSAGE_VERSION as u64 {
            return Err(MessageError::VersionMismatch);
        }
        let timestamp_secs = read_be(buffer, TIMESTAMP_OFFSET, TIMESTAMP_BYTES);
        let mut sender_name = [0u8; MAX_NAME_LEN];
        let mut i: usize = 0;
        while i < SENDER_NAME_BYTES
            invariant
                buffer@.len() > METADATA_BYTES,
                i <= SENDER_NAME_BYTES,
                forall|j: int| 0 <= j < i ==> sender_name@[j] == buffer@[SENDER_NAME_OFFSET + j],
            decreases SENDER_NAME_BYTES - i,
        {
            sender_name[i] = buffer[SENDER_NAME_OFFSET + i];
            i = i + 1;
        }
        let sender_ip = [
            buffer[SENDER_IP_OFFSET],
            buffer[SENDER_IP_OFFSET + 1],
            buffer[SENDER_IP_OFFSET + 2],
            buffer[SENDER_IP_OFFSET + 3],
        ];
        let content = vstd::slice::slice_to_vec(
            vstd::slice::slice_subrange(buffer, CONTENT_OFFSET, buffer.len()),
        );
        let m = Message { timestamp_secs, sender_name, sender_ip, content };
        proof {
            assert(m.sender_name@ =~= buffer@.subrange(
                SENDER_NAME_OFFSET as int,
                SENDER_IP_OFFSET as int,
            ));
            assert(m.sender_ip@ =~= buffer@.subrange(SENDER_IP_OFFSET as int, CONTENT_OFFSET as int));
            assert(m@ =~= spec_deserialize(buffer@)->Ok_0);
        }
        Ok(m)
    }
}

/// Appends `bytes` to `out`.
fn append_bytes(out: &mut Vec<u8>, bytes: &[u8])
    ensures
        final(out)@ == old(out)@ + bytes@,
{
    let mut i: usize = 0;
    while i < bytes.len()
        invariant
            i <= bytes@.len(),
            out@ == old(out)@ + bytes@.take(i as int),
        decreases bytes@.len() - i,
    {
        out.push(bytes[i]);
        i = i + 1;
        proof {
            assert(out@ =~= old(out)@ + bytes@.take(i as int));
        }
    }
    proof {
        assert(bytes@.take(i as int) =~= bytes@);
    }
}

/// The bytes of a message are the fixed fields and the content.
pub proof fn lemma_serialize_len(m: MessageView)
    requires
        well_sized(m),
    ensures
        spec_serialize(m).len() == METADATA_BYTES + m.content.len(),
{
    lemma_be_bytes_len(MESSAGE_VERSION as nat, VERSION_BYTES as nat);
    lemma_be_bytes_len(m.timestamp_secs as nat, TIMESTAMP_BYTES as nat);
}

/// Reading the bytes of a message with content gives the message back.
pub proof fn lemma_deserialize_serialize(m: MessageView)
    requires
        well_sized(m),
        m.content.len() > 0,
    ensures
        spec_deserialize(spec_serialize(m)) == Ok::<MessageView, MessageError>(m),
{
    let b = spec_serialize(m);
    lemma_serialize_len(m);
    let v = be_bytes(MESSAGE_VERSION as nat, VERSION_BYTES as nat);
    let t = be_bytes(m.timestamp_secs as nat, TIMESTAMP_BYTES as nat);
    lemma_be_bytes_len(MESSAGE_VERSION as nat, VERSION_BYTES as nat);
    lemma_be_bytes_len(m.timestamp_secs as nat, TIMESTAMP_BYTES as nat);
    assert(b.subrange(VERSION_OFFSET as int, TIMESTAMP_OFFSET as int) =~= v);
    assert(b.subrange(TIMESTAMP_OFFSET as int, SENDER_NAME_OFFSET as int) =~= t);
    assert(b.subrange(SENDER_NAME_OFFSET as int, SENDER_IP_OFFSET as int) =~= m.sender_name);
    assert(b.subrange(SENDER_IP_OFFSET as int, CONTENT_OFFSET as int) =~= m.sender_ip);
    assert(b.subrange(CONTENT_OFFSET as int, b.len() as int) =~= m.content);
    reveal_with_fuel(byte_space, 3);
    lemma_be_value_of_bytes(MESSAGE_VERSION as nat, VERSION_BYTES as nat);
    lemma_byte_space_eight();
    lemma_be_value_of_bytes(m.timestamp_secs as nat, TIMESTAMP_BYTES as nat);
    assert(spec_deserialize(b)->Ok_0 =~= m);
}

/// A message with empty content is written, but its bytes are not read back:
/// they hold no more than the fixed fields.
pub proof fn lemma_empty_content_not_read_back(m: MessageView)
    requires
        well_sized(m),
        m.content.len() == 0,
    ensures
        spec_deserialize(spec_serialize(m)) == Err::<MessageView, MessageError>(
            MessageError::BufferTooShort,
        ),
{
    lemma_serialize_len(m);
}

/// Bytes that read as a message are exactly that message's bytes.
pub proof fn lemma_serialize_deserialize(b: Seq<u8>)
    requires
        spec_deserialize(b) is Ok,
    ensures
        well_sized(spec_deserialize(b)->Ok_0),
        spec_serialize(spec_deserialize(b)->Ok_0) == b,
{
    let m = spec_deserialize(b)->Ok_0;
    let vs = b.subrange(VERSION_OFFSET as int, TIMESTAMP_OFFSET as int);
    let ts = b.subrange(TIMESTAMP_OFFSET as int, SENDER_NAME_OFFSET as int);
    lemma_be_bytes_of_value(vs);
    lemma_be_bytes_of_value(ts);
    lemma_be_value_bound(ts);
    lemma_byte_space_eight();
    assert(spec_serialize(m) =~= b);
}

/// A message with content, small enough to be framed, that one client frames
/// and sends reaches another client whole: reading the frame from the stream
/// (whatever follows it) and then the message gives the message back.
pub proof fn lemma_message_survives_framing(m: MessageView, rest: Seq<u8>)
    requires
        well_sized(m),
        m.content.len() > 0,
        METADATA_BYTES + m.content.len() <= MAX_MESSAGE_SIZE,
    ensures
        spec_read_frame(spec_frame(spec_serialize(m)) + rest) == Ok::<Seq<u8>, FramingError>(
            spec_serialize(m),
        ),
        spec_deserialize(spec_serialize(m)) == Ok::<MessageView, MessageError>(m),
{
    lemma_serialize_len(m);
    lemma_read_after_write(spec_serialize(m), rest);
    lemma_deserialize_serialize(m);
}

/// The bytes that precede the content of a system message.
pub const SYSTEM_METADATA_BYTES: usize = 10;

/// The kind byte of a chat message.
pub const KIND_CHAT: u8 = 0;

/// The kind byte of a system message.
pub const KIND_SYSTEM: u8 = 1;

/// A notice from the server: when it was made and its text as bytes.
pub struct SystemMessage {
    pub timestamp_secs: u64,
    pub content: Vec<u8>,
}

/// A system message with its content taken as a byte sequence.
#[verifier::ext_equal]
pub struct SystemMessageView {
    pub timestamp_secs: u64,
    pub content: Seq<u8>,
}

impl View for SystemMessage {
    type V = SystemMessageView;

    open spec fn view(&self) -> SystemMessageView {
        SystemMessageView { timestamp_secs: self.timestamp_secs, content: self.content@ }
    }
}

/// Either kind of message.
pub enum Envelope {
    Chat(Message),
    System(SystemMessage),
}

/// Either kind of message, taken by its view.
pub enum EnvelopeView {
    Chat(MessageView),
    System(SystemMessageView),
}

impl View for Envelope {
    type V = EnvelopeView;

    open spec fn view(&self) -> EnvelopeView {
        match self {
            Envelope::Chat(m) => EnvelopeView::Chat(m@),
            Envelope::System(m) => EnvelopeView::System(m@),
        }
    }
}

/// The bytes of a system message.
pub open spec fn spec_serialize_system(m: SystemMessageView) -> Seq<u8> {
    be_bytes(MESSAGE_VERSION as nat, VERSION_BYTES as nat) + be_bytes(
        m.timestamp_secs as nat,
        TIMESTAMP_BYTES as nat,
    ) + m.content
}

/// What reading `b` as a system message gives. A buffer must hold at least one
/// byte of content, and the version it names must be [`MESSAGE_VERSION`].
pub open spec fn spec_deserialize_system(b: Seq<u8>) -> Result<SystemMessageView, MessageError> {
    if b.len() <= SYSTEM_METADATA_BYTES {
        Err(MessageError::BufferTooShort)
    } else if be_value(b.subrange(VERSION_OFFSET as int, TIMESTAMP_OFFSET as int))
        != MESSAGE_VERSION {
        Err(MessageError::VersionMismatch)
    } else {
        Ok(
            SystemMessageView {
                timestamp_secs: be_value(
                    b.subrange(TIMESTAMP_OFFSET as int, SENDER_NAME_OFFSET as int),
                ) as u64,
                content: b.subrange(SYSTEM_METADATA_BYTES as int, b.len() as int),
            },
        )
    }
}

/// The bytes of a message of either kind: its kind byte, then its own bytes.
pub open spec fn spec_serialize_envelope(e: EnvelopeView) -> Seq<u8> {
    match e {
        EnvelopeView::Chat(m) => seq![KIND_CHAT] + spec_serialize(m),
        EnvelopeView::System(m) => seq![KIND_SYSTEM] + spec_serialize_system(m),
    }
}

/// What reading `b` as a message of either kind gives.
pub open spec fn spec_deserialize_envelope(b: Seq<u8>) -> Result<EnvelopeView, MessageError> {
    if b.len() == 0 {
        Err(MessageError::BufferTooShort)
    } else if b[0] == KIND_CHAT {
        match spec_deserialize(b.skip(1)) {
            Ok(m) => Ok(EnvelopeView::Chat(m)),
            Err(e) => Err(e),
        }
    } else if b[0] == KIND_SYSTEM {
        match spec_deserialize_system(b.skip(1)) {
            Ok(m) => Ok(EnvelopeView::System(m)),
            Err(e) => Err(e),
        }
    } else {
        Err(MessageError::UnknownKind)
    }
}

/// A system-message result taken by its view.
pub open spec fn system_result_view(r: Result<SystemMessage, MessageError>) -> Result<
    SystemMessageView,
    MessageError,
> {
    match r {
        Ok(m) => Ok(m@),
        Err(e) => Err(e),
    }
}

/// An envelope result taken by its view.
pub open spec fn envelope_result_view(r: Result<Envelope, MessageError>) -> Result<
    EnvelopeView,
    MessageError,
> {
    match r {
        Ok(e) => Ok(e@),
        Err(e) => Err(e),
    }
}

impl SystemMessage {
    /// A notice with text `content`, stamped with the current time; `None`
    /// when the system clock reads before the UNIX epoch.
    pub fn new(content: &str) -> (r: Option<SystemMessage>)
        ensures
            r matches Some(m) ==> m@.content == encode_utf8(content@),
    {
        match get_timestamp() {
            Some(now) => Some(SystemMessage::with_timestamp(content, now)),
            None => None,
        }
    }

    /// A notice with text `content`, stamped with `timestamp_secs`.
    pub fn with_timestamp(content: &str, timestamp_secs: u64) -> (r: SystemMessage)
        ensures
            r@ == (SystemMessageView { timestamp_secs, content: encode_utf8(content@) }),
    {
        SystemMessage { timestamp_secs, content: vstd::slice::slice_to_vec(content.as_bytes()) }
    }

    /// The bytes of this notice, laid out as the module describes.
    pub fn serialize(&self) -> (r: Vec<u8>)
        ensures
            r@ == spec_serialize_system(self@),
    {
        let mut buf: Vec<u8> = Vec::new();
        push_be(&mut buf, MESSAGE_VERSION as u64, VERSION_BYTES);
        push_be(&mut buf, self.timestamp_secs, TIMESTAMP_BYTES);
        append_bytes(&mut buf, self.content.as_slice());
        proof {
            assert(buf@ =~= spec_serialize_system(self@));
        }
        buf
    }

    /// Reads a notice from `buffer`: see [`spec_deserialize_system`].
    pub fn deserialize(buffer: &[u8]) -> (r: Result<SystemMessage, MessageError>)
        ensures
            system_result_view(r) == spec_deserialize_system(buffer@),
    {
        if buffer.len() <= SYSTEM_METADATA_BYTES {
            return Err(MessageError::BufferTooShort);
        }
        let version = read_be(buffer, VERSION_OFFSET, VERSION_BYTES);
        if version != MESSAGE_VERSION as u64 {
            return Err(MessageError::VersionMismatch);
        }
        let timestamp_secs = read_be(buffer, TIMESTAMP_OFFSET, TIMESTAMP_BYTES);
        let content = vstd::slice::slice_to_vec(
            vstd::slice::slice_subrange(buffer, SYSTEM_METADATA_BYTES, buffer.len()),
        );
        let m = SystemMessage { timestamp_secs, content };
        proof {
            assert(m@ =~= spec_deserialize_system(buffer@)->Ok_0);
        }
        Ok(m)
    }
}

impl Envelope {
    /// The bytes of this message: its kind byte, then its own bytes.
    pub fn serialize(&self) -> (r: Vec<u8>)
        ensures
            r@ == spec_serialize_envelope(self@),
    {
        let mut buf: Vec<u8> = Vec::new();
        match self {
            Envelope::Chat(m) => {
                buf.push(KIND_CHAT);
                let body = m.serialize();
                append_bytes(&mut buf, body.as_slice());
            },
            Envelope::System(m) => {
                buf.push(KIND_SYSTEM);
                let body = m.serialize();
                append_bytes(&mut buf, body.as_slice());
            },
        }
        proof {
            assert(buf@ =~= spec_serialize_envelope(self@));
        }
        buf
    }

    /// Reads a message of either kind from `buffer`: see [`spec_deserialize_envelope`].
    pub fn deserialize(buffer: &[u8]) -> (r: Result<Envelope, MessageError>)
        ensures
            envelope_result_view(r) == spec_deserialize_envelope(buffer@),
    {
        if buffer.len() == 0 {
            return Err(MessageError::BufferTooShort);
        }
        let body = vstd::slice::slice_subrange(buffer, 1, buffer.len());
        proof {
            assert(body@ =~= buffer@.skip(1));
        }
        if buffer[0] == KIND_CHAT {
            match Message::deserialize(body) {
                Ok(m) => Ok(Envelope::Chat(m)),
                Err(e) => Err(e),
            }
        } else if buffer[0] == KIND_SYSTEM {
            match SystemMessage::deserialize(body) {
                Ok(m) => Ok(Envelope::System(m)),
                Err(e) => Err(e),
            }
        } else {
            Err(MessageError::UnknownKind)
        }
    }
}

/// Reading the bytes of a notice with content gives the notice back.
pub proof fn lemma_deserialize_serialize_system(m: SystemMessageView)
    requires
        m.content.len() > 0,
    ensures
        spec_deserialize_system(spec_serialize_system(m)) == Ok::<SystemMessageView, MessageError>(
            m,
        ),
{
    let b = spec_serialize_system(m);
    let v = be_bytes(MESSAGE_VERSION as nat, VERSION_BYTES as nat);
    let t = be_bytes(m.timestamp_secs as nat, TIMESTAMP_BYTES as nat);
    lemma_be_bytes_len(MESSAGE_VERSION as nat, VERSION_BYTES as nat);
    lemma_be_bytes_len(m.timestamp_secs as nat, TIMESTAMP_BYTES as nat);
    assert(b.subrange(VERSION_OFFSET as int, TIMESTAMP_OFFSET as int) =~= v);
    assert(b.subrange(TIMESTAMP_OFFSET as int, SENDER_NAME_OFFSET as int) =~= t);
    assert(b.subrange(SYSTEM_METADATA_BYTES as int, b.len() as int) =~= m.content);
    reveal_with_fuel(byte_space, 3);
    lemma_be_value_of_bytes(MESSAGE_VERSION as nat, VERSION_BYTES as nat);
    lemma_byte_space_eight();
    lemma_be_value_of_bytes(m.timestamp_secs as nat, TIMESTAMP_BYTES as nat);
    assert(spec_deserialize_system(b)->Ok_0 =~= m);
}

/// Bytes that read as a notice are exactly that notice's bytes.
pub proof fn lemma_serialize_deserialize_system(b: Seq<u8>)
    requires
        spec_deserialize_system(b) is Ok,
    ensures
        spec_serialize_system(spec_deserialize_system(b)->Ok_0) == b,
{
    let m = spec_deserialize_system(b)->Ok_0;
    let vs = b.subrange(VERSION_OFFSET as int, TIMESTAMP_OFFSET as int);
    let ts = b.subrange(TIMESTAMP_OFFSET as int, SENDER_NAME_OFFSET as int);
    lemma_be_bytes_of_value(vs);
    lemma_be_bytes_of_value(ts);
    lemma_be_value_bound(ts);
    lemma_byte_space_eight();
    assert(spec_serialize_system(m) =~= b);
}

/// Whether a message of either kind has content and fields of the right sizes.
pub open spec fn envelope_readable(e: EnvelopeView) -> bool {
    match e {
        EnvelopeView::Chat(m) => well_sized(m) && m.content.len() > 0,
        EnvelopeView::System(m) => m.content.len() > 0,
    }
}

/// Reading the bytes of a message of either kind, with content, gives it back.
pub proof fn lemma_deserialize_serialize_envelope(e: EnvelopeView)
    requires
        envelope_readable(e),
    ensures
        spec_deserialize_envelope(spec_serialize_envelope(e)) == Ok::<EnvelopeView, MessageError>(e),
{
    let b = spec_serialize_envelope(e);
    match e {
        EnvelopeView::Chat(m) => {
            assert(b.skip(1) =~= spec_serialize(m));
            lemma_deserialize_serialize(m);
        },
        EnvelopeView::System(m) => {
            assert(b.skip(1) =~= spec_serialize_system(m));
            lemma_deserialize_serialize_system(m);
        },
    }
}

/// Bytes that read as a message of either kind are exactly that message's bytes.
pub proof fn lemma_serialize_deserialize_envelope(b: Seq<u8>)
    requires
        spec_deserialize_envelope(b) is Ok,
    ensures
        spec_serialize_envelope(spec_deserialize_envelope(b)->Ok_0) == b,
{
    if b[0] == KIND_CHAT {
        lemma_serialize_deserialize(b.skip(1));
    } else {
        lemma_serialize_deserialize_system(b.skip(1));
    }
    assert(seq![b[0]] + b.skip(1) =~= b);
}

/// A message of either kind, with content, small enough to be framed, that is
/// framed and sent reaches the reader whole: reading the frame from the stream
/// (whatever follows it) and then the message gives the message back.
pub proof fn lemma_envelope_survives_framing(e: EnvelopeView, rest: Seq<u8>)
    requires
        envelope_readable(e),
        spec_serialize_envelope(e).len() <= MAX_MESSAGE_SIZE,
    ensures
        spec_read_frame(spec_frame(spec_serialize_envelope(e)) + rest) == Ok::<
            Seq<u8>,
            FramingError,
        >(spec_serialize_envelope(e)),
        spec_deserialize_envelope(spec_serialize_envelope(e)) == Ok::<EnvelopeView, MessageError>(e),
{
    lemma_read_after_write(spec_serialize_envelope(e), rest);
    lemma_deserialize_serialize_envelope(e);
}

/// Eight bytes hold 2^64 values.
pub proof fn lemma_byte_space_eight()
    ensures
        byte_space(8) == 0x1_0000_0000_0000_0000,
{
    reveal_with_fuel(byte_space, 9);
}

} // verus!
