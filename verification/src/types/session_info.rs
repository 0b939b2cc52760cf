//! Who this client is: the user's name and the local IPv4 address.

use vstd::prelude::*;
use vstd::utf8::{decode_utf8, encode_utf8, valid_utf8};
use crate::text::{
    lemma_nul_encoding, lemma_trim_nuls, lemma_trimmed_has_clean_end, lemma_utf8_concat, nul_chars,
    trim_chars, trim_end_char,
    trim_end_chars, trim_trailing_nul, utf8_str, zero_bytes,
};

verus! {

/// The length of the name field: a name takes at most this many bytes of UTF-8.
pub const MAX_NAME_LEN: usize = 32;

/// Why session information could not be taken.
#[derive(Debug, Clone, Copy, PartialEq, Eq, Structural)]
pub enum SessionError {
    /// The trimmed name is longer than [`MAX_NAME_LEN`] bytes.
    NameTooLong,
    /// The connection's local address is an IPv6 address.
    Ipv6Unsupported,
}

/// The local address of a connection, as far as a session cares about it.
#[derive(Debug, Clone, Copy)]
pub enum LocalAddr {
    /// An IPv4 address, by its four octets.
    V4([u8; 4]),
    /// Any IPv6 address.
    V6,
}

/// The user's name, as UTF-8 padded with NUL bytes, and the local IPv4 address
/// by its octets.
pub struct SessionInfo {
    pub name: [u8; MAX_NAME_LEN],
    pub ip: [u8; 4],
}

/// The name bytes that a line of input gives: the line without surrounding
/// whitespace, as UTF-8.
pub open spec fn name_bytes_of(line: Seq<char>) -> Seq<u8> {
    encode_utf8(trim_chars(line))
}

/// How a name field reads as text: its UTF-8 without the trailing NUL
/// characters, or `"?"` when the field is not valid UTF-8.
pub open spec fn name_text(field: Seq<u8>) -> Seq<char> {
    if valid_utf8(field) {
        trim_end_char(decode_utf8(field), '\0')
    } else {
        "?"@
    }
}

/// How a name field is shown to users: its UTF-8 (or `fallback` when the field
/// is not valid UTF-8) without the trailing NUL characters and then without
/// trailing whitespace.
pub open spec fn display_name(field: Seq<u8>, fallback: Seq<char>) -> Seq<char> {
    let text = if valid_utf8(field) {
        decode_utf8(field)
    } else {
        fallback
    };
    trim_end_chars(trim_end_char(text, '\0'))
}

/// A name field as it is shown to users: see [`display_name`].
pub fn sender_display_name(field: &[u8], fallback: &str) -> (r: String)
    ensures
        r@ == display_name(field@, fallback@),
{
    let text = match utf8_str(field) {
        Some(s) => s,
        None => fallback,
    };
    String::from_str(trim_trailing_nul(text).trim_end())
}

impl Default for SessionInfo {
    /// An empty name (all NUL bytes) and the unspecified address 0.0.0.0.
    fn default() -> (r: Self)
        ensures
            r.name@ == Seq::new(MAX_NAME_LEN as nat, |i: int| 0u8),
            r.ip@ == seq![0u8, 0u8, 0u8, 0u8],
    {
        let r = SessionInfo { name: [0u8; MAX_NAME_LEN], ip: [0u8, 0u8, 0u8, 0u8] };
        proof {
            assert(r.name@ =~= Seq::new(MAX_NAME_LEN as nat, |i: int| 0u8));
            assert(r.ip@ =~= seq![0u8, 0u8, 0u8, 0u8]);
        }
        r
    }
}

impl SessionInfo {
    /// Takes the user's name from a line of input: the line is trimmed and its
    /// bytes are written over the start of the name field. A name longer than
    /// [`MAX_NAME_LEN`] bytes is refused and the session is left unchanged.
    pub fn read_in_name(&mut self, line: &str) -> (r: Result<(), SessionError>)
        ensures
            name_bytes_of(line@).len() > MAX_NAME_LEN ==> r == Err::<(), SessionError>(
                SessionError::NameTooLong,
            ) && final(self).name@ == old(self).name@,
            name_bytes_of(line@).len() <= MAX_NAME_LEN ==> r is Ok && final(self).name@ == name_bytes_of(
                line@,
            ) + old(self).name@.skip(name_bytes_of(line@).len() as int),
            final(self).ip == old(self).ip,
    {
        let trimmed = line.trim();
        let bytes = trimmed.as_bytes();
        if bytes.len() > MAX_NAME_LEN {
            return Err(SessionError::NameTooLong);
        }
        let mut i: usize = 0;
        while i < bytes.len()
            invariant
                bytes@ == name_bytes_of(line@),
                bytes@.len() <= MAX_NAME_LEN,
                i <= bytes@.len(),
                self.ip == old(self).ip,
                self.name@ == bytes@.take(i as int) + old(self).name@.skip(i as int),
            decreases bytes@.len() - i,
        {
            self.name[i] = bytes[i];
            i = i + 1;
            proof {
                assert(self.name@ =~= bytes@.take(i as int) + old(self).name@.skip(i as int));
            }
        }
        proof {
            assert(bytes@.take(i as int) =~= bytes@);
        }
        Ok(())
    }

    /// Takes the local address of the connection; only IPv4 is supported, and
    /// an IPv6 address leaves the session unchanged.
    pub fn read_in_ip(&mut self, addr: LocalAddr) -> (r: Result<(), SessionError>)
        ensures
            match addr {
                LocalAddr::V4(octets) => r is Ok && final(self).ip == octets,
                LocalAddr::V6 => r == Err::<(), SessionError>(SessionError::Ipv6Unsupported)
                    && final(self).ip == old(self).ip,
            },
            final(self).name == old(self).name,
    {
        match addr {
            LocalAddr::V4(octets) => {
                self.ip = octets;
                Ok(())
            },
            LocalAddr::V6 => Err(SessionError::Ipv6Unsupported),
        }
    }

    /// The name as text: see [`name_text`].
    pub fn name_as_str(&self) -> (r: &str)
        ensures
            r@ == name_text(self.name@),
    {
        let field = self.name.as_slice();
        match utf8_str(field) {
            Some(s) => trim_trailing_nul(s),
            None => "?",
        }
    }
}

/// A name taken from a line on a fresh session (whose name field is all zero
/// bytes) reads back as the line without surrounding whitespace, when that
/// fits the field and does not end in a NUL character.
pub proof fn lemma_name_reads_back(line: Seq<char>)
    requires
        name_bytes_of(line).len() <= MAX_NAME_LEN,
        trim_chars(line).len() == 0 || trim_chars(line).last() != '\0',
    ensures
        name_text(
            name_bytes_of(line) + zero_bytes(MAX_NAME_LEN as nat).skip(
                name_bytes_of(line).len() as int,
            ),
        ) == trim_chars(line),
{
    let t = trim_chars(line);
    let b = name_bytes_of(line);
    let k = (MAX_NAME_LEN - b.len()) as nat;
    assert(zero_bytes(MAX_NAME_LEN as nat).skip(b.len() as int) =~= zero_bytes(k));
    lemma_nul_encoding(k);
    lemma_utf8_concat(t, nul_chars(k));
    vstd::utf8::encode_utf8_valid_utf8(t + nul_chars(k));
    vstd::utf8::encode_utf8_decode_utf8(t + nul_chars(k));
    lemma_trim_nuls(t, k);
}

/// The name field that a fresh session (all zero bytes) holds after its name
/// was taken from `line`.
pub open spec fn name_field_from_line(line: Seq<char>) -> Seq<u8> {
    name_bytes_of(line) + zero_bytes(MAX_NAME_LEN as nat).skip(name_bytes_of(line).len() as int)
}

/// A name field that holds valid UTF-8 is shown as the text it encodes,
/// without trailing NULs and then without trailing whitespace; the fallback
/// stands only for a field that is not valid UTF-8.
pub proof fn lemma_display_name_cases(field: Seq<u8>, fallback: Seq<char>)
    ensures
        valid_utf8(field) ==> display_name(field, fallback) == trim_end_chars(
            trim_end_char(decode_utf8(field), '\0'),
        ),
        !valid_utf8(field) ==> display_name(field, fallback) == trim_end_chars(
            trim_end_char(fallback, '\0'),
        ),
{
}

/// The name a user typed is the name others are shown: after the name was
/// taken from `line` on a fresh session, the field is shown as the line
/// without surrounding whitespace, whatever the fallback (when that text
/// fits the field and does not end in a NUL character).
pub proof fn lemma_typed_name_is_shown(line: Seq<char>, fallback: Seq<char>)
    requires
        name_bytes_of(line).len() <= MAX_NAME_LEN,
        trim_chars(line).len() == 0 || trim_chars(line).last() != '\0',
    ensures
        valid_utf8(name_field_from_line(line)),
        display_name(name_field_from_line(line), fallback) == trim_chars(line),
        name_field_from_line(line).len() == MAX_NAME_LEN,
{
    let t = trim_chars(line);
    let b = name_bytes_of(line);
    let k = (MAX_NAME_LEN - b.len()) as nat;
    assert(zero_bytes(MAX_NAME_LEN as nat).skip(b.len() as int) =~= zero_bytes(k));
    lemma_nul_encoding(k);
    lemma_utf8_concat(t, nul_chars(k));
    vstd::utf8::encode_utf8_valid_utf8(t + nul_chars(k));
    vstd::utf8::encode_utf8_decode_utf8(t + nul_chars(k));
    lemma_trim_nuls(t, k);
    lemma_trimmed_has_clean_end(line);
}

} // verus!
