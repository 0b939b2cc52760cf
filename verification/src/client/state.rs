//! The client's state and what a key press does to it.

use vstd::prelude::*;
use vstd::utf8::encode_utf8;
use crate::text::{lemma_utf8_push, trim_chars};
use crate::types::message::{envelope_result_view, spec_deserialize_envelope, Envelope, MessageError};

verus! {

/// Typing stops adding characters once the input holds this many bytes.
pub const MAX_MESSAGE_LEN: usize = 512;

/// What the client shows and edits: the user's name, the server's address,
/// the messages received so far and the line being typed.
pub struct ClientState {
    pub name: String,
    pub remote: String,
    pub messages: Vec<Envelope>,
    pub input: String,
}

/// A key press, as far as the client distinguishes keys.
#[derive(Debug, Clone, Copy)]
pub enum Key {
    Char(char),
    Backspace,
    Enter,
    Esc,
    Other,
}

/// What the caller is to do after a key press.
pub enum KeyOutcome {
    /// Nothing beyond showing the new state.
    Nothing,
    /// Send this text as a chat message.
    Send(String),
    /// Leave the program.
    Quit,
}

/// The length in bytes of text as UTF-8.
pub open spec fn utf8_len(s: Seq<char>) -> nat {
    encode_utf8(s).len()
}

/// The input after typing `c`: the character is added while the input is
/// shorter than [`MAX_MESSAGE_LEN`] bytes.
pub open spec fn typed(input: Seq<char>, c: char) -> Seq<char> {
    if utf8_len(input) < MAX_MESSAGE_LEN {
        input.push(c)
    } else {
        input
    }
}

/// The input after a backspace: its last character removed, if it has one.
pub open spec fn erased(input: Seq<char>) -> Seq<char> {
    if input.len() > 0 {
        input.drop_last()
    } else {
        input
    }
}

impl ClientState {
    /// The state of a fresh session: no messages and an empty input line.
    pub fn new(name: String, remote: String) -> (r: ClientState)
        ensures
            r.name == name,
            r.remote == remote,
            r.messages@.len() == 0,
            r.input@.len() == 0,
    {
        ClientState { name, remote, messages: Vec::new(), input: String::new() }
    }

    /// Takes a message received from the server: the bytes are read as a
    /// message of either kind and added after the messages received so far.
    /// Bytes that do not read as a message leave the state unchanged.
    pub fn receive(&mut self, bytes: &[u8]) -> (r: Result<(), MessageError>)
        ensures
            match spec_deserialize_envelope(bytes@) {
                Ok(e) => r is Ok && final(self).messages@.len() == old(self).messages@.len() + 1
                    && final(self).messages@.take(old(self).messages@.len() as int)
                    == old(self).messages@ && final(self).messages@.last()@ == e,
                Err(err) => r == Err::<(), MessageError>(err) && final(self).messages
                    == old(self).messages,
            },
            final(self).name == old(self).name,
            final(self).remote == old(self).remote,
            final(self).input == old(self).input,
    {
        match Envelope::deserialize(bytes) {
            Ok(e) => {
                self.messages.push(e);
                proof {
                    assert(self.messages@.take(old(self).messages@.len() as int)
                        =~= old(self).messages@);
                }
                Ok(())
            },
            Err(err) => Err(err),
        }
    }

    /// Applies a key press. Characters are typed into the input line, Backspace
    /// removes the last character, Enter clears the line and asks to send it
    /// without surrounding whitespace unless nothing is left of it, and Esc asks
    /// to quit. Only the input line ever changes.
    pub fn handle_key(&mut self, key: Key) -> (r: KeyOutcome)
        requires
            utf8_len(old(self).input@) <= usize::MAX,
        ensures
            final(self).name == old(self).name,
            final(self).remote == old(self).remote,
            final(self).messages == old(self).messages,
            match key {
                Key::Char(c) => r is Nothing && final(self).input@ == typed(old(self).input@, c),
                Key::Backspace => r is Nothing && final(self).input@ == erased(old(self).input@),
                Key::Enter => final(self).input@.len() == 0 && if trim_chars(old(self).input@).len()
                    > 0 {
                    r matches KeyOutcome::Send(t) && t@ == trim_chars(old(self).input@)
                } else {
                    r is Nothing
                },
                Key::Esc => r is Quit && final(self).input@ == old(self).input@,
                Key::Other => r is Nothing && final(self).input@ == old(self).input@,
            },
    {
        match key {
            Key::Char(c) => {
                if self.input.as_str().len() < MAX_MESSAGE_LEN {
                    self.input.push(c);
                }
                KeyOutcome::Nothing
            },
            Key::Backspace => {
                self.input.pop();
                KeyOutcome::Nothing
            },
            Key::Enter => {
                let text = String::from_str(self.input.as_str().trim());
                self.input = String::new();
                if text.as_str().is_empty() {
                    KeyOutcome::Nothing
                } else {
                    KeyOutcome::Send(text)
                }
            },
            Key::Esc => KeyOutcome::Quit,
            Key::Other => KeyOutcome::Nothing,
        }
    }
}

/// Typing never makes the input longer than [`MAX_MESSAGE_LEN`] + 3 bytes:
/// a character is only added below the limit, and takes at most four bytes.
pub proof fn lemma_typing_keeps_bound(input: Seq<char>, c: char)
    requires
        utf8_len(input) < MAX_MESSAGE_LEN + 4,
    ensures
        utf8_len(typed(input, c)) < MAX_MESSAGE_LEN + 4,
        utf8_len(input) >= MAX_MESSAGE_LEN ==> typed(input, c) == input,
{
    lemma_utf8_push(input, c);
}

/// The input after typing each character of `s` in turn, starting from `input`.
pub open spec fn typed_all(input: Seq<char>, s: Seq<char>) -> Seq<char>
    decreases s.len(),
{
    if s.len() == 0 {
        input
    } else {
        typed(typed_all(input, s.drop_last()), s.last())
    }
}

/// Below the limit, typing a character appends exactly that character,
/// whatever it is (whitespace included); at or over the limit the input stays.
pub proof fn lemma_typing_appends(input: Seq<char>, c: char)
    ensures
        utf8_len(input) < MAX_MESSAGE_LEN ==> typed(input, c).len() == input.len() + 1 && typed(
            input,
            c,
        )[input.len() as int] == c && typed(input, c).take(input.len() as int) == input,
        utf8_len(input) >= MAX_MESSAGE_LEN ==> typed(input, c) == input,
{
    if utf8_len(input) < MAX_MESSAGE_LEN {
        assert(input.push(c).take(input.len() as int) =~= input);
    }
}

/// Below the limit, a backspace after typing a character gives the input back.
pub proof fn lemma_erase_undoes_typing(input: Seq<char>, c: char)
    requires
        utf8_len(input) < MAX_MESSAGE_LEN,
    ensures
        erased(typed(input, c)) == input,
{
    assert(input.push(c).drop_last() =~= input);
}

/// Each character takes at least one byte of UTF-8.
proof fn lemma_utf8_len_grows(s: Seq<char>, c: char)
    ensures
        utf8_len(s.push(c)) > utf8_len(s),
{
    lemma_utf8_push(s, c);
}

/// Typing text that fits within [`MAX_MESSAGE_LEN`] bytes together with the
/// input appends the whole text, every character in order.
pub proof fn lemma_typing_text_appends(input: Seq<char>, s: Seq<char>)
    requires
        utf8_len(input + s) <= MAX_MESSAGE_LEN,
    ensures
        typed_all(input, s) == input + s,
    decreases s.len(),
{
    if s.len() > 0 {
        let prefix = input + s.drop_last();
        assert(input + s =~= prefix.push(s.last()));
        lemma_utf8_len_grows(prefix, s.last());
        lemma_typing_text_appends(input, s.drop_last());
        assert(typed_all(input, s) =~= input + s);
    } else {
        assert(input + s =~= input);
    }
}

} // verus!
