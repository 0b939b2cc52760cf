//! The text that the client's terminal shows.

use vstd::prelude::*;
use vstd::string::StringSliceAdditionalSpecFns;
use vstd::utf8::is_char_boundary;
use crate::client::state::ClientState;
use crate::text::{lossy_text, lossy_utf8, trim_end_chars};
use crate::types::message::{Envelope, EnvelopeView, Message, MessageView, SystemMessageView};
use crate::types::session_info::{
    display_name, lemma_typed_name_is_shown, name_bytes_of, name_field_from_line,
    sender_display_name,
};
use crate::text::{trim_chars, trim_end_char};
use vstd::utf8::{decode_utf8, valid_utf8};

verus! {

/// The line shown for a message: its time (as the caller formats it), the
/// sender's name ([`display_name`], with `???` for an unreadable name) and
/// the content read as UTF-8 with replacement characters, without trailing whitespace.
pub open spec fn spec_message_line(m: MessageView, time_text: Seq<char>) -> Seq<char> {
    "["@ + time_text + "] "@ + display_name(m.sender_name, "???"@) + ": "@ + trim_end_chars(
        lossy_utf8(m.content),
    )
}

/// The line shown for a message, given its time as text.
pub fn message_line(m: &Message, time_text: &str) -> (r: String)
    ensures
        r@ == spec_message_line(m@, time_text@),
{
    let name = sender_display_name(m.sender_name.as_slice(), "???");
    let content = lossy_text(m.content.as_slice());
    let mut line = String::from_str("[");
    line.append(time_text);
    line.append("] ");
    line.append(name.as_str());
    line.append(": ");
    line.append(content.as_str().trim_end());
    line
}

/// The line shown for a server notice: its time, then its content read as
/// UTF-8 with replacement characters, without trailing whitespace.
pub open spec fn spec_notice_line(m: SystemMessageView, time_text: Seq<char>) -> Seq<char> {
    "["@ + time_text + "] "@ + trim_end_chars(lossy_utf8(m.content))
}

/// The line shown for a message of either kind.
pub open spec fn spec_envelope_line(e: EnvelopeView, time_text: Seq<char>) -> Seq<char> {
    match e {
        EnvelopeView::Chat(m) => spec_message_line(m, time_text),
        EnvelopeView::System(m) => spec_notice_line(m, time_text),
    }
}

/// The line shown for a message of either kind, given its time as text.
pub fn envelope_line(e: &Envelope, time_text: &str) -> (r: String)
    ensures
        r@ == spec_envelope_line(e@, time_text@),
{
    match e {
        Envelope::Chat(m) => message_line(m, time_text),
        Envelope::System(m) => {
            let content = lossy_text(m.content.as_slice());
            let mut line = String::from_str("[");
            line.append(time_text);
            line.append("] ");
            line.append(content.as_str().trim_end());
            line
        },
    }
}

/// The timestamp of a message of either kind.
pub fn envelope_timestamp(e: &Envelope) -> (r: u64)
    ensures
        r == match e@ {
            EnvelopeView::Chat(m) => m.timestamp_secs,
            EnvelopeView::System(m) => m.timestamp_secs,
        },
{
    match e {
        Envelope::Chat(m) => m.timestamp_secs,
        Envelope::System(m) => m.timestamp_secs,
    }
}

/// The title line: the server's address and the user's name.
pub open spec fn spec_title_line(remote: Seq<char>, name: Seq<char>) -> Seq<char> {
    "lan-chat | Connected to "@ + remote + " as "@ + name
}

/// The title line of the client's screen.
pub fn title_line(state: &ClientState) -> (r: String)
    ensures
        r@ == spec_title_line(state.remote@, state.name@),
{
    let mut line = String::from_str("lan-chat | Connected to ");
    line.append(state.remote.as_str());
    line.append(" as ");
    line.append(state.name.as_str());
    line
}

/// The index of the first message line shown in an area `area_height` rows
/// high, two of which the border takes: the last lines that fit are shown.
pub fn first_visible_line(line_count: usize, area_height: u16) -> (r: usize)
    ensures
        r == if line_count + 2 > area_height {
            if area_height >= 2 {
                line_count - (area_height - 2)
            } else {
                line_count as int
            }
        } else {
            0
        },
{
    let visible = area_height.saturating_sub(2) as usize;
    line_count.saturating_sub(visible)
}

/// The byte of the input line at which its shown part starts, in an input
/// area `area_width` columns wide, two of which the border takes: the last
/// bytes that fit are shown.
pub open spec fn spec_input_view_start(byte_len: nat, area_width: u16) -> nat {
    if byte_len > area_width - 2 {
        (byte_len - (area_width - 2)) as nat
    } else {
        0
    }
}

/// Where the shown part of the input line starts: see [`spec_input_view_start`].
pub fn input_view_start(input: &str, area_width: u16) -> (r: usize)
    requires
        area_width >= 2,
        input.spec_bytes().len() <= usize::MAX,
    ensures
        r == spec_input_view_start(input.spec_bytes().len(), area_width),
{
    let available = (area_width - 2) as usize;
    let len = input.len();
    if len > available {
        len - available
    } else {
        0
    }
}

/// The shown part of the input line: its bytes from [`input_view_start`] on.
/// The start must fall on a character boundary.
pub fn visible_input(input: &str, area_width: u16) -> (r: &str)
    requires
        area_width >= 2,
        input.spec_bytes().len() <= usize::MAX,
        is_char_boundary(
            input.spec_bytes(),
            spec_input_view_start(input.spec_bytes().len(), area_width) as int,
        ),
    ensures
        r.spec_bytes() == input.spec_bytes().skip(
            spec_input_view_start(input.spec_bytes().len(), area_width) as int,
        ),
{
    let start = input_view_start(input, area_width);
    let (_, tail) = input.split_at(start);
    tail
}

/// The cursor's position in the input area whose top-left corner is at
/// (`area_x`, `area_y`): after the border, a space and the shown text.
pub fn input_cursor(area_x: u16, area_y: u16, shown_len: usize) -> (r: (u16, u16))
    requires
        area_x + 2 + shown_len <= u16::MAX,
        area_y + 1 <= u16::MAX,
    ensures
        r.0 == area_x + 2 + shown_len,
        r.1 == area_y + 1,
{
    (area_x + 2 + shown_len as u16, area_y + 1)
}

/// A chat line names the sender by the text its name field encodes, without
/// trailing NULs and trailing whitespace, whenever the field is valid UTF-8;
/// `???` stands only for a field that is not.
pub proof fn lemma_message_line_name(m: MessageView, time_text: Seq<char>)
    ensures
        valid_utf8(m.sender_name) ==> spec_message_line(m, time_text) == "["@ + time_text + "] "@
            + trim_end_chars(trim_end_char(decode_utf8(m.sender_name), '\0')) + ": "@
            + trim_end_chars(lossy_utf8(m.content)),
        !valid_utf8(m.sender_name) ==> spec_message_line(m, time_text) == "["@ + time_text
            + "] "@ + trim_end_chars(trim_end_char("???"@, '\0')) + ": "@ + trim_end_chars(
            lossy_utf8(m.content),
        ),
{
}

/// Others see a message under the name its sender typed: a message from a
/// session whose name was taken from `line` shows that line without
/// surrounding whitespace (when it fits the field and does not end in NUL).
pub proof fn lemma_message_line_shows_typed_name(
    line: Seq<char>,
    m: MessageView,
    time_text: Seq<char>,
)
    requires
        name_bytes_of(line).len() <= 32,
        trim_chars(line).len() == 0 || trim_chars(line).last() != '\0',
        m.sender_name == name_field_from_line(line),
    ensures
        spec_message_line(m, time_text) == "["@ + time_text + "] "@ + trim_chars(line) + ": "@
            + trim_end_chars(lossy_utf8(m.content)),
{
    lemma_typed_name_is_shown(line, "???"@);
}

/// A notice line is its time and its content, with no sender.
pub proof fn lemma_notice_line_has_no_sender(m: SystemMessageView, time_text: Seq<char>)
    ensures
        spec_envelope_line(EnvelopeView::System(m), time_text) == "["@ + time_text + "] "@
            + trim_end_chars(lossy_utf8(m.content)),
{
}

} // verus!
