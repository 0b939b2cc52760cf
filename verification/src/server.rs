//! What the server tells its clients when someone joins or leaves.

use vstd::prelude::*;
use crate::text::{trim_chars, trim_end_char, trim_end_chars};
use crate::types::session_info::{
    display_name, lemma_typed_name_is_shown, name_bytes_of, name_field_from_line,
    sender_display_name,
};
use vstd::utf8::{decode_utf8, valid_utf8};

verus! {

/// The notice for a user joining (`connected`) or leaving: the user's name
/// as [`display_name`] reads it (U+FFFD standing for an unreadable name),
/// then the peer address in parentheses.
pub open spec fn spec_presence_notice(name_field: Seq<u8>, peer: Seq<char>, connected: bool) -> Seq<char> {
    display_name(name_field, "\u{FFFD}"@) + " ("@ + peer + ") "@ + if connected {
        "connected"@
    } else {
        "disconnected"@
    }
}

/// The notice broadcast when a user joins (`connected`) or leaves.
pub fn presence_notice(name_field: &[u8], peer: &str, connected: bool) -> (r: String)
    ensures
        r@ == spec_presence_notice(name_field@, peer@, connected),
{
    let mut text = sender_display_name(name_field, "\u{FFFD}");
    text.append(" (");
    text.append(peer);
    text.append(") ");
    if connected {
        text.append("connected");
    } else {
        text.append("disconnected");
    }
    text
}

/// A notice begins with the text the name field encodes, without trailing
/// NULs and trailing whitespace, whenever the field is valid UTF-8; U+FFFD
/// stands for the name only when it is not.
pub proof fn lemma_presence_notice_name(name_field: Seq<u8>, peer: Seq<char>, connected: bool)
    ensures
        valid_utf8(name_field) ==> spec_presence_notice(name_field, peer, connected) == trim_end_chars(
            trim_end_char(decode_utf8(name_field), '\0'),
        ) + " ("@ + peer + ") "@ + if connected {
            "connected"@
        } else {
            "disconnected"@
        },
        !valid_utf8(name_field) ==> spec_presence_notice(name_field, peer, connected)
            == trim_end_chars(trim_end_char("\u{FFFD}"@, '\0')) + " ("@ + peer + ") "@ + if connected {
            "connected"@
        } else {
            "disconnected"@
        },
{
}

/// Everyone is told of a user under the name the user typed: for a client
/// whose name was taken from `line`, the notice begins with that line
/// without surrounding whitespace (when it fits the field and does not end in NUL).
pub proof fn lemma_notice_shows_typed_name(line: Seq<char>, peer: Seq<char>, connected: bool)
    requires
        name_bytes_of(line).len() <= 32,
        trim_chars(line).len() == 0 || trim_chars(line).last() != '\0',
    ensures
        spec_presence_notice(name_field_from_line(line), peer, connected) == trim_chars(line)
            + " ("@ + peer + ") "@ + if connected {
            "connected"@
        } else {
            "disconnected"@
        },
{
    lemma_typed_name_is_shown(line, "\u{FFFD}"@);
}

} // verus!
