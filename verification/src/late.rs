//! The late.sh chat pane: message timestamps and the compose box that sends
//! chat messages as JSON frames.

use vstd::prelude::*;
use crate::shell::{types_text, KeyModifiers};
use crate::text::{
    byte_len, byte_slice, char_index_of_byte, chars_eq_str, chars_of, decimal, decimal_chars,
    is_boundary, push_chars, push_str, slice_vec, string_of, trim, trim_spec,
};

verus! {

/// The time of day `HH:MM` of an ISO-8601 timestamp, taken as its bytes 11
/// to 16 whenever it has at least 16 bytes and those offsets fall between
/// characters, whatever the bytes hold; any other string is shown as it is.
pub open spec fn timestamp_spec(ts: Seq<char>) -> Seq<char> {
    if byte_len(ts) >= 16 && is_boundary(ts, 11) && is_boundary(ts, 16) {
        byte_slice(ts, 11, 16)
    } else {
        ts
    }
}

/// The time of day shown beside a chat message (see [`timestamp_spec`]).
pub fn format_timestamp(ts: &str) -> (r: String)
    ensures
        r@ == timestamp_spec(ts@),
{
    let chars = chars_of(ts);
    let a = char_index_of_byte(&chars, 11);
    let b = char_index_of_byte(&chars, 16);
    match (a, b) {
        (Some(a), Some(b)) => {
            proof {
                if a > b {
                    crate::text::lemma_byte_len_monotone(chars@, b as int, a as int);
                }
                crate::text::lemma_byte_len_monotone(chars@, b as int, chars@.len() as int);
                assert(chars@.take(chars@.len() as int) =~= chars@);
            }
            string_of(&slice_vec(&chars, a, b))
        },
        _ => {
            proof {
                if byte_len(ts@) >= 16 && is_boundary(ts@, 11) && is_boundary(ts@, 16) {
                    assert(false);
                }
            }
            ts.to_owned()
        },
    }
}

/// The JSON escape of one character, as serde_json writes it inside a string.
pub open spec fn json_escape_char(c: char) -> Seq<char> {
    if c == '"' {
        seq!['\\', '"']
    } else if c == '\\' {
        seq!['\\', '\\']
    } else if c == '\u{8}' {
        seq!['\\', 'b']
    } else if c == '\t' {
        seq!['\\', 't']
    } else if c == '\n' {
        seq!['\\', 'n']
    } else if c == '\u{c}' {
        seq!['\\', 'f']
    } else if c == '\r' {
        seq!['\\', 'r']
    } else if (c as u32) < 0x20 {
        seq![
            '\\',
            'u',
            '0',
            '0',
            if (c as u32) < 0x10 { '0' } else { '1' },
            "0123456789abcdef"@[((c as u32) % 16) as int],
        ]
    } else {
        seq![c]
    }
}

/// The JSON escapes of a sequence of characters.
pub open spec fn json_escape(s: Seq<char>) -> Seq<char>
    decreases s.len(),
{
    if s.len() == 0 {
        Seq::empty()
    } else {
        json_escape(s.drop_last()) + json_escape_char(s.last())
    }
}

/// A string as a JSON string literal: quoted, with `"`, `\` and the control
/// characters below U+0020 escaped.
pub open spec fn json_string(s: Seq<char>) -> Seq<char> {
    seq!['"'] + json_escape(s) + seq!['"']
}

/// The JSON text of a string.
///
/// Trusted: builds `serde_json::Value::String` and formats it with its
/// `Display` impl (what `format!("{}", serde_json::json!(s))` does). In
/// serde_json's source the compact serializer writes a string as `"`, each
/// character (escaping `"` and `\` with a backslash, U+0008/9/A/C/D as
/// `\b \t \n \f \r`, other characters below U+0020 as `\u00XX` in lower-case
/// hex) and `"`; the contract states exactly that.
#[verifier::external_body]
fn json_string_literal(s: &str) -> (r: String)
    ensures
        r@ == json_string(s@),
{
    serde_json::Value::String(s.to_owned()).to_string()
}

/// The frame that sends `body` to chat room `room`.
pub open spec fn send_frame_spec(room: u64, body: Seq<char>) -> Seq<char> {
    "{\"type\":\"send\",\"room_id\":"@ + decimal(room as nat) + ",\"body\":"@ + json_string(body) + "}"@
}

/// The JSON frame that sends the chat message `body` to room `room`.
pub fn send_frame(room: u64, body: &str) -> (r: String)
    ensures
        r@ == send_frame_spec(room, body@),
{
    let mut out = chars_of("{\"type\":\"send\",\"room_id\":");
    let digits = decimal_chars(room);
    push_chars(&mut out, &digits);
    push_str(&mut out, ",\"body\":");
    let quoted = json_string_literal(body);
    push_str(&mut out, quoted.as_str());
    push_str(&mut out, "}");
    string_of(&out)
}

/// The text of the compose box after a key press, and the frame to send
/// (for enter/return on a message that is not blank).
pub open spec fn compose_step(
    text: Seq<char>,
    room: u64,
    key: Seq<char>,
    key_char: Option<Seq<char>>,
    mods: KeyModifiers,
) -> (Seq<char>, Option<Seq<char>>) {
    if key == "backspace"@ {
        (if text.len() > 0 { text.drop_last() } else { text }, None)
    } else if key == "enter"@ || key == "return"@ {
        if trim_spec(text).len() > 0 {
            (Seq::empty(), Some(send_frame_spec(room, trim_spec(text))))
        } else {
            (text, None)
        }
    } else if types_text(mods) {
        match key_char {
            Some(kc) => (text + kc, None),
            None => (text, None),
        }
    } else if key == "space"@ {
        (text.push(' '), None)
    } else {
        (text, None)
    }
}

/// The chat compose box: the message being typed for a room.
pub struct ComposeBox {
    pub text: Vec<char>,
    pub room: u64,
}

impl ComposeBox {
    /// Applies a key press (see [`compose_step`]) and returns the frame to
    /// send, if the press sent the message.
    pub fn handle_key(&mut self, key: &str, key_char: Option<&str>, mods: KeyModifiers) -> (r: Option<
        String,
    >)
        ensures
            final(self).room == old(self).room,
            final(self).text@ == compose_step(
                old(self).text@,
                old(self).room,
                key@,
                match key_char {
                    Some(kc) => Some(kc@),
                    None => None,
                },
                mods,
            ).0,
            match compose_step(
                old(self).text@,
                old(self).room,
                key@,
                match key_char {
                    Some(kc) => Some(kc@),
                    None => None,
                },
                mods,
            ).1 {
                Some(f) => r is Some && r->0@ == f,
                None => r is None,
            },
    {
        let k = chars_of(key);
        if chars_eq_str(&k, "backspace") {
            self.text.pop();
            return None;
        }
        if chars_eq_str(&k, "enter") || chars_eq_str(&k, "return") {
            return self.send();
        }
        if !mods.control && !mods.alt && !mods.platform && !mods.function {
            match key_char {
                Some(kc) => push_str(&mut self.text, kc),
                None => {},
            }
            return None;
        }
        if chars_eq_str(&k, "space") {
            self.text.push(' ');
        }
        None
    }

    /// The send button: sends the trimmed message when it is not blank and
    /// clears the box; a blank message is left as it is.
    pub fn send(&mut self) -> (r: Option<String>)
        ensures
            final(self).room == old(self).room,
            trim_spec(old(self).text@).len() > 0 ==> final(self).text@.len() == 0 && r is Some
                && r->0@ == send_frame_spec(old(self).room, trim_spec(old(self).text@)),
            trim_spec(old(self).text@).len() == 0 ==> final(self).text@ == old(self).text@
                && r is None,
    {
        let body = trim(&self.text);
        if body.len() > 0 {
            let frame = send_frame(self.room, string_of(&body).as_str());
            self.text = Vec::new();
            assert(self.text@ =~= Seq::<char>::empty());
            Some(frame)
        } else {
            None
        }
    }
}

} // verus!
