//! The bridge to the WebSocket library: between a message of the protocol and
//! the WebSocket message that carries its frame.

use vstd::prelude::*;
use crate::codec::{encode, outcome, parse_message};
use crate::grammar::{decode_spec, encode_spec};
use crate::message::{Error, Frame, OCPPMessage};

verus! {

/// `tungstenite::Message`, a WebSocket message: opaque to the verifier.
#[verifier::external_type_specification]
#[verifier::external_body]
pub struct ExMessage(tungstenite::Message);

/// The text that `tungstenite::Message::to_text` finds in a message: the
/// string of a text message; for the other kinds what the library makes of
/// their bytes, and `None` where those are not UTF-8.
pub uninterp spec fn message_text(m: tungstenite::Message) -> Option<Seq<char>>;

/// Calls `tungstenite::Message::text`, which makes the text message that
/// holds the string it is given; `to_text` then finds that string in it.
#[verifier::external_body]
fn text_message(text: String) -> (m: tungstenite::Message)
    ensures
        message_text(m) == Some(text@),
{
    tungstenite::Message::text(text)
}

/// Calls `tungstenite::Message::to_text` and copies the text it finds.
#[verifier::external_body]
fn text_of(m: &tungstenite::Message) -> (r: Option<String>)
    ensures
        match r {
            Some(t) => message_text(*m) == Some(t@),
            None => message_text(*m) is None,
        },
{
    match m.to_text() {
        Ok(t) => Some(t.to_owned()),
        Err(_) => None,
    }
}

/// What a WebSocket message decodes to: what its text decodes to, and
/// a malformed frame where it has no text.
pub open spec fn read_frame_spec(text: Option<Seq<char>>) -> Result<Frame, Error> {
    match text {
        Some(t) => decode_spec(t),
        None => Err(Error::MalformedFrame),
    }
}

/// Decodes the frame that a WebSocket message carries.
pub fn read_frame(m: &tungstenite::Message) -> (r: Result<OCPPMessage, Error>)
    ensures
        outcome(r) == read_frame_spec(message_text(*m)),
{
    match text_of(m) {
        Some(t) => parse_message(t.as_str()),
        None => Err(Error::MalformedFrame),
    }
}

/// Makes the WebSocket text message that carries the frame of a message.
pub fn write_frame(m: &OCPPMessage) -> (r: tungstenite::Message)
    ensures
        message_text(r) == Some(encode_spec(m@)),
{
    text_message(encode(m))
}

impl From<OCPPMessage> for tungstenite::Message {
    /// The WebSocket text message that carries the frame of a message.
    fn from(m: OCPPMessage) -> (r: tungstenite::Message)
        ensures
            message_text(r) == Some(encode_spec(m@)),
    {
        write_frame(&m)
    }
}

impl vstd::std_specs::convert::FromSpecImpl<OCPPMessage> for tungstenite::Message {
    open spec fn obeys_from_spec() -> bool {
        false
    }

    open spec fn from_spec(m: OCPPMessage) -> tungstenite::Message {
        arbitrary()
    }
}

} // verus!
