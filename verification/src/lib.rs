//! Framing, taxonomy and call correlation for the OCPP-J transport: the JSON
//! array frames that a charge point and a central system exchange over a
//! WebSocket.
//!
//! - [`taxonomy`]: the kinds of message, the verbs and the error codes, with
//!   their spellings on the wire.
//! - [`message`]: the messages and the errors of the library.
//! - [`scan`] and [`grammar`]: what a text decodes to, said as functions on
//!   its characters.
//! - [`codec`]: decoding and encoding, and the laws that tie them together.
//! - [`layout`]: the texts that are frames, and the proof that exactly those
//!   decode.
//! - [`pending`]: the table that matches a response with its call.
//! - [`callid`]: the ids that a session gives to its calls.
//! - [`session`]: one session as a state machine over texts.
//! - [`frame`]: the bridge to the WebSocket messages of `tungstenite`.

pub mod callid;
pub mod codec;
pub mod frame;
pub mod grammar;
pub mod layout;
pub mod message;
pub mod pending;
pub mod scan;
pub mod session;
pub mod taxonomy;
