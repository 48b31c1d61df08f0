//! The three kinds of message, the errors of the library, and the
//! mathematical value that a message stands for.

use vstd::prelude::*;
use crate::taxonomy::{MessageTypeId, OCPPAction, OCPPError};

verus! {

/// What can go wrong while decoding a frame, correlating a response or using
/// a session.
#[derive(Clone, Copy, Debug, PartialEq, Eq, Structural)]
pub enum Error {
    /// The text is no frame: bad syntax, an unknown kind, or a wrong number
    /// of elements.
    MalformedFrame,
    /// A call names a verb outside the catalog.
    UnknownAction,
    /// A call error names a code outside the catalog.
    UnknownErrorCode,
    /// A call was to be recorded under an id that is still pending.
    DuplicateCallId,
    /// A response arrived under an id that no pending call has.
    OrphanResponse,
    /// The transport failed, or the session is not open.
    SessionError,
}

/// A message of the protocol. Payloads and details are JSON objects kept as
/// the text they arrived in; ids and descriptions are kept as written between
/// their quotes.
#[derive(Clone, Debug, PartialEq, Eq)]
pub enum OCPPMessage {
    Call { id: String, message_type: OCPPAction, payload: String },
    CallResult { id: String, payload: String },
    CallError { id: String, error: OCPPError, description: String, details: String },
}

/// The value of a message: its fields as sequences of characters.
pub enum Frame {
    Call { id: Seq<char>, action: OCPPAction, payload: Seq<char> },
    CallResult { id: Seq<char>, payload: Seq<char> },
    CallError { id: Seq<char>, error: OCPPError, description: Seq<char>, details: Seq<char> },
}

impl View for OCPPMessage {
    type V = Frame;

    open spec fn view(&self) -> Frame {
        match self {
            OCPPMessage::Call { id, message_type, payload } => Frame::Call {
                id: id@,
                action: *message_type,
                payload: payload@,
            },
            OCPPMessage::CallResult { id, payload } => Frame::CallResult {
                id: id@,
                payload: payload@,
            },
            OCPPMessage::CallError { id, error, description, details } => Frame::CallError {
                id: id@,
                error: *error,
                description: description@,
                details: details@,
            },
        }
    }
}

impl Frame {
    /// The kind of the message.
    pub open spec fn kind(self) -> MessageTypeId {
        match self {
            Frame::Call { .. } => MessageTypeId::Call,
            Frame::CallResult { .. } => MessageTypeId::CallResult,
            Frame::CallError { .. } => MessageTypeId::CallError,
        }
    }

    /// The id that correlates the message with its call.
    pub open spec fn id(self) -> Seq<char> {
        match self {
            Frame::Call { id, .. } => id,
            Frame::CallResult { id, .. } => id,
            Frame::CallError { id, .. } => id,
        }
    }
}

impl OCPPMessage {
    /// The kind of the message.
    pub fn type_id(&self) -> (r: MessageTypeId)
        ensures
            r == self@.kind(),
    {
        match self {
            OCPPMessage::Call { .. } => MessageTypeId::Call,
            OCPPMessage::CallResult { .. } => MessageTypeId::CallResult,
            OCPPMessage::CallError { .. } => MessageTypeId::CallError,
        }
    }

    /// The id that correlates the message with its call.
    pub fn id(&self) -> (r: &str)
        ensures
            r@ == self@.id(),
    {
        match self {
            OCPPMessage::Call { id, .. } => id.as_str(),
            OCPPMessage::CallResult { id, .. } => id.as_str(),
            OCPPMessage::CallError { id, .. } => id.as_str(),
        }
    }
}

} // verus!
