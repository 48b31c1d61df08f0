//! One session over one live connection, as a state machine: what to send,
//! what a received frame means, and which calls await their response. The
//! connection itself is the caller's: the session is told when it opens and
//! when it fails, hands out the texts to transmit, and takes the texts that
//! arrived.

use vstd::prelude::*;
use vstd::string::StringExecFns;
use crate::callid::{decimal, decimal_text, lemma_decimal_injective, lemma_decimal_is_text_body};
use crate::codec::{encode, lemma_decode_encode, outcome, parse_message};
use crate::frame::{message_text, read_frame, read_frame_spec};
use crate::grammar::{decode_spec, encode_spec, is_object, well_formed};
use crate::message::{Error, Frame, OCPPMessage};
use crate::pending::{resolved, PendingCalls, Table};
use crate::taxonomy::{OCPPAction, OCPPError};

verus! {

/// The life of a session: it waits for its connection, is open, and is
/// closed for good.
#[derive(Clone, Copy, Debug, PartialEq, Eq, Structural)]
pub enum SessionState {
    Connecting,
    Open,
    Closed,
}

/// What a received frame means to this side.
#[derive(Debug, PartialEq, Eq)]
pub enum InboundEvent {
    /// A call of the peer, to be handled and answered.
    Call(OCPPMessage),
    /// The peer's answer to a call of this side, with the verb of that call.
    Response { action: OCPPAction, message: OCPPMessage },
}

/// The value of an inbound event.
pub enum Inbound {
    Call(Frame),
    Response { action: OCPPAction, message: Frame },
}

impl View for InboundEvent {
    type V = Inbound;

    open spec fn view(&self) -> Inbound {
        match self {
            InboundEvent::Call(m) => Inbound::Call(m@),
            InboundEvent::Response { action, message } => Inbound::Response {
                action: *action,
                message: message@,
            },
        }
    }
}

/// The outcome of receiving, with the event taken by its value.
pub open spec fn inbound_outcome(r: Result<InboundEvent, Error>) -> Result<Inbound, Error> {
    match r {
        Ok(e) => Ok(e@),
        Err(e) => Err(e),
    }
}

/// What a decoded message means against a table of pending calls, and the
/// table afterwards. A call is handed on as it is. A response is matched
/// with the call that is pending under its id, which then leaves the table;
/// one that matches no call is an orphan and leaves the table as it is.
pub open spec fn classified(t: Table, m: Frame) -> (Result<Inbound, Error>, Table) {
    match m {
        Frame::Call { .. } => (Ok(Inbound::Call(m)), t),
        _ => match resolved(t, m.id()) {
            Ok((action, rest)) => (Ok(Inbound::Response { action, message: m }), rest),
            Err(e) => (Err(e), t),
        },
    }
}

/// What the outcome of decoding means against a table of pending calls: a
/// frame that did not decode is reported by its error and changes nothing.
pub open spec fn delivered(t: Table, decoded: Result<Frame, Error>) -> (
    Result<Inbound, Error>,
    Table,
) {
    match decoded {
        Ok(m) => classified(t, m),
        Err(e) => (Err(e), t),
    }
}

/// Where the numbering of calls ends: a session that has come this far gives
/// no further id.
pub const MAX_CALLS: u64 = 0xffff_ffff_ffff_ffff;

/// A session: its state, its pending calls, and the number of its next call.
pub struct Session {
    state: SessionState,
    pending: PendingCalls,
    issued: u64,
}

impl Session {
    /// The state of the session.
    pub closed spec fn phase(&self) -> SessionState {
        self.state
    }

    /// The calls of this side that await their response.
    pub closed spec fn pending(&self) -> Table {
        self.pending@
    }

    /// The number that the next call gets as its id: where the session began
    /// to count, and one more for each call since.
    pub closed spec fn issued(&self) -> nat {
        self.issued as nat
    }

    /// The invariant of a session: every pending call has an id that the
    /// session gave, so that the next id is new.
    pub closed spec fn well_formed(&self) -> bool {
        &&& self.pending.well_formed()
        &&& forall|id: Seq<char>| #[trigger]
            self.pending@.contains_key(id) ==> exists|k: nat|
                k < self.issued && id == #[trigger] decimal(k)
    }

    /// A session that waits for its connection.
    pub fn new() -> (r: Session)
        ensures
            r.well_formed(),
            r.phase() == SessionState::Connecting,
            r.pending() == Table::empty(),
            r.issued() == 0,
    {
        Session::with_first_id(0)
    }

    /// A session that waits for its connection and will number its calls
    /// from `first` on, so that a session which follows another one on the
    /// same link need not repeat its ids.
    pub fn with_first_id(first: u64) -> (r: Session)
        ensures
            r.well_formed(),
            r.phase() == SessionState::Connecting,
            r.pending() == Table::empty(),
            r.issued() == first,
    {
        Session { state: SessionState::Connecting, pending: PendingCalls::new(), issued: first }
    }

    /// How many calls of this side await their response.
    pub fn pending_count(&self) -> (r: usize)
        requires
            self.well_formed(),
        ensures
            r == self.pending().len(),
    {
        self.pending.len()
    }

    /// The state of the session.
    pub fn state(&self) -> (r: SessionState)
        ensures
            r == self.phase(),
    {
        self.state
    }

    /// Whether frames can be sent and received.
    pub fn is_open(&self) -> (r: bool)
        ensures
            r == (self.phase() == SessionState::Open),
    {
        match self.state {
            SessionState::Open => true,
            _ => false,
        }
    }

    /// Whether a call of this side is pending under `id`.
    pub fn is_pending(&self, id: &str) -> (r: bool)
        ensures
            r == self.pending().contains_key(id@),
    {
        self.pending.is_pending(id)
    }

    /// The connection is established: a session that waited for it is open.
    /// In any other state this is an error and changes nothing.
    pub fn transport_opened(&mut self) -> (r: Result<(), Error>)
        requires
            old(self).well_formed(),
        ensures
            final(self).well_formed(),
            final(self).pending() == old(self).pending(),
            final(self).issued() == old(self).issued(),
            old(self).phase() == SessionState::Connecting ==> r is Ok && final(self).phase()
                == SessionState::Open,
            old(self).phase() != SessionState::Connecting ==> r == Err::<(), Error>(
                Error::SessionError,
            ) && final(self).phase() == old(self).phase(),
    {
        match self.state {
            SessionState::Connecting => {
                self.state = SessionState::Open;
                Ok(())
            },
            _ => Err(Error::SessionError),
        }
    }

    /// The connection failed or was closed: the session is closed for good,
    /// and its pending calls are given up.
    pub fn transport_failed(&mut self)
        ensures
            final(self).well_formed(),
            final(self).phase() == SessionState::Closed,
            final(self).pending() == Table::empty(),
            final(self).issued() == old(self).issued(),
    {
        self.state = SessionState::Closed;
        self.pending.clear();
    }

    /// Starts a call: gives it the next id, records it as pending and returns
    /// the id with the text of the frame to transmit, which the peer reads
    /// as that call where the payload is an object. Fails, and changes
    /// nothing, with a session error where the session is not open, and with
    /// a duplicate id where the session has no id left to give.
    pub fn send_call(&mut self, action: OCPPAction, payload: &str) -> (r: Result<
        (String, String),
        Error,
    >)
        requires
            old(self).well_formed(),
        ensures
            final(self).well_formed(),
            final(self).phase() == old(self).phase(),
            old(self).phase() != SessionState::Open ==> r == Err::<(String, String), Error>(
                Error::SessionError,
            ),
            old(self).phase() == SessionState::Open && old(self).issued() == MAX_CALLS ==> r
                == Err::<(String, String), Error>(Error::DuplicateCallId),
            old(self).phase() == SessionState::Open && old(self).issued() < MAX_CALLS ==> r is Ok,
            match r {
                Ok((id, text)) => {
                    &&& id@ == decimal(old(self).issued())
                    &&& !old(self).pending().contains_key(id@)
                    &&& text@ == encode_spec(Frame::Call { id: id@, action, payload: payload@ })
                    &&& is_object(payload@) ==> decode_spec(text@) == Ok::<Frame, Error>(
                        Frame::Call { id: id@, action, payload: payload@ },
                    )
                    &&& final(self).pending() == old(self).pending().insert(id@, action)
                    &&& final(self).issued() == old(self).issued() + 1
                },
                Err(_) => {
                    &&& final(self).pending() == old(self).pending()
                    &&& final(self).issued() == old(self).issued()
                },
            },
    {
        if !self.is_open() {
            return Err(Error::SessionError);
        }
        if self.issued == MAX_CALLS {
            return Err(Error::DuplicateCallId);
        }
        let id = decimal_text(self.issued);
        proof {
            if self.pending@.contains_key(id@) {
                let k = choose|k: nat| k < self.issued && id@ == #[trigger] decimal(k);
                lemma_decimal_injective(k, self.issued as nat);
            }
        }
        let recorded = self.pending.record(id.as_str(), action);
        assert(recorded is Ok);
        self.issued = self.issued + 1;
        let m = OCPPMessage::Call {
            id: id.clone(),
            message_type: action,
            payload: String::from_str(payload),
        };
        let text = encode(&m);
        proof {
            lemma_decimal_is_text_body(old(self).issued());
            if is_object(payload@) {
                lemma_decode_encode(m@);
            }
        }
        assert forall|other: Seq<char>| #[trigger]
            self.pending@.contains_key(other) implies exists|k: nat|
            k < self.issued && other == #[trigger] decimal(k) by {
            if other == id@ {
                assert(decimal((self.issued - 1) as nat) == other);
            } else {
                let k = choose|k: nat| k < old(self).issued && other == #[trigger] decimal(k);
                assert(k < self.issued && other == decimal(k));
            }
        }
        Ok((id, text))
    }

    /// Answers a call of the peer with a result: the text of the frame to
    /// transmit, which the peer reads as that result where a frame can carry
    /// it. Fails with a session error where the session is not open.
    pub fn send_result(&self, id: &str, payload: &str) -> (r: Result<String, Error>)
        ensures
            match r {
                Ok(text) => {
                    let m = Frame::CallResult { id: id@, payload: payload@ };
                    &&& self.phase() == SessionState::Open
                    &&& text@ == encode_spec(m)
                    &&& well_formed(m) ==> decode_spec(text@) == Ok::<Frame, Error>(m)
                },
                Err(e) => self.phase() != SessionState::Open && e == Error::SessionError,
            },
    {
        if !self.is_open() {
            return Err(Error::SessionError);
        }
        let m = OCPPMessage::CallResult {
            id: String::from_str(id),
            payload: String::from_str(payload),
        };
        proof {
            if well_formed(m@) {
                lemma_decode_encode(m@);
            }
        }
        Ok(encode(&m))
    }

    /// Answers a call of the peer with an error: the text of the frame to
    /// transmit, which the peer reads as that error where a frame can carry
    /// it. Fails with a session error where the session is not open.
    pub fn send_error(&self, id: &str, error: OCPPError, description: &str, details: &str) -> (r:
        Result<String, Error>)
        ensures
            match r {
                Ok(text) => {
                    let m = Frame::CallError {
                        id: id@,
                        error,
                        description: description@,
                        details: details@,
                    };
                    &&& self.phase() == SessionState::Open
                    &&& text@ == encode_spec(m)
                    &&& well_formed(m) ==> decode_spec(text@) == Ok::<Frame, Error>(m)
                },
                Err(e) => self.phase() != SessionState::Open && e == Error::SessionError,
            },
    {
        if !self.is_open() {
            return Err(Error::SessionError);
        }
        let m = OCPPMessage::CallError {
            id: String::from_str(id),
            error,
            description: String::from_str(description),
            details: String::from_str(details),
        };
        proof {
            if well_formed(m@) {
                lemma_decode_encode(m@);
            }
        }
        Ok(encode(&m))
    }

    /// Takes the outcome of decoding a received frame. On a session that is
    /// not open this is a session error. On an open one the session stays
    /// open whatever arrived: a frame that did not decode is reported by its
    /// error, a call is handed on, and a response is matched with its call.
    pub fn deliver(&mut self, decoded: Result<OCPPMessage, Error>) -> (r: Result<
        InboundEvent,
        Error,
    >)
        requires
            old(self).well_formed(),
        ensures
            final(self).well_formed(),
            final(self).phase() == old(self).phase(),
            final(self).issued() == old(self).issued(),
            old(self).phase() != SessionState::Open ==> r == Err::<InboundEvent, Error>(
                Error::SessionError,
            ) && final(self).pending() == old(self).pending(),
            old(self).phase() == SessionState::Open ==> (inbound_outcome(r), final(self).pending())
                == delivered(old(self).pending(), outcome(decoded)),
    {
        if !self.is_open() {
            return Err(Error::SessionError);
        }
        let m = match decoded {
            Ok(m) => m,
            Err(e) => return Err(e),
        };
        match m {
            OCPPMessage::Call { .. } => Ok(InboundEvent::Call(m)),
            _ => match self.pending.resolve(m.id()) {
                Ok(action) => Ok(InboundEvent::Response { action, message: m }),
                Err(e) => Err(e),
            },
        }
    }

    /// Takes the text of a received frame: decodes it and delivers it.
    pub fn receive(&mut self, text: &str) -> (r: Result<InboundEvent, Error>)
        requires
            old(self).well_formed(),
        ensures
            final(self).well_formed(),
            final(self).phase() == old(self).phase(),
            final(self).issued() == old(self).issued(),
            old(self).phase() != SessionState::Open ==> r == Err::<InboundEvent, Error>(
                Error::SessionError,
            ) && final(self).pending() == old(self).pending(),
            old(self).phase() == SessionState::Open ==> (inbound_outcome(r), final(self).pending())
                == delivered(old(self).pending(), decode_spec(text@)),
    {
        self.deliver(parse_message(text))
    }

    /// Takes a received WebSocket message: decodes the frame it carries and
    /// delivers it.
    pub fn receive_frame(&mut self, m: &tungstenite::Message) -> (r: Result<InboundEvent, Error>)
        requires
            old(self).well_formed(),
        ensures
            final(self).well_formed(),
            final(self).phase() == old(self).phase(),
            final(self).issued() == old(self).issued(),
            old(self).phase() != SessionState::Open ==> r == Err::<InboundEvent, Error>(
                Error::SessionError,
            ) && final(self).pending() == old(self).pending(),
            old(self).phase() == SessionState::Open ==> (inbound_outcome(r), final(self).pending())
                == delivered(old(self).pending(), read_frame_spec(message_text(*m))),
    {
        self.deliver(read_frame(m))
    }

    /// Gives a call of this side up, as on a timeout: it is no longer
    /// pending, and a late response to it will be an orphan. Says whether
    /// the call was pending.
    pub fn abandon(&mut self, id: &str) -> (r: bool)
        requires
            old(self).well_formed(),
        ensures
            final(self).well_formed(),
            final(self).phase() == old(self).phase(),
            final(self).issued() == old(self).issued(),
            r == old(self).pending().contains_key(id@),
            final(self).pending() == old(self).pending().remove(id@),
    {
        self.pending.abandon(id)
    }
}

} // verus!
