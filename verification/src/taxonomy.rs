//! The closed vocabularies of the protocol and their spellings on the wire.

use vstd::prelude::*;
use crate::scan::{is_plain, same_text};

verus! {

/// The three kinds of frame, each with the number that opens it on the wire.
#[derive(Clone, Copy, Debug, PartialEq, Eq, Structural)]
pub enum MessageTypeId {
    Call,
    CallResult,
    CallError,
}

impl MessageTypeId {
    /// The number that opens a frame of this kind.
    pub open spec fn wire_number(self) -> nat {
        match self {
            MessageTypeId::Call => 2,
            MessageTypeId::CallResult => 3,
            MessageTypeId::CallError => 4,
        }
    }

    /// The kind that a number opens a frame of, if it opens one.
    pub open spec fn lookup(n: nat) -> Option<MessageTypeId> {
        if n == 2 {
            Some(MessageTypeId::Call)
        } else if n == 3 {
            Some(MessageTypeId::CallResult)
        } else if n == 4 {
            Some(MessageTypeId::CallError)
        } else {
            None
        }
    }

    /// The number that opens a frame of this kind.
    pub fn number(&self) -> (r: u8)
        ensures
            r == self.wire_number(),
    {
        match self {
            MessageTypeId::Call => 2,
            MessageTypeId::CallResult => 3,
            MessageTypeId::CallError => 4,
        }
    }

    /// The kind of frame that a number opens.
    pub fn from_number(n: u8) -> (r: Option<MessageTypeId>)
        ensures
            r == Self::lookup(n as nat),
    {
        if n == 2 {
            Some(MessageTypeId::Call)
        } else if n == 3 {
            Some(MessageTypeId::CallResult)
        } else if n == 4 {
            Some(MessageTypeId::CallError)
        } else {
            None
        }
    }
}

/// A kind is found again under its own number.
pub proof fn lemma_kind_number_round_trip(k: MessageTypeId)
    ensures
        MessageTypeId::lookup(k.wire_number()) == Some(k),
{
}

/// The request verbs that this node understands.
#[derive(Clone, Copy, Debug, PartialEq, Eq, Structural)]
pub enum OCPPAction {
    BootNotification,
}

impl OCPPAction {
    /// The spelling of the verb on the wire.
    pub open spec fn wire_name(self) -> Seq<char> {
        match self {
            OCPPAction::BootNotification => "BootNotification"@,
        }
    }

    /// The verb that a wire spelling stands for, if it stands for one.
    pub open spec fn lookup(s: Seq<char>) -> Option<OCPPAction> {
        if s == "BootNotification"@ {
            Some(OCPPAction::BootNotification)
        } else {
            None
        }
    }

    /// Looks a wire spelling up; spellings are case sensitive.
    pub fn from_str(s: &str) -> (r: Result<Self, ()>)
        ensures
            r == match Self::lookup(s@) {
                Some(a) => Ok::<Self, ()>(a),
                None => Err(()),
            },
    {
        if same_text(s, "BootNotification") {
            Ok(OCPPAction::BootNotification)
        } else {
            Err(())
        }
    }

    /// The wire spelling of the verb.
    pub fn name(&self) -> (r: &'static str)
        ensures
            r@ == self.wire_name(),
    {
        match self {
            OCPPAction::BootNotification => "BootNotification",
        }
    }
}

/// The standard failure reasons that a `CallError` frame can carry.
#[derive(Clone, Copy, Debug, PartialEq, Eq, Structural)]
pub enum OCPPError {
    NotImplemented,
    NotSupported,
    InternalError,
    ProtocolError,
    SecurityError,
    FormationViolation,
    PropertyConstraintViolation,
    OccurenceConstraintViolation,
    TypeConstraintViolation,
    GenericError,
}

impl OCPPError {
    /// The spelling of the code on the wire.
    pub open spec fn wire_name(self) -> Seq<char> {
        match self {
            OCPPError::NotImplemented => "NotImplemented"@,
            OCPPError::NotSupported => "NotSupported"@,
            OCPPError::InternalError => "InternalError"@,
            OCPPError::ProtocolError => "ProtocolError"@,
            OCPPError::SecurityError => "SecurityError"@,
            OCPPError::FormationViolation => "FormationViolation"@,
            OCPPError::PropertyConstraintViolation => "PropertyConstraintViolation"@,
            OCPPError::OccurenceConstraintViolation => "OccurenceConstraintViolation"@,
            OCPPError::TypeConstraintViolation => "TypeConstraintViolation"@,
            OCPPError::GenericError => "GenericError"@,
        }
    }

    /// The code that a wire spelling stands for, if it stands for one.
    pub open spec fn lookup(s: Seq<char>) -> Option<OCPPError> {
        if s == "NotImplemented"@ {
            Some(OCPPError::NotImplemented)
        } else if s == "NotSupported"@ {
            Some(OCPPError::NotSupported)
        } else if s == "InternalError"@ {
            Some(OCPPError::InternalError)
        } else if s == "ProtocolError"@ {
            Some(OCPPError::ProtocolError)
        } else if s == "SecurityError"@ {
            Some(OCPPError::SecurityError)
        } else if s == "FormationViolation"@ {
            Some(OCPPError::FormationViolation)
        } else if s == "PropertyConstraintViolation"@ {
            Some(OCPPError::PropertyConstraintViolation)
        } else if s == "OccurenceConstraintViolation"@ {
            Some(OCPPError::OccurenceConstraintViolation)
        } else if s == "TypeConstraintViolation"@ {
            Some(OCPPError::TypeConstraintViolation)
        } else if s == "GenericError"@ {
            Some(OCPPError::GenericError)
        } else {
            None
        }
    }

    /// Looks a wire spelling up; spellings are case sensitive.
    pub fn from_str(s: &str) -> (r: Result<Self, ()>)
        ensures
            r == match Self::lookup(s@) {
                Some(e) => Ok::<Self, ()>(e),
                None => Err(()),
            },
    {
        if same_text(s, "NotImplemented") {
            Ok(OCPPError::NotImplemented)
        } else if same_text(s, "NotSupported") {
            Ok(OCPPError::NotSupported)
        } else if same_text(s, "InternalError") {
            Ok(OCPPError::InternalError)
        } else if same_text(s, "ProtocolError") {
            Ok(OCPPError::ProtocolError)
        } else if same_text(s, "SecurityError") {
            Ok(OCPPError::SecurityError)
        } else if same_text(s, "FormationViolation") {
            Ok(OCPPError::FormationViolation)
        } else if same_text(s, "PropertyConstraintViolation") {
            Ok(OCPPError::PropertyConstraintViolation)
        } else if same_text(s, "OccurenceConstraintViolation") {
            Ok(OCPPError::OccurenceConstraintViolation)
        } else if same_text(s, "TypeConstraintViolation") {
            Ok(OCPPError::TypeConstraintViolation)
        } else if same_text(s, "GenericError") {
            Ok(OCPPError::GenericError)
        } else {
            Err(())
        }
    }

    /// The wire spelling of the code.
    pub fn name(&self) -> (r: &'static str)
        ensures
            r@ == self.wire_name(),
    {
        match self {
            OCPPError::NotImplemented => "NotImplemented",
            OCPPError::NotSupported => "NotSupported",
            OCPPError::InternalError => "InternalError",
            OCPPError::ProtocolError => "ProtocolError",
            OCPPError::SecurityError => "SecurityError",
            OCPPError::FormationViolation => "FormationViolation",
            OCPPError::PropertyConstraintViolation => "PropertyConstraintViolation",
            OCPPError::OccurenceConstraintViolation => "OccurenceConstraintViolation",
            OCPPError::TypeConstraintViolation => "TypeConstraintViolation",
            OCPPError::GenericError => "GenericError",
        }
    }
}

/// Makes the characters of every wire spelling known to the verifier.
pub proof fn reveal_wire_names()
    ensures
        "BootNotification"@.len() == 16,
        "NotImplemented"@.len() == 14,
        "NotSupported"@.len() == 12,
        "InternalError"@.len() == 13,
        "ProtocolError"@.len() == 13,
        "SecurityError"@.len() == 13,
        "FormationViolation"@.len() == 18,
        "PropertyConstraintViolation"@.len() == 27,
        "OccurenceConstraintViolation"@.len() == 28,
        "TypeConstraintViolation"@.len() == 23,
        "GenericError"@.len() == 12,
        "BootNotification"@ =~= seq!['B', 'o', 'o', 't', 'N', 'o', 't', 'i', 'f', 'i', 'c', 'a', 't', 'i', 'o', 'n'],
        "NotImplemented"@ =~= seq!['N', 'o', 't', 'I', 'm', 'p', 'l', 'e', 'm', 'e', 'n', 't', 'e', 'd'],
        "NotSupported"@ =~= seq!['N', 'o', 't', 'S', 'u', 'p', 'p', 'o', 'r', 't', 'e', 'd'],
        "InternalError"@ =~= seq!['I', 'n', 't', 'e', 'r', 'n', 'a', 'l', 'E', 'r', 'r', 'o', 'r'],
        "ProtocolError"@ =~= seq!['P', 'r', 'o', 't', 'o', 'c', 'o', 'l', 'E', 'r', 'r', 'o', 'r'],
        "SecurityError"@ =~= seq!['S', 'e', 'c', 'u', 'r', 'i', 't', 'y', 'E', 'r', 'r', 'o', 'r'],
        "FormationViolation"@ =~= seq!['F', 'o', 'r', 'm', 'a', 't', 'i', 'o', 'n', 'V', 'i', 'o', 'l', 'a', 't', 'i', 'o', 'n'],
        "PropertyConstraintViolation"@ =~= seq!['P', 'r', 'o', 'p', 'e', 'r', 't', 'y', 'C', 'o', 'n', 's', 't', 'r', 'a', 'i', 'n', 't', 'V', 'i', 'o', 'l', 'a', 't', 'i', 'o', 'n'],
        "OccurenceConstraintViolation"@ =~= seq!['O', 'c', 'c', 'u', 'r', 'e', 'n', 'c', 'e', 'C', 'o', 'n', 's', 't', 'r', 'a', 'i', 'n', 't', 'V', 'i', 'o', 'l', 'a', 't', 'i', 'o', 'n'],
        "TypeConstraintViolation"@ =~= seq!['T', 'y', 'p', 'e', 'C', 'o', 'n', 's', 't', 'r', 'a', 'i', 'n', 't', 'V', 'i', 'o', 'l', 'a', 't', 'i', 'o', 'n'],
        "GenericError"@ =~= seq!['G', 'e', 'n', 'e', 'r', 'i', 'c', 'E', 'r', 'r', 'o', 'r'],
{
    reveal_strlit("BootNotification");
    reveal_strlit("NotImplemented");
    reveal_strlit("NotSupported");
    reveal_strlit("InternalError");
    reveal_strlit("ProtocolError");
    reveal_strlit("SecurityError");
    reveal_strlit("FormationViolation");
    reveal_strlit("PropertyConstraintViolation");
    reveal_strlit("OccurenceConstraintViolation");
    reveal_strlit("TypeConstraintViolation");
    reveal_strlit("GenericError");
}

/// A verb is found again under its own wire spelling.
pub proof fn lemma_action_name_round_trip(a: OCPPAction)
    ensures
        OCPPAction::lookup(a.wire_name()) == Some(a),
{
}

/// A code is found again under its own wire spelling: no two codes share one.
pub proof fn lemma_error_name_round_trip(e: OCPPError)
    ensures
        OCPPError::lookup(e.wire_name()) == Some(e),
{
    reveal_wire_names();
}

/// A spelling that stands for a verb is that verb's wire spelling.
pub proof fn lemma_action_lookup_sound(s: Seq<char>)
    ensures
        OCPPAction::lookup(s) matches Some(a) ==> a.wire_name() == s,
{
}

/// A spelling that stands for a code is that code's wire spelling.
pub proof fn lemma_error_lookup_sound(s: Seq<char>)
    ensures
        OCPPError::lookup(s) matches Some(e) ==> e.wire_name() == s,
{
}

/// The wire spelling of every verb is plain.
pub proof fn lemma_action_name_plain(a: OCPPAction)
    ensures
        is_plain(a.wire_name()),
{
    reveal_wire_names();
}

/// The wire spelling of every code is plain.
pub proof fn lemma_error_name_plain(e: OCPPError)
    ensures
        is_plain(e.wire_name()),
{
    reveal_wire_names();
}

} // verus!
