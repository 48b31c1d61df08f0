//! The codec: from the text of a frame to a message and back.

use vstd::prelude::*;
use vstd::string::{StrSliceExecFns, StringExecFns};
use crate::grammar::{
    call_frame, decode_spec, encode_spec, error_frame, is_object, is_text_body,
    lemma_decoded_well_formed, read_call_id, read_close, read_comma, read_object, read_quoted,
    result_frame, well_formed, Span,
};
use crate::layout::{lemma_decode_frame_text, lemma_encoded_is_frame_text, plain_gaps, IdForm};
use crate::message::{Error, Frame, OCPPMessage};
use crate::scan::{chars_of, lemma_skip_spaces, skip_spaces, skip_spaces_at, span_end_at};
use crate::taxonomy::{MessageTypeId, OCPPAction, OCPPError};

verus! {

/// The outcome of decoding, with the message taken by its value.
pub open spec fn outcome(r: Result<OCPPMessage, Error>) -> Result<Frame, Error> {
    match r {
        Ok(m) => Ok(m@),
        Err(e) => Err(e),
    }
}

/// Copies the content of an element out of the text it was found in.
fn cut(m: &str, p: Span) -> (r: String)
    requires
        p@.fits(m@),
    ensures
        r@ == p@.text(m@),
{
    m.substring_char(p.from, p.to).to_owned()
}

/// Decodes what follows the kind of a call.
fn parse_call(m: &str, s: &Vec<char>, i: usize) -> (r: Result<OCPPMessage, Error>)
    requires
        s@ == m@,
        i <= s.len(),
    ensures
        outcome(r) == call_frame(s@, i as int),
{
    let a = match read_comma(s, i) {
        Some(a) => a,
        None => return Err(Error::MalformedFrame),
    };
    let id = match read_call_id(s, a) {
        Some(p) => p,
        None => return Err(Error::MalformedFrame),
    };
    let b = match read_comma(s, id.next) {
        Some(b) => b,
        None => return Err(Error::MalformedFrame),
    };
    let action = match read_quoted(s, b) {
        Some(p) => p,
        None => return Err(Error::MalformedFrame),
    };
    let c = match read_comma(s, action.next) {
        Some(c) => c,
        None => return Err(Error::MalformedFrame),
    };
    let payload = match read_object(s, c) {
        Some(p) => p,
        None => return Err(Error::MalformedFrame),
    };
    if !read_close(s, payload.next) {
        return Err(Error::MalformedFrame);
    }
    let name = cut(m, action);
    match OCPPAction::from_str(name.as_str()) {
        Ok(verb) => Ok(
            OCPPMessage::Call { id: cut(m, id), message_type: verb, payload: cut(m, payload) },
        ),
        Err(_) => Err(Error::UnknownAction),
    }
}

/// Decodes what follows the kind of a call result.
fn parse_result(m: &str, s: &Vec<char>, i: usize) -> (r: Result<OCPPMessage, Error>)
    requires
        s@ == m@,
        i <= s.len(),
    ensures
        outcome(r) == result_frame(s@, i as int),
{
    let a = match read_comma(s, i) {
        Some(a) => a,
        None => return Err(Error::MalformedFrame),
    };
    let id = match read_call_id(s, a) {
        Some(p) => p,
        None => return Err(Error::MalformedFrame),
    };
    let b = match read_comma(s, id.next) {
        Some(b) => b,
        None => return Err(Error::MalformedFrame),
    };
    let payload = match read_object(s, b) {
        Some(p) => p,
        None => return Err(Error::MalformedFrame),
    };
    if !read_close(s, payload.next) {
        return Err(Error::MalformedFrame);
    }
    Ok(OCPPMessage::CallResult { id: cut(m, id), payload: cut(m, payload) })
}

/// Decodes what follows the kind of a call error.
fn parse_error(m: &str, s: &Vec<char>, i: usize) -> (r: Result<OCPPMessage, Error>)
    requires
        s@ == m@,
        i <= s.len(),
    ensures
        outcome(r) == error_frame(s@, i as int),
{
    let a = match read_comma(s, i) {
        Some(a) => a,
        None => return Err(Error::MalformedFrame),
    };
    let id = match read_call_id(s, a) {
        Some(p) => p,
        None => return Err(Error::MalformedFrame),
    };
    let b = match read_comma(s, id.next) {
        Some(b) => b,
        None => return Err(Error::MalformedFrame),
    };
    let code = match read_quoted(s, b) {
        Some(p) => p,
        None => return Err(Error::MalformedFrame),
    };
    let c = match read_comma(s, code.next) {
        Some(c) => c,
        None => return Err(Error::MalformedFrame),
    };
    let description = match read_quoted(s, c) {
        Some(p) => p,
        None => return Err(Error::MalformedFrame),
    };
    let d = match read_comma(s, description.next) {
        Some(d) => d,
        None => return Err(Error::MalformedFrame),
    };
    let details = match read_object(s, d) {
        Some(p) => p,
        None => return Err(Error::MalformedFrame),
    };
    if !read_close(s, details.next) {
        return Err(Error::MalformedFrame);
    }
    let name = cut(m, code);
    match OCPPError::from_str(name.as_str()) {
        Ok(error) => Ok(
            OCPPMessage::CallError {
                id: cut(m, id),
                error,
                description: cut(m, description),
                details: cut(m, details),
            },
        ),
        Err(_) => Err(Error::UnknownErrorCode),
    }
}

/// Decodes the text of one frame. Either the whole text is a frame and its
/// message is returned, or an error says why it is none.
pub fn parse_message(m: &str) -> (r: Result<OCPPMessage, Error>)
    ensures
        outcome(r) == decode_spec(m@),
{
    let s = chars_of(m);
    if s.len() == 0 || s[0] != '[' {
        return Err(Error::MalformedFrame);
    }
    let k = skip_spaces_at(&s, 1);
    if k >= s.len() {
        return Err(Error::MalformedFrame);
    }
    let kind: char = s[k];
    if kind == '2' {
        parse_call(m, &s, k + 1)
    } else if kind == '3' {
        parse_result(m, &s, k + 1)
    } else if kind == '4' {
        parse_error(m, &s, k + 1)
    } else {
        Err(Error::MalformedFrame)
    }
}

/// Writes a message as the text of its frame.
pub fn encode(m: &OCPPMessage) -> (r: String)
    ensures
        r@ == encode_spec(m@),
{
    match m {
        OCPPMessage::Call { id, message_type, payload } => {
            let mut r = String::from_str("[2, \"");
            r.append(id.as_str());
            r.append("\", \"");
            r.append(message_type.name());
            r.append("\", ");
            r.append(payload.as_str());
            r.append("]");
            r
        },
        OCPPMessage::CallResult { id, payload } => {
            let mut r = String::from_str("[3, \"");
            r.append(id.as_str());
            r.append("\", ");
            r.append(payload.as_str());
            r.append("]");
            r
        },
        OCPPMessage::CallError { id, error, description, details } => {
            let mut r = String::from_str("[4, \"");
            r.append(id.as_str());
            r.append("\", \"");
            r.append(error.name());
            r.append("\", \"");
            r.append(description.as_str());
            r.append("\", ");
            r.append(details.as_str());
            r.append("]");
            r
        },
    }
}

/// Whether a text can stand between quotes, as an id or a description.
pub fn check_text_body(b: &str) -> (r: bool)
    ensures
        r == is_text_body(b@),
{
    let mut s: Vec<char> = Vec::new();
    s.push('"');
    let mut body = chars_of(b);
    s.append(&mut body);
    s.push('"');
    assert(s@ =~= seq!['"'] + b@ + seq!['"']);
    match span_end_at(&s, 0) {
        Some(j) => j == s.len(),
        None => false,
    }
}

/// Whether a text is one object, as a payload or the details of an error.
pub fn check_object(p: &str) -> (r: bool)
    ensures
        r == is_object(p@),
{
    let s = chars_of(p);
    if s.len() == 0 || s[0] != '{' {
        return false;
    }
    match span_end_at(&s, 0) {
        Some(j) => j == s.len(),
        None => false,
    }
}

/// Whether a frame can carry the message, so that the peer reads from the
/// frame what the message holds.
pub fn check_message(m: &OCPPMessage) -> (r: bool)
    ensures
        r == well_formed(m@),
{
    match m {
        OCPPMessage::Call { id, payload, .. } => check_text_body(id.as_str()) && check_object(
            payload.as_str(),
        ),
        OCPPMessage::CallResult { id, payload } => check_text_body(id.as_str()) && check_object(
            payload.as_str(),
        ),
        OCPPMessage::CallError { id, description, details, .. } => check_text_body(id.as_str())
            && check_text_body(description.as_str()) && check_object(details.as_str()),
    }
}

/// The digit that opens a frame of a kind.
pub open spec fn kind_digit(k: MessageTypeId) -> char {
    match k {
        MessageTypeId::Call => '2',
        MessageTypeId::CallResult => '3',
        MessageTypeId::CallError => '4',
    }
}

/// The first element decides the kind: a text decodes only to a message of
/// the kind whose digit is its first element.
pub proof fn lemma_kind_decides(s: Seq<char>)
    ensures
        decode_spec(s) matches Ok(m) ==> 0 < skip_spaces(s, 1) < s.len() && s[0] == '[' && s[skip_spaces(
            s,
            1,
        )] == kind_digit(m.kind()),
{
    if s.len() > 0 {
        lemma_skip_spaces(s, 1);
    }
}

/// A text whose first element is not the digit of a kind is malformed.
pub proof fn lemma_unknown_kind_is_malformed(s: Seq<char>)
    requires
        skip_spaces(s, 1) >= s.len() || !(s[skip_spaces(s, 1)] == '2' || s[skip_spaces(s, 1)]
            == '3' || s[skip_spaces(s, 1)] == '4'),
    ensures
        decode_spec(s) == Err::<Frame, Error>(Error::MalformedFrame),
{
}

/// Encoding is undone by decoding: the frame written for a message that a
/// frame can carry decodes to that message.
pub proof fn lemma_decode_encode(m: Frame)
    requires
        well_formed(m),
    ensures
        decode_spec(encode_spec(m)) == Ok::<Frame, Error>(m),
{
    lemma_encoded_is_frame_text(m);
    lemma_decode_frame_text(m, IdForm::Quoted, plain_gaps(m));
}

/// The round trip: a message that came out of decoding comes out again when
/// its encoding is decoded.
pub proof fn lemma_round_trip(s: Seq<char>)
    ensures
        decode_spec(s) matches Ok(m) ==> decode_spec(encode_spec(m)) == Ok::<Frame, Error>(m),
{
    lemma_decoded_well_formed(s);
    if let Ok(m) = decode_spec(s) {
        lemma_decode_encode(m);
    }
}

} // verus!
