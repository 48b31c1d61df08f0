//! The grammar of the three frames, as functions on the text of a frame:
//!
//! ```text
//! Call       := [ 2, CallId, "ActionName", {payload} ]
//! CallResult := [ 3, CallId, {payload} ]
//! CallError  := [ 4, CallId, "ErrorCode", "description", {details} ]
//! ```
//!
//! Whitespace may stand on either side of a comma, after `[` and before `]`.

use vstd::prelude::*;
use crate::message::{Error, Frame};
use crate::scan::{
    is_digit, is_plain, lemma_skip_digits, lemma_span_end_bounds, lemma_span_end_on_quote,
    lemma_span_end_plain, lemma_span_end_window, lex_start, lex_step, skip_digits,
    skip_digits_at, skip_spaces, skip_spaces_at, span_end, span_end_at, Lex,
};
use crate::taxonomy::{OCPPAction, OCPPError};

verus! {

/// One element found in a text: its content stands at `from..to`, and the
/// scan goes on at `next`.
pub struct Piece {
    pub from: int,
    pub to: int,
    pub next: int,
}

/// An element found in a text, as positions that fit the machine.
#[derive(Clone, Copy, Debug)]
pub struct Span {
    pub from: usize,
    pub to: usize,
    pub next: usize,
}

impl View for Span {
    type V = Piece;

    open spec fn view(&self) -> Piece {
        Piece { from: self.from as int, to: self.to as int, next: self.next as int }
    }
}

impl Piece {
    /// The content of the element.
    pub open spec fn text(self, s: Seq<char>) -> Seq<char> {
        s.subrange(self.from, self.to)
    }

    /// The element lies inside the text, and the scan moves on.
    pub open spec fn fits(self, s: Seq<char>) -> bool {
        0 <= self.from <= self.to <= self.next <= s.len()
    }
}

/// A quoted string that begins at `i`: its content is what stands between
/// the quotes, escapes left as written.
pub open spec fn quoted_at(s: Seq<char>, i: int) -> Option<Piece> {
    if 0 <= i < s.len() && s[i] == '"' {
        match span_end(s, i, lex_start()) {
            Some(j) => Some(Piece { from: i + 1, to: j - 1, next: j }),
            None => None,
        }
    } else {
        None
    }
}

/// An object that begins at `i`: its content is the whole text from its
/// opening brace to the brace that balances it.
pub open spec fn object_at(s: Seq<char>, i: int) -> Option<Piece> {
    if 0 <= i < s.len() && s[i] == '{' {
        match span_end(s, i, lex_start()) {
            Some(j) => Some(Piece { from: i, to: j, next: j }),
            None => None,
        }
    } else {
        None
    }
}

/// A call id that begins at `i`: a quoted string, or digits without quotes.
pub open spec fn call_id_at(s: Seq<char>, i: int) -> Option<Piece> {
    if 0 <= i < s.len() && s[i] == '"' {
        quoted_at(s, i)
    } else if 0 <= i < skip_digits(s, i) {
        Some(Piece { from: i, to: skip_digits(s, i), next: skip_digits(s, i) })
    } else {
        None
    }
}

/// The position of the element that follows a comma, where a comma stands at
/// or after `i` with only whitespace before it.
pub open spec fn after_comma(s: Seq<char>, i: int) -> Option<int> {
    let j = skip_spaces(s, i);
    if 0 <= j < s.len() && s[j] == ',' {
        Some(skip_spaces(s, j + 1))
    } else {
        None
    }
}

/// From `i` on the text holds whitespace, the closing bracket, and no more.
pub open spec fn closes_at(s: Seq<char>, i: int) -> bool {
    let j = skip_spaces(s, i);
    0 <= j && j + 1 == s.len() && s[j] == ']'
}

/// The frame that the elements after the kind `2` make.
pub open spec fn call_frame(s: Seq<char>, i: int) -> Result<Frame, Error> {
    let a = after_comma(s, i);
    let id = call_id_at(s, a.unwrap());
    let b = after_comma(s, id.unwrap().next);
    let action = quoted_at(s, b.unwrap());
    let c = after_comma(s, action.unwrap().next);
    let payload = object_at(s, c.unwrap());
    if a is Some && id is Some && b is Some && action is Some && c is Some && payload is Some
        && closes_at(s, payload.unwrap().next) {
        match OCPPAction::lookup(action.unwrap().text(s)) {
            Some(verb) => Ok(
                Frame::Call {
                    id: id.unwrap().text(s),
                    action: verb,
                    payload: payload.unwrap().text(s),
                },
            ),
            None => Err(Error::UnknownAction),
        }
    } else {
        Err(Error::MalformedFrame)
    }
}

/// The frame that the elements after the kind `3` make.
pub open spec fn result_frame(s: Seq<char>, i: int) -> Result<Frame, Error> {
    let a = after_comma(s, i);
    let id = call_id_at(s, a.unwrap());
    let b = after_comma(s, id.unwrap().next);
    let payload = object_at(s, b.unwrap());
    if a is Some && id is Some && b is Some && payload is Some && closes_at(
        s,
        payload.unwrap().next,
    ) {
        Ok(Frame::CallResult { id: id.unwrap().text(s), payload: payload.unwrap().text(s) })
    } else {
        Err(Error::MalformedFrame)
    }
}

/// The frame that the elements after the kind `4` make.
pub open spec fn error_frame(s: Seq<char>, i: int) -> Result<Frame, Error> {
    let a = after_comma(s, i);
    let id = call_id_at(s, a.unwrap());
    let b = after_comma(s, id.unwrap().next);
    let code = quoted_at(s, b.unwrap());
    let c = after_comma(s, code.unwrap().next);
    let description = quoted_at(s, c.unwrap());
    let d = after_comma(s, description.unwrap().next);
    let details = object_at(s, d.unwrap());
    if a is Some && id is Some && b is Some && code is Some && c is Some && description is Some
        && d is Some && details is Some && closes_at(s, details.unwrap().next) {
        match OCPPError::lookup(code.unwrap().text(s)) {
            Some(error) => Ok(
                Frame::CallError {
                    id: id.unwrap().text(s),
                    error,
                    description: description.unwrap().text(s),
                    details: details.unwrap().text(s),
                },
            ),
            None => Err(Error::UnknownErrorCode),
        }
    } else {
        Err(Error::MalformedFrame)
    }
}

/// What a text decodes to. The text opens with `[`; the first element is one
/// of the digits 2, 3 and 4 and decides which frame the rest must be. A text
/// that is no frame is malformed, whatever names it holds; a frame with a
/// name outside its catalog is reported by that name's error.
pub open spec fn decode_spec(s: Seq<char>) -> Result<Frame, Error> {
    let k = skip_spaces(s, 1);
    if s.len() > 0 && s[0] == '[' && k < s.len() {
        if s[k] == '2' {
            call_frame(s, k + 1)
        } else if s[k] == '3' {
            result_frame(s, k + 1)
        } else if s[k] == '4' {
            error_frame(s, k + 1)
        } else {
            Err(Error::MalformedFrame)
        }
    } else {
        Err(Error::MalformedFrame)
    }
}

/// The text of a frame: the kind, then the elements, each after a comma and
/// one space; ids, names and descriptions between quotes, objects as they are.
pub open spec fn encode_spec(m: Frame) -> Seq<char> {
    match m {
        Frame::Call { id, action, payload } => "[2, \""@ + id + "\", \""@ + action.wire_name()
            + "\", "@ + payload + "]"@,
        Frame::CallResult { id, payload } => "[3, \""@ + id + "\", "@ + payload + "]"@,
        Frame::CallError { id, error, description, details } => "[4, \""@ + id + "\", \""@
            + error.wire_name() + "\", \""@ + description + "\", "@ + details + "]"@,
    }
}

/// A text that can stand between quotes: read after an opening quote, it
/// reaches no closing quote, and a quote put behind it closes the string.
pub open spec fn is_text_body(b: Seq<char>) -> bool {
    span_end(seq!['"'] + b + seq!['"'], 0, lex_start()) == Some(b.len() as int + 2)
}

/// A text that is one object: it opens with a brace, and the brace that
/// balances it is its last character.
pub open spec fn is_object(p: Seq<char>) -> bool {
    p.len() > 0 && p[0] == '{' && span_end(p, 0, lex_start()) == Some(p.len() as int)
}

/// The messages that a frame can carry: those whose fields come back
/// unchanged when the frame is read again.
pub open spec fn well_formed(m: Frame) -> bool {
    match m {
        Frame::Call { id, action, payload } => is_text_body(id) && is_object(payload),
        Frame::CallResult { id, payload } => is_text_body(id) && is_object(payload),
        Frame::CallError { id, error, description, details } => is_text_body(id) && is_text_body(
            description,
        ) && is_object(details),
    }
}

/// A text without quotes and backslashes can stand between quotes.
pub proof fn lemma_plain_is_text_body(b: Seq<char>)
    requires
        is_plain(b),
    ensures
        is_text_body(b),
{
    let v = seq!['"'] + b + seq!['"'];
    assert forall|k: int| 1 <= k < b.len() + 1 implies #[trigger] v[k] != '"' && v[k] != '\\' by {
        assert(v[k] == b[k - 1]);
    }
    lemma_span_end_plain(v, 1, b.len() as int + 1);
    assert(lex_step(lex_start(), v[0]) == Lex { depth: 0, quoted: true, escaped: false });
}

/// The content of a quoted string that was found can stand between quotes.
pub proof fn lemma_quoted_is_text_body(s: Seq<char>, i: int)
    requires
        quoted_at(s, i) is Some,
    ensures
        quoted_at(s, i).unwrap().fits(s),
        is_text_body(quoted_at(s, i).unwrap().text(s)),
{
    let inside = Lex { depth: 0, quoted: true, escaped: false };
    let j = span_end(s, i, lex_start()).unwrap();
    assert(lex_step(lex_start(), s[i]) == inside);
    lemma_span_end_bounds(s, i + 1, inside);
    lemma_span_end_on_quote(s, i + 1, inside);
    let b = s.subrange(i + 1, j - 1);
    let v = seq!['"'] + b + seq!['"'];
    assert forall|t: int| i <= t < i + (j - i) implies #[trigger] s[t] == v[t - i + 0] by {
        if i < t < j - 1 {
            assert(v[t - i] == b[t - i - 1]);
        }
    }
    lemma_span_end_window(s, i, v, 0, j - i, i, lex_start());
}

/// The content of an object that was found is one object.
pub proof fn lemma_object_is_object(s: Seq<char>, i: int)
    requires
        object_at(s, i) is Some,
    ensures
        object_at(s, i).unwrap().fits(s),
        is_object(object_at(s, i).unwrap().text(s)),
{
    let j = span_end(s, i, lex_start()).unwrap();
    lemma_span_end_bounds(s, i, lex_start());
    let p = s.subrange(i, j);
    assert forall|t: int| i <= t < i + (j - i) implies #[trigger] s[t] == p[t - i + 0] by {}
    lemma_span_end_window(s, i, p, 0, j - i, i, lex_start());
}

/// The content of a call id that was found can stand between quotes.
pub proof fn lemma_call_id_is_text_body(s: Seq<char>, i: int)
    requires
        call_id_at(s, i) is Some,
    ensures
        call_id_at(s, i).unwrap().fits(s),
        is_text_body(call_id_at(s, i).unwrap().text(s)),
{
    if 0 <= i < s.len() && s[i] == '"' {
        lemma_quoted_is_text_body(s, i);
    } else {
        lemma_skip_digits(s, i);
        let b = s.subrange(i, skip_digits(s, i));
        assert forall|k: int| 0 <= k < b.len() implies #[trigger] b[k] != '"' && b[k] != '\\' by {
            assert(is_digit(s[i + k]));
        }
        lemma_plain_is_text_body(b);
    }
}

/// Whatever decodes to a message, the message is one that a frame can carry.
pub proof fn lemma_decoded_well_formed(s: Seq<char>)
    ensures
        decode_spec(s) matches Ok(m) ==> well_formed(m),
{
    if decode_spec(s) is Ok {
        let i = skip_spaces(s, 1) + 1;
        let a = after_comma(s, i);
        let id = call_id_at(s, a.unwrap());
        let b = after_comma(s, id.unwrap().next);
        lemma_call_id_is_text_body(s, a.unwrap());
        if s[i - 1] == '2' {
            let action = quoted_at(s, b.unwrap());
            let c = after_comma(s, action.unwrap().next);
            lemma_object_is_object(s, c.unwrap());
        } else if s[i - 1] == '3' {
            lemma_object_is_object(s, b.unwrap());
        } else {
            let code = quoted_at(s, b.unwrap());
            let c = after_comma(s, code.unwrap().next);
            let description = quoted_at(s, c.unwrap());
            let d = after_comma(s, description.unwrap().next);
            lemma_quoted_is_text_body(s, c.unwrap());
            lemma_object_is_object(s, d.unwrap());
        }
    }
}

/// Reads a quoted string at `i`.
pub fn read_quoted(s: &Vec<char>, i: usize) -> (r: Option<Span>)
    requires
        i <= s.len(),
    ensures
        r matches Some(p) ==> quoted_at(s@, i as int) == Some(p@) && p@.fits(s@),
        r is None ==> quoted_at(s@, i as int) is None,
{
    if i < s.len() && s[i] == '"' {
        match span_end_at(s, i) {
            Some(j) => {
                proof {
                    lemma_span_end_bounds(
                        s@,
                        i + 1,
                        Lex { depth: 0, quoted: true, escaped: false },
                    );
                }
                Some(Span { from: i + 1, to: j - 1, next: j })
            },
            None => None,
        }
    } else {
        None
    }
}

/// Reads an object at `i`.
pub fn read_object(s: &Vec<char>, i: usize) -> (r: Option<Span>)
    requires
        i <= s.len(),
    ensures
        r matches Some(p) ==> object_at(s@, i as int) == Some(p@) && p@.fits(s@),
        r is None ==> object_at(s@, i as int) is None,
{
    if i < s.len() && s[i] == '{' {
        match span_end_at(s, i) {
            Some(j) => Some(Span { from: i, to: j, next: j }),
            None => None,
        }
    } else {
        None
    }
}

/// Reads a call id at `i`.
pub fn read_call_id(s: &Vec<char>, i: usize) -> (r: Option<Span>)
    requires
        i <= s.len(),
    ensures
        r matches Some(p) ==> call_id_at(s@, i as int) == Some(p@) && p@.fits(s@),
        r is None ==> call_id_at(s@, i as int) is None,
{
    if i < s.len() && s[i] == '"' {
        read_quoted(s, i)
    } else {
        let j = skip_digits_at(s, i);
        if j > i {
            Some(Span { from: i, to: j, next: j })
        } else {
            None
        }
    }
}

/// Reads a comma at `i`, with the whitespace round it.
pub fn read_comma(s: &Vec<char>, i: usize) -> (r: Option<usize>)
    requires
        i <= s.len(),
    ensures
        r matches Some(j) ==> after_comma(s@, i as int) == Some(j as int) && j <= s.len(),
        r is None ==> after_comma(s@, i as int) is None,
{
    let j = skip_spaces_at(s, i);
    if j < s.len() && s[j] == ',' {
        Some(skip_spaces_at(s, j + 1))
    } else {
        None
    }
}

/// Whether the frame closes at `i`.
pub fn read_close(s: &Vec<char>, i: usize) -> (r: bool)
    requires
        i <= s.len(),
    ensures
        r == closes_at(s@, i as int),
{
    let j = skip_spaces_at(s, i);
    j < s.len() && j + 1 == s.len() && s[j] == ']'
}

} // verus!
