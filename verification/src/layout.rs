//! The texts that are frames. A frame is written as its parts in a row: the
//! brackets, the kind, the elements, the commas between them, and whatever
//! whitespace stands in the gaps. Decoding reads the message back from every
//! such text, whatever the whitespace; and only such texts decode.

use vstd::prelude::*;
use crate::grammar::{
    after_comma, call_frame, call_id_at, closes_at, decode_spec, encode_spec, error_frame,
    is_object, is_text_body, lemma_decoded_well_formed, lemma_object_is_object,
    lemma_plain_is_text_body, object_at, quoted_at, result_frame, well_formed, Piece,
};
use crate::message::{Error, Frame};
use crate::scan::{
    is_digit, is_space, lemma_skip_digits, lemma_skip_spaces, lemma_span_end_bounds,
    lemma_span_end_on_quote, lemma_span_end_window, lex_start, lex_step, skip_digits,
    skip_spaces, Lex,
};
use crate::taxonomy::{
    lemma_action_lookup_sound, lemma_action_name_plain, lemma_action_name_round_trip,
    lemma_error_lookup_sound, lemma_error_name_plain, lemma_error_name_round_trip, OCPPAction,
    OCPPError,
};

verus! {

/// A text of whitespace only.
pub open spec fn is_blank(w: Seq<char>) -> bool {
    forall|k: int| 0 <= k < w.len() ==> is_space(#[trigger] w[k])
}

/// A text of digits, at least one.
pub open spec fn is_number(b: Seq<char>) -> bool {
    b.len() > 0 && forall|k: int| 0 <= k < b.len() ==> is_digit(#[trigger] b[k])
}

/// A text between quotes.
pub open spec fn quoted(b: Seq<char>) -> Seq<char> {
    seq!['"'] + b + seq!['"']
}

/// A comma with whitespace on either side.
pub open spec fn comma(before: Seq<char>, after: Seq<char>) -> Seq<char> {
    before + seq![','] + after
}

/// The first `n` of the parts, one after the other.
pub open spec fn join(parts: Seq<Seq<char>>, n: nat) -> Seq<char>
    decreases n,
{
    if n == 0 {
        Seq::empty()
    } else {
        join(parts, (n - 1) as nat) + parts[n - 1]
    }
}

/// The text `part` stands in `s` at position `i`.
pub open spec fn occurs(s: Seq<char>, i: int, part: Seq<char>) -> bool {
    0 <= i && i + part.len() <= s.len() && s.subrange(i, i + part.len()) == part
}

/// Each part stands in the joined text, behind the parts before it.
pub proof fn lemma_join_occurs(parts: Seq<Seq<char>>, n: nat, k: nat)
    requires
        k < n <= parts.len(),
    ensures
        occurs(join(parts, n), join(parts, k).len() as int, parts[k as int]),
        join(parts, k).len() + parts[k as int].len() == join(parts, (k + 1) as nat).len(),
        join(parts, (k + 1) as nat).len() <= join(parts, n).len(),
    decreases n,
{
    let whole = join(parts, n);
    let before = join(parts, (n - 1) as nat);
    let at = join(parts, k).len() as int;
    let part = parts[k as int];
    if k + 1 == n {
        assert(whole.subrange(at, at + part.len()) =~= part);
    } else {
        lemma_join_occurs(parts, (n - 1) as nat, k);
        assert(whole.subrange(at, at + part.len()) =~= before.subrange(at, at + part.len()));
    }
}

/// Whitespace is skipped up to the first character behind it.
pub proof fn lemma_skip_blank(s: Seq<char>, i: int, w: Seq<char>)
    requires
        occurs(s, i, w),
        is_blank(w),
        i + w.len() == s.len() || !is_space(s[i + w.len()]),
    ensures
        skip_spaces(s, i) == i + w.len(),
    decreases w.len(),
{
    if w.len() > 0 {
        assert(s[i] == w[0]) by {
            assert(s.subrange(i, i + w.len())[0] == s[i]);
        }
        let rest = w.drop_first();
        assert(s.subrange(i + 1, i + 1 + rest.len()) =~= rest);
        lemma_skip_blank(s, i + 1, rest);
    }
}

/// Digits are skipped up to the first character behind them.
pub proof fn lemma_skip_number(s: Seq<char>, i: int, b: Seq<char>)
    requires
        occurs(s, i, b),
        forall|k: int| 0 <= k < b.len() ==> is_digit(#[trigger] b[k]),
        i + b.len() == s.len() || !is_digit(s[i + b.len()]),
    ensures
        skip_digits(s, i) == i + b.len(),
    decreases b.len(),
{
    if b.len() > 0 {
        assert(s[i] == b[0]) by {
            assert(s.subrange(i, i + b.len())[0] == s[i]);
        }
        let rest = b.drop_first();
        assert(s.subrange(i + 1, i + 1 + rest.len()) =~= rest);
        lemma_skip_number(s, i + 1, rest);
    }
}

/// A comma is read with the whitespace on either side of it.
pub proof fn lemma_comma_occurs(s: Seq<char>, i: int, before: Seq<char>, after: Seq<char>)
    requires
        occurs(s, i, comma(before, after)),
        is_blank(before),
        is_blank(after),
        i + comma(before, after).len() < s.len(),
        !is_space(s[i + comma(before, after).len()]),
    ensures
        after_comma(s, i) == Some(i + comma(before, after).len()),
{
    let c = comma(before, after);
    let at = i + before.len();
    assert(s.subrange(i, i + before.len()) =~= before) by {
        assert(s.subrange(i, i + c.len()).subrange(0, before.len() as int) =~= before);
    }
    assert(s[at] == ',') by {
        assert(s.subrange(i, i + c.len())[before.len() as int] == s[at]);
    }
    assert(s.subrange(at + 1, at + 1 + after.len()) =~= after) by {
        assert(s.subrange(i, i + c.len()).subrange(before.len() as int + 1, c.len() as int) =~= after);
    }
    lemma_skip_blank(s, i, before);
    lemma_skip_blank(s, at + 1, after);
}

/// A quoted text is read as a quoted string with that text as its content.
pub proof fn lemma_quoted_occurs(s: Seq<char>, i: int, b: Seq<char>)
    requires
        occurs(s, i, quoted(b)),
        is_text_body(b),
    ensures
        quoted_at(s, i) == Some(Piece { from: i + 1, to: i + 1 + b.len(), next: i + 2 + b.len() }),
        s.subrange(i + 1, i + 1 + b.len()) == b,
{
    let v = quoted(b);
    assert forall|t: int| 0 <= t < v.len() implies #[trigger] v[t] == s[t - 0 + i] by {
        assert(s.subrange(i, i + v.len())[t] == s[i + t]);
    }
    assert(v[0] == '"');
    lemma_span_end_window(v, 0, s, i, v.len() as int, 0, lex_start());
    assert(s.subrange(i + 1, i + 1 + b.len()) =~= b) by {
        assert forall|t: int| 0 <= t < b.len() implies s[i + 1 + t] == b[t] by {
            assert(v[t + 1] == b[t]);
        }
    }
}

/// An object is read as that object.
pub proof fn lemma_object_occurs(s: Seq<char>, i: int, p: Seq<char>)
    requires
        occurs(s, i, p),
        is_object(p),
    ensures
        object_at(s, i) == Some(Piece { from: i, to: i + p.len(), next: i + p.len() }),
{
    assert forall|t: int| 0 <= t < p.len() implies #[trigger] p[t] == s[t - 0 + i] by {
        assert(p[t] == s.subrange(i, i + p.len())[t]);
    }
    assert(p[0] == s[i]);
    lemma_span_end_window(p, 0, s, i, p.len() as int, 0, lex_start());
}

/// The first character of a part stands where the part stands.
pub proof fn lemma_first_occurs(s: Seq<char>, i: int, part: Seq<char>)
    requires
        occurs(s, i, part),
        part.len() > 0,
    ensures
        i < s.len(),
        s[i] == part[0],
{
    assert(s.subrange(i, i + part.len())[0] == s[i]);
}

/// A comma with its whitespace begins with no digit.
pub proof fn lemma_comma_first(before: Seq<char>, after: Seq<char>)
    requires
        is_blank(before),
    ensures
        comma(before, after).len() == before.len() + 1 + after.len(),
        !is_digit(comma(before, after)[0]),
{
    if before.len() > 0 {
        assert(comma(before, after)[0] == before[0]);
    }
}

/// How a call id is written: between quotes, or as a number without them.
pub enum IdForm {
    Quoted,
    Bare,
}

/// A call id as it is written.
pub open spec fn id_text(id: Seq<char>, form: IdForm) -> Seq<char> {
    match form {
        IdForm::Quoted => quoted(id),
        IdForm::Bare => id,
    }
}

/// A call id is read from either form.
pub proof fn lemma_id_occurs(s: Seq<char>, i: int, id: Seq<char>, form: IdForm)
    requires
        occurs(s, i, id_text(id, form)),
        is_text_body(id),
        form is Bare ==> is_number(id) && i + id.len() < s.len() && !is_digit(s[i + id.len()]),
    ensures
        call_id_at(s, i) is Some,
        call_id_at(s, i).unwrap().next == i + id_text(id, form).len(),
        call_id_at(s, i).unwrap().text(s) == id,
        !is_space(s[i]),
{
    lemma_first_occurs(s, i, id_text(id, form));
    match form {
        IdForm::Quoted => {
            lemma_quoted_occurs(s, i, id);
        },
        IdForm::Bare => {
            assert(is_digit(id[0]));
            lemma_skip_number(s, i, id);
        },
    }
}

/// How many gaps the frame of a message has: one behind the opening bracket,
/// one on either side of each comma, and one before the closing bracket.
pub open spec fn gap_count(m: Frame) -> nat {
    match m {
        Frame::Call { .. } => 8,
        Frame::CallResult { .. } => 6,
        Frame::CallError { .. } => 10,
    }
}

/// So many gaps, with whitespace in each.
pub open spec fn blank_gaps(gaps: Seq<Seq<char>>, n: nat) -> bool {
    gaps.len() == n && forall|k: int| 0 <= k < gaps.len() ==> is_blank(#[trigger] gaps[k])
}

/// The parts of the frame of a call, in their order.
#[verifier::opaque]
pub open spec fn call_parts(
    form: IdForm,
    id: Seq<char>,
    name: Seq<char>,
    payload: Seq<char>,
    gaps: Seq<Seq<char>>,
) -> Seq<Seq<char>> {
    seq![
        seq!['['],
        gaps[0],
        seq!['2'],
        comma(gaps[1], gaps[2]),
        id_text(id, form),
        comma(gaps[3], gaps[4]),
        quoted(name),
        comma(gaps[5], gaps[6]),
        payload,
        gaps[7],
        seq![']'],
    ]
}

/// The parts of the frame of a call result, in their order.
#[verifier::opaque]
pub open spec fn result_parts(
    form: IdForm,
    id: Seq<char>,
    payload: Seq<char>,
    gaps: Seq<Seq<char>>,
) -> Seq<Seq<char>> {
    seq![
        seq!['['],
        gaps[0],
        seq!['3'],
        comma(gaps[1], gaps[2]),
        id_text(id, form),
        comma(gaps[3], gaps[4]),
        payload,
        gaps[5],
        seq![']'],
    ]
}

/// The parts of the frame of a call error, in their order.
#[verifier::opaque]
pub open spec fn error_parts(
    form: IdForm,
    id: Seq<char>,
    name: Seq<char>,
    description: Seq<char>,
    details: Seq<char>,
    gaps: Seq<Seq<char>>,
) -> Seq<Seq<char>> {
    seq![
        seq!['['],
        gaps[0],
        seq!['4'],
        comma(gaps[1], gaps[2]),
        id_text(id, form),
        comma(gaps[3], gaps[4]),
        quoted(name),
        comma(gaps[5], gaps[6]),
        quoted(description),
        comma(gaps[7], gaps[8]),
        details,
        gaps[9],
        seq![']'],
    ]
}

/// The parts of the frame of a message, in their order, with the given texts
/// in the gaps.
pub open spec fn frame_parts(m: Frame, form: IdForm, gaps: Seq<Seq<char>>) -> Seq<Seq<char>> {
    match m {
        Frame::Call { id, action, payload } => call_parts(
            form,
            id,
            action.wire_name(),
            payload,
            gaps,
        ),
        Frame::CallResult { id, payload } => result_parts(form, id, payload, gaps),
        Frame::CallError { id, error, description, details } => error_parts(
            form,
            id,
            error.wire_name(),
            description,
            details,
            gaps,
        ),
    }
}

/// The text of the frame of a message, with the given texts in the gaps.
pub open spec fn frame_text(m: Frame, form: IdForm, gaps: Seq<Seq<char>>) -> Seq<char> {
    join(frame_parts(m, form, gaps), frame_parts(m, form, gaps).len())
}

/// What can be written as a frame: a message that a frame can carry, with
/// whitespace in every gap; and without quotes round the id only where the
/// id is a number.
pub open spec fn writable(m: Frame, form: IdForm, gaps: Seq<Seq<char>>) -> bool {
    &&& well_formed(m)
    &&& form is Bare ==> is_number(m.id())
    &&& blank_gaps(gaps, gap_count(m))
}

/// The parts of the frame of a call, one by one.
proof fn lemma_call_parts(
    form: IdForm,
    id: Seq<char>,
    name: Seq<char>,
    payload: Seq<char>,
    gaps: Seq<Seq<char>>,
)
    ensures
        ({
            let parts = call_parts(form, id, name, payload, gaps);
            &&& parts.len() == 11
            &&& parts[0] == seq!['[']
            &&& parts[1] == gaps[0]
            &&& parts[2] == seq!['2']
            &&& parts[3] == comma(gaps[1], gaps[2])
            &&& parts[4] == id_text(id, form)
            &&& parts[5] == comma(gaps[3], gaps[4])
            &&& parts[6] == quoted(name)
            &&& parts[7] == comma(gaps[5], gaps[6])
            &&& parts[8] == payload
            &&& parts[9] == gaps[7]
            &&& parts[10] == seq![']']
        }),
{
    reveal(call_parts);
}

/// The parts of the frame of a call result, one by one.
proof fn lemma_result_parts(form: IdForm, id: Seq<char>, payload: Seq<char>, gaps: Seq<Seq<char>>)
    ensures
        ({
            let parts = result_parts(form, id, payload, gaps);
            &&& parts.len() == 9
            &&& parts[0] == seq!['[']
            &&& parts[1] == gaps[0]
            &&& parts[2] == seq!['3']
            &&& parts[3] == comma(gaps[1], gaps[2])
            &&& parts[4] == id_text(id, form)
            &&& parts[5] == comma(gaps[3], gaps[4])
            &&& parts[6] == payload
            &&& parts[7] == gaps[5]
            &&& parts[8] == seq![']']
        }),
{
    reveal(result_parts);
}

/// The parts of the frame of a call error, one by one.
proof fn lemma_error_parts(
    form: IdForm,
    id: Seq<char>,
    name: Seq<char>,
    description: Seq<char>,
    details: Seq<char>,
    gaps: Seq<Seq<char>>,
)
    ensures
        ({
            let parts = error_parts(form, id, name, description, details, gaps);
            &&& parts.len() == 13
            &&& parts[0] == seq!['[']
            &&& parts[1] == gaps[0]
            &&& parts[2] == seq!['4']
            &&& parts[3] == comma(gaps[1], gaps[2])
            &&& parts[4] == id_text(id, form)
            &&& parts[5] == comma(gaps[3], gaps[4])
            &&& parts[6] == quoted(name)
            &&& parts[7] == comma(gaps[5], gaps[6])
            &&& parts[8] == quoted(description)
            &&& parts[9] == comma(gaps[7], gaps[8])
            &&& parts[10] == details
            &&& parts[11] == gaps[9]
            &&& parts[12] == seq![']']
        }),
{
    reveal(error_parts);
}

/// The places of the parts in the joined text.
proof fn lemma_places(parts: Seq<Seq<char>>)
    ensures
        join(parts, 0).len() == 0,
        forall|k: nat|
            k < parts.len() ==> {
                &&& occurs(
                    join(parts, parts.len()),
                    (#[trigger] join(parts, k)).len() as int,
                    parts[k as int],
                )
                &&& join(parts, k).len() + parts[k as int].len() == join(
                    parts,
                    (k + 1) as nat,
                ).len()
                &&& join(parts, (k + 1) as nat).len() <= join(parts, parts.len()).len()
            },
{
    assert forall|k: nat| k < parts.len() implies {
        &&& occurs(
            join(parts, parts.len()),
            (#[trigger] join(parts, k)).len() as int,
            parts[k as int],
        )
        &&& join(parts, k).len() + parts[k as int].len() == join(parts, (k + 1) as nat).len()
        &&& join(parts, (k + 1) as nat).len() <= join(parts, parts.len()).len()
    } by {
        lemma_join_occurs(parts, parts.len(), k);
    }
}

/// What is read up to the call id of a text that begins with an opening
/// bracket, whitespace, a kind, a comma and a call id, where the character
/// behind the id is neither whitespace nor a digit: the kind, and the id
/// with the place behind it.
proof fn lemma_read_head(
    s: Seq<char>,
    parts: Seq<Seq<char>>,
    kind: char,
    form: IdForm,
    id: Seq<char>,
    gaps: Seq<Seq<char>>,
)
    requires
        parts.len() > 5,
        s == join(parts, parts.len()),
        parts[0] == seq!['['],
        parts[1] == gaps[0],
        parts[2] == seq![kind],
        parts[3] == comma(gaps[1], gaps[2]),
        parts[4] == id_text(id, form),
        parts[5].len() > 0,
        !is_digit(parts[5][0]),
        !is_space(kind),
        is_blank(gaps[0]),
        is_blank(gaps[1]),
        is_blank(gaps[2]),
        is_text_body(id),
        form is Bare ==> is_number(id),
    ensures
        s.len() > 0,
        s[0] == '[',
        skip_spaces(s, 1) < s.len(),
        s[skip_spaces(s, 1)] == kind,
        after_comma(s, skip_spaces(s, 1) + 1) is Some,
        call_id_at(s, after_comma(s, skip_spaces(s, 1) + 1).unwrap()) is Some,
        call_id_at(s, after_comma(s, skip_spaces(s, 1) + 1).unwrap()).unwrap().text(s) == id,
        call_id_at(s, after_comma(s, skip_spaces(s, 1) + 1).unwrap()).unwrap().next == join(
            parts,
            5,
        ).len(),
{
    lemma_places(parts);
    let o1 = join(parts, 1).len() as int;
    let o2 = join(parts, 2).len() as int;
    let o3 = join(parts, 3).len() as int;
    let o4 = join(parts, 4).len() as int;
    let o5 = join(parts, 5).len() as int;
    lemma_first_occurs(s, 0, parts[0]);
    lemma_first_occurs(s, o2, parts[2]);
    lemma_first_occurs(s, o5, parts[5]);
    lemma_skip_blank(s, o1, gaps[0]);
    lemma_id_occurs(s, o4, id, form);
    lemma_comma_first(gaps[1], gaps[2]);
    lemma_comma_occurs(s, o3, gaps[1], gaps[2]);
}

/// What is read at a comma that is followed by a quoted text.
proof fn lemma_read_quoted(
    s: Seq<char>,
    parts: Seq<Seq<char>>,
    k: nat,
    before: Seq<char>,
    after: Seq<char>,
    b: Seq<char>,
)
    requires
        k + 1 < parts.len(),
        s == join(parts, parts.len()),
        parts[k as int] == comma(before, after),
        parts[k as int + 1] == quoted(b),
        is_blank(before),
        is_blank(after),
        is_text_body(b),
    ensures
        after_comma(s, join(parts, k).len() as int) is Some,
        quoted_at(s, after_comma(s, join(parts, k).len() as int).unwrap()) is Some,
        quoted_at(s, after_comma(s, join(parts, k).len() as int).unwrap()).unwrap().text(s) == b,
        quoted_at(s, after_comma(s, join(parts, k).len() as int).unwrap()).unwrap().next == join(
            parts,
            k + 2,
        ).len(),
        !is_digit(parts[k as int][0]),
        parts[k as int].len() > 0,
{
    lemma_places(parts);
    let at = join(parts, k).len() as int;
    let next = join(parts, k + 1).len() as int;
    assert(join(parts, (k + 1 + 1) as nat) == join(parts, k + 2));
    lemma_comma_first(before, after);
    lemma_first_occurs(s, next, parts[k as int + 1]);
    lemma_comma_occurs(s, at, before, after);
    lemma_quoted_occurs(s, next, b);
}

/// What is read at a comma that is followed by the last element, an object,
/// and the end of the frame.
proof fn lemma_read_tail(
    s: Seq<char>,
    parts: Seq<Seq<char>>,
    k: nat,
    before: Seq<char>,
    after: Seq<char>,
    p: Seq<char>,
    last: Seq<char>,
)
    requires
        k + 4 == parts.len(),
        s == join(parts, parts.len()),
        parts[k as int] == comma(before, after),
        parts[k as int + 1] == p,
        parts[k as int + 2] == last,
        parts[k as int + 3] == seq![']'],
        is_blank(before),
        is_blank(after),
        is_blank(last),
        is_object(p),
    ensures
        after_comma(s, join(parts, k).len() as int) is Some,
        object_at(s, after_comma(s, join(parts, k).len() as int).unwrap()) is Some,
        object_at(s, after_comma(s, join(parts, k).len() as int).unwrap()).unwrap().text(s) == p,
        closes_at(s, object_at(s, after_comma(s, join(parts, k).len() as int).unwrap()).unwrap().next),
        !is_digit(parts[k as int][0]),
        parts[k as int].len() > 0,
{
    lemma_places(parts);
    let at = join(parts, k).len() as int;
    let o1 = join(parts, k + 1).len() as int;
    let o2 = join(parts, k + 2).len() as int;
    let o3 = join(parts, k + 3).len() as int;
    assert(join(parts, (k + 1 + 1) as nat) == join(parts, k + 2));
    assert(join(parts, (k + 2 + 1) as nat) == join(parts, k + 3));
    assert(join(parts, (k + 3 + 1) as nat) == join(parts, parts.len()));
    lemma_comma_first(before, after);
    lemma_first_occurs(s, o1, parts[k as int + 1]);
    lemma_first_occurs(s, o3, parts[k as int + 3]);
    lemma_comma_occurs(s, at, before, after);
    lemma_object_occurs(s, o1, p);
    lemma_skip_blank(s, o2, last);
}

/// A text laid out as the frame of a call decodes by the name it holds: to
/// the call where the name is a verb of the catalog, and to an unknown
/// action where it is not.
pub proof fn lemma_read_call(
    form: IdForm,
    id: Seq<char>,
    name: Seq<char>,
    payload: Seq<char>,
    gaps: Seq<Seq<char>>,
)
    requires
        is_text_body(id),
        is_text_body(name),
        is_object(payload),
        form is Bare ==> is_number(id),
        blank_gaps(gaps, 8),
    ensures
        decode_spec(join(call_parts(form, id, name, payload, gaps), 11)) == match OCPPAction::lookup(
            name,
        ) {
            Some(action) => Ok::<Frame, Error>(Frame::Call { id, action, payload }),
            None => Err(Error::UnknownAction),
        },
{
    let parts = call_parts(form, id, name, payload, gaps);
    let s = join(parts, 11);
    lemma_call_parts(form, id, name, payload, gaps);
    lemma_read_quoted(s, parts, 5, gaps[3], gaps[4], name);
    lemma_read_tail(s, parts, 7, gaps[5], gaps[6], payload, gaps[7]);
    lemma_read_head(s, parts, '2', form, id, gaps);
}

/// A text laid out as the frame of a call result decodes to the call result.
pub proof fn lemma_read_result(form: IdForm, id: Seq<char>, payload: Seq<char>, gaps: Seq<Seq<char>>)
    requires
        is_text_body(id),
        is_object(payload),
        form is Bare ==> is_number(id),
        blank_gaps(gaps, 6),
    ensures
        decode_spec(join(result_parts(form, id, payload, gaps), 9)) == Ok::<Frame, Error>(
            Frame::CallResult { id, payload },
        ),
{
    let parts = result_parts(form, id, payload, gaps);
    let s = join(parts, 9);
    lemma_result_parts(form, id, payload, gaps);
    lemma_read_tail(s, parts, 5, gaps[3], gaps[4], payload, gaps[5]);
    lemma_read_head(s, parts, '3', form, id, gaps);
}

/// A text laid out as the frame of a call error decodes by the name it
/// holds: to the call error where the name is a code of the catalog, and to
/// an unknown error code where it is not.
pub proof fn lemma_read_error(
    form: IdForm,
    id: Seq<char>,
    name: Seq<char>,
    description: Seq<char>,
    details: Seq<char>,
    gaps: Seq<Seq<char>>,
)
    requires
        is_text_body(id),
        is_text_body(name),
        is_text_body(description),
        is_object(details),
        form is Bare ==> is_number(id),
        blank_gaps(gaps, 10),
    ensures
        decode_spec(join(error_parts(form, id, name, description, details, gaps), 13))
            == match OCPPError::lookup(name) {
            Some(error) => Ok::<Frame, Error>(
                Frame::CallError { id, error, description, details },
            ),
            None => Err(Error::UnknownErrorCode),
        },
{
    let parts = error_parts(form, id, name, description, details, gaps);
    let s = join(parts, 13);
    lemma_error_parts(form, id, name, description, details, gaps);
    lemma_read_quoted(s, parts, 5, gaps[3], gaps[4], name);
    lemma_read_quoted(s, parts, 7, gaps[5], gaps[6], description);
    lemma_read_tail(s, parts, 9, gaps[7], gaps[8], details, gaps[9]);
    lemma_read_head(s, parts, '4', form, id, gaps);
}

/// Whitespace between the elements is insignificant, and so are the quotes
/// round an id that is a number: every text that is the frame of a message
/// decodes to that message.
pub proof fn lemma_decode_frame_text(m: Frame, form: IdForm, gaps: Seq<Seq<char>>)
    requires
        writable(m, form, gaps),
    ensures
        decode_spec(frame_text(m, form, gaps)) == Ok::<Frame, Error>(m),
{
    match m {
        Frame::Call { id, action, payload } => {
            lemma_action_name_plain(action);
            lemma_plain_is_text_body(action.wire_name());
            lemma_action_name_round_trip(action);
            lemma_call_parts(form, id, action.wire_name(), payload, gaps);
            lemma_read_call(form, id, action.wire_name(), payload, gaps);
        },
        Frame::CallResult { id, payload } => {
            lemma_result_parts(form, id, payload, gaps);
            lemma_read_result(form, id, payload, gaps);
        },
        Frame::CallError { id, error, description, details } => {
            lemma_error_name_plain(error);
            lemma_plain_is_text_body(error.wire_name());
            lemma_error_name_round_trip(error);
            lemma_error_parts(form, id, error.wire_name(), description, details, gaps);
            lemma_read_error(form, id, error.wire_name(), description, details, gaps);
        },
    }
}

/// Joining one more part that continues the text extends what is joined.
proof fn lemma_join_step(s: Seq<char>, parts: Seq<Seq<char>>, n: nat, from: int, to: int)
    requires
        n < parts.len(),
        0 <= from <= to <= s.len(),
        join(parts, n) == s.subrange(0, from),
        parts[n as int] == s.subrange(from, to),
    ensures
        join(parts, n + 1) == s.subrange(0, to),
{
    assert(join(parts, n + 1) =~= s.subrange(0, to));
}

/// The whitespace before the comma, or before the closing bracket, that is
/// read at `i`.
pub open spec fn gap_before(s: Seq<char>, i: int) -> Seq<char> {
    s.subrange(i, skip_spaces(s, i))
}

/// The whitespace behind the comma that is read at `i`.
pub open spec fn gap_after(s: Seq<char>, i: int) -> Seq<char> {
    s.subrange(skip_spaces(s, i) + 1, after_comma(s, i).unwrap())
}

/// The form in which the call id at `i` is written.
pub open spec fn form_at(s: Seq<char>, i: int) -> IdForm {
    if 0 <= i < s.len() && s[i] == '"' {
        IdForm::Quoted
    } else {
        IdForm::Bare
    }
}

/// Where a comma was read, the text holds whitespace, the comma, and
/// whitespace.
proof fn lemma_comma_parts(s: Seq<char>, i: int)
    requires
        0 <= i <= s.len(),
        after_comma(s, i) is Some,
    ensures
        i < after_comma(s, i).unwrap() <= s.len(),
        is_blank(gap_before(s, i)),
        is_blank(gap_after(s, i)),
        s.subrange(i, after_comma(s, i).unwrap()) == comma(gap_before(s, i), gap_after(s, i)),
{
    let j = skip_spaces(s, i);
    let a = after_comma(s, i).unwrap();
    lemma_skip_spaces(s, i);
    lemma_skip_spaces(s, j + 1);
    assert(s.subrange(i, a) =~= comma(s.subrange(i, j), s.subrange(j + 1, a)));
}

/// Where a quoted string was read, the text holds its content between
/// quotes.
proof fn lemma_quoted_parts(s: Seq<char>, i: int)
    requires
        quoted_at(s, i) is Some,
    ensures
        0 <= i < quoted_at(s, i).unwrap().next <= s.len(),
        s.subrange(i, quoted_at(s, i).unwrap().next) == quoted(quoted_at(s, i).unwrap().text(s)),
{
    let inside = Lex { depth: 0, quoted: true, escaped: false };
    let p = quoted_at(s, i).unwrap();
    assert(lex_step(lex_start(), s[i]) == inside);
    lemma_span_end_bounds(s, i + 1, inside);
    lemma_span_end_on_quote(s, i + 1, inside);
    assert(s.subrange(i, p.next) =~= quoted(p.text(s)));
}

/// Where a call id was read, the text holds it in one of its two forms.
proof fn lemma_id_parts(s: Seq<char>, i: int)
    requires
        call_id_at(s, i) is Some,
    ensures
        0 <= i < call_id_at(s, i).unwrap().next <= s.len(),
        s.subrange(i, call_id_at(s, i).unwrap().next) == id_text(
            call_id_at(s, i).unwrap().text(s),
            form_at(s, i),
        ),
        form_at(s, i) is Bare ==> is_number(call_id_at(s, i).unwrap().text(s)),
{
    if 0 <= i < s.len() && s[i] == '"' {
        lemma_quoted_parts(s, i);
    } else {
        lemma_skip_digits(s, i);
    }
}

/// The first parts of a text that was read up to its call id.
proof fn lemma_cut_head(s: Seq<char>, parts: Seq<Seq<char>>, kind: char)
    requires
        s.len() > 0,
        s[0] == '[',
        skip_spaces(s, 1) < s.len(),
        s[skip_spaces(s, 1)] == kind,
        after_comma(s, skip_spaces(s, 1) + 1) is Some,
        call_id_at(s, after_comma(s, skip_spaces(s, 1) + 1).unwrap()) is Some,
        parts.len() >= 5,
        parts[0] == seq!['['],
        parts[1] == s.subrange(1, skip_spaces(s, 1)),
        parts[2] == seq![kind],
        parts[3] == comma(
            gap_before(s, skip_spaces(s, 1) + 1),
            gap_after(s, skip_spaces(s, 1) + 1),
        ),
        parts[4] == id_text(
            call_id_at(s, after_comma(s, skip_spaces(s, 1) + 1).unwrap()).unwrap().text(s),
            form_at(s, after_comma(s, skip_spaces(s, 1) + 1).unwrap()),
        ),
    ensures
        0 <= call_id_at(s, after_comma(s, skip_spaces(s, 1) + 1).unwrap()).unwrap().next
            <= s.len(),
        join(parts, 5) == s.subrange(
            0,
            call_id_at(s, after_comma(s, skip_spaces(s, 1) + 1).unwrap()).unwrap().next,
        ),
        is_blank(parts[1]),
        is_blank(gap_before(s, skip_spaces(s, 1) + 1)),
        is_blank(gap_after(s, skip_spaces(s, 1) + 1)),
        form_at(s, after_comma(s, skip_spaces(s, 1) + 1).unwrap()) is Bare ==> is_number(
            call_id_at(s, after_comma(s, skip_spaces(s, 1) + 1).unwrap()).unwrap().text(s),
        ),
{
    let k = skip_spaces(s, 1);
    let a = after_comma(s, k + 1).unwrap();
    let id = call_id_at(s, a).unwrap();
    lemma_skip_spaces(s, 1);
    lemma_comma_parts(s, k + 1);
    lemma_id_parts(s, a);
    assert(parts[0] =~= s.subrange(0, 1));
    assert(parts[2] =~= s.subrange(k, k + 1));
    assert(join(parts, 0) =~= s.subrange(0, 0));
    lemma_join_step(s, parts, 0, 0, 1);
    lemma_join_step(s, parts, 1, 1, k);
    lemma_join_step(s, parts, 2, k, k + 1);
    lemma_join_step(s, parts, 3, k + 1, a);
    lemma_join_step(s, parts, 4, a, id.next);
}

/// The parts of a text where a comma and a quoted string were read.
proof fn lemma_cut_quoted(s: Seq<char>, parts: Seq<Seq<char>>, n: nat, i: int)
    requires
        0 <= i <= s.len(),
        n + 2 <= parts.len(),
        join(parts, n) == s.subrange(0, i),
        after_comma(s, i) is Some,
        quoted_at(s, after_comma(s, i).unwrap()) is Some,
        parts[n as int] == comma(gap_before(s, i), gap_after(s, i)),
        parts[n as int + 1] == quoted(quoted_at(s, after_comma(s, i).unwrap()).unwrap().text(s)),
    ensures
        0 <= quoted_at(s, after_comma(s, i).unwrap()).unwrap().next <= s.len(),
        join(parts, n + 2) == s.subrange(0, quoted_at(s, after_comma(s, i).unwrap()).unwrap().next),
        is_blank(gap_before(s, i)),
        is_blank(gap_after(s, i)),
{
    let a = after_comma(s, i).unwrap();
    let q = quoted_at(s, a).unwrap();
    lemma_comma_parts(s, i);
    lemma_quoted_parts(s, a);
    lemma_join_step(s, parts, n, i, a);
    lemma_join_step(s, parts, n + 1, a, q.next);
}

/// The parts of a text where a comma, an object and the end of the frame
/// were read.
proof fn lemma_cut_tail(s: Seq<char>, parts: Seq<Seq<char>>, n: nat, i: int)
    requires
        0 <= i <= s.len(),
        n + 4 == parts.len(),
        join(parts, n) == s.subrange(0, i),
        after_comma(s, i) is Some,
        object_at(s, after_comma(s, i).unwrap()) is Some,
        closes_at(s, object_at(s, after_comma(s, i).unwrap()).unwrap().next),
        parts[n as int] == comma(gap_before(s, i), gap_after(s, i)),
        parts[n as int + 1] == object_at(s, after_comma(s, i).unwrap()).unwrap().text(s),
        parts[n as int + 2] == gap_before(
            s,
            object_at(s, after_comma(s, i).unwrap()).unwrap().next,
        ),
        parts[n as int + 3] == seq![']'],
    ensures
        join(parts, parts.len()) == s,
        is_blank(gap_before(s, i)),
        is_blank(gap_after(s, i)),
        is_blank(gap_before(s, object_at(s, after_comma(s, i).unwrap()).unwrap().next)),
{
    let a = after_comma(s, i).unwrap();
    let o = object_at(s, a).unwrap();
    let end = skip_spaces(s, o.next);
    lemma_comma_parts(s, i);
    lemma_object_is_object(s, a);
    lemma_skip_spaces(s, o.next);
    assert(parts[n as int + 3] =~= s.subrange(end, s.len() as int));
    lemma_join_step(s, parts, n, i, a);
    lemma_join_step(s, parts, n + 1, a, o.next);
    lemma_join_step(s, parts, n + 2, o.next, end);
    lemma_join_step(s, parts, n + 3, end, s.len() as int);
    assert(s.subrange(0, s.len() as int) =~= s);
}

/// The whitespace in the gaps of a text that decodes to a call.
#[verifier::opaque]
pub open spec fn call_gaps(s: Seq<char>) -> Seq<Seq<char>> {
    let k = skip_spaces(s, 1);
    let id = call_id_at(s, after_comma(s, k + 1).unwrap()).unwrap();
    let action = quoted_at(s, after_comma(s, id.next).unwrap()).unwrap();
    let payload = object_at(s, after_comma(s, action.next).unwrap()).unwrap();
    seq![
        s.subrange(1, k),
        gap_before(s, k + 1),
        gap_after(s, k + 1),
        gap_before(s, id.next),
        gap_after(s, id.next),
        gap_before(s, action.next),
        gap_after(s, action.next),
        gap_before(s, payload.next),
    ]
}

/// The whitespace in the gaps of a text that decodes to a call result.
#[verifier::opaque]
pub open spec fn result_gaps(s: Seq<char>) -> Seq<Seq<char>> {
    let k = skip_spaces(s, 1);
    let id = call_id_at(s, after_comma(s, k + 1).unwrap()).unwrap();
    let payload = object_at(s, after_comma(s, id.next).unwrap()).unwrap();
    seq![
        s.subrange(1, k),
        gap_before(s, k + 1),
        gap_after(s, k + 1),
        gap_before(s, id.next),
        gap_after(s, id.next),
        gap_before(s, payload.next),
    ]
}

/// The whitespace in the gaps of a text that decodes to a call error.
#[verifier::opaque]
pub open spec fn error_gaps(s: Seq<char>) -> Seq<Seq<char>> {
    let k = skip_spaces(s, 1);
    let id = call_id_at(s, after_comma(s, k + 1).unwrap()).unwrap();
    let code = quoted_at(s, after_comma(s, id.next).unwrap()).unwrap();
    let description = quoted_at(s, after_comma(s, code.next).unwrap()).unwrap();
    let details = object_at(s, after_comma(s, description.next).unwrap()).unwrap();
    seq![
        s.subrange(1, k),
        gap_before(s, k + 1),
        gap_after(s, k + 1),
        gap_before(s, id.next),
        gap_after(s, id.next),
        gap_before(s, code.next),
        gap_after(s, code.next),
        gap_before(s, description.next),
        gap_after(s, description.next),
        gap_before(s, details.next),
    ]
}

/// The form in which the call id of a text is written.
pub open spec fn written_form(s: Seq<char>) -> IdForm {
    form_at(s, after_comma(s, skip_spaces(s, 1) + 1).unwrap())
}

/// The whitespace in the gaps of a text that decodes.
pub open spec fn written_gaps(s: Seq<char>) -> Seq<Seq<char>> {
    let k = skip_spaces(s, 1);
    if s[k] == '2' {
        call_gaps(s)
    } else if s[k] == '3' {
        result_gaps(s)
    } else {
        error_gaps(s)
    }
}

/// A text in which a call was read is laid out as the frame of a call.
proof fn lemma_cut_call(s: Seq<char>)
    requires
        s.len() > 0,
        s[0] == '[',
        skip_spaces(s, 1) < s.len(),
        s[skip_spaces(s, 1)] == '2',
        call_frame(s, skip_spaces(s, 1) + 1) != Err::<Frame, Error>(Error::MalformedFrame),
    ensures
        ({
            let k = skip_spaces(s, 1);
            let id = call_id_at(s, after_comma(s, k + 1).unwrap()).unwrap();
            let action = quoted_at(s, after_comma(s, id.next).unwrap()).unwrap();
            let payload = object_at(s, after_comma(s, action.next).unwrap()).unwrap();
            &&& blank_gaps(call_gaps(s), 8)
            &&& written_form(s) is Bare ==> is_number(id.text(s))
            &&& s == join(
                call_parts(
                    written_form(s),
                    id.text(s),
                    action.text(s),
                    payload.text(s),
                    call_gaps(s),
                ),
                11,
            )
        }),
{
    let k = skip_spaces(s, 1);
    let id = call_id_at(s, after_comma(s, k + 1).unwrap()).unwrap();
    let action = quoted_at(s, after_comma(s, id.next).unwrap()).unwrap();
    let payload = object_at(s, after_comma(s, action.next).unwrap()).unwrap();
    let gaps = call_gaps(s);
    let parts = call_parts(written_form(s), id.text(s), action.text(s), payload.text(s), gaps);
    reveal(call_gaps);
    lemma_call_parts(written_form(s), id.text(s), action.text(s), payload.text(s), gaps);
    lemma_cut_head(s, parts, '2');
    lemma_cut_quoted(s, parts, 5, id.next);
    lemma_cut_tail(s, parts, 7, action.next);
}

/// A text in which a call result was read is laid out as the frame of a
/// call result.
proof fn lemma_cut_result(s: Seq<char>)
    requires
        s.len() > 0,
        s[0] == '[',
        skip_spaces(s, 1) < s.len(),
        s[skip_spaces(s, 1)] == '3',
        result_frame(s, skip_spaces(s, 1) + 1) is Ok,
    ensures
        ({
            let k = skip_spaces(s, 1);
            let id = call_id_at(s, after_comma(s, k + 1).unwrap()).unwrap();
            let payload = object_at(s, after_comma(s, id.next).unwrap()).unwrap();
            &&& blank_gaps(result_gaps(s), 6)
            &&& written_form(s) is Bare ==> is_number(id.text(s))
            &&& s == join(
                result_parts(written_form(s), id.text(s), payload.text(s), result_gaps(s)),
                9,
            )
        }),
{
    let k = skip_spaces(s, 1);
    let id = call_id_at(s, after_comma(s, k + 1).unwrap()).unwrap();
    let payload = object_at(s, after_comma(s, id.next).unwrap()).unwrap();
    let gaps = result_gaps(s);
    let parts = result_parts(written_form(s), id.text(s), payload.text(s), gaps);
    reveal(result_gaps);
    lemma_result_parts(written_form(s), id.text(s), payload.text(s), gaps);
    lemma_cut_head(s, parts, '3');
    lemma_cut_tail(s, parts, 5, id.next);
}

/// A text in which a call error was read is laid out as the frame of a call
/// error.
proof fn lemma_cut_error(s: Seq<char>)
    requires
        s.len() > 0,
        s[0] == '[',
        skip_spaces(s, 1) < s.len(),
        s[skip_spaces(s, 1)] == '4',
        error_frame(s, skip_spaces(s, 1) + 1) != Err::<Frame, Error>(Error::MalformedFrame),
    ensures
        ({
            let k = skip_spaces(s, 1);
            let id = call_id_at(s, after_comma(s, k + 1).unwrap()).unwrap();
            let code = quoted_at(s, after_comma(s, id.next).unwrap()).unwrap();
            let description = quoted_at(s, after_comma(s, code.next).unwrap()).unwrap();
            let details = object_at(s, after_comma(s, description.next).unwrap()).unwrap();
            &&& blank_gaps(error_gaps(s), 10)
            &&& written_form(s) is Bare ==> is_number(id.text(s))
            &&& s == join(
                error_parts(
                    written_form(s),
                    id.text(s),
                    code.text(s),
                    description.text(s),
                    details.text(s),
                    error_gaps(s),
                ),
                13,
            )
        }),
{
    let k = skip_spaces(s, 1);
    let id = call_id_at(s, after_comma(s, k + 1).unwrap()).unwrap();
    let code = quoted_at(s, after_comma(s, id.next).unwrap()).unwrap();
    let description = quoted_at(s, after_comma(s, code.next).unwrap()).unwrap();
    let details = object_at(s, after_comma(s, description.next).unwrap()).unwrap();
    let gaps = error_gaps(s);
    let parts = error_parts(
        written_form(s),
        id.text(s),
        code.text(s),
        description.text(s),
        details.text(s),
        gaps,
    );
    reveal(error_gaps);
    lemma_error_parts(
        written_form(s),
        id.text(s),
        code.text(s),
        description.text(s),
        details.text(s),
        gaps,
    );
    lemma_cut_head(s, parts, '4');
    lemma_cut_quoted(s, parts, 5, id.next);
    lemma_cut_quoted(s, parts, 7, code.next);
    lemma_cut_tail(s, parts, 9, description.next);
}

/// Only frames decode: a text that decodes to a message is the frame of
/// that message, with whitespace in its gaps.
pub proof fn lemma_decoded_is_frame_text(s: Seq<char>)
    ensures
        decode_spec(s) matches Ok(m) ==> writable(m, written_form(s), written_gaps(s)) && s
            == frame_text(m, written_form(s), written_gaps(s)),
{
    if let Ok(m) = decode_spec(s) {
        lemma_decoded_well_formed(s);
        let k = skip_spaces(s, 1);
        let id = call_id_at(s, after_comma(s, k + 1).unwrap()).unwrap();
        let second = quoted_at(s, after_comma(s, id.next).unwrap()).unwrap();
        if s[k] == '2' {
            lemma_cut_call(s);
            lemma_action_lookup_sound(second.text(s));
            let payload = object_at(s, after_comma(s, second.next).unwrap()).unwrap();
            lemma_call_parts(
                written_form(s),
                id.text(s),
                second.text(s),
                payload.text(s),
                call_gaps(s),
            );
        } else if s[k] == '3' {
            lemma_cut_result(s);
            let payload = object_at(s, after_comma(s, id.next).unwrap()).unwrap();
            lemma_result_parts(written_form(s), id.text(s), payload.text(s), result_gaps(s));
        } else {
            lemma_cut_error(s);
            lemma_error_lookup_sound(second.text(s));
            let description = quoted_at(s, after_comma(s, second.next).unwrap()).unwrap();
            let details = object_at(s, after_comma(s, description.next).unwrap()).unwrap();
            lemma_error_parts(
                written_form(s),
                id.text(s),
                second.text(s),
                description.text(s),
                details.text(s),
                error_gaps(s),
            );
        }
    }
}

/// A text decodes to a message exactly when it is a frame of that message:
/// the two laws above, as one.
pub proof fn lemma_decodes_iff_frame_text(s: Seq<char>, m: Frame)
    ensures
        decode_spec(s) == Ok::<Frame, Error>(m) <==> exists|form: IdForm, gaps: Seq<Seq<char>>|
            writable(m, form, gaps) && s == #[trigger] frame_text(m, form, gaps),
{
    lemma_decoded_is_frame_text(s);
    if decode_spec(s) == Ok::<Frame, Error>(m) {
        assert(writable(m, written_form(s), written_gaps(s)) && s == frame_text(
            m,
            written_form(s),
            written_gaps(s),
        ));
    }
    if exists|form: IdForm, gaps: Seq<Seq<char>>|
        writable(m, form, gaps) && s == #[trigger] frame_text(m, form, gaps) {
        let (form, gaps) = choose|form: IdForm, gaps: Seq<Seq<char>>|
            writable(m, form, gaps) && s == #[trigger] frame_text(m, form, gaps);
        lemma_decode_frame_text(m, form, gaps);
    }
}

/// The whitespace that encoding writes: one space behind each comma.
pub open spec fn plain_gaps(m: Frame) -> Seq<Seq<char>> {
    Seq::new(gap_count(m), |k: int| if k > 0 && k % 2 == 0 { seq![' '] } else { Seq::empty() })
}

/// What encoding writes is a frame: the id between quotes, and one space
/// behind each comma.
pub proof fn lemma_encoded_is_frame_text(m: Frame)
    ensures
        blank_gaps(plain_gaps(m), gap_count(m)),
        encode_spec(m) == frame_text(m, IdForm::Quoted, plain_gaps(m)),
{
    let gaps = plain_gaps(m);
    let parts = frame_parts(m, IdForm::Quoted, gaps);
    reveal_strlit("[2, \"");
    reveal_strlit("[3, \"");
    reveal_strlit("[4, \"");
    reveal_strlit("\", \"");
    reveal_strlit("\", ");
    reveal_strlit("]");
    match m {
        Frame::Call { id, action, payload } => {
            lemma_call_parts(IdForm::Quoted, id, action.wire_name(), payload, gaps);
            reveal_with_fuel(join, 12);
            assert(encode_spec(m) =~= join(parts, 11));
        },
        Frame::CallResult { id, payload } => {
            lemma_result_parts(IdForm::Quoted, id, payload, gaps);
            reveal_with_fuel(join, 10);
            assert(encode_spec(m) =~= join(parts, 9));
        },
        Frame::CallError { id, error, description, details } => {
            lemma_error_parts(IdForm::Quoted, id, error.wire_name(), description, details, gaps);
            reveal_with_fuel(join, 14);
            assert(encode_spec(m) =~= join(parts, 13));
        },
    }
}

} // verus!
