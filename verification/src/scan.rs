//! Lexical scanning of a frame's text: insignificant whitespace, and the
//! extent of a quoted string or of a brace-balanced object; and the
//! comparison of two texts.

use vstd::prelude::*;
use vstd::string::StringSliceAdditionalSpecFns;
use vstd::utf8::{decode_utf8, encode_utf8_decode_utf8};

verus! {

/// The characters that may separate the elements of a frame.
pub open spec fn is_space(c: char) -> bool {
    c == ' ' || c == '\t' || c == '\n' || c == '\r'
}

/// The first position at or after `i` that holds no whitespace: the end of the
/// text where only whitespace is left.
pub open spec fn skip_spaces(s: Seq<char>, i: int) -> int
    decreases s.len() - i,
{
    if 0 <= i < s.len() && is_space(s[i]) {
        skip_spaces(s, i + 1)
    } else {
        i
    }
}

/// A text that holds neither a quote nor a backslash.
pub open spec fn is_plain(s: Seq<char>) -> bool {
    forall|k: int| 0 <= k < s.len() ==> #[trigger] s[k] != '"' && s[k] != '\\'
}

/// The characters of an id that is written without quotes.
pub open spec fn is_digit(c: char) -> bool {
    '0' <= c <= '9'
}

/// The first position at or after `i` that holds no digit.
pub open spec fn skip_digits(s: Seq<char>, i: int) -> int
    decreases s.len() - i,
{
    if 0 <= i < s.len() && is_digit(s[i]) {
        skip_digits(s, i + 1)
    } else {
        i
    }
}

/// Where a scan stands inside a value: how many braces are open, whether it is
/// inside a quoted string, and whether the last character was a backslash
/// that escapes the next one.
pub struct Lex {
    pub depth: nat,
    pub quoted: bool,
    pub escaped: bool,
}

/// The state before the first character of a value.
pub open spec fn lex_start() -> Lex {
    Lex { depth: 0, quoted: false, escaped: false }
}

/// A value is complete when no brace and no string is open.
pub open spec fn lex_closed(st: Lex) -> bool {
    st.depth == 0 && !st.quoted
}

/// The state after one more character. Inside a string a backslash escapes
/// the character that follows it, and braces do not count.
pub open spec fn lex_step(st: Lex, c: char) -> Lex {
    if st.quoted {
        if st.escaped {
            Lex { escaped: false, ..st }
        } else if c == '\\' {
            Lex { escaped: true, ..st }
        } else if c == '"' {
            Lex { quoted: false, ..st }
        } else {
            st
        }
    } else if c == '"' {
        Lex { quoted: true, ..st }
    } else if c == '{' {
        Lex { depth: st.depth + 1, ..st }
    } else if c == '}' && st.depth > 0 {
        Lex { depth: (st.depth - 1) as nat, ..st }
    } else {
        st
    }
}

/// The position just after the character at which a scan that stands in state
/// `st` before position `i` first finds its value complete; `None` where the
/// text ends before that.
pub open spec fn span_end(s: Seq<char>, i: int, st: Lex) -> Option<int>
    decreases s.len() - i,
{
    if 0 <= i < s.len() {
        let next = lex_step(st, s[i]);
        if lex_closed(next) {
            Some(i + 1)
        } else {
            span_end(s, i + 1, next)
        }
    } else {
        None
    }
}

/// What `skip_spaces` returns, said without recursion: everything skipped is
/// whitespace, and what stands at the result is not.
pub proof fn lemma_skip_spaces(s: Seq<char>, i: int)
    requires
        0 <= i <= s.len(),
    ensures
        i <= skip_spaces(s, i) <= s.len(),
        forall|k: int| i <= k < skip_spaces(s, i) ==> is_space(#[trigger] s[k]),
        skip_spaces(s, i) < s.len() ==> !is_space(s[skip_spaces(s, i)]),
    decreases s.len() - i,
{
    if i < s.len() && is_space(s[i]) {
        lemma_skip_spaces(s, i + 1);
    }
}

/// What `skip_digits` returns, said without recursion.
pub proof fn lemma_skip_digits(s: Seq<char>, i: int)
    requires
        0 <= i <= s.len(),
    ensures
        i <= skip_digits(s, i) <= s.len(),
        forall|k: int| i <= k < skip_digits(s, i) ==> is_digit(#[trigger] s[k]),
        skip_digits(s, i) < s.len() ==> !is_digit(s[skip_digits(s, i)]),
    decreases s.len() - i,
{
    if i < s.len() && is_digit(s[i]) {
        lemma_skip_digits(s, i + 1);
    }
}

/// A scan ends after the position where it began, and inside the text.
pub proof fn lemma_span_end_bounds(s: Seq<char>, i: int, st: Lex)
    ensures
        span_end(s, i, st) matches Some(j) ==> 0 <= i < j <= s.len(),
    decreases s.len() - i,
{
    if 0 <= i < s.len() {
        let next = lex_step(st, s[i]);
        if !lex_closed(next) {
            lemma_span_end_bounds(s, i + 1, next);
        }
    }
}

/// A scan reads only the characters it passes: where two texts agree on a
/// window, a scan that ends inside the window of the first ends at the same
/// place in the window of the second.
pub proof fn lemma_span_end_window(
    s1: Seq<char>,
    a: int,
    s2: Seq<char>,
    b: int,
    n: int,
    i: int,
    st: Lex,
)
    requires
        0 <= a <= i <= a + n <= s1.len(),
        0 <= b,
        b + n <= s2.len(),
        forall|t: int| a <= t < a + n ==> #[trigger] s1[t] == s2[t - a + b],
        span_end(s1, i, st) is Some,
        span_end(s1, i, st).unwrap() <= a + n,
    ensures
        span_end(s2, i - a + b, st) == Some(span_end(s1, i, st).unwrap() - a + b),
    decreases a + n - i,
{
    lemma_span_end_bounds(s1, i, st);
    if i < a + n {
        let next = lex_step(st, s1[i]);
        assert(s1[i] == s2[i - a + b]);
        if !lex_closed(next) {
            lemma_span_end_window(s1, a, s2, b, n, i + 1, next);
        }
    }
}

/// A scan that starts inside a string, outside any brace, ends on the quote
/// that closes the string.
pub proof fn lemma_span_end_on_quote(s: Seq<char>, i: int, st: Lex)
    requires
        st.quoted,
        st.depth == 0,
        span_end(s, i, st) is Some,
    ensures
        s[span_end(s, i, st).unwrap() - 1] == '"',
    decreases s.len() - i,
{
    if 0 <= i < s.len() {
        let next = lex_step(st, s[i]);
        if !lex_closed(next) {
            lemma_span_end_on_quote(s, i + 1, next);
        }
    }
}

/// Inside a string, characters that are neither a quote nor a backslash are
/// passed one by one: the scan ends on the first quote after them.
pub proof fn lemma_span_end_plain(s: Seq<char>, i: int, j: int)
    requires
        0 <= i <= j < s.len(),
        forall|k: int| i <= k < j ==> #[trigger] s[k] != '"' && s[k] != '\\',
        s[j] == '"',
    ensures
        span_end(s, i, Lex { depth: 0, quoted: true, escaped: false }) == Some(j + 1),
    decreases j - i,
{
    if i < j {
        assert(s[i] != '"' && s[i] != '\\');
        lemma_span_end_plain(s, i + 1, j);
    }
}

/// The characters of a string, one by one.
pub fn chars_of(s: &str) -> (v: Vec<char>)
    ensures
        v@ == s@,
{
    let mut v: Vec<char> = Vec::new();
    for c in it: s.chars()
        invariant
            it.seq() == s@,
            v@ == it.seq().take(it.index() as int),
    {
        v.push(c);
        assert(it.seq().take(it.index() + 1) =~= it.seq().take(it.index() as int).push(c));
    }
    assert(v@ =~= s@);
    v
}

/// Whether two strings hold the same characters.
pub fn same_text(a: &str, b: &str) -> (r: bool)
    ensures
        r == (a@ == b@),
{
    let x = a.as_bytes();
    let y = b.as_bytes();
    proof {
        encode_utf8_decode_utf8(a@);
        encode_utf8_decode_utf8(b@);
    }
    if x.len() != y.len() {
        return false;
    }
    let mut i: usize = 0;
    while i < x.len()
        invariant
            i <= x.len() == y.len(),
            forall|k: int| 0 <= k < i ==> x@[k] == y@[k],
            x@ == a.spec_bytes(),
            y@ == b.spec_bytes(),
            decode_utf8(a.spec_bytes()) == a@,
            decode_utf8(b.spec_bytes()) == b@,
        decreases x.len() - i,
    {
        if x[i] != y[i] {
            return false;
        }
        i += 1;
    }
    assert(x@ =~= y@);
    true
}

/// Skips whitespace from position `i` on.
pub fn skip_spaces_at(s: &Vec<char>, i: usize) -> (j: usize)
    requires
        i <= s.len(),
    ensures
        j == skip_spaces(s@, i as int),
        i <= j <= s.len(),
{
    let mut j: usize = i;
    while j < s.len() && (s[j] == ' ' || s[j] == '\t' || s[j] == '\n' || s[j] == '\r')
        invariant
            i <= j <= s.len(),
            skip_spaces(s@, i as int) == skip_spaces(s@, j as int),
        decreases s.len() - j,
    {
        j += 1;
    }
    j
}

/// Skips digits from position `i` on.
pub fn skip_digits_at(s: &Vec<char>, i: usize) -> (j: usize)
    requires
        i <= s.len(),
    ensures
        j == skip_digits(s@, i as int),
        i <= j <= s.len(),
{
    let mut j: usize = i;
    while j < s.len() && '0' <= s[j] && s[j] <= '9'
        invariant
            i <= j <= s.len(),
            skip_digits(s@, i as int) == skip_digits(s@, j as int),
        decreases s.len() - j,
    {
        j += 1;
    }
    j
}

/// Finds the end of the value that begins at position `i`.
pub fn span_end_at(s: &Vec<char>, i: usize) -> (r: Option<usize>)
    requires
        i <= s.len(),
    ensures
        r matches Some(j) ==> span_end(s@, i as int, lex_start()) == Some(j as int) && i < j
            <= s.len(),
        r is None ==> span_end(s@, i as int, lex_start()) is None,
{
    let mut j: usize = i;
    let mut depth: usize = 0;
    let mut quoted: bool = false;
    let mut escaped: bool = false;
    while j < s.len()
        invariant
            i <= j <= s.len(),
            depth <= j - i,
            span_end(s@, i as int, lex_start()) == span_end(
                s@,
                j as int,
                Lex { depth: depth as nat, quoted, escaped },
            ),
        decreases s.len() - j,
    {
        let c: char = s[j];
        if quoted {
            if escaped {
                escaped = false;
            } else if c == '\\' {
                escaped = true;
            } else if c == '"' {
                quoted = false;
            }
        } else if c == '"' {
            quoted = true;
        } else if c == '{' {
            depth += 1;
        } else if c == '}' && depth > 0 {
            depth -= 1;
        }
        j += 1;
        if depth == 0 && !quoted {
            return Some(j);
        }
    }
    None
}

} // verus!
