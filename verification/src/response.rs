//! Reading a backend's response: status line, header lines and body.

use vstd::prelude::*;
use vstd::slice::slice_subrange;
use axum::http::HeaderName;
use crate::bytes::copy_range;
use crate::bytes::CR;
use crate::bytes::DIGIT_NINE;
use crate::bytes::DIGIT_ZERO;
use crate::bytes::LF;
use crate::bytes::SPACE;
use crate::bytes::TAB;
use crate::headers::fields;
use crate::headers::Header;

verus! {

/// A backend's response, read from the wire.
#[derive(Debug, Clone, PartialEq, Eq)]
pub struct Response {
    pub status: u16,
    pub headers: Vec<Header>,
    pub body: Vec<u8>,
}

/// Why a backend's response cannot be read.
#[derive(Debug, Clone, Copy, PartialEq, Eq, Structural)]
pub enum ProtocolError {
    /// The first line is no status line with a status from 100 to 999.
    BadStatus,
    /// A header line has a name or a value that no header may have.
    BadHeader,
}

impl View for Response {
    type V = (u16, Seq<(Seq<u8>, Seq<u8>)>, Seq<u8>);

    open spec fn view(&self) -> (u16, Seq<(Seq<u8>, Seq<u8>)>, Seq<u8>) {
        (self.status, fields(self.headers@), self.body@)
    }
}

/// The position of the first occurrence of `pattern` in `text` at or after
/// `from`; the length of `text` where there is none.
pub open spec fn seek(text: Seq<u8>, pattern: Seq<u8>, from: int) -> int
    decreases text.len() - from,
{
    if from < 0 || from >= text.len() || from + pattern.len() > text.len() {
        text.len() as int
    } else if text.subrange(from, from + pattern.len()) == pattern {
        from
    } else {
        seek(text, pattern, from + 1)
    }
}

/// The empty line that ends a head: two line ends in a row.
pub open spec fn blank_line() -> Seq<u8> {
    seq![CR, LF, CR, LF]
}

/// The separator of a header's name and value: colon, space.
pub open spec fn field_separator() -> Seq<u8> {
    seq![58u8, SPACE]
}

/// The bytes of `HTTP/`, which begin a status line.
pub open spec fn protocol_word() -> Seq<u8> {
    seq![72u8, 84u8, 84u8, 80u8, 47u8]
}

/// A line without the carriage return at its end, if it has one.
pub open spec fn chomp(line: Seq<u8>) -> Seq<u8> {
    if line.len() > 0 && line.last() == CR {
        line.drop_last()
    } else {
        line
    }
}

/// The lines of a text: the pieces between line feeds, each without a
/// carriage return at its end. A line feed at the very end opens no line.
pub open spec fn lines(text: Seq<u8>) -> Seq<Seq<u8>>
    decreases text.len(),
{
    let at = seek(text, seq![LF], 0);
    if text.len() == 0 {
        Seq::empty()
    } else if at < 0 || at >= text.len() {
        seq![chomp(text)]
    } else {
        seq![chomp(text.subrange(0, at))] + lines(text.subrange(at + 1, text.len() as int))
    }
}

/// The head of a response: all that stands before the first empty line, or
/// everything where there is none.
pub open spec fn head_of(raw: Seq<u8>) -> Seq<u8> {
    let at = seek(raw, blank_line(), 0);
    if 0 <= at <= raw.len() {
        raw.subrange(0, at)
    } else {
        raw
    }
}

/// The body of a response: all that stands after the first empty line,
/// byte for byte; empty where there is none.
pub open spec fn body_of(raw: Seq<u8>) -> Seq<u8> {
    let at = seek(raw, blank_line(), 0);
    if 0 <= at && at + 4 <= raw.len() {
        raw.subrange(at + 4, raw.len() as int)
    } else {
        Seq::empty()
    }
}

/// Whether a byte separates words: a space or a tab.
pub open spec fn is_blank(b: u8) -> bool {
    b == SPACE || b == TAB
}

/// Whether a byte is a decimal digit.
pub open spec fn is_digit(b: u8) -> bool {
    DIGIT_ZERO <= b && b <= DIGIT_NINE
}

/// The position of the first blank at or after `from`; the length where
/// there is none.
pub open spec fn token_end(line: Seq<u8>, from: int) -> int
    decreases line.len() - from,
{
    if from < 0 || from >= line.len() {
        line.len() as int
    } else if is_blank(line[from]) {
        from
    } else {
        token_end(line, from + 1)
    }
}

/// The position of the first byte at or after `from` that is no blank; the
/// length where there is none.
pub open spec fn token_start(line: Seq<u8>, from: int) -> int
    decreases line.len() - from,
{
    if from < 0 || from >= line.len() {
        line.len() as int
    } else if !is_blank(line[from]) {
        from
    } else {
        token_start(line, from + 1)
    }
}

/// The status that a line states: the line begins with `HTTP/`, and its
/// second blank-separated word is three digits, the first of them not zero.
pub open spec fn status_in(line: Seq<u8>) -> Option<u16> {
    let a = token_start(line, token_end(line, 0));
    let b = token_end(line, a);
    if line.len() >= 5 && line.subrange(0, 5) == protocol_word() && 0 <= a && b == a + 3
        && b <= line.len() && is_digit(line[a]) && line[a] != DIGIT_ZERO && is_digit(line[a + 1])
        && is_digit(line[a + 2]) {
        Some(
            ((line[a] - DIGIT_ZERO) * 100 + (line[a + 1] - DIGIT_ZERO) * 10 + (line[a + 2]
                - DIGIT_ZERO)) as u16,
        )
    } else {
        None
    }
}

/// The header that a line holds: the name before the first colon and space,
/// the value after them. A line without them holds none.
pub open spec fn field_of(line: Seq<u8>) -> Option<(Seq<u8>, Seq<u8>)> {
    let at = seek(line, field_separator(), 0);
    if 0 <= at && at + 2 <= line.len() {
        Some((line.subrange(0, at), line.subrange(at + 2, line.len() as int)))
    } else {
        None
    }
}

/// `field_of` as a function value.
pub open spec fn field_reader() -> spec_fn(Seq<u8>) -> Option<(Seq<u8>, Seq<u8>)> {
    |line: Seq<u8>| field_of(line)
}

/// Whether `HeaderName::from_bytes` accepts the bytes as a header name.
pub uninterp spec fn header_name_accepted(name: Seq<u8>) -> bool;

/// Whether a byte may stand in a header value: a tab, or anything from the
/// space upwards but the delete character.
pub open spec fn is_value_byte(b: u8) -> bool {
    (b >= 32 && b != 127) || b == TAB
}

/// Whether every byte of a value may stand in a header value.
pub open spec fn value_accepted(value: Seq<u8>) -> bool {
    forall|i: int| 0 <= i < value.len() ==> is_value_byte(#[trigger] value[i])
}

/// Whether a line can be taken into a response: it holds no header, or one
/// with an accepted name and an accepted value.
pub open spec fn well_formed(line: Seq<u8>) -> bool {
    match field_of(line) {
        Some(field) => header_name_accepted(field.0) && value_accepted(field.1),
        None => true,
    }
}

/// What a response's bytes say: the status of the first line, the headers
/// of the lines after it, in order, and the body; or the reason why they
/// cannot be read.
pub open spec fn parsed(raw: Seq<u8>) -> Result<
    (u16, Seq<(Seq<u8>, Seq<u8>)>, Seq<u8>),
    ProtocolError,
> {
    let all = lines(head_of(raw));
    if all.len() == 0 {
        Err(ProtocolError::BadStatus)
    } else {
        match status_in(all[0]) {
            None => Err(ProtocolError::BadStatus),
            Some(status) => if forall|i: int| 1 <= i < all.len() ==> well_formed(#[trigger] all[i]) {
                Ok((status, all.skip(1).filter_map(field_reader()), body_of(raw)))
            } else {
                Err(ProtocolError::BadHeader)
            },
        }
    }
}

/// A list of lines as plain byte strings.
pub open spec fn line_views(list: Seq<Vec<u8>>) -> Seq<Seq<u8>> {
    list.map_values(|line: Vec<u8>| line@)
}

/// `HeaderName::from_bytes` of the `http` crate, as `axum` hands it on. The
/// contract claims only that acceptance depends on the bytes alone.
#[verifier::external_body]
fn accepts_header_name(name: &[u8]) -> (accepted: bool)
    ensures
        accepted == header_name_accepted(name@),
{
    HeaderName::from_bytes(name).is_ok()
}

/// Tells whether `pattern` stands in `text` at position `at`.
fn occurs_at(text: &[u8], pattern: &[u8], at: usize) -> (found: bool)
    requires
        at + pattern.len() <= text.len(),
    ensures
        found == (text@.subrange(at as int, at + pattern.len()) == pattern@),
{
    let mut k: usize = 0;
    while k < pattern.len()
        invariant
            k <= pattern.len(),
            at + pattern.len() <= text.len(),
            forall|j: int| 0 <= j < k ==> text@[at + j] == pattern@[j],
        decreases pattern.len() - k,
    {
        if text[at + k] != pattern[k] {
            assert(text@.subrange(at as int, at + pattern.len())[k as int] != pattern@[k as int]);
            return false;
        }
        k += 1;
    }
    assert(text@.subrange(at as int, at + pattern.len()) =~= pattern@);
    true
}

/// Finds the first occurrence of `pattern` in `text`; gives the length of
/// `text` where there is none.
pub fn find(text: &[u8], pattern: &[u8]) -> (at: usize)
    ensures
        at == seek(text@, pattern@, 0),
        at <= text.len(),
        at < text.len() ==> at + pattern.len() <= text.len(),
{
    if pattern.len() > text.len() {
        return text.len();
    }
    let last: usize = text.len() - pattern.len();
    let mut i: usize = 0;
    while i <= last
        invariant
            i <= last + 1,
            last == text.len() - pattern.len(),
            seek(text@, pattern@, 0) == seek(text@, pattern@, i as int),
        decreases last + 1 - i,
    {
        if i < text.len() && occurs_at(text, pattern, i) {
            return i;
        }
        if i == last {
            assert(seek(text@, pattern@, i + 1) == text.len());
            return text.len();
        }
        i += 1;
    }
    text.len()
}

/// Splits a text into its lines.
pub fn split_lines(text: &[u8]) -> (list: Vec<Vec<u8>>)
    ensures
        line_views(list@) == lines(text@),
{
    let feed: Vec<u8> = vec![LF];
    assert(feed@ =~= seq![LF]);
    let mut list: Vec<Vec<u8>> = Vec::new();
    let mut rest: &[u8] = text;
    assert(line_views(list@) =~= Seq::empty());
    while rest.len() > 0
        invariant
            feed@ == seq![LF],
            lines(text@) == line_views(list@) + lines(rest@),
        decreases rest.len(),
    {
        let at: usize = find(rest, feed.as_slice());
        let ghost before = list@;
        let ghost whole = rest@;
        if at >= rest.len() {
            let line: Vec<u8> = chomped(rest);
            list.push(line);
            rest = slice_subrange(rest, rest.len(), rest.len());
            proof {
                assert(lines(rest@) =~= Seq::empty());
                assert(line_views(list@) =~= line_views(before).push(chomp(whole)));
                assert(lines(whole) =~= seq![chomp(whole)]);
            }
        } else {
            let line: Vec<u8> = chomped(slice_subrange(rest, 0, at));
            list.push(line);
            rest = slice_subrange(rest, at + 1, rest.len());
            proof {
                assert(line_views(list@) =~= line_views(before).push(
                    chomp(whole.subrange(0, at as int)),
                ));
                assert(lines(whole) =~= seq![chomp(whole.subrange(0, at as int))] + lines(rest@));
            }
        }
    }
    assert(lines(rest@) =~= Seq::empty());
    list
}

/// Copies a line without the carriage return at its end.
fn chomped(line: &[u8]) -> (out: Vec<u8>)
    ensures
        out@ == chomp(line@),
{
    let n: usize = line.len();
    if n > 0 && line[n - 1] == CR {
        let out: Vec<u8> = copy_range(line, 0, n - 1);
        assert(line@.drop_last() =~= line@.subrange(0, n - 1));
        out
    } else {
        let out: Vec<u8> = copy_range(line, 0, n);
        assert(line@ =~= line@.subrange(0, n as int));
        out
    }
}

/// Tells whether a byte separates words.
fn blank(b: u8) -> (r: bool)
    ensures
        r == is_blank(b),
{
    b == SPACE || b == TAB
}

/// Tells whether a byte is a decimal digit.
fn digit(b: u8) -> (r: bool)
    ensures
        r == is_digit(b),
{
    DIGIT_ZERO <= b && b <= DIGIT_NINE
}

/// Finds the end of the word that begins at `from`.
fn end_of_token(line: &[u8], from: usize) -> (at: usize)
    requires
        from <= line.len(),
    ensures
        at == token_end(line@, from as int),
        from <= at <= line.len(),
{
    let mut i: usize = from;
    while i < line.len() && !blank(line[i])
        invariant
            from <= i <= line.len(),
            token_end(line@, from as int) == token_end(line@, i as int),
        decreases line.len() - i,
    {
        i += 1;
    }
    i
}

/// Finds the next word at or after `from`.
fn start_of_token(line: &[u8], from: usize) -> (at: usize)
    requires
        from <= line.len(),
    ensures
        at == token_start(line@, from as int),
        from <= at <= line.len(),
{
    let mut i: usize = from;
    while i < line.len() && blank(line[i])
        invariant
            from <= i <= line.len(),
            token_start(line@, from as int) == token_start(line@, i as int),
        decreases line.len() - i,
    {
        i += 1;
    }
    i
}

/// Reads the status that a line states, if it is a status line.
pub fn status_of(line: &[u8]) -> (status: Option<u16>)
    ensures
        status == status_in(line@),
{
    let word: Vec<u8> = vec![72u8, 84u8, 84u8, 80u8, 47u8];
    assert(word@ =~= protocol_word());
    if line.len() < 5 || !occurs_at(line, word.as_slice(), 0) {
        return None;
    }
    let first: usize = end_of_token(line, 0);
    let a: usize = start_of_token(line, first);
    let b: usize = end_of_token(line, a);
    if b - a != 3 {
        return None;
    }
    let hundreds: u8 = line[a];
    let tens: u8 = line[a + 1];
    let units: u8 = line[a + 2];
    if !digit(hundreds) || hundreds == DIGIT_ZERO || !digit(tens) || !digit(units) {
        return None;
    }
    let h: u16 = (hundreds - DIGIT_ZERO) as u16;
    let t: u16 = (tens - DIGIT_ZERO) as u16;
    let u: u16 = (units - DIGIT_ZERO) as u16;
    Some(h * 100 + t * 10 + u)
}

/// Splits a line into a header's name and value, if it holds one.
pub fn split_field(line: &[u8]) -> (field: Option<Header>)
    ensures
        match field_of(line@) {
            Some(f) => field matches Some(h) && h@ == f,
            None => field is None,
        },
{
    let separator: Vec<u8> = vec![58u8, SPACE];
    assert(separator@ =~= field_separator());
    let at: usize = find(line, separator.as_slice());
    if at < line.len() {
        let name: Vec<u8> = copy_range(line, 0, at);
        let value: Vec<u8> = copy_range(line, at + 2, line.len());
        Some(Header { name, value })
    } else {
        None
    }
}

/// Tells whether every byte of a value may stand in a header value.
pub fn accepts_value(value: &[u8]) -> (accepted: bool)
    ensures
        accepted == value_accepted(value@),
{
    let mut i: usize = 0;
    while i < value.len()
        invariant
            i <= value.len(),
            forall|j: int| 0 <= j < i ==> is_value_byte(#[trigger] value@[j]),
        decreases value.len() - i,
    {
        let b: u8 = value[i];
        if !((b >= 32 && b != 127) || b == TAB) {
            assert(!is_value_byte(value@[i as int]));
            return false;
        }
        i += 1;
    }
    true
}

/// Reads a backend's response from the bytes received. The body is taken
/// as it stands; a first line that states no status, or a header line with
/// a name or value that cannot be relayed, makes the whole response
/// unreadable.
pub fn parse_response(raw: &[u8]) -> (r: Result<Response, ProtocolError>)
    ensures
        match parsed(raw@) {
            Ok(p) => r matches Ok(response) && response@ == p,
            Err(e) => r == Err::<Response, ProtocolError>(e),
        },
{
    let gap: Vec<u8> = vec![CR, LF, CR, LF];
    assert(gap@ =~= blank_line());
    let cut: usize = find(raw, gap.as_slice());
    let all: Vec<Vec<u8>> = split_lines(slice_subrange(raw, 0, cut));
    let body: Vec<u8> = if cut < raw.len() {
        copy_range(raw, cut + 4, raw.len())
    } else {
        Vec::new()
    };
    assert(body@ =~= body_of(raw@));
    let ghost texts = lines(head_of(raw@));
    assert(line_views(all@) == texts);
    if all.len() == 0 {
        return Err(ProtocolError::BadStatus);
    }
    assert(all@[0]@ == texts[0]);
    let status: u16 = match status_of(all[0].as_slice()) {
        Some(code) => code,
        None => {
            return Err(ProtocolError::BadStatus);
        },
    };
    let mut headers: Vec<Header> = Vec::new();
    let mut i: usize = 1;
    proof {
        assert(texts.subrange(1, 1) =~= Seq::empty());
        assert(fields(headers@) =~= Seq::empty());
    }
    while i < all.len()
        invariant
            1 <= i <= all.len(),
            line_views(all@) == texts,
            texts == lines(head_of(raw@)),
            texts.len() == all.len(),
            status_in(texts[0]) == Some(status),
            body@ == body_of(raw@),
            forall|j: int| 1 <= j < i ==> well_formed(#[trigger] texts[j]),
            fields(headers@) == texts.subrange(1, i as int).filter_map(field_reader()),
        decreases all.len() - i,
    {
        assert(all@[i as int]@ == texts[i as int]);
        let ghost before = headers@;
        let ghost shorter = texts.subrange(1, i as int);
        let ghost longer = texts.subrange(1, i + 1);
        proof {
            assert(longer.drop_last() =~= shorter);
            assert(longer.last() == texts[i as int]);
        }
        match split_field(all[i].as_slice()) {
            Some(header) => {
                if !accepts_header_name(header.name.as_slice()) || !accepts_value(
                    header.value.as_slice(),
                ) {
                    assert(!well_formed(texts[i as int]));
                    return Err(ProtocolError::BadHeader);
                }
                let ghost field = header@;
                headers.push(header);
                proof {
                    assert(fields(headers@) =~= fields(before).push(field));
                    assert(longer.filter_map(field_reader()) =~= shorter.filter_map(field_reader())
                        + seq![field]);
                }
            },
            None => {},
        }
        i += 1;
    }
    assert(texts.subrange(1, all.len() as int) =~= texts.skip(1));
    Ok(Response { status, headers, body })
}

/// Law of first occurrence: `seek` gives a position at or after `from`
/// where the pattern stands, no position between `from` and that one
/// holds the pattern, and where `seek` gives the length the pattern stands
/// nowhere from `from` on.
pub proof fn lemma_seek_is_first(text: Seq<u8>, pattern: Seq<u8>, from: int)
    requires
        0 <= from <= text.len(),
    ensures
        from <= seek(text, pattern, from) <= text.len(),
        seek(text, pattern, from) < text.len() ==> seek(text, pattern, from) + pattern.len()
            <= text.len() && text.subrange(
            seek(text, pattern, from),
            seek(text, pattern, from) + pattern.len(),
        ) == pattern,
        forall|j: int|
            from <= j < seek(text, pattern, from) && j + pattern.len() <= text.len()
                ==> #[trigger] text.subrange(j, j + pattern.len()) != pattern,
    decreases text.len() - from,
{
    if from < text.len() && from + pattern.len() <= text.len() && text.subrange(
        from,
        from + pattern.len(),
    ) != pattern {
        lemma_seek_is_first(text, pattern, from + 1);
    }
}

/// An occurrence that `seek` finds is still the first when more bytes
/// follow the text.
pub proof fn lemma_seek_ignores_what_follows(
    text: Seq<u8>,
    more: Seq<u8>,
    pattern: Seq<u8>,
    from: int,
)
    requires
        0 <= from <= text.len(),
        seek(text, pattern, from) < text.len(),
    ensures
        seek(text + more, pattern, from) == seek(text, pattern, from),
    decreases text.len() - from,
{
    let longer = text + more;
    if from < text.len() && from + pattern.len() <= text.len() {
        assert(longer.subrange(from, from + pattern.len()) =~= text.subrange(
            from,
            from + pattern.len(),
        ));
        if text.subrange(from, from + pattern.len()) != pattern {
            lemma_seek_ignores_what_follows(text, more, pattern, from + 1);
        }
    }
}

/// Law of the exact body: where a head is followed by the empty line and
/// a body, and that empty line is the first one, reading gives back the
/// head and the body byte for byte, whatever the body holds and however
/// long it is.
pub proof fn lemma_body_byte_exact(head: Seq<u8>, body: Seq<u8>)
    requires
        seek(head + blank_line(), blank_line(), 0) == head.len(),
    ensures
        body_of(head + blank_line() + body) == body,
        head_of(head + blank_line() + body) == head,
{
    let framed = head + blank_line();
    let raw = framed + body;
    assert(framed.len() == head.len() + 4);
    lemma_seek_ignores_what_follows(framed, body, blank_line(), 0);
    assert(raw.subrange(head.len() as int + 4, raw.len() as int) =~= body);
    assert(raw.subrange(0, head.len() as int) =~= head);
}

/// Law of streaming: once the empty line has arrived, the head is settled,
/// and every byte that arrives later is body, appended as it comes.
pub proof fn lemma_later_bytes_are_body(seen: Seq<u8>, more: Seq<u8>)
    requires
        seek(seen, blank_line(), 0) < seen.len(),
    ensures
        head_of(seen + more) == head_of(seen),
        body_of(seen + more) == body_of(seen) + more,
        parsed(seen + more) is Ok <==> parsed(seen) is Ok,
        parsed(seen) matches Ok(early) ==> parsed(seen + more) == Ok::<
            (u16, Seq<(Seq<u8>, Seq<u8>)>, Seq<u8>),
            ProtocolError,
        >((early.0, early.1, early.2 + more)),
{
    let whole = seen + more;
    let at = seek(seen, blank_line(), 0);
    lemma_seek_is_first(seen, blank_line(), 0);
    lemma_seek_ignores_what_follows(seen, more, blank_line(), 0);
    assert(whole.subrange(0, at) =~= seen.subrange(0, at));
    assert(whole.subrange(at + 4, whole.len() as int) =~= seen.subrange(at + 4, seen.len() as int)
        + more);
}

} // verus!
