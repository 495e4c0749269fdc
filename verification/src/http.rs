//! Server-sent events, and what the headers of a response say.
use vstd::prelude::*;
use vstd::string::*;
use vstd::utf8::*;

use crate::text::{cut, parse_u64, same_text, strip_prefix, stripped, trim, trimmed};
use crate::text::{decimal, u64_of, white};

verus! {

/// `String::from_utf8`: the characters the bytes encode, or nothing where they
/// are not UTF-8.
#[verifier::external_body]
fn utf8_text(bytes: Vec<u8>) -> (r: Option<String>)
    ensures
        match r {
            Some(text) => valid_utf8(bytes@) && text@ == decode_utf8(bytes@),
            None => !valid_utf8(bytes@),
        },
{
    String::from_utf8(bytes).ok()
}

/// Reassembles server-sent events from bytes that arrive in pieces.
#[derive(Debug)]
pub struct SseFrames {
    buffer: Vec<u8>,
    event: String,
    sentinel: Option<String>,
    done: bool,
}

/// The state of an [`SseFrames`].
#[verifier::ext_equal]
pub struct SseView {
    /// The bytes not yet read as lines.
    pub buffer: Seq<u8>,
    /// The data of the event so far.
    pub event: Seq<char>,
    /// The payload that ends the stream.
    pub sentinel: Option<Seq<char>>,
    /// Whether the stream has ended.
    pub done: bool,
}

impl View for SseFrames {
    type V = SseView;

    closed spec fn view(&self) -> SseView {
        SseView {
            buffer: self.buffer@,
            event: self.event@,
            sentinel: self.sentinel.deep_view(),
            done: self.done,
        }
    }
}

/// The line feed.
pub open spec fn newline() -> u8 {
    10
}

/// Where the first line ends, or the number of bytes where none does.
pub open spec fn line_end(bytes: Seq<u8>) -> nat
    decreases bytes.len(),
{
    if bytes.len() == 0 {
        0
    } else if bytes[0] == newline() {
        0
    } else {
        1 + line_end(bytes.drop_first())
    }
}

/// There is a whole line to read.
pub open spec fn has_line(state: SseView) -> bool {
    !state.done && line_end(state.buffer) < state.buffer.len()
}

/// A line without the carriage return at its end, if any.
pub open spec fn chomped(line: Seq<char>) -> Seq<char> {
    if line.len() > 0 && line.last() == '\r' {
        line.drop_last()
    } else {
        line
    }
}

/// The value of a data field: one space after the colon is not part of it.
pub open spec fn data_value(rest: Seq<char>) -> Seq<char> {
    if rest.len() > 0 && rest[0] == ' ' {
        rest.drop_first()
    } else {
        rest
    }
}

/// Ends the event: hands out its payload, unless that is empty or the sentinel.
pub open spec fn dispatched(state: SseView) -> (Option<Seq<char>>, SseView) {
    let payload = trimmed(state.event);
    let cleared = SseView { event: Seq::empty(), ..state };
    if payload.len() == 0 {
        (None, cleared)
    } else if state.sentinel == Some(payload) {
        (None, SseView { done: true, ..cleared })
    } else {
        (Some(payload), cleared)
    }
}

/// What reading a line gives: a payload, a line that is not text, or nothing.
pub type Item = Result<Seq<char>, ()>;

/// Reads one line.
pub open spec fn step(state: SseView) -> (Option<Item>, SseView) {
    let end = line_end(state.buffer) as int;
    let bytes = state.buffer.take(end);
    let rest = SseView { buffer: state.buffer.skip(end + 1), ..state };
    if !valid_utf8(bytes) {
        (Some(Err(())), rest)
    } else {
        let line = chomped(decode_utf8(bytes));
        if line.len() == 0 {
            let (payload, after) = dispatched(rest);
            (
                match payload {
                    Some(payload) => Some(Ok(payload)),
                    None => None,
                },
                after,
            )
        } else {
            match stripped(line, "data:"@) {
                Some(value) => {
                    let head = if state.event.len() > 0 {
                        state.event.push('\n')
                    } else {
                        state.event
                    };
                    (None, SseView { event: head + data_value(value), ..rest })
                },
                None => (None, rest),
            }
        }
    }
}

/// Reads lines up to the next item.
pub open spec fn next(state: SseView) -> (Option<Item>, SseView)
    decreases state.buffer.len(),
{
    if !has_line(state) {
        (None, state)
    } else {
        let (item, after) = step(state);
        match item {
            Some(item) => (Some(item), after),
            None => next(after),
        }
    }
}

/// Reads every line there is: all items in order, and the state after them.
pub open spec fn drain(state: SseView) -> (Seq<Item>, SseView)
    decreases state.buffer.len(),
{
    if !has_line(state) {
        (Seq::empty(), state)
    } else {
        let (item, after) = step(state);
        let (items, last) = drain(after);
        match item {
            Some(item) => (seq![item] + items, last),
            None => (items, last),
        }
    }
}

/// The state with more bytes read.
pub open spec fn pushed(state: SseView, bytes: Seq<u8>) -> SseView {
    SseView { buffer: state.buffer + bytes, ..state }
}

/// A line that is not UTF-8.
#[derive(Debug, Clone, Copy, PartialEq, Eq, Structural)]
pub struct NotText;

/// The value of what `next_payload` returns.
pub open spec fn item_of(result: Result<Option<String>, NotText>) -> Option<Item> {
    match result {
        Ok(Some(payload)) => Some(Ok(payload@)),
        Ok(None) => None,
        Err(_) => Some(Err(())),
    }
}

impl SseFrames {
    /// Nothing read yet. The payload `sentinel`, if there is one, ends the
    /// stream.
    pub fn new(sentinel: Option<&str>) -> (r: Self)
        ensures
            r@ == (SseView {
                buffer: Seq::empty(),
                event: Seq::empty(),
                sentinel: sentinel.deep_view(),
                done: false,
            }),
    {
        SseFrames {
            buffer: Vec::new(),
            event: String::new(),
            sentinel: match sentinel {
                Some(text) => Some(text.to_owned()),
                None => None,
            },
            done: false,
        }
    }

    /// Whether the sentinel has come.
    pub fn done(&self) -> (r: bool)
        ensures
            r == self@.done,
    {
        self.done
    }

    /// Takes more bytes in.
    pub fn push(&mut self, bytes: &[u8])
        ensures
            final(self)@ == pushed(old(self)@, bytes@),
    {
        self.buffer.extend_from_slice(bytes);
        assert(self.buffer@ =~= old(self).buffer@ + bytes@);
    }

    /// Reads on to the next payload. Nothing means that more bytes are needed or
    /// that the stream has ended.
    pub fn next_payload(&mut self) -> (r: Result<Option<String>, NotText>)
        ensures
            item_of(r) == next(old(self)@).0,
            final(self)@ == next(old(self)@).1,
    {
        loop
            invariant
                next(self@) == next(old(self)@),
            decreases self@.buffer.len(),
        {
            if self.done {
                return Ok(None);
            }
            let ghost before = self@;
            let Some(line) = self.take_line() else {
                return Ok(None);
            };
            proof {
                lemma_line_end(before.buffer);
            }
            let Some(line) = utf8_text(line) else {
                return Err(NotText);
            };
            let line = chomp(line.as_str());
            if line.as_str().is_empty() {
                if let Some(payload) = self.dispatch() {
                    return Ok(Some(payload));
                }
            } else if let Some(value) = strip_prefix(line.as_str(), "data:") {
                if !self.event.as_str().is_empty() {
                    self.event.append("\n");
                    proof {
                        reveal_strlit("\n");
                    }
                    assert(self.event@ =~= before.event.push('\n'));
                }
                let value = read_data_value(value.as_str());
                self.event.append(value.as_str());
            }
        }
    }

    /// Ends the event that the stream broke off in.
    pub fn flush(&mut self) -> (r: Option<String>)
        ensures
            r.deep_view() == dispatched(old(self)@).0,
            final(self)@ == dispatched(old(self)@).1,
    {
        self.dispatch()
    }

    /// Takes the first whole line out, without its line feed.
    fn take_line(&mut self) -> (r: Option<Vec<u8>>)
        ensures
            match r {
                Some(line) => {
                    let end = line_end(old(self)@.buffer) as int;
                    &&& end < old(self)@.buffer.len()
                    &&& line@ == old(self)@.buffer.take(end)
                    &&& final(self)@ == (SseView {
                        buffer: old(self)@.buffer.skip(end + 1),
                        ..old(self)@
                    })
                },
                None => {
                    &&& line_end(old(self)@.buffer) >= old(self)@.buffer.len()
                    &&& final(self)@ == old(self)@
                },
            },
    {
        let ghost bytes = self.buffer@;
        let n: usize = self.buffer.len();
        let mut end: usize = 0;
        assert(bytes.skip(0) =~= bytes);
        while end < n && self.buffer[end] != 10
            invariant
                bytes == self.buffer@,
                end <= n == bytes.len(),
                line_end(bytes) == end + line_end(bytes.skip(end as int)),
            decreases n - end,
        {
            assert(bytes.skip(end as int).drop_first() =~= bytes.skip(end + 1));
            end = end + 1;
        }
        if end == n {
            return None;
        }
        let mut line: Vec<u8> = Vec::new();
        for i in 0..end
            invariant
                bytes == self.buffer@,
                end < bytes.len(),
                line@ == bytes.take(i as int),
        {
            line.push(self.buffer[i]);
            assert(line@ =~= bytes.take(i + 1));
        }
        let mut rest: Vec<u8> = Vec::new();
        for i in end + 1..n
            invariant
                bytes == self.buffer@,
                end < n == bytes.len(),
                rest@ == bytes.subrange(end + 1, i as int),
        {
            rest.push(self.buffer[i]);
            assert(rest@ =~= bytes.subrange(end + 1, i + 1));
        }
        assert(rest@ =~= bytes.skip(end + 1));
        self.buffer = rest;
        Some(line)
    }

    /// Ends the event.
    fn dispatch(&mut self) -> (r: Option<String>)
        ensures
            r.deep_view() == dispatched(old(self)@).0,
            final(self)@ == dispatched(old(self)@).1,
    {
        let payload = trim(self.event.as_str());
        self.event = String::new();
        if payload.as_str().is_empty() {
            return None;
        }
        let ends = match &self.sentinel {
            Some(sentinel) => same_text(sentinel.as_str(), payload.as_str()),
            None => false,
        };
        if ends {
            self.done = true;
            return None;
        }
        Some(payload)
    }
}

fn chomp(line: &str) -> (r: String)
    ensures
        r@ == chomped(line@),
{
    let n: usize = line.unicode_len();
    if n > 0 && line.get_char(n - 1) == '\r' {
        let r = cut(line, 0, n - 1);
        assert(r@ =~= line@.drop_last());
        r
    } else {
        line.to_owned()
    }
}

fn read_data_value(rest: &str) -> (r: String)
    ensures
        r@ == data_value(rest@),
{
    let n: usize = rest.unicode_len();
    if n > 0 && rest.get_char(0) == ' ' {
        let r = cut(rest, 1, n);
        assert(r@ =~= rest@.drop_first());
        r
    } else {
        rest.to_owned()
    }
}

proof fn lemma_line_end(bytes: Seq<u8>)
    ensures
        line_end(bytes) <= bytes.len(),
    decreases bytes.len(),
{
    if bytes.len() > 0 && bytes[0] != newline() {
        lemma_line_end(bytes.drop_first());
    }
}

proof fn lemma_line_end_extends(bytes: Seq<u8>, more: Seq<u8>)
    requires
        line_end(bytes) < bytes.len(),
    ensures
        line_end(bytes + more) == line_end(bytes),
    decreases bytes.len(),
{
    if bytes[0] != newline() {
        lemma_line_end_extends(bytes.drop_first(), more);
        assert((bytes + more).drop_first() =~= bytes.drop_first() + more);
    }
}

/// Bytes that arrive after a line is whole do not change how it is read.
proof fn lemma_step_extends(state: SseView, more: Seq<u8>)
    requires
        has_line(state),
    ensures
        has_line(pushed(state, more)),
        step(pushed(state, more)).0 == step(state).0,
        step(pushed(state, more)).1 == pushed(step(state).1, more),
{
    lemma_line_end_extends(state.buffer, more);
    let end = line_end(state.buffer) as int;
    let longer = pushed(state, more);
    assert(longer.buffer.take(end) =~= state.buffer.take(end));
    assert(longer.buffer.skip(end + 1) =~= state.buffer.skip(end + 1) + more);
    assert(step(longer).1 =~= pushed(step(state).1, more));
}

/// Where the bytes are cut does not matter: reading what came first and then
/// what came after it gives the same items, and leaves the same state, as
/// reading both at once.
pub proof fn law_read_boundaries_do_not_matter(state: SseView, first: Seq<u8>, second: Seq<u8>)
    ensures
        ({
            let (early, between) = drain(pushed(state, first));
            let (late, last) = drain(pushed(between, second));
            drain(pushed(state, first + second)) == (early + late, last)
        }),
{
    assert(pushed(pushed(state, first), second) =~= pushed(state, first + second));
    lemma_drain_extends(pushed(state, first), second);
}

proof fn lemma_drain_extends(state: SseView, more: Seq<u8>)
    ensures
        ({
            let (early, between) = drain(state);
            let (late, last) = drain(pushed(between, more));
            drain(pushed(state, more)) == (early + late, last)
        }),
    decreases state.buffer.len(),
{
    if has_line(state) {
        lemma_step_extends(state, more);
        let (item, after) = step(state);
        lemma_drain_extends(after, more);
        let (rest, between) = drain(after);
        let (late, last) = drain(pushed(between, more));
        match item {
            Some(item) => {
                assert((seq![item] + rest) + late =~= seq![item] + (rest + late));
            },
            None => {},
        }
    } else {
        let late = drain(pushed(state, more)).0;
        assert(Seq::<Item>::empty() + late =~= late);
    }
}

/// `drain` is what calling `next` until it has nothing gives.
pub proof fn law_next_payloads_are_drained(state: SseView)
    ensures
        drain(state) == (match next(state) {
            (Some(item), after) => (seq![item] + drain(after).0, drain(after).1),
            (None, after) => (Seq::empty(), after),
        }),
    decreases state.buffer.len(),
{
    if has_line(state) {
        lemma_line_end(state.buffer);
        let (item, after) = step(state);
        if item is None {
            law_next_payloads_are_drained(after);
        }
    }
}

/// Once the sentinel has come, nothing more is read.
pub proof fn law_the_sentinel_ends_the_stream(state: SseView, bytes: Seq<u8>)
    requires
        state.done,
    ensures
        next(pushed(state, bytes)) == (None::<Item>, pushed(state, bytes)),
{
}

/// No payload is empty, has white space at its ends or is the sentinel.
pub proof fn law_payloads_are_trimmed_and_no_sentinel(state: SseView)
    ensures
        dispatched(state).0 matches Some(payload) ==> payload.len() > 0 && payload == trimmed(
            state.event,
        ) && state.sentinel != Some(payload),
{
}

/// What the headers and the body of a response say.
#[derive(Debug, PartialEq)]
pub struct ResponseParts {
    pub status: u16,
    pub body: String,
    pub retry_after: Option<u64>,
    pub request_id: Option<String>,
}

/// The value of the first header of a name.
pub open spec fn header(headers: Seq<(Seq<char>, Seq<char>)>, name: Seq<char>) -> Option<Seq<char>>
    decreases headers.len(),
{
    if headers.len() == 0 {
        None
    } else if headers[0].0 == name {
        Some(headers[0].1)
    } else {
        header(headers.drop_first(), name)
    }
}

/// Finds the first header of a name, which is in lower case.
pub fn find_header(headers: &Vec<(String, String)>, name: &str) -> (r: Option<String>)
    ensures
        r.deep_view() == header(headers.deep_view(), name@),
{
    let ghost all = headers.deep_view();
    assert(all.skip(0) =~= all);
    for i in 0..headers.len()
        invariant
            all == headers.deep_view(),
            header(all, name@) == header(all.skip(i as int), name@),
    {
        let ghost here = all.skip(i as int);
        assert(here.drop_first() =~= all.skip(i + 1));
        if same_text(headers[i].0.as_str(), name) {
            return Some(headers[i].1.clone());
        }
    }
    None
}

/// The number of seconds a `retry-after` header gives; its form as a date is
/// not read.
pub open spec fn retry_after_of(value: Seq<char>) -> Option<u64> {
    u64_of(trimmed(value))
}

/// Reads a `retry-after` header.
pub fn parse_retry_after(value: &str) -> (r: Option<u64>)
    ensures
        r == retry_after_of(value@),
{
    let value = trim(value);
    parse_u64(value.as_str())
}

/// Reads the parts of a response that an error is told from. Header names are
/// in lower case.
pub fn read_response(status: u16, headers: &Vec<(String, String)>, body: String) -> (r:
    ResponseParts)
    ensures
        r.status == status,
        r.body@ == body@,
        r.retry_after == (match header(headers.deep_view(), "retry-after"@) {
            Some(value) => retry_after_of(value),
            None => None,
        }),
        r.request_id.deep_view() == (match header(headers.deep_view(), "x-request-id"@) {
            Some(id) => Some(id),
            None => header(headers.deep_view(), "request-id"@),
        }),
{
    let retry_after: Option<u64> = match find_header(headers, "retry-after") {
        Some(value) => parse_retry_after(value.as_str()),
        None => None,
    };
    let request_id = match find_header(headers, "x-request-id") {
        Some(id) => Some(id),
        None => find_header(headers, "request-id"),
    };
    ResponseParts { status, body, retry_after, request_id }
}

/// A whole line that comes in, as it is read.
proof fn lemma_one_line(state: SseView, line: Seq<u8>)
    requires
        !state.done,
        state.buffer.len() == 0,
        !line.contains(10u8),
    ensures
        has_line(pushed(state, line.push(10u8))),
        pushed(state, line.push(10u8)).buffer.take(
            line_end(pushed(state, line.push(10u8)).buffer) as int,
        ) == line,
        pushed(state, line.push(10u8)).buffer.skip(
            line_end(pushed(state, line.push(10u8)).buffer) as int + 1,
        ) == Seq::<u8>::empty(),
{
    let bytes = line.push(10u8);
    assert(state.buffer + bytes =~= bytes);
    lemma_line_end_at(bytes, line.len());
    assert(bytes.take(line.len() as int) =~= line);
    assert(bytes.skip(line.len() as int + 1) =~= Seq::<u8>::empty());
}

proof fn lemma_line_end_at(bytes: Seq<u8>, n: nat)
    requires
        n < bytes.len(),
        bytes[n as int] == 10,
        forall|i: int| 0 <= i < n ==> bytes[i] != 10,
    ensures
        line_end(bytes) == n,
    decreases bytes.len(),
{
    if n > 0 {
        assert(bytes.drop_first()[n - 1] == bytes[n as int]);
        assert forall|i: int| 0 <= i < n - 1 implies bytes.drop_first()[i] != 10 by {
            assert(bytes.drop_first()[i] == bytes[i + 1]);
        }
        lemma_line_end_at(bytes.drop_first(), (n - 1) as nat);
    }
}

/// What a line of an event stream says. A line of data adds what follows its name,
/// without one space there, to the event, on a line of its own. An empty line ends
/// the event: its data is handed out without white space at its ends, unless that
/// is nothing or the word that ends the stream. Any other line is passed over. A
/// carriage return at the end of a line is no part of it.
#[verifier::rlimit(40)]
pub proof fn law_what_a_line_of_events_says(
    state: SseView,
    line: Seq<u8>,
    text: Seq<char>,
    value: Seq<char>,
)
    requires
        !state.done,
        state.buffer.len() == 0,
        !line.contains(10u8),
        valid_utf8(line),
        decode_utf8(line) == text || decode_utf8(line) == text.push('\r'),
        text.len() == 0 || text.last() != '\r',
    ensures
        ({
            let (item, after) = next(pushed(state, line.push(10u8)));
            let payload = trimmed(state.event);
            let ended = state.sentinel == Some(payload);
            &&& after.buffer.len() == 0
            &&& after.sentinel == state.sentinel
            &&& text == "data: "@ + value || (text == "data:"@ + value && (value.len() == 0
                || value[0] != ' ')) ==> {
                &&& item is None
                &&& !after.done
                &&& state.event.len() == 0 ==> after.event == value
                &&& state.event.len() > 0 ==> after.event == state.event.push('\n') + value
            }
            &&& text.len() == 0 ==> {
                &&& after.event.len() == 0
                &&& after.done == (payload.len() > 0 && ended)
                &&& item == (if payload.len() == 0 || ended {
                    None
                } else {
                    Some(Ok::<Seq<char>, ()>(payload))
                })
            }
            &&& text.len() > 0 && (text.len() < 5 || text.take(5) != "data:"@) ==> item is None
                && after == state
        }),
{
    reveal_strlit("data:");
    reveal_strlit("data: ");
    let start = pushed(state, line.push(10u8));
    lemma_one_line(state, line);
    assert(text.push('\r').drop_last() =~= text);
    assert(chomped(decode_utf8(line)) == text);
    if text == "data: "@ + value {
        assert("data: "@ =~= "data:"@ + seq![' ']);
        assert(text =~= "data:"@ + (seq![' '] + value));
        crate::text::law_a_prefix_is_taken_off(text, "data:"@, seq![' '] + value);
        assert((seq![' '] + value).drop_first() =~= value);
    } else if text == "data:"@ + value {
        crate::text::law_a_prefix_is_taken_off(text, "data:"@, value);
    }
    if state.event.len() == 0 {
        assert(state.event + value =~= value);
    }
    let (item, after) = step(start);
    assert(after.buffer.len() == 0);
    assert(!has_line(after));
    assert(next(after) == (None::<Item>, after));
    assert(state.buffer =~= Seq::<u8>::empty());
}

/// A line that is not text is told as such, and the stream goes on after it.
pub proof fn law_a_line_that_is_no_text_is_told(state: SseView, line: Seq<u8>)
    requires
        !state.done,
        state.buffer.len() == 0,
        !line.contains(10u8),
        !valid_utf8(line),
    ensures
        next(pushed(state, line.push(10u8))) == (Some(Err::<Seq<char>, ()>(())), state),
{
    lemma_one_line(state, line);
    assert(state.buffer =~= Seq::<u8>::empty());
}

/// Without the end of a line nothing is read.
pub proof fn law_half_a_line_waits(state: SseView, bytes: Seq<u8>)
    requires
        state.buffer.len() == 0,
        !bytes.contains(10u8),
    ensures
        next(pushed(state, bytes)) == (None::<Item>, pushed(state, bytes)),
{
    assert(state.buffer + bytes =~= bytes);
    lemma_no_line(bytes);
}

proof fn lemma_no_line(bytes: Seq<u8>)
    requires
        forall|i: int| 0 <= i < bytes.len() ==> bytes[i] != 10,
    ensures
        line_end(bytes) == bytes.len(),
    decreases bytes.len(),
{
    if bytes.len() > 0 {
        assert forall|i: int| 0 <= i < bytes.drop_first().len() implies bytes.drop_first()[i]
            != 10 by {
            assert(bytes.drop_first()[i] == bytes[i + 1]);
        }
        lemma_no_line(bytes.drop_first());
    }
}

/// A header is found by its name, and where several have that name it is the first;
/// seconds to wait are read from digits, with or without white space about them.
pub proof fn law_the_first_header_of_a_name_counts(
    headers: Seq<(Seq<char>, Seq<char>)>,
    name: Seq<char>,
    first: (Seq<char>, Seq<char>),
    seconds: u64,
)
    ensures
        header(Seq::empty(), name) is None,
        first.0 == name ==> header(seq![first] + headers, name) == Some(first.1),
        first.0 != name ==> header(seq![first] + headers, name) == header(headers, name),
        retry_after_of(decimal(seconds as nat)) == Some(seconds),
        retry_after_of(seq![' '] + decimal(seconds as nat)) == Some(seconds),
{
    let all = seq![first] + headers;
    assert(all.drop_first() =~= headers);
    let text = decimal(seconds as nat);
    crate::text::law_a_decimal_reads_back(seconds);
    crate::text::lemma_decimal_digits(seconds as nat);
    assert(!white(text[0]) && !white(text.last()));
    assert(trimmed(text) == text);
    assert((seq![' '] + text).drop_first() =~= text);
}

} // verus!
