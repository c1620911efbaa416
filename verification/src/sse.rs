//! Incremental parser for Server-Sent Events streams.
//!
//! Bytes arrive from the socket in arbitrary pieces: one read may carry half a
//! line, several whole events, or a line terminator split down the middle. The
//! parser buffers the unconsumed tail and yields events as they complete.
//!
//! It is a pure bytes-to-events transform with no clock inside it. There is no
//! failure mode: incomplete input is `None`, not an error. Push more bytes and
//! ask again. Well-framed garbage passes straight through as `Event::Data`.
//!
//! The model: a parser is its unconsumed bytes and the data lines gathered for
//! the event under construction. `next_spec` says what one call of
//! `Parser::next_event` does to that state, `drain_spec` what draining until
//! `None` yields, and `feed_spec` what pushing a sequence of reads (draining
//! after each) yields. The laws at the end relate the three: how the bytes are
//! split into reads never changes the events.

use vstd::prelude::*;

use vstd::utf8::*;

use crate::text::{decode_lossy, find_char, line_text, str_eq};

verus! {

/// Line feed.
pub const LF: u8 = 10;

/// Carriage return.
pub const CR: u8 = 13;

/// Sentinel payload marking the end of an OpenAI-compatible stream.
pub const DONE_PAYLOAD: &'static str = "[DONE]";

/// One dispatched SSE event.
#[derive(Clone, Debug, PartialEq, Eq)]
pub enum Event {
    /// An event's data payload, uninterpreted. For OpenAI-compatible servers
    /// this is the JSON of one streaming chunk.
    Data(String),
    /// The `[DONE]` sentinel that terminates an OpenAI stream.
    Done,
}

/// The mathematical value of an [`Event`].
pub enum EventView {
    Data(Seq<char>),
    Done,
}

impl View for Event {
    type V = EventView;

    open spec fn view(&self) -> EventView {
        match self {
            Event::Data(payload) => EventView::Data(payload@),
            Event::Done => EventView::Done,
        }
    }
}

/// Incremental SSE parser.
///
/// Feed it bytes with [`Parser::push`], then drain completed events with
/// [`Parser::next_event`] until it returns `None`.
#[derive(Debug)]
pub struct Parser {
    /// Bytes received but not yet formed into a complete line.
    buf: Vec<u8>,
    /// Data lines accumulated for the event currently being assembled. Each
    /// line contributes its value plus a trailing `\n`.
    data: String,
}

impl View for Parser {
    /// Unconsumed bytes, and the data gathered for the pending event.
    type V = (Seq<u8>, Seq<char>);

    closed spec fn view(&self) -> (Seq<u8>, Seq<char>) {
        (self.buf@, self.data@)
    }
}

// ---------------------------------------------------------------------------
// The model
// ---------------------------------------------------------------------------

/// SSE line terminators are `\n`, `\r\n` and a lone `\r`.
pub open spec fn is_eol(b: u8) -> bool {
    b == LF || b == CR
}

/// `i` is the position of the first `\n` or `\r` in `buf`.
pub open spec fn is_first_eol(buf: Seq<u8>, i: int) -> bool {
    &&& 0 <= i < buf.len()
    &&& is_eol(buf[i])
    &&& forall|j: int| 0 <= j < i ==> !is_eol(#[trigger] buf[j])
}

/// Where the first complete line of `buf` ends, as `(line length, terminator
/// length)`; `None` while no complete line is buffered.
///
/// A `\r` as the final byte is ambiguous (a lone `\r`, or the first half of a
/// `\r\n` still in flight) and counts as incomplete.
pub open spec fn terminator(buf: Seq<u8>) -> Option<(int, int)> {
    if exists|i: int| is_first_eol(buf, i) {
        let i = choose|i: int| is_first_eol(buf, i);
        if buf[i] == LF {
            Some((i, 1))
        } else if i + 1 == buf.len() {
            None
        } else if buf[i + 1] == LF {
            Some((i, 2))
        } else {
            Some((i, 1))
        }
    } else {
        None
    }
}

/// `i` is the position of the first `c` in `s`.
pub open spec fn is_first_char(s: Seq<char>, c: char, i: int) -> bool {
    &&& 0 <= i < s.len()
    &&& s[i] == c
    &&& forall|j: int| 0 <= j < i ==> #[trigger] s[j] != c
}

/// Drops exactly one leading space.
pub open spec fn strip_one_space(value: Seq<char>) -> Seq<char> {
    if value.len() > 0 && value[0] == ' ' {
        value.skip(1)
    } else {
        value
    }
}

/// A field line split into `(field, value)`: at the first colon only, with
/// exactly one leading space stripped from the value. A line without a colon
/// is a field name with an empty value.
pub open spec fn split_field(line: Seq<char>) -> (Seq<char>, Seq<char>) {
    if exists|i: int| is_first_char(line, ':', i) {
        let i = choose|i: int| is_first_char(line, ':', i);
        (line.take(i), strip_one_space(line.skip(i + 1)))
    } else {
        (line, Seq::empty())
    }
}

/// The event a blank line dispatches from non-empty gathered data: the data
/// minus its final `\n`, recognised as the `[DONE]` sentinel when it is exactly
/// that.
pub open spec fn event_of(data: Seq<char>) -> EventView {
    let payload = data.drop_last();
    if payload == DONE_PAYLOAD@ {
        EventView::Done
    } else {
        EventView::Data(payload)
    }
}

/// What one decoded line does: the event it dispatches, if any, and the data
/// gathered afterwards.
///
/// A blank line dispatches the gathered data, but only when there is some, so
/// repeated blank lines never produce a phantom event. Comment lines (leading
/// `:`) and every field but `data` change nothing; a `data` line appends its
/// value and a `\n`.
pub open spec fn apply_line(line: Seq<char>, data: Seq<char>) -> (Option<EventView>, Seq<char>) {
    if line.len() == 0 {
        if data.len() == 0 {
            (None, data)
        } else {
            (Some(event_of(data)), Seq::empty())
        }
    } else if line[0] == ':' {
        (None, data)
    } else if split_field(line).0 == "data"@ {
        (None, data + split_field(line).1 + "\n"@)
    } else {
        (None, data)
    }
}

/// One call of `next_event`: consume complete lines until one dispatches an
/// event or no complete line is left. Each line is decoded on its own.
pub open spec fn next_spec(buf: Seq<u8>, data: Seq<char>) -> (Option<EventView>, Seq<u8>, Seq<char>)
    decreases buf.len(),
{
    match terminator(buf) {
        None => (None, buf, data),
        Some((l, t)) => {
            proof {
                lemma_terminator_bounds(buf);
            }
            let (event, gathered) = apply_line(line_text(buf.take(l)), data);
            match event {
                Some(e) => (Some(e), buf.skip(l + t), gathered),
                None => next_spec(buf.skip(l + t), gathered),
            }
        },
    }
}

/// Every event the buffered complete lines yield, in order, with the state
/// left behind: what calling `next_event` until `None` produces.
pub open spec fn drain_spec(buf: Seq<u8>, data: Seq<char>) -> (Seq<EventView>, Seq<u8>, Seq<char>)
    decreases buf.len(),
{
    match terminator(buf) {
        None => (Seq::empty(), buf, data),
        Some((l, t)) => {
            proof {
                lemma_terminator_bounds(buf);
            }
            let (event, gathered) = apply_line(line_text(buf.take(l)), data);
            let rest = drain_spec(buf.skip(l + t), gathered);
            match event {
                Some(e) => (seq![e] + rest.0, rest.1, rest.2),
                None => rest,
            }
        },
    }
}

/// Pushing each read in turn, draining all events after each one.
pub open spec fn feed_spec(buf: Seq<u8>, data: Seq<char>, reads: Seq<Seq<u8>>) -> (
    Seq<EventView>,
    Seq<u8>,
    Seq<char>,
)
    decreases reads.len(),
{
    if reads.len() == 0 {
        (Seq::empty(), buf, data)
    } else {
        let first = drain_spec(buf + reads[0], data);
        let rest = feed_spec(first.1, first.2, reads.drop_first());
        (first.0 + rest.0, rest.1, rest.2)
    }
}

// ---------------------------------------------------------------------------
// Line framing
// ---------------------------------------------------------------------------

/// Locate the first line terminator in `buf`.
///
/// Returns `Some((line_len, terminator_len))`, so the caller reads
/// `buf[..line_len]` and consumes `line_len + terminator_len` bytes, or `None`
/// when no complete line is available yet. A `\r` as the final byte counts as
/// incomplete: consuming it eagerly would make the `\n` arriving on the next
/// read look like a second, empty line.
pub fn find_terminator(buf: &[u8]) -> (found: Option<(usize, usize)>)
    ensures
        match found {
            Some((l, t)) => terminator(buf@) == Some((l as int, t as int)),
            None => terminator(buf@) is None,
        },
{
    let n = buf.len();
    let mut i: usize = 0;
    while i < n
        invariant
            n == buf@.len(),
            i <= n,
            forall|j: int| 0 <= j < i ==> !is_eol(#[trigger] buf@[j]),
        decreases n - i,
    {
        let b = buf[i];
        if b == LF || b == CR {
            proof {
                assert(is_first_eol(buf@, i as int));
                let k = choose|k: int| is_first_eol(buf@, k);
                lemma_first_eol_unique(buf@, i as int, k);
            }
            if b == LF {
                return Some((i, 1));
            }
            if i + 1 == n {
                return None;
            }
            if buf[i + 1] == LF {
                return Some((i, 2));
            }
            return Some((i, 1));
        }
        i = i + 1;
    }
    proof {
        assert forall|k: int| !is_first_eol(buf@, k) by {
            if is_first_eol(buf@, k) {
                assert(!is_eol(buf@[k]));
            }
        }
    }
    None
}

/// Split an SSE field line into `(field, value)`.
///
/// Exactly one leading space is stripped from the value; only the first colon
/// splits; a line with no colon is a field name with an empty value.
pub fn parse_field(line: &str) -> (parts: (&str, &str))
    ensures
        (parts.0@, parts.1@) == split_field(line@),
{
    let n = line.unicode_len();
    match find_char(line, ':') {
        None => {
            proof {
                reveal_strlit("");
                assert forall|k: int| !is_first_char(line@, ':', k) by {
                    if is_first_char(line@, ':', k) {
                        assert(line@[k] != ':');
                    }
                }
            }
            (line, "")
        },
        Some(i) => {
            proof {
                assert(is_first_char(line@, ':', i as int));
                let k = choose|k: int| is_first_char(line@, ':', k);
                lemma_first_char_unique(line@, ':', i as int, k);
            }
            let field = line.substring_char(0, i);
            let value = line.substring_char(i + 1, n);
            let m = value.unicode_len();
            if m > 0 && value.get_char(0) == ' ' {
                let stripped = value.substring_char(1, m);
                (field, stripped)
            } else {
                (field, value)
            }
        },
    }
}

// ---------------------------------------------------------------------------
// The parser
// ---------------------------------------------------------------------------

impl Default for Parser {
    fn default() -> (parser: Self)
        ensures
            parser@ == (Seq::<u8>::empty(), Seq::<char>::empty()),
    {
        Parser { buf: Vec::new(), data: String::new() }
    }
}

impl Parser {
    /// A parser with nothing buffered.
    pub fn new() -> (parser: Self)
        ensures
            parser@ == (Seq::<u8>::empty(), Seq::<char>::empty()),
    {
        Parser { buf: Vec::new(), data: String::new() }
    }

    /// Append a socket read to the buffer.
    pub fn push(&mut self, bytes: &[u8])
        ensures
            final(self)@ == (old(self)@.0 + bytes@, old(self)@.1),
    {
        self.buf.extend_from_slice(bytes);
    }

    /// Pull the next completed event, or `None` if more bytes are needed.
    pub fn next_event(&mut self) -> (event: Option<Event>)
        ensures
            next_spec(old(self)@.0, old(self)@.1) == (
                match event {
                    Some(e) => Some(e@),
                    None => None,
                },
                final(self)@.0,
                final(self)@.1,
            ),
    {
        loop
            invariant
                next_spec(self.buf@, self.data@) == next_spec(old(self)@.0, old(self)@.1),
            decreases self.buf@.len(),
        {
            let buffered = self.buf.len();
            let found = find_terminator(self.buf.as_slice());
            let (line_len, terminator_len) = match found {
                Some(pair) => pair,
                None => {
                    return None;
                },
            };
            proof {
                lemma_terminator_bounds(self.buf@);
                assert(terminator(self.buf@) == Some((line_len as int, terminator_len as int)));
                assert(line_len + terminator_len <= buffered);
            }
            let ghost before = self.buf@;
            let ghost gathered = self.data@;
            // Decoding per complete line rather than per read is what keeps a
            // multi-byte character split across two reads intact.
            let line = decode_lossy(&self.buf.as_slice()[0..line_len]);
            let rest = self.buf.split_off(line_len + terminator_len);
            self.buf = rest;
            assert(before.subrange(0, line_len as int) == before.take(line_len as int));
            assert(self.buf@ == before.skip(line_len + terminator_len));

            if line.as_str().is_empty() {
                let dispatched = self.dispatch();
                if dispatched.is_some() {
                    return dispatched;
                }
                continue;
            }
            if line.as_str().get_char(0) == ':' {
                continue;  // comment, typically a keep-alive
            }
            let (field, value) = parse_field(line.as_str());
            if str_eq(field, "data") {
                self.data.append(value);
                self.data.append("\n");
            }
            // Every other field (`event`, `id`, `retry`, anything unknown) is
            // irrelevant here and ignored.
        }
    }

    /// Finish the event under construction, triggered by a blank line.
    ///
    /// Yields `None` on empty gathered data, so consecutive blank lines or a
    /// blank line after a lone comment produce no phantom event. A bare
    /// `data:` line does still dispatch, yielding `Event::Data("")`.
    fn dispatch(&mut self) -> (event: Option<Event>)
        ensures
            apply_line(Seq::empty(), old(self)@.1) == (
                match event {
                    Some(e) => Some(e@),
                    None => None,
                },
                final(self)@.1,
            ),
            final(self)@.0 == old(self)@.0,
    {
        if self.data.as_str().is_empty() {
            return None;
        }
        let mut payload = String::new();
        std::mem::swap(&mut payload, &mut self.data);
        let n = payload.as_str().unicode_len();
        let body = payload.as_str().substring_char(0, n - 1);
        assert(body@ == payload@.drop_last());
        if str_eq(body, DONE_PAYLOAD) {
            Some(Event::Done)
        } else {
            Some(Event::Data(body.to_owned()))
        }
    }
}

// ---------------------------------------------------------------------------
// Lemmas about the model
// ---------------------------------------------------------------------------

/// There is at most one first line terminator.
pub proof fn lemma_first_eol_unique(buf: Seq<u8>, i: int, k: int)
    requires
        is_first_eol(buf, i),
        is_first_eol(buf, k),
    ensures
        i == k,
{
    if i < k {
        assert(!is_eol(buf[i]));
    } else if k < i {
        assert(!is_eol(buf[k]));
    }
}

/// There is at most one first occurrence of `c`.
pub proof fn lemma_first_char_unique(s: Seq<char>, c: char, i: int, k: int)
    requires
        is_first_char(s, c, i),
        is_first_char(s, c, k),
    ensures
        i == k,
{
    if i < k {
        assert(s[i] != c);
    } else if k < i {
        assert(s[k] != c);
    }
}

/// A complete line lies inside the buffer and consumes at least one byte.
pub proof fn lemma_terminator_bounds(buf: Seq<u8>)
    ensures
        terminator(buf) matches Some((l, t)) ==> 0 <= l && 1 <= t <= 2 && l + t <= buf.len(),
{
}

/// A complete line stays the same complete line whatever bytes follow it.
pub proof fn lemma_terminator_extend(buf: Seq<u8>, more: Seq<u8>)
    requires
        terminator(buf) is Some,
    ensures
        terminator(buf + more) == terminator(buf),
        terminator(buf) matches Some((l, t)) ==> {
            &&& (buf + more).take(l) == buf.take(l)
            &&& (buf + more).skip(l + t) == buf.skip(l + t) + more
        },
{
    let ext = buf + more;
    let i = choose|i: int| is_first_eol(buf, i);
    assert(is_first_eol(ext, i)) by {
        assert forall|j: int| 0 <= j < i implies !is_eol(#[trigger] ext[j]) by {
            assert(ext[j] == buf[j]);
        }
    }
    let k = choose|k: int| is_first_eol(ext, k);
    lemma_first_eol_unique(ext, i, k);
    let (l, t) = terminator(buf).unwrap();
    lemma_terminator_bounds(buf);
    assert(ext.take(l) =~= buf.take(l));
    assert(ext.skip(l + t) =~= buf.skip(l + t) + more);
}


// ---------------------------------------------------------------------------
// Laws
// ---------------------------------------------------------------------------

/// Appending bytes never changes what the lines already buffered yield:
/// draining `buf + more` yields the events of `buf` followed by the events of
/// what `buf` leaves behind extended by `more`.
pub proof fn lemma_drain_extend(buf: Seq<u8>, data: Seq<char>, more: Seq<u8>)
    ensures
        ({
            let head = drain_spec(buf, data);
            let tail = drain_spec(head.1 + more, head.2);
            drain_spec(buf + more, data) == (head.0 + tail.0, tail.1, tail.2)
        }),
    decreases buf.len(),
{
    match terminator(buf) {
        None => {
            let tail = drain_spec(buf + more, data);
            assert(Seq::<EventView>::empty() + tail.0 =~= tail.0);
        },
        Some((l, t)) => {
            lemma_terminator_bounds(buf);
            lemma_terminator_extend(buf, more);
            let (event, gathered) = apply_line(line_text(buf.take(l)), data);
            let rest = buf.skip(l + t);
            lemma_drain_extend(rest, gathered, more);
            let head = drain_spec(rest, gathered);
            let tail = drain_spec(head.1 + more, head.2);
            match event {
                Some(e) => {
                    assert(seq![e] + (head.0 + tail.0) =~= (seq![e] + head.0) + tail.0);
                },
                None => {},
            }
        },
    }
}

/// However a byte stream is split into reads, pushing the reads one at a time
/// and draining after each yields exactly the events, and leaves exactly the
/// state, of pushing the whole stream at once (starting from a drained parser,
/// such as a new one).
pub proof fn law_split_invariance(buf: Seq<u8>, data: Seq<char>, reads: Seq<Seq<u8>>)
    requires
        terminator(buf) is None,
    ensures
        feed_spec(buf, data, reads) == drain_spec(buf + reads.flatten(), data),
    decreases reads.len(),
{
    if reads.len() == 0 {
        assert(buf + reads.flatten() =~= buf);
        lemma_drain_leaves_no_line(buf, data);
        lemma_drain_of_drained(buf, data);
    } else {
        let first = drain_spec(buf + reads[0], data);
        lemma_drain_leaves_no_line(buf + reads[0], data);
        law_split_invariance(first.1, first.2, reads.drop_first());
        lemma_drain_extend(buf + reads[0], data, reads.drop_first().flatten());
        assert(buf + reads.flatten() =~= (buf + reads[0]) + reads.drop_first().flatten());
    }
}

/// What draining leaves behind holds no complete line.
pub proof fn lemma_drain_leaves_no_line(buf: Seq<u8>, data: Seq<char>)
    ensures
        terminator(drain_spec(buf, data).1) is None,
    decreases buf.len(),
{
    match terminator(buf) {
        None => {},
        Some((l, t)) => {
            lemma_terminator_bounds(buf);
            let (event, gathered) = apply_line(line_text(buf.take(l)), data);
            lemma_drain_leaves_no_line(buf.skip(l + t), gathered);
        },
    }
}

/// Draining a buffer with no complete line yields nothing and changes nothing.
pub proof fn lemma_drain_of_drained(buf: Seq<u8>, data: Seq<char>)
    ensures
        terminator(buf) is None ==> drain_spec(buf, data) == (Seq::<EventView>::empty(), buf, data),
{
}

/// Calling `next_event` until it returns `None` yields exactly the drained
/// events: a `None` means nothing is left to drain, and an event is the first
/// drained one, with the rest drained from the state it leaves.
pub proof fn law_next_event_drains(buf: Seq<u8>, data: Seq<char>)
    ensures
        ({
            let step = next_spec(buf, data);
            match step.0 {
                None => drain_spec(buf, data) == (Seq::<EventView>::empty(), step.1, step.2)
                    && terminator(step.1) is None,
                Some(e) => {
                    let rest = drain_spec(step.1, step.2);
                    drain_spec(buf, data) == (seq![e] + rest.0, rest.1, rest.2)
                },
            }
        }),
    decreases buf.len(),
{
    match terminator(buf) {
        None => {},
        Some((l, t)) => {
            lemma_terminator_bounds(buf);
            let (event, gathered) = apply_line(line_text(buf.take(l)), data);
            law_next_event_drains(buf.skip(l + t), gathered);
        },
    }
}


/// Gathered data is empty or ends with the `\n` its last data line added,
/// which is the `\n` a dispatch drops.
pub open spec fn gathered_well_formed(data: Seq<char>) -> bool {
    data.len() == 0 || data.last() == '\n'
}

/// Every call of `next_event` keeps gathered data well formed.
pub proof fn law_next_event_keeps_data_well_formed(buf: Seq<u8>, data: Seq<char>)
    requires
        gathered_well_formed(data),
    ensures
        gathered_well_formed(next_spec(buf, data).2),
    decreases buf.len(),
{
    reveal_strlit("\n");
    match terminator(buf) {
        None => {},
        Some((l, t)) => {
            lemma_terminator_bounds(buf);
            let line = line_text(buf.take(l));
            let (event, gathered) = apply_line(line, data);
            if line.len() > 0 && line[0] != ':' && split_field(line).0 == "data"@ {
                assert(gathered.last() == '\n');
            }
            law_next_event_keeps_data_well_formed(buf.skip(l + t), gathered);
        },
    }
}


// ---------------------------------------------------------------------------
// Laws over UTF-8 byte streams
// ---------------------------------------------------------------------------

/// `s` holds no line break character.
pub open spec fn no_line_break(s: Seq<char>) -> bool {
    forall|i: int| 0 <= i < s.len() ==> #[trigger] s[i] != '\n' && s[i] != '\r'
}

/// `line` is a `data` field line: exactly `data`, or `data:` followed by
/// anything.
pub open spec fn is_data_line(line: Seq<char>) -> bool {
    line == "data"@ || (line.len() >= 5 && line.take(5) == "data:"@)
}

/// Encoding distributes over concatenation.
pub proof fn lemma_encode_concat(a: Seq<char>, b: Seq<char>)
    ensures
        encode_utf8(a + b) == encode_utf8(a) + encode_utf8(b),
    decreases a.len(),
{
    if a.len() == 0 {
        assert(a + b =~= b);
        assert(encode_utf8(a) + encode_utf8(b) =~= encode_utf8(b));
    } else {
        assert((a + b).drop_first() =~= a.drop_first() + b);
        assert((a + b)[0] == a[0]);
        lemma_encode_concat(a.drop_first(), b);
        assert(encode_utf8(a + b) =~= encode_scalar(a[0] as u32) + (encode_utf8(a.drop_first())
            + encode_utf8(b)));
    }
}

/// A character other than `\n` and `\r` encodes to bytes that are neither.
proof fn lemma_scalar_no_eol(c: char)
    requires
        c != '\n',
        c != '\r',
    ensures
        forall|j: int|
            0 <= j < encode_scalar(c as u32).len() ==> !is_eol(#[trigger] encode_scalar(c as u32)[j]),
{
    let v = c as u32;
    char_is_scalar(c);
    if has_width_1_encoding(v) {
        assert(v != 10u32 && v != 13u32);
        assert(leading_byte_width_1(v) == v as u8) by (bit_vector)
            requires
                v <= 0x7F,
        ;
    } else {
        assert(leading_byte_width_2(v) >= 0x80) by (bit_vector);
        assert(leading_byte_width_3(v) >= 0x80) by (bit_vector);
        assert(leading_byte_width_4(v) >= 0x80) by (bit_vector);
        assert(last_continuation_byte(v) >= 0x80) by (bit_vector);
        assert(second_last_continuation_byte(v) >= 0x80) by (bit_vector);
        assert(third_last_continuation_byte(v) >= 0x80) by (bit_vector);
    }
}

/// Text without line breaks encodes to bytes without line terminators.
proof fn lemma_encode_no_eol(s: Seq<char>)
    requires
        no_line_break(s),
    ensures
        forall|j: int| 0 <= j < encode_utf8(s).len() ==> !is_eol(#[trigger] encode_utf8(s)[j]),
    decreases s.len(),
{
    if s.len() > 0 {
        assert(s[0] != '\n' && s[0] != '\r');
        lemma_scalar_no_eol(s[0]);
        let rest = s.drop_first();
        assert(no_line_break(rest)) by {
            assert forall|i: int| 0 <= i < rest.len() implies #[trigger] rest[i] != '\n' && rest[i]
                != '\r' by {
                assert(rest[i] == s[i + 1]);
            }
        }
        lemma_encode_no_eol(rest);
        let head = encode_scalar(s[0] as u32);
        assert forall|j: int| 0 <= j < encode_utf8(s).len() implies !is_eol(
            #[trigger] encode_utf8(s)[j],
        ) by {
            if j < head.len() {
                assert(encode_utf8(s)[j] == head[j]);
            } else {
                assert(encode_utf8(s)[j] == encode_utf8(rest)[j - head.len()]);
            }
        }
    }
}

/// A `data:` line with one space is split into the field `data` and the text
/// after the space.
proof fn lemma_split_data_line(x: Seq<char>)
    ensures
        split_field("data: "@ + x) == ("data"@, x),
{
    reveal_strlit("data: ");
    reveal_strlit("data");
    let line = "data: "@ + x;
    assert(is_first_char(line, ':', 4));
    let k = choose|k: int| is_first_char(line, ':', k);
    lemma_first_char_unique(line, ':', 4, k);
    assert(line.take(4) =~= "data"@);
    assert(line.skip(5)[0] == ' ');
    assert(line.skip(5).skip(1) =~= x);
}

/// `eol` ends a line in front of `tail`: `\n`, `\r\n`, or a `\r` that is not
/// the first half of a `\r\n`.
pub open spec fn ends_line(eol: Seq<u8>, tail: Seq<u8>) -> bool {
    ||| eol == seq![LF]
    ||| eol == seq![CR, LF]
    ||| (eol == seq![CR] && tail.len() > 0 && tail[0] != LF)
}

/// The event a stream dispatches for the payload `x`: the `[DONE]` sentinel
/// when `x` is exactly `[DONE]`, otherwise the data `x`.
pub open spec fn payload_event(x: Seq<char>) -> EventView {
    if x == "[DONE]"@ {
        EventView::Done
    } else {
        EventView::Data(x)
    }
}

/// A line of text without line breaks, ended by any line terminator, is the
/// first complete line of whatever bytes follow, and decodes back to itself.
proof fn lemma_first_line(s: Seq<char>, eol: Seq<u8>, tail: Seq<u8>)
    requires
        no_line_break(s),
        ends_line(eol, tail),
    ensures
        ({
            let line = encode_utf8(s);
            let bytes = line + eol + tail;
            &&& terminator(bytes) == Some((line.len() as int, eol.len() as int))
            &&& bytes.take(line.len() as int) == line
            &&& bytes.skip(line.len() + eol.len() as int) == tail
            &&& line_text(line) == s
        }),
{
    let line = encode_utf8(s);
    let bytes = line + eol + tail;
    let n = line.len() as int;
    lemma_encode_no_eol(s);
    assert(bytes[n] == eol[0]);
    assert(is_first_eol(bytes, n)) by {
        assert forall|j: int| 0 <= j < n implies !is_eol(#[trigger] bytes[j]) by {
            assert(bytes[j] == line[j]);
        }
    }
    let k = choose|k: int| is_first_eol(bytes, k);
    lemma_first_eol_unique(bytes, n, k);
    if eol.len() == 2 {
        assert(bytes[n + 1] == LF);
    } else if eol[0] == CR {
        assert(bytes[n + 1] == tail[0]);
    }
    assert(bytes.take(n) =~= line);
    assert(bytes.skip(n + eol.len()) =~= tail);
    encode_utf8_valid_utf8(s);
    encode_utf8_decode_utf8(s);
}

/// Draining and taking one event both go one line at a time.
proof fn lemma_line_step(s: Seq<char>, eol: Seq<u8>, tail: Seq<u8>, data: Seq<char>)
    requires
        no_line_break(s),
        ends_line(eol, tail),
    ensures
        ({
            let bytes = encode_utf8(s) + eol + tail;
            let (event, gathered) = apply_line(s, data);
            &&& drain_spec(bytes, data) == match event {
                Some(e) => (
                    seq![e] + drain_spec(tail, gathered).0,
                    drain_spec(tail, gathered).1,
                    drain_spec(tail, gathered).2,
                ),
                None => drain_spec(tail, gathered),
            }
            &&& next_spec(bytes, data) == match event {
                Some(e) => (Some(e), tail, gathered),
                None => next_spec(tail, gathered),
            }
        }),
{
    lemma_first_line(s, eol, tail);
}

/// Draining a stream with nothing left yields nothing.
proof fn lemma_drain_empty(data: Seq<char>)
    ensures
        drain_spec(Seq::empty(), data) == (Seq::<EventView>::empty(), Seq::<u8>::empty(), data),
        next_spec(Seq::empty(), data) == (None::<EventView>, Seq::<u8>::empty(), data),
{
    assert(!is_first_eol(Seq::<u8>::empty(), choose|i: int| is_first_eol(Seq::<u8>::empty(), i)));
}

/// The empty line.
proof fn lemma_empty_line()
    ensures
        no_line_break(Seq::<char>::empty()),
        encode_utf8(Seq::<char>::empty()) == Seq::<u8>::empty(),
{
}

/// A blank line ends the event: gathered data `x + \n` dispatches the event
/// for `x`.
proof fn lemma_blank_dispatches(x: Seq<char>)
    ensures
        apply_line(Seq::empty(), x + "\n"@) == (Some(payload_event(x)), Seq::<char>::empty()),
{
    reveal_strlit("\n");
    assert((x + "\n"@).drop_last() =~= x);
    assert(DONE_PAYLOAD@ == "[DONE]"@);
}

/// `data: x` gathers `x` and a newline.
proof fn lemma_data_line_gathers(x: Seq<char>, data: Seq<char>)
    ensures
        apply_line("data: "@ + x, data) == (None::<EventView>, data + x + "\n"@),
{
    reveal_strlit("data: ");
    lemma_split_data_line(x);
}

/// `data:v`, with no space after the colon, gathers `v` whole when `v` does not
/// start with a space.
proof fn lemma_data_colon_gathers(v: Seq<char>, data: Seq<char>)
    requires
        v.len() == 0 || v[0] != ' ',
    ensures
        apply_line("data:"@ + v, data) == (None::<EventView>, data + v + "\n"@),
{
    reveal_strlit("data:");
    reveal_strlit("data");
    let line = "data:"@ + v;
    assert(is_first_char(line, ':', 4));
    let k = choose|k: int| is_first_char(line, ':', k);
    lemma_first_char_unique(line, ':', 4, k);
    assert(line.take(4) =~= "data"@);
    assert(line.skip(5) =~= v);
}

/// A non-empty line that is not a `data` line (another field or a comment)
/// leaves gathered data as it is.
proof fn lemma_other_line_keeps(other: Seq<char>, data: Seq<char>)
    requires
        other.len() > 0,
        !is_data_line(other),
    ensures
        apply_line(other, data) == (None::<EventView>, data),
{
    reveal_strlit("data");
    reveal_strlit("data:");
    if other[0] != ':' {
        if exists|i: int| is_first_char(other, ':', i) {
            let i = choose|i: int| is_first_char(other, ':', i);
            if other.take(i) == "data"@ {
                assert(other.take(i).len() == 4);
                assert(i == 4);
                assert(other[4] == ':');
                assert forall|j: int| 0 <= j < 4 implies other[j] == "data"@[j] by {
                    assert(other.take(i)[j] == other[j]);
                }
                assert(other.take(5) =~= "data:"@);
                assert(false);
            }
            assert(split_field(other).0 == other.take(i));
        }
    }
}

/// `data: ` followed by text without line breaks is a line without breaks.
proof fn lemma_prefixed_no_line_break(prefix: Seq<char>, x: Seq<char>)
    requires
        no_line_break(prefix),
        no_line_break(x),
    ensures
        no_line_break(prefix + x),
{
    assert forall|i: int| 0 <= i < (prefix + x).len() implies #[trigger] (prefix + x)[i] != '\n'
        && (prefix + x)[i] != '\r' by {
        if i >= prefix.len() {
            assert((prefix + x)[i] == x[i - prefix.len()]);
        } else {
            assert((prefix + x)[i] == prefix[i]);
        }
    }
}

/// The `data:` and `data: ` prefixes hold no line break.
proof fn lemma_prefixes_no_line_break()
    ensures
        no_line_break("data: "@),
        no_line_break("data:"@),
{
    reveal_strlit("data: ");
    reveal_strlit("data:");
}

/// Line endings do not matter: a `data: x` line and the blank line after it,
/// each ended by `\n` or `\r\n` (or the first by a lone `\r` when the second
/// starts with `\r`), drain to exactly the event for `x`, leaving nothing
/// behind, and the first call of `next_event` returns it. Exactly one space
/// after the colon is dropped, so `x` keeps any further leading spaces.
pub proof fn law_data_event_any_line_ending(x: Seq<char>, first_end: Seq<u8>, second_end: Seq<u8>)
    requires
        no_line_break(x),
        second_end == seq![LF] || second_end == seq![CR, LF],
        ends_line(first_end, second_end),
    ensures
        drain_spec(encode_utf8("data: "@ + x) + first_end + second_end, Seq::empty()) == (
            seq![payload_event(x)],
            Seq::<u8>::empty(),
            Seq::<char>::empty(),
        ),
        next_spec(encode_utf8("data: "@ + x) + first_end + second_end, Seq::empty()) == (
            Some(payload_event(x)),
            Seq::<u8>::empty(),
            Seq::<char>::empty(),
        ),
{
    lemma_prefixes_no_line_break();
    lemma_prefixed_no_line_break("data: "@, x);
    let empty: Seq<u8> = Seq::empty();
    lemma_line_step("data: "@ + x, first_end, second_end, Seq::empty());
    lemma_data_line_gathers(x, Seq::empty());
    let gathered = Seq::<char>::empty() + x + "\n"@;
    assert(gathered =~= x + "\n"@);
    lemma_empty_line();
    assert(second_end =~= encode_utf8(Seq::<char>::empty()) + second_end + empty);
    lemma_line_step(Seq::empty(), second_end, empty, gathered);
    lemma_blank_dispatches(x);
    lemma_drain_empty(Seq::empty());
    assert(seq![payload_event(x)] + Seq::<EventView>::empty() =~= seq![payload_event(x)]);
}

/// With no space after the colon, the whole value is the payload: `data:v`
/// followed by a blank line drains to exactly the event for `v` when `v` does
/// not start with a space.
pub proof fn law_data_without_space(v: Seq<char>)
    requires
        no_line_break(v),
        v.len() == 0 || v[0] != ' ',
    ensures
        drain_spec(encode_utf8("data:"@ + v) + seq![LF, LF], Seq::empty()) == (
            seq![payload_event(v)],
            Seq::<u8>::empty(),
            Seq::<char>::empty(),
        ),
{
    lemma_prefixes_no_line_break();
    lemma_prefixed_no_line_break("data:"@, v);
    let empty: Seq<u8> = Seq::empty();
    let blank: Seq<u8> = seq![LF];
    assert(encode_utf8("data:"@ + v) + seq![LF, LF] =~= encode_utf8("data:"@ + v) + blank + blank);
    lemma_line_step("data:"@ + v, blank, blank, Seq::empty());
    lemma_data_colon_gathers(v, Seq::empty());
    let gathered = Seq::<char>::empty() + v + "\n"@;
    assert(gathered =~= v + "\n"@);
    lemma_empty_line();
    assert(blank =~= encode_utf8(Seq::<char>::empty()) + blank + empty);
    lemma_line_step(Seq::empty(), blank, empty, gathered);
    lemma_blank_dispatches(v);
    lemma_drain_empty(Seq::empty());
    assert(seq![payload_event(v)] + Seq::<EventView>::empty() =~= seq![payload_event(v)]);
}

/// Consecutive data lines join with a newline: `data: x`, `data: y` and a
/// blank line drain to exactly one event whose payload is `x`, a `\n`, and
/// `y`.
pub proof fn law_data_lines_join(x: Seq<char>, y: Seq<char>)
    requires
        no_line_break(x),
        no_line_break(y),
    ensures
        drain_spec(
            encode_utf8("data: "@ + x) + seq![LF] + encode_utf8("data: "@ + y) + seq![LF, LF],
            Seq::empty(),
        ) == (seq![payload_event(x + seq!['\n'] + y)], Seq::<u8>::empty(), Seq::<char>::empty()),
{
    reveal_strlit("\n");
    lemma_prefixes_no_line_break();
    lemma_prefixed_no_line_break("data: "@, x);
    lemma_prefixed_no_line_break("data: "@, y);
    let empty: Seq<u8> = Seq::empty();
    let blank: Seq<u8> = seq![LF];
    let rest2 = blank + empty;
    let rest1 = encode_utf8("data: "@ + y) + blank + rest2;
    let bytes = encode_utf8("data: "@ + x) + blank + rest1;
    assert(bytes =~= encode_utf8("data: "@ + x) + seq![LF] + encode_utf8("data: "@ + y) + seq![
        LF,
        LF,
    ]);
    lemma_line_step("data: "@ + x, blank, rest1, Seq::empty());
    lemma_data_line_gathers(x, Seq::empty());
    let g1 = Seq::<char>::empty() + x + "\n"@;
    lemma_line_step("data: "@ + y, blank, rest2, g1);
    lemma_data_line_gathers(y, g1);
    let joined = x + seq!['\n'] + y;
    let g2 = g1 + y + "\n"@;
    assert(g2 =~= joined + "\n"@);
    lemma_empty_line();
    assert(rest2 =~= encode_utf8(Seq::<char>::empty()) + blank + empty);
    lemma_line_step(Seq::empty(), blank, empty, g2);
    lemma_blank_dispatches(joined);
    lemma_drain_empty(Seq::empty());
    assert(seq![payload_event(joined)] + Seq::<EventView>::empty() =~= seq![payload_event(joined)]);
}

/// Only `data` lines gather: a field line of any other name (`event`, `id`,
/// `retry`, anything unknown) or a comment, sent between a data line and the
/// blank line that ends the event, changes nothing. For every payload `x` and
/// every such line `other` without line breaks, the UTF-8 stream
/// `data: x \n other \n \n` drains to exactly one event carrying `x` (the
/// `[DONE]` sentinel when `x` is exactly `[DONE]`), leaving nothing behind;
/// the first call of `next_event` on it returns that event.
pub proof fn law_other_fields_keep_gathered_data(x: Seq<char>, other: Seq<char>)
    requires
        no_line_break(x),
        no_line_break(other),
        other.len() > 0,
        !is_data_line(other),
    ensures
        drain_spec(
            encode_utf8("data: "@ + x) + seq![LF] + encode_utf8(other) + seq![LF, LF],
            Seq::empty(),
        ) == (seq![payload_event(x)], Seq::<u8>::empty(), Seq::<char>::empty()),
        next_spec(
            encode_utf8("data: "@ + x) + seq![LF] + encode_utf8(other) + seq![LF, LF],
            Seq::empty(),
        ) == (Some(payload_event(x)), Seq::<u8>::empty(), Seq::<char>::empty()),
{
    lemma_prefixes_no_line_break();
    lemma_prefixed_no_line_break("data: "@, x);
    let empty: Seq<u8> = Seq::empty();
    let blank: Seq<u8> = seq![LF];
    let rest2 = blank + empty;
    let rest1 = encode_utf8(other) + blank + rest2;
    let bytes = encode_utf8("data: "@ + x) + blank + rest1;
    assert(bytes =~= encode_utf8("data: "@ + x) + seq![LF] + encode_utf8(other) + seq![LF, LF]);
    lemma_line_step("data: "@ + x, blank, rest1, Seq::empty());
    lemma_data_line_gathers(x, Seq::empty());
    let gathered = Seq::<char>::empty() + x + "\n"@;
    assert(gathered =~= x + "\n"@);
    lemma_line_step(other, blank, rest2, gathered);
    lemma_other_line_keeps(other, gathered);
    lemma_empty_line();
    assert(rest2 =~= encode_utf8(Seq::<char>::empty()) + blank + empty);
    lemma_line_step(Seq::empty(), blank, empty, gathered);
    lemma_blank_dispatches(x);
    lemma_drain_empty(Seq::empty());
    assert(seq![payload_event(x)] + Seq::<EventView>::empty() =~= seq![payload_event(x)]);
}

/// Blank lines with nothing gathered dispatch nothing: two blank lines ahead of
/// `data: x` and its blank line still drain to exactly the one event for `x`.
pub proof fn law_blank_lines_alone_dispatch_nothing(x: Seq<char>)
    requires
        no_line_break(x),
    ensures
        drain_spec(seq![LF, LF] + encode_utf8("data: "@ + x) + seq![LF, LF], Seq::empty()) == (
            seq![payload_event(x)],
            Seq::<u8>::empty(),
            Seq::<char>::empty(),
        ),
{
    let blank: Seq<u8> = seq![LF];
    let rest = encode_utf8("data: "@ + x) + seq![LF, LF];
    lemma_empty_line();
    assert(seq![LF, LF] + encode_utf8("data: "@ + x) + seq![LF, LF] =~= seq![LF, LF] + rest);
    assert(seq![LF, LF] + rest =~= encode_utf8(Seq::<char>::empty()) + blank + (blank + rest));
    assert(blank + rest =~= encode_utf8(Seq::<char>::empty()) + blank + rest);
    lemma_line_step(Seq::empty(), blank, blank + rest, Seq::empty());
    lemma_line_step(Seq::empty(), blank, rest, Seq::empty());
    assert(encode_utf8("data: "@ + x) + blank + blank =~= rest);
    law_data_event_any_line_ending(x, blank, blank);
    assert(apply_line(Seq::empty(), Seq::empty()) == (None::<EventView>, Seq::<char>::empty()));
}

} // verus!
