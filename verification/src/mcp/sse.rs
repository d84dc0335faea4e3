//! Server-sent events: decoding a response body that arrives in chunks, and
//! waiting in it for the answer to a request.

use crate::json;
use crate::json::{Json, JsonView, NumberView};
use crate::mcp::error::{McpError, McpErrorView};
use crate::mcp::rpc;
use crate::mcp::rpc::ReplyView;
use crate::text;
use vstd::prelude::*;
use vstd::string::*;
use vstd::utf8::*;

verus! {

// ── lines ───────────────────────────────────────────────────────────────

/// The text of bytes that should be UTF-8: what is not is replaced, as
/// `String::from_utf8_lossy` does it.
pub uninterp spec fn utf8_lossy(bytes: Seq<u8>) -> Seq<char>;

/// `String::from_utf8_lossy` of std: the text of the bytes, which for valid
/// UTF-8 is the text that they encode. How an invalid run is replaced is not
/// stated beyond the name [`utf8_lossy`].
#[verifier::external_body]
fn lossy_text(bytes: &[u8]) -> (out: String)
    ensures
        out@ == utf8_lossy(bytes@),
        valid_utf8(bytes@) ==> out@ == decode_utf8(bytes@),
{
    String::from_utf8_lossy(bytes).into_owned()
}

/// The text of a line: the text that its bytes encode, or the lossy one where
/// they encode none.
pub open spec fn line_text(bytes: Seq<u8>) -> Seq<char> {
    if valid_utf8(bytes) {
        decode_utf8(bytes)
    } else {
        utf8_lossy(bytes)
    }
}

/// The first position of a line feed or a carriage return, or the length.
pub open spec fn break_at(buf: Seq<u8>) -> int
    decreases buf.len(),
{
    if buf.len() == 0 || buf[0] == 10 || buf[0] == 13 {
        0
    } else {
        1 + break_at(buf.drop_first())
    }
}

proof fn lemma_break_at(buf: Seq<u8>)
    ensures
        0 <= break_at(buf) <= buf.len(),
        break_at(buf) < buf.len() ==> buf[break_at(buf)] == 10 || buf[break_at(buf)] == 13,
        forall|i: int| 0 <= i < break_at(buf) ==> buf[i] != 10 && buf[i] != 13,
    decreases buf.len(),
{
    if !(buf.len() == 0 || buf[0] == 10 || buf[0] == 13) {
        lemma_break_at(buf.drop_first());
        assert forall|i: int| 0 <= i < break_at(buf) implies buf[i] != 10 && buf[i] != 13 by {
            if i > 0 {
                assert(buf[i] == buf.drop_first()[i - 1]);
            }
        }
    }
}

proof fn lemma_break_at_is(buf: Seq<u8>, k: int)
    requires
        0 <= k <= buf.len(),
        k < buf.len() ==> buf[k] == 10 || buf[k] == 13,
        forall|i: int| 0 <= i < k ==> buf[i] != 10 && buf[i] != 13,
    ensures
        break_at(buf) == k,
{
    lemma_break_at(buf);
}

/// Whether the bytes begin with a whole line. A carriage return at the very
/// end leaves it open whether a line feed belongs to it.
pub open spec fn line_ready(buf: Seq<u8>) -> bool {
    let i = break_at(buf);
    i < buf.len() && !(buf[i] == 13 && i + 1 == buf.len())
}

/// Where the first line ends, its line ending included.
pub open spec fn line_end(buf: Seq<u8>) -> int {
    let i = break_at(buf);
    if buf[i] == 13 && i + 1 < buf.len() && buf[i + 1] == 10 {
        i + 2
    } else {
        i + 1
    }
}

/// The whole lines at the head of the bytes.
pub open spec fn lines_in(buf: Seq<u8>) -> Seq<Seq<char>>
    decreases buf.len(),
    via lines_in_terminates
{
    if line_ready(buf) {
        seq![line_text(buf.take(break_at(buf)))] + lines_in(buf.skip(line_end(buf)))
    } else {
        Seq::empty()
    }
}

/// The bytes behind the whole lines.
pub open spec fn rest_of(buf: Seq<u8>) -> Seq<u8>
    decreases buf.len(),
    via rest_of_terminates
{
    if line_ready(buf) {
        rest_of(buf.skip(line_end(buf)))
    } else {
        buf
    }
}

#[via_fn]
proof fn lines_in_terminates(buf: Seq<u8>) {
    lemma_break_at(buf);
}

#[via_fn]
proof fn rest_of_terminates(buf: Seq<u8>) {
    lemma_break_at(buf);
}

// ── events ──────────────────────────────────────────────────────────────

/// `s` without the one space that may stand at its head.
pub open spec fn without_space(s: Seq<char>) -> Seq<char> {
    if s.len() > 0 && s[0] == ' ' {
        s.drop_first()
    } else {
        s
    }
}

/// The name of the field that a line sets: what stands before its colon.
pub open spec fn field_name(line: Seq<char>) -> Seq<char> {
    line.take(text::position(line, ':'))
}

/// The value that a line gives its field: what follows the colon, without one
/// leading space; a line without a colon gives an empty value.
pub open spec fn field_value(line: Seq<char>) -> Seq<char> {
    let i = text::position(line, ':');
    if i < line.len() {
        without_space(line.skip(i + 1))
    } else {
        Seq::empty()
    }
}

/// The data lines of an event once `line` has been added to it.
pub open spec fn with_line(data: Seq<Seq<char>>, line: Seq<char>) -> Seq<Seq<char>> {
    if line.len() > 0 && line[0] != ':' && field_name(line) == "data"@ {
        data.push(field_value(line))
    } else {
        data
    }
}

/// The event that a blank line completes: its data lines joined, or none
/// where it has no data.
pub open spec fn event_of(data: Seq<Seq<char>>) -> Seq<Seq<char>> {
    if data.len() > 0 {
        seq![text::joined(data, "\n"@)]
    } else {
        Seq::empty()
    }
}

/// The events that `lines` complete, where `data` has been gathered before.
pub open spec fn events_in(data: Seq<Seq<char>>, lines: Seq<Seq<char>>) -> Seq<Seq<char>>
    decreases lines.len(),
{
    if lines.len() == 0 {
        Seq::empty()
    } else if lines[0].len() == 0 {
        event_of(data) + events_in(Seq::empty(), lines.drop_first())
    } else {
        events_in(with_line(data, lines[0]), lines.drop_first())
    }
}

/// The data lines of the event that `lines` leave incomplete.
pub open spec fn data_after(data: Seq<Seq<char>>, lines: Seq<Seq<char>>) -> Seq<Seq<char>>
    decreases lines.len(),
{
    if lines.len() == 0 {
        data
    } else if lines[0].len() == 0 {
        data_after(Seq::empty(), lines.drop_first())
    } else {
        data_after(with_line(data, lines[0]), lines.drop_first())
    }
}

/// What a decoder holds between two chunks.
pub struct SseState {
    /// The bytes of a line that has not ended.
    pub buf: Seq<u8>,
    /// The data lines of the event in progress.
    pub data: Seq<Seq<char>>,
}

impl SseState {
    /// Nothing read yet.
    pub open spec fn start() -> SseState {
        SseState { buf: Seq::empty(), data: Seq::empty() }
    }

    /// The events that a chunk completes.
    pub open spec fn events(self, chunk: Seq<u8>) -> Seq<Seq<char>> {
        events_in(self.data, lines_in(self.buf + chunk))
    }

    /// The state after a chunk.
    pub open spec fn next(self, chunk: Seq<u8>) -> SseState {
        SseState {
            buf: rest_of(self.buf + chunk),
            data: data_after(self.data, lines_in(self.buf + chunk)),
        }
    }

    /// The last line, which the end of the stream completes.
    pub open spec fn last_line(self) -> Seq<char> {
        if self.buf.len() > 0 && self.buf.last() == 13 {
            line_text(self.buf.drop_last())
        } else {
            line_text(self.buf)
        }
    }

    /// The events that the end of the stream completes: at most one.
    pub open spec fn last_events(self) -> Seq<Seq<char>> {
        event_of(with_line(self.data, self.last_line()))
    }
}

/// Decodes server-sent events from a body that arrives in chunks.
///
/// Lines end in a line feed, a carriage return, or both; an event ends in a
/// blank line, and its `data` lines are joined with line feeds. Comments and
/// other fields are skipped.
pub struct SseDecoder {
    buf: Vec<u8>,
    data: Vec<String>,
}

impl View for SseDecoder {
    type V = SseState;

    closed spec fn view(&self) -> SseState {
        SseState { buf: self.buf@, data: text::views(self.data@) }
    }
}

impl SseDecoder {
    /// A decoder that has read nothing.
    pub fn new() -> (out: Self)
        ensures
            out@ == SseState::start(),
    {
        let out = SseDecoder { buf: Vec::new(), data: Vec::new() };
        assert(out@.data =~= Seq::empty());
        out
    }

    /// Takes one line into the event in progress; whether the line is blank,
    /// which is where an event ends.
    pub fn process_line(&mut self, line: &str) -> (blank: bool)
        ensures
            blank == (line@.len() == 0),
            final(self)@ == (SseState { buf: old(self)@.buf, data: with_line(old(self)@.data, line@) }),
    {
        let ghost before = self.data@;
        let x = text::chars_of(line);
        if x.len() == 0 {
            return true;
        }
        if x[0] == ':' {
            return false;
        }
        let i: usize = text::find_char(&x, 0, ':');
        assert(x@.subrange(0, x@.len() as int) =~= line@);
        let field = text::string_of(&x, 0, i);
        assert(field@ =~= field_name(line@));
        if text::same(field.as_str(), "data") {
            let value: String = if i == x.len() {
                String::new()
            } else if i + 1 < x.len() && x[i + 1] == ' ' {
                text::string_of(&x, i + 2, x.len())
            } else {
                text::string_of(&x, i + 1, x.len())
            };
            assert(value@ =~= field_value(line@));
            self.data.push(value);
            assert(text::views(self.data@) =~= text::views(before).push(value@));
        }
        false
    }

    /// Takes one chunk of the body; the events that it completes.
    pub fn feed(&mut self, chunk: &[u8]) -> (events: Vec<String>)
        ensures
            text::views(events@) == old(self)@.events(chunk@),
            final(self)@ == old(self)@.next(chunk@),
    {
        let ghost start = self@;
        let ghost all = self.buf@ + chunk@;
        let mut bytes: Vec<u8> = Vec::new();
        bytes.append(&mut self.buf);
        for i in 0..chunk.len()
            invariant
                bytes@ == start.buf + chunk@.take(i as int),
                self@.data == start.data,
        {
            bytes.push(chunk[i]);
            assert(bytes@ =~= start.buf + chunk@.take(i + 1));
        }
        assert(chunk@.take(chunk@.len() as int) =~= chunk@);
        let mut events: Vec<String> = Vec::new();
        let mut at: usize = 0;
        let mut i: usize = 0;
        assert(all.skip(0) =~= all);
        assert(text::views(events@) + events_in(self@.data, lines_in(all)) =~= events_in(
            start.data,
            lines_in(all),
        ));
        // A carriage return at the very end waits for the byte that follows it.
        while i < bytes.len() && !(bytes[i] == 13 && i + 1 == bytes.len())
            invariant
                at <= i <= bytes@.len(),
                bytes@ == all,
                forall|k: int| at <= k < i ==> all[k] != 10 && all[k] != 13,
                text::views(events@) + events_in(self@.data, lines_in(all.skip(at as int)))
                    == events_in(start.data, lines_in(all)),
                data_after(self@.data, lines_in(all.skip(at as int))) == data_after(
                    start.data,
                    lines_in(all),
                ),
                rest_of(all.skip(at as int)) == rest_of(all),
            decreases bytes@.len() - i,
        {
            let b: u8 = bytes[i];
            if b != 10 && b != 13 {
                i += 1;
                continue;
            }
            let ghost rest = all.skip(at as int);
            proof {
                assert forall|k: int| 0 <= k < i - at implies rest[k] != 10 && rest[k] != 13 by {
                    assert(rest[k] == all[k + at]);
                }
                lemma_break_at_is(rest, i - at);
            }
            let line = lossy_text(vstd::slice::slice_subrange(bytes.as_slice(), at, i));
            assert(bytes@.subrange(at as int, i as int) =~= rest.take(i - at));
            let end: usize = if b == 13 && bytes[i + 1] == 10 {
                i + 2
            } else {
                i + 1
            };
            let ghost pending = self@.data;
            let ghost sent = events@;
            let ghost lines = lines_in(rest);
            proof {
                assert(line_ready(rest));
                assert(line_end(rest) == end - at);
                assert(rest.skip(end - at) =~= all.skip(end as int));
                assert(lines == seq![line@] + lines_in(all.skip(end as int)));
                assert(lines.drop_first() =~= lines_in(all.skip(end as int)));
            }
            if self.process_line(line.as_str()) {
                if self.data.len() > 0 {
                    let event = text::join(&self.data, "\n");
                    events.push(event);
                    assert(text::views(events@) =~= text::views(sent) + event_of(pending));
                } else {
                    assert(text::views(events@) =~= text::views(sent) + event_of(pending));
                }
                self.data.clear();
                assert(self@.data =~= Seq::empty());
                assert(text::views(events@) + events_in(Seq::empty(), lines.drop_first())
                    =~= text::views(sent) + (event_of(pending) + events_in(
                    Seq::empty(),
                    lines.drop_first(),
                )));
            }
            at = end;
            i = end;
        }
        proof {
            let rest = all.skip(at as int);
            assert forall|k: int| 0 <= k < i - at implies rest[k] != 10 && rest[k] != 13 by {
                assert(rest[k] == all[k + at]);
            }
            lemma_break_at_is(rest, i - at);
            assert(lines_in(rest) =~= Seq::empty());
            assert(text::views(events@) + Seq::<Seq<char>>::empty() =~= text::views(events@));
        }
        self.buf = bytes.split_off(at);
        assert(self.buf@ =~= all.skip(at as int));
        events
    }

    /// The end of the stream: takes the unterminated line that may be left as
    /// a whole one and completes the event in progress.
    pub fn flush(&mut self) -> (events: Vec<String>)
        ensures
            text::views(events@) == old(self)@.last_events(),
            final(self)@ == SseState::start(),
    {
        let n: usize = self.buf.len();
        let stop: usize = if n > 0 && self.buf[n - 1] == 13 {
            n - 1
        } else {
            n
        };
        let line = lossy_text(vstd::slice::slice_subrange(self.buf.as_slice(), 0, stop));
        assert(self.buf@.subrange(0, stop as int) =~= (if stop < n {
            self.buf@.drop_last()
        } else {
            self.buf@
        }));
        self.buf.clear();
        self.process_line(line.as_str());
        let mut events: Vec<String> = Vec::new();
        let ghost data = self@.data;
        if self.data.len() > 0 {
            let event = text::join(&self.data, "\n");
            events.push(event);
        }
        self.data.clear();
        assert(self@.data =~= Seq::empty());
        assert(text::views(events@) =~= event_of(data));
        events
    }
}

// ── waiting for an answer ───────────────────────────────────────────────

/// The outcome that an event payload brings for request `id`, if it answers.
pub open spec fn payload_reply(payload: Seq<char>, id: u64) -> Option<ReplyView> {
    rpc::reply_of(rpc::incoming_view(json::json_value(payload), id))
}

/// The outcome that the first answering payload brings.
pub open spec fn first_reply(payloads: Seq<Seq<char>>, id: u64) -> Option<ReplyView>
    decreases payloads.len(),
{
    if payloads.len() == 0 {
        None
    } else if payload_reply(payloads[0], id) is Some {
        payload_reply(payloads[0], id)
    } else {
        first_reply(payloads.drop_first(), id)
    }
}

/// Tries one event payload as the answer to request `id`: nothing where it is
/// not ours, the result, or the error that answers us.
pub fn sse_payload(payload: &str, id: u64) -> (r: Option<Result<Json, McpError>>)
    ensures
        rpc::opt_reply(r) == payload_reply(payload@, id),
{
    rpc::settle(rpc::parse_incoming(payload, id))
}

fn find_reply(payloads: &Vec<String>, id: u64) -> (r: Option<Result<Json, McpError>>)
    ensures
        rpc::opt_reply(r) == first_reply(text::views(payloads@), id),
{
    let ghost all = text::views(payloads@);
    assert(all.skip(0) =~= all);
    for i in 0..payloads.len()
        invariant
            all == text::views(payloads@),
            first_reply(all, id) == first_reply(all.skip(i as int), id),
    {
        assert(all.skip(i as int)[0] == payloads@[i as int]@);
        assert(all.skip(i as int).drop_first() =~= all.skip(i + 1));
        let r = sse_payload(payloads[i].as_str(), id);
        if r.is_some() {
            return r;
        }
    }
    assert(all.skip(payloads@.len() as int) =~= Seq::empty());
    None
}

/// What the transport reports of a response body.
pub enum StreamEvent {
    /// The next bytes.
    Chunk(Vec<u8>),
    /// Reading failed, with the cause in words.
    Failed(String),
    /// The body has ended.
    End,
    /// The time for the call, as it is shown, ran out.
    TimedOut(String),
}

/// The outcome of waiting, after one more report of the transport.
pub open spec fn read_outcome(state: SseState, id: u64, ev: StreamEvent) -> Option<ReplyView> {
    match ev {
        StreamEvent::Chunk(c) => first_reply(state.events(c@), id),
        StreamEvent::Failed(e) => Some(
            ReplyView::Failed(McpErrorView::Protocol("http body read error: "@ + e@)),
        ),
        StreamEvent::End => match first_reply(state.last_events(), id) {
            Some(r) => Some(r),
            None => Some(
                ReplyView::Failed(
                    McpErrorView::Protocol(
                        "SSE stream ended without a response for id "@ + text::decimal(id as nat),
                    ),
                ),
            ),
        },
        StreamEvent::TimedOut(t) => Some(ReplyView::Failed(McpErrorView::Timeout(t@))),
    }
}

/// Waits in a stream of events for the answer to one request.
pub struct SseReader {
    decoder: SseDecoder,
    id: u64,
}

impl SseReader {
    /// The state of the decoding.
    pub closed spec fn state(self) -> SseState {
        self.decoder@
    }

    /// The id of the request.
    pub closed spec fn request(self) -> u64 {
        self.id
    }

    /// Starts to wait for the answer to request `id`.
    pub fn new(id: u64) -> (out: Self)
        ensures
            out.state() == SseState::start(),
            out.request() == id,
    {
        SseReader { decoder: SseDecoder::new(), id }
    }

    /// Takes one report of the transport. An outcome ends the waiting: the
    /// rest of the stream need not be read.
    pub fn step(&mut self, ev: StreamEvent) -> (r: Option<Result<Json, McpError>>)
        ensures
            rpc::opt_reply(r) == read_outcome(old(self).state(), old(self).request(), ev),
            final(self).request() == old(self).request(),
            match ev {
                StreamEvent::Chunk(c) => final(self).state() == old(self).state().next(c@),
                StreamEvent::End => final(self).state() == SseState::start(),
                _ => final(self).state() == old(self).state(),
            },
    {
        match ev {
            StreamEvent::Chunk(c) => {
                let events = self.decoder.feed(c.as_slice());
                find_reply(&events, self.id)
            },
            StreamEvent::Failed(e) => Some(
                Err(McpError::Protocol(text::cat2("http body read error: ", e.as_str()))),
            ),
            StreamEvent::End => {
                let events = self.decoder.flush();
                match find_reply(&events, self.id) {
                    Some(r) => Some(r),
                    None => {
                        let n = text::show_u64(self.id);
                        Some(
                            Err(
                                McpError::Protocol(
                                    text::cat2(
                                        "SSE stream ended without a response for id ",
                                        n.as_str(),
                                    ),
                                ),
                            ),
                        )
                    },
                }
            },
            StreamEvent::TimedOut(t) => Some(Err(McpError::Timeout(t))),
        }
    }
}

// ── laws ────────────────────────────────────────────────────────────────

/// The events that chunks complete one after the other.
pub open spec fn events_of_chunks(state: SseState, chunks: Seq<Seq<u8>>) -> Seq<Seq<char>>
    decreases chunks.len(),
{
    if chunks.len() == 0 {
        Seq::empty()
    } else {
        state.events(chunks[0]) + events_of_chunks(state.next(chunks[0]), chunks.drop_first())
    }
}

/// The state after chunks that were taken one after the other.
pub open spec fn state_after_chunks(state: SseState, chunks: Seq<Seq<u8>>) -> SseState
    decreases chunks.len(),
{
    if chunks.len() == 0 {
        state
    } else {
        state_after_chunks(state.next(chunks[0]), chunks.drop_first())
    }
}

/// The outcome of waiting in a stream of chunks: that of the first chunk that
/// brings one.
pub open spec fn reply_in_chunks(state: SseState, chunks: Seq<Seq<u8>>, id: u64) -> Option<ReplyView>
    decreases chunks.len(),
{
    if chunks.len() == 0 {
        None
    } else if first_reply(state.events(chunks[0]), id) is Some {
        first_reply(state.events(chunks[0]), id)
    } else {
        reply_in_chunks(state.next(chunks[0]), chunks.drop_first(), id)
    }
}

proof fn lemma_rest_is_not_ready(buf: Seq<u8>)
    ensures
        !line_ready(rest_of(buf)),
    decreases buf.len(),
{
    if line_ready(buf) {
        lemma_break_at(buf);
        lemma_rest_is_not_ready(buf.skip(line_end(buf)));
    }
}

proof fn lemma_lines_of_two(x: Seq<u8>, b: Seq<u8>)
    ensures
        lines_in(x + b) == lines_in(x) + lines_in(rest_of(x) + b),
        rest_of(x + b) == rest_of(rest_of(x) + b),
    decreases x.len(),
{
    if line_ready(x) {
        let i = break_at(x);
        lemma_break_at(x);
        assert forall|k: int| 0 <= k < i implies (x + b)[k] != 10 && (x + b)[k] != 13 by {
            assert((x + b)[k] == x[k]);
        }
        lemma_break_at_is(x + b, i);
        assert((x + b)[i] == x[i]);
        if i + 1 < x.len() {
            assert((x + b)[i + 1] == x[i + 1]);
        }
        let e = line_end(x);
        assert(line_end(x + b) == e);
        assert((x + b).skip(e) =~= x.skip(e) + b);
        assert((x + b).take(i) =~= x.take(i));
        lemma_lines_of_two(x.skip(e), b);
        assert(lines_in(x + b) =~= lines_in(x) + lines_in(rest_of(x) + b));
    } else {
        assert(lines_in(x) + lines_in(x + b) =~= lines_in(x + b));
    }
}

proof fn lemma_events_of_two(data: Seq<Seq<char>>, a: Seq<Seq<char>>, b: Seq<Seq<char>>)
    ensures
        events_in(data, a + b) == events_in(data, a) + events_in(data_after(data, a), b),
        data_after(data, a + b) == data_after(data_after(data, a), b),
    decreases a.len(),
{
    if a.len() == 0 {
        assert(a + b =~= b);
        assert(events_in(data, a) + events_in(data, b) =~= events_in(data, b));
    } else {
        assert((a + b).drop_first() =~= a.drop_first() + b);
        assert((a + b)[0] == a[0]);
        if a[0].len() == 0 {
            lemma_events_of_two(Seq::empty(), a.drop_first(), b);
            assert(events_in(data, a + b) =~= events_in(data, a) + events_in(
                data_after(data, a),
                b,
            ));
        } else {
            lemma_events_of_two(with_line(data, a[0]), a.drop_first(), b);
        }
    }
}

/// Feeding two chunks is feeding them as one: the same events come out, and
/// the decoder is left in the same state. A line ending or a character that
/// the cut divides makes no difference.
pub proof fn law_two_chunks_are_one(state: SseState, a: Seq<u8>, b: Seq<u8>)
    ensures
        state.events(a + b) == state.events(a) + state.next(a).events(b),
        state.next(a + b) == state.next(a).next(b),
{
    let x = state.buf + a;
    assert(state.buf + (a + b) =~= x + b);
    lemma_lines_of_two(x, b);
    lemma_events_of_two(state.data, lines_in(x), lines_in(rest_of(x) + b));
}

/// However a body is cut into chunks, its events are those of the whole.
pub proof fn law_chunks_do_not_matter(chunks: Seq<Seq<u8>>)
    ensures
        events_of_chunks(SseState::start(), chunks) == SseState::start().events(chunks.flatten()),
        state_after_chunks(SseState::start(), chunks) == SseState::start().next(chunks.flatten()),
{
    lemma_chunks(SseState::start(), chunks);
}

proof fn lemma_chunks(state: SseState, chunks: Seq<Seq<u8>>)
    requires
        !line_ready(state.buf),
    ensures
        events_of_chunks(state, chunks) == state.events(chunks.flatten()),
        state_after_chunks(state, chunks) == state.next(chunks.flatten()),
    decreases chunks.len(),
{
    if chunks.len() == 0 {
        assert(state.buf + chunks.flatten() =~= state.buf);
        assert(lines_in(state.buf) =~= Seq::empty());
    } else {
        let a = chunks[0];
        lemma_rest_is_not_ready(state.buf + a);
        lemma_chunks(state.next(a), chunks.drop_first());
        law_two_chunks_are_one(state, a, chunks.drop_first().flatten());
        assert(chunks.flatten() =~= a + chunks.drop_first().flatten());
    }
}

proof fn lemma_first_reply_of_two(a: Seq<Seq<char>>, b: Seq<Seq<char>>, id: u64)
    ensures
        first_reply(a + b, id) == (if first_reply(a, id) is Some {
            first_reply(a, id)
        } else {
            first_reply(b, id)
        }),
    decreases a.len(),
{
    if a.len() == 0 {
        assert(a + b =~= b);
    } else {
        assert((a + b).drop_first() =~= a.drop_first() + b);
        assert((a + b)[0] == a[0]);
        lemma_first_reply_of_two(a.drop_first(), b, id);
    }
}

/// The answer to a request does not depend on how the body is cut: waiting
/// chunk by chunk finds the first answering event of the whole body, and
/// nothing that follows it can change that.
pub proof fn law_answer_does_not_depend_on_chunks(chunks: Seq<Seq<u8>>, id: u64)
    ensures
        reply_in_chunks(SseState::start(), chunks, id) == first_reply(
            SseState::start().events(chunks.flatten()),
            id,
        ),
{
    law_chunks_do_not_matter(chunks);
    lemma_reply_in_chunks(SseState::start(), chunks, id);
}

proof fn lemma_reply_in_chunks(state: SseState, chunks: Seq<Seq<u8>>, id: u64)
    ensures
        reply_in_chunks(state, chunks, id) == first_reply(events_of_chunks(state, chunks), id),
    decreases chunks.len(),
{
    if chunks.len() > 0 {
        let s = state.next(chunks[0]);
        lemma_reply_in_chunks(s, chunks.drop_first(), id);
        lemma_first_reply_of_two(
            state.events(chunks[0]),
            events_of_chunks(s, chunks.drop_first()),
            id,
        );
    }
}

/// A line without line breaks.
pub open spec fn plain_line(line: Seq<u8>) -> bool {
    forall|i: int| 0 <= i < line.len() ==> #[trigger] line[i] != 10 && line[i] != 13
}

/// Lines that each end in `ending`.
pub open spec fn with_endings(lines: Seq<Seq<u8>>, ending: Seq<u8>) -> Seq<u8>
    decreases lines.len(),
{
    if lines.len() == 0 {
        Seq::empty()
    } else {
        lines[0] + ending + with_endings(lines.drop_first(), ending)
    }
}

/// The texts of lines.
pub open spec fn line_texts(lines: Seq<Seq<u8>>) -> Seq<Seq<char>> {
    Seq::new(lines.len(), |i: int| line_text(lines[i]))
}

/// The events of a whole body: those that it completes and those that its end
/// completes.
pub open spec fn body_events(body: Seq<u8>) -> Seq<Seq<char>> {
    SseState::start().events(body) + SseState::start().next(body).last_events()
}

proof fn lemma_endings(lines: Seq<Seq<u8>>, ending: Seq<u8>)
    requires
        forall|i: int| 0 <= i < lines.len() ==> plain_line(#[trigger] lines[i]),
        ending == seq![10u8] || ending == seq![13u8, 10u8],
    ensures
        lines_in(with_endings(lines, ending)) == line_texts(lines),
        rest_of(with_endings(lines, ending)) == Seq::<u8>::empty(),
    decreases lines.len(),
{
    let all = with_endings(lines, ending);
    if lines.len() == 0 {
        assert(!line_ready(all));
        assert(line_texts(lines) =~= Seq::empty());
    } else {
        let first = lines[0];
        let tail = with_endings(lines.drop_first(), ending);
        assert forall|i: int| 0 <= i < lines.drop_first().len() implies plain_line(
            #[trigger] lines.drop_first()[i],
        ) by {
            assert(lines.drop_first()[i] == lines[i + 1]);
        }
        lemma_endings(lines.drop_first(), ending);
        assert forall|i: int| 0 <= i < first.len() implies all[i] != 10 && all[i] != 13 by {
            assert(all[i] == first[i]);
        }
        assert(all[first.len() as int] == ending[0]);
        if ending.len() == 2 {
            assert(all[first.len() as int + 1] == ending[1]);
        }
        lemma_break_at_is(all, first.len() as int);
        assert(line_ready(all));
        assert(line_end(all) == first.len() + ending.len());
        assert(all.take(first.len() as int) =~= first);
        assert(all.skip(line_end(all)) =~= tail);
        assert(line_texts(lines) =~= seq![line_text(first)] + line_texts(lines.drop_first()));
    }
}

proof fn lemma_cr_endings(lines: Seq<Seq<u8>>)
    requires
        lines.len() > 0,
        forall|i: int| 0 <= i < lines.len() ==> plain_line(#[trigger] lines[i]),
    ensures
        lines_in(with_endings(lines, seq![13u8])) == line_texts(lines.drop_last()),
        rest_of(with_endings(lines, seq![13u8])) == lines.last().push(13),
    decreases lines.len(),
{
    let all = with_endings(lines, seq![13u8]);
    let first = lines[0];
    let tail = with_endings(lines.drop_first(), seq![13u8]);
    assert forall|i: int| 0 <= i < first.len() implies all[i] != 10 && all[i] != 13 by {
        assert(all[i] == first[i]);
    }
    assert(all[first.len() as int] == 13);
    lemma_break_at_is(all, first.len() as int);
    if lines.len() == 1 {
        assert(tail =~= Seq::empty());
        assert(all =~= first.push(13));
        assert(!line_ready(all));
        assert(line_texts(lines.drop_last()) =~= Seq::empty());
    } else {
        let more = lines.drop_first();
        assert forall|i: int| 0 <= i < more.len() implies plain_line(#[trigger] more[i]) by {
            assert(more[i] == lines[i + 1]);
        }
        lemma_cr_endings(more);
        assert(plain_line(more[0]));
        assert(tail.len() > 0);
        assert(tail[0] != 10) by {
            if more[0].len() > 0 {
                assert(tail[0] == more[0][0]);
            }
        }
        assert(all[first.len() as int + 1] == tail[0]);
        assert(line_ready(all));
        assert(line_end(all) == first.len() + 1);
        assert(all.take(first.len() as int) =~= first);
        assert(all.skip(line_end(all)) =~= tail);
        assert(lines.drop_last().drop_first() =~= more.drop_last());
        assert(line_texts(lines.drop_last()) =~= seq![line_text(first)] + line_texts(
            more.drop_last(),
        ));
        assert(more.last() == lines.last());
    }
}

/// The three line endings mean the same: a body has the same events whether
/// its lines end in line feeds, in carriage returns, or in both.
pub proof fn law_line_endings_are_alike(lines: Seq<Seq<u8>>)
    requires
        forall|i: int| 0 <= i < lines.len() ==> plain_line(#[trigger] lines[i]),
    ensures
        body_events(with_endings(lines, seq![13u8, 10u8])) == body_events(
            with_endings(lines, seq![10u8]),
        ),
        body_events(with_endings(lines, seq![13u8])) == body_events(
            with_endings(lines, seq![10u8]),
        ),
{
    let lf = with_endings(lines, seq![10u8]);
    let crlf = with_endings(lines, seq![13u8, 10u8]);
    let cr = with_endings(lines, seq![13u8]);
    let none = Seq::<u8>::empty();
    lemma_endings(lines, seq![10u8]);
    lemma_endings(lines, seq![13u8, 10u8]);
    assert(none + lf =~= lf);
    assert(none + crlf =~= crlf);
    assert(none + cr =~= cr);
    let blank = Seq::<Seq<char>>::empty();
    assert(line_text(none) =~= Seq::empty());
    if lines.len() == 0 {
        assert(cr =~= lf);
    } else {
        lemma_cr_endings(lines);
        let head = line_texts(lines.drop_last());
        let last = line_text(lines.last());
        assert(line_texts(lines) =~= head + seq![last]);
        lemma_events_of_two(blank, head, seq![last]);
        let d = data_after(blank, head);
        assert(lines.last().push(13).drop_last() =~= lines.last());
        assert(seq![last].drop_first() =~= blank);
        assert(with_line(data_after(blank, line_texts(lines)), Seq::<char>::empty()) == data_after(
            blank,
            line_texts(lines),
        ));
        if last.len() == 0 {
            assert(data_after(d, seq![last]) == data_after(blank, blank));
            assert(events_in(blank, blank) =~= blank);
            assert(events_in(d, seq![last]) =~= event_of(d) + events_in(blank, blank));
            assert(events_in(d, seq![last]) =~= event_of(d));
            assert(event_of(blank) =~= blank);
            assert(with_line(d, last) == d);
            assert(body_events(lf) =~= events_in(blank, head) + event_of(d));
            assert(body_events(cr) =~= events_in(blank, head) + event_of(d));
        } else {
            assert(data_after(d, seq![last]) == with_line(d, last)) by {
                assert(data_after(with_line(d, last), blank) == with_line(d, last));
            }
            assert(events_in(d, seq![last]) =~= blank) by {
                assert(events_in(with_line(d, last), blank) =~= blank);
            }
            assert(body_events(lf) =~= events_in(blank, head) + event_of(with_line(d, last)));
            assert(body_events(cr) =~= events_in(blank, head) + event_of(with_line(d, last)));
        }
    }
}

/// Bytes with every line feed as a carriage return and a line feed.
pub open spec fn with_returns(bytes: Seq<u8>) -> Seq<u8>
    decreases bytes.len(),
{
    if bytes.len() == 0 {
        Seq::empty()
    } else if bytes[0] == 10 {
        seq![13u8, 10u8] + with_returns(bytes.drop_first())
    } else {
        seq![bytes[0]] + with_returns(bytes.drop_first())
    }
}

proof fn lemma_returns_of_plain(a: Seq<u8>, b: Seq<u8>)
    requires
        forall|i: int| 0 <= i < a.len() ==> #[trigger] a[i] != 10,
    ensures
        with_returns(a + b) == a + with_returns(b),
    decreases a.len(),
{
    if a.len() == 0 {
        assert(a + b =~= b);
        assert(a + with_returns(b) =~= with_returns(b));
    } else {
        let rest = a.drop_first();
        assert forall|i: int| 0 <= i < rest.len() implies #[trigger] rest[i] != 10 by {
            assert(rest[i] == a[i + 1]);
        }
        lemma_returns_of_plain(rest, b);
        assert((a + b).drop_first() =~= rest + b);
        assert((a + b)[0] == a[0]);
        assert(seq![a[0]] + (rest + with_returns(b)) =~= a + with_returns(b));
    }
}

proof fn lemma_lines_with_returns(x: Seq<u8>)
    requires
        forall|i: int| 0 <= i < x.len() ==> #[trigger] x[i] != 13,
    ensures
        lines_in(with_returns(x)) == lines_in(x),
        rest_of(with_returns(x)) == rest_of(x),
    decreases x.len(),
{
    let i = break_at(x);
    let y = with_returns(x);
    lemma_break_at(x);
    let head = x.take(i);
    if i == x.len() {
        lemma_returns_of_plain(x, Seq::empty());
        assert(x + Seq::<u8>::empty() =~= x);
        assert(y =~= x);
    } else {
        let tail = x.skip(i + 1);
        assert(x.skip(i).drop_first() =~= tail);
        assert(x[i] == 10);
        assert forall|k: int| 0 <= k < head.len() implies #[trigger] head[k] != 10 by {
            assert(head[k] == x[k]);
        }
        lemma_returns_of_plain(head, x.skip(i));
        assert(head + x.skip(i) =~= x);
        assert(y == head + (seq![13u8, 10u8] + with_returns(tail)));
        assert forall|k: int| 0 <= k < i implies y[k] != 10 && y[k] != 13 by {
            assert(y[k] == x[k]);
        }
        assert(y[i] == 13);
        assert(y[i + 1] == 10);
        lemma_break_at_is(y, i);
        assert(line_ready(x));
        assert(line_ready(y));
        assert(line_end(x) == i + 1);
        assert(line_end(y) == i + 2);
        assert(y.take(i) =~= x.take(i));
        assert(y.skip(i + 2) =~= with_returns(tail));
        assert forall|k: int| 0 <= k < tail.len() implies #[trigger] tail[k] != 13 by {
            assert(tail[k] == x[k + i + 1]);
        }
        lemma_lines_with_returns(tail);
    }
}

/// Wherever a decoder stands in text without carriage returns, feeding more of
/// it with both in place of every line feed gives the same events and leaves
/// the decoder in the same state.
pub proof fn law_returns_do_not_matter(state: SseState, text: Seq<u8>)
    requires
        plain_line(state.buf),
        forall|i: int| 0 <= i < text.len() ==> #[trigger] text[i] != 13,
    ensures
        state.events(with_returns(text)) == state.events(text),
        state.next(with_returns(text)) == state.next(text),
{
    let x = state.buf + text;
    assert forall|i: int| 0 <= i < x.len() implies #[trigger] x[i] != 13 by {
        if i < state.buf.len() {
            assert(x[i] == state.buf[i]);
        } else {
            assert(x[i] == text[i - state.buf.len()]);
        }
    }
    lemma_returns_of_plain(state.buf, text);
    lemma_lines_with_returns(x);
}

/// The end of a stream completes what two line feeds would complete: at most
/// one event. A second end completes none.
pub proof fn law_end_is_two_line_feeds(body: Seq<u8>)
    ensures
        ({
            let state = SseState::start().next(body);
            &&& state.last_events() == state.events(seq![10u8, 10u8])
            &&& state.next(seq![10u8, 10u8]) == SseState::start()
            &&& state.last_events().len() <= 1
        }),
        SseState::start().last_events() == Seq::<Seq<char>>::empty(),
{
    let state = SseState::start().next(body);
    let buf = state.buf;
    let blank = Seq::<Seq<char>>::empty();
    let none = Seq::<u8>::empty();
    let feeds = seq![10u8, 10u8];
    let x = buf + feeds;
    let i = break_at(buf);
    let line = state.last_line();
    assert(line_text(none) =~= Seq::empty());
    lemma_rest_is_not_ready(SseState::start().buf + body);
    lemma_break_at(buf);
    assert forall|k: int| 0 <= k < i implies x[k] != 10 && x[k] != 13 by {
        assert(x[k] == buf[k]);
    }
    if i < buf.len() {
        assert(x[i] == 13);
        assert(x[i + 1] == feeds[0]);
        assert(buf.drop_last() =~= buf.take(i));
    } else {
        assert(x[i] == feeds[0]);
        assert(buf.take(i) =~= buf);
        if buf.len() > 0 {
            assert(buf[buf.len() - 1] != 13);
        }
    }
    lemma_break_at_is(x, i);
    assert(line_ready(x));
    assert(x.take(i) =~= buf.take(i));
    assert(x.skip(line_end(x)) =~= seq![10u8]);
    let y = seq![10u8];
    lemma_break_at_is(y, 0);
    assert(y.take(0) =~= none);
    assert(y.skip(1) =~= none);
    assert(break_at(none) == 0);
    assert(lines_in(none) =~= blank);
    assert(lines_in(y) =~= seq![Seq::<char>::empty()]);
    assert(lines_in(x) =~= seq![line, Seq::<char>::empty()]);
    let lines = lines_in(x);
    assert(lines.drop_first() =~= seq![Seq::<char>::empty()]);
    assert(lines.drop_first().drop_first() =~= blank);
    reveal_with_fuel(events_in, 3);
    reveal_with_fuel(data_after, 3);
    assert(event_of(blank) =~= blank);
    if line.len() == 0 {
        assert(with_line(state.data, line) == state.data);
        assert(events_in(state.data, lines) =~= event_of(state.data));
    } else {
        assert(events_in(state.data, lines) =~= event_of(with_line(state.data, line)));
    }
    reveal_with_fuel(rest_of, 3);
    assert(rest_of(x) =~= none);
}

// ── what a stream says ──────────────────────────────────────────────────

/// A text without line breaks.
pub open spec fn unbroken(s: Seq<char>) -> bool {
    forall|i: int| 0 <= i < s.len() ==> #[trigger] s[i] != '\n' && s[i] != '\r'
}

proof fn lemma_encode_two(a: Seq<char>, b: Seq<char>)
    ensures
        encode_utf8(a + b) == encode_utf8(a) + encode_utf8(b),
    decreases a.len(),
{
    if a.len() == 0 {
        assert(a + b =~= b);
        assert(encode_utf8(a) + encode_utf8(b) =~= encode_utf8(b));
    } else {
        lemma_encode_two(a.drop_first(), b);
        assert((a + b).drop_first() =~= a.drop_first() + b);
        assert(encode_utf8(a + b) =~= encode_utf8(a) + encode_utf8(b));
    }
}

proof fn lemma_scalar_bytes(n: u32)
    requires
        n != 10,
        n != 13,
    ensures
        forall|i: int|
            0 <= i < encode_scalar(n).len() ==> #[trigger] encode_scalar(n)[i] != 10
                && encode_scalar(n)[i] != 13,
{
    assert(n <= 0x7f ==> (n & 0x7F) as u8 == n as u8) by (bit_vector);
    assert(n <= 0x7f && n != 10 && n != 13 ==> n as u8 != 10u8 && n as u8 != 13u8) by (bit_vector);
    assert((0xC0u8 | ((n >> 6) & 0x1F) as u8) >= 0x80u8) by (bit_vector);
    assert((0xE0u8 | ((n >> 12) & 0x0F) as u8) >= 0x80u8) by (bit_vector);
    assert((0xF0u8 | ((n >> 18) & 0x7) as u8) >= 0x80u8) by (bit_vector);
    assert((0x80u8 | (n & 0x3F) as u8) >= 0x80u8) by (bit_vector);
    assert((0x80u8 | ((n >> 6) & 0x3F) as u8) >= 0x80u8) by (bit_vector);
    assert((0x80u8 | ((n >> 12) & 0x3F) as u8) >= 0x80u8) by (bit_vector);
}

proof fn lemma_unbroken_bytes(s: Seq<char>)
    requires
        unbroken(s),
    ensures
        plain_line(encode_utf8(s)),
    decreases s.len(),
{
    if s.len() > 0 {
        let rest = s.drop_first();
        assert forall|i: int| 0 <= i < rest.len() implies #[trigger] rest[i] != '\n' && rest[i]
            != '\r' by {
            assert(rest[i] == s[i + 1]);
        }
        lemma_unbroken_bytes(rest);
        assert(s[0] != '\n' && s[0] != '\r');
        let c = s[0];
        let n = c as u32;
        char_is_scalar(c);
        char_u32_cast(c, n);
        assert(n != 10 && n != 13);
        lemma_scalar_bytes(n);
        let all = encode_utf8(s);
        let head = encode_scalar(n);
        assert forall|i: int| 0 <= i < all.len() implies #[trigger] all[i] != 10 && all[i]
            != 13 by {
            if i < head.len() {
                assert(all[i] == head[i]);
            } else {
                assert(all[i] == encode_utf8(rest)[i - head.len()]);
            }
        }
    }
}

proof fn lemma_line_feed_bytes(s: Seq<char>)
    ensures
        encode_utf8("\n"@ + s) == seq![10u8] + encode_utf8(s),
{
    reveal_strlit("\n");
    let one = "\n"@;
    assert(one =~= seq!['\n']);
    lemma_encode_two(one, s);
    assert(one.drop_first() =~= Seq::empty());
    assert(encode_utf8(one.drop_first()) =~= Seq::empty());
    assert((10u32 & 0x7F) as u8 == 10u8) by (bit_vector);
    assert(encode_utf8(one) =~= seq![10u8]);
}

/// The first line of a text in UTF-8, and what is behind it.
proof fn lemma_first_line(line: Seq<char>, rest: Seq<char>)
    requires
        unbroken(line),
    ensures
        lines_in(encode_utf8(line + "\n"@ + rest)) == seq![line] + lines_in(encode_utf8(rest)),
        rest_of(encode_utf8(line + "\n"@ + rest)) == rest_of(encode_utf8(rest)),
{
    let bytes = encode_utf8(line);
    let tail = encode_utf8(rest);
    let all = encode_utf8(line + "\n"@ + rest);
    assert(line + "\n"@ + rest =~= line + ("\n"@ + rest));
    lemma_encode_two(line, "\n"@ + rest);
    lemma_line_feed_bytes(rest);
    assert(all =~= bytes + (seq![10u8] + tail));
    lemma_unbroken_bytes(line);
    let n = bytes.len() as int;
    assert forall|i: int| 0 <= i < n implies all[i] != 10 && all[i] != 13 by {
        assert(all[i] == bytes[i]);
    }
    assert(all[n] == 10);
    lemma_break_at_is(all, n);
    assert(line_ready(all));
    assert(line_end(all) == n + 1);
    assert(all.take(n) =~= bytes);
    assert(all.skip(n + 1) =~= tail);
    encode_utf8_valid_utf8(line);
    encode_utf8_decode_utf8(line);
}

proof fn lemma_no_bytes()
    ensures
        lines_in(encode_utf8(Seq::empty())) == Seq::<Seq<char>>::empty(),
        rest_of(encode_utf8(Seq::empty())) == Seq::<u8>::empty(),
{
    let none = encode_utf8(Seq::empty());
    assert(none =~= Seq::empty());
    assert(!line_ready(none));
    assert(lines_in(none) =~= Seq::empty());
}

proof fn lemma_data_line(data: Seq<Seq<char>>, line: Seq<char>, v: Seq<char>)
    requires
        line == "data: "@ + v || (v.len() > 0 && v[0] != ' ' && line == "data:"@ + v) || (v.len()
            == 0 && line == "data:"@),
    ensures
        line.len() > 0,
        with_line(data, line) == data.push(v),
{
    reveal_strlit("data: ");
    reveal_strlit("data:");
    reveal_strlit("data");
    assert forall|i: int| 0 <= i < 4 implies line[i] != ':' by {}
    text::lemma_position_is(line, ':', 4);
    assert(line.take(4) =~= "data"@);
    if line == "data: "@ + v {
        assert(line.skip(5)[0] == ' ');
        assert(line.skip(5).drop_first() =~= v);
    } else {
        assert(line.skip(5) =~= v);
    }
}

/// `data` lines, one behind the other.
pub open spec fn data_lines(values: Seq<Seq<char>>) -> Seq<char>
    decreases values.len(),
{
    if values.len() == 0 {
        Seq::empty()
    } else {
        "data: "@ + values[0] + "\n"@ + data_lines(values.drop_first())
    }
}

proof fn lemma_data_lines(data: Seq<Seq<char>>, values: Seq<Seq<char>>, rest: Seq<char>)
    requires
        forall|i: int| 0 <= i < values.len() ==> unbroken(#[trigger] values[i]),
    ensures
        events_in(data, lines_in(encode_utf8(data_lines(values) + rest))) == events_in(
            data + values,
            lines_in(encode_utf8(rest)),
        ),
        data_after(data, lines_in(encode_utf8(data_lines(values) + rest))) == data_after(
            data + values,
            lines_in(encode_utf8(rest)),
        ),
        rest_of(encode_utf8(data_lines(values) + rest)) == rest_of(encode_utf8(rest)),
    decreases values.len(),
{
    if values.len() == 0 {
        assert(data_lines(values) + rest =~= rest);
        assert(data + values =~= data);
    } else {
        let v = values[0];
        let more = values.drop_first();
        assert forall|i: int| 0 <= i < more.len() implies unbroken(#[trigger] more[i]) by {
            assert(more[i] == values[i + 1]);
        }
        assert(unbroken(values[0]));
        let line = "data: "@ + v;
        reveal_strlit("data: ");
        assert forall|i: int| 0 <= i < line.len() implies #[trigger] line[i] != '\n' && line[i]
            != '\r' by {
            if i >= 6 {
                assert(line[i] == v[i - 6]);
            }
        }
        let behind = data_lines(more) + rest;
        assert(data_lines(values) + rest =~= line + "\n"@ + behind);
        lemma_first_line(line, behind);
        lemma_data_line(data, line, v);
        let lines = lines_in(encode_utf8(data_lines(values) + rest));
        assert(lines[0] == line);
        assert(lines.drop_first() =~= lines_in(encode_utf8(behind)));
        lemma_data_lines(data.push(v), more, rest);
        assert(data.push(v) + more =~= data + values);
    }
}

/// A decoder that has just been made has read nothing.
pub proof fn law_new_decoder_is_empty(d: SseDecoder)
    requires
        call_ensures(SseDecoder::new, (), d),
    ensures
        d@.buf.len() == 0,
        d@.data.len() == 0,
{
}

/// The lines of an event: fed `data` lines and a blank line, a decoder that
/// stands between events gives one event, which is what stands behind the field
/// names with line feeds between, and stands between events again.
pub proof fn law_data_lines_make_one_event(
    d: &mut SseDecoder,
    values: Seq<Seq<char>>,
    chunk: &[u8],
    events: Vec<String>,
)
    requires
        old(d)@.buf.len() == 0,
        old(d)@.data.len() == 0,
        values.len() > 0,
        forall|i: int| 0 <= i < values.len() ==> unbroken(#[trigger] values[i]),
        chunk@ == encode_utf8(data_lines(values) + "\n"@),
        call_ensures(SseDecoder::feed, (d, chunk), events),
    ensures
        events@.len() == 1,
        events@[0]@ == text::joined(values, "\n"@),
        final(d)@.buf.len() == 0,
        final(d)@.data.len() == 0,
{
    let none = Seq::<Seq<char>>::empty();
    let blank = Seq::<char>::empty();
    assert(old(d)@.buf + chunk@ =~= chunk@);
    assert(old(d)@.data =~= none);
    lemma_data_lines(none, values, "\n"@);
    assert(blank + "\n"@ + blank =~= "\n"@);
    lemma_first_line(blank, blank);
    lemma_no_bytes();
    let lines = lines_in(encode_utf8("\n"@));
    assert(lines =~= seq![blank]);
    assert(lines.drop_first() =~= none);
    assert(none + values =~= values);
    reveal_with_fuel(events_in, 2);
    reveal_with_fuel(data_after, 2);
    assert(events_in(values, lines) =~= seq![text::joined(values, "\n"@)]);
    assert(text::views(events@) == seq![text::joined(values, "\n"@)]);
    assert(text::views(events@)[0] == events@[0]@);
}

proof fn lemma_single_event(line: Seq<char>, v: Seq<char>)
    requires
        unbroken(v),
        line == "data: "@ + v || (v.len() > 0 && v[0] != ' ' && line == "data:"@ + v),
    ensures
        events_in(Seq::empty(), lines_in(encode_utf8(line + "\n\n"@))) == seq![v],
        data_after(Seq::empty(), lines_in(encode_utf8(line + "\n\n"@))).len() == 0,
        rest_of(encode_utf8(line + "\n\n"@)).len() == 0,
{
    let none = Seq::<Seq<char>>::empty();
    let blank = Seq::<char>::empty();
    reveal_strlit("data: ");
    reveal_strlit("data:");
    reveal_strlit("\n\n");
    reveal_strlit("\n");
    let n = line.len() - v.len();
    assert forall|i: int| 0 <= i < line.len() implies #[trigger] line[i] != '\n' && line[i]
        != '\r' by {
        if i >= n {
            assert(line[i] == v[i - n]);
        }
    }
    assert(line + "\n\n"@ =~= line + "\n"@ + "\n"@);
    lemma_first_line(line, "\n"@);
    assert(blank + "\n"@ + blank =~= "\n"@);
    lemma_first_line(blank, blank);
    lemma_no_bytes();
    lemma_data_line(none, line, v);
    let lines = lines_in(encode_utf8(line + "\n\n"@));
    assert(lines =~= seq![line, blank]);
    assert(lines.drop_first() =~= seq![blank]);
    assert(lines.drop_first().drop_first() =~= none);
    reveal_with_fuel(events_in, 3);
    reveal_with_fuel(data_after, 3);
    let one = none.push(v);
    assert(one =~= seq![v]);
    assert(text::joined(one, "\n"@) == v);
    assert(events_in(none, lines) =~= seq![v]);
}

/// The space behind the colon is not part of the data, and may be left out:
/// `data: v` and, where `v` is not empty and does not begin with a space,
/// `data:v`, each with a blank line behind it, are the one event `v`.
pub proof fn law_space_behind_the_colon_is_optional(
    d: &mut SseDecoder,
    v: Seq<char>,
    chunk: &[u8],
    events: Vec<String>,
)
    requires
        old(d)@.buf.len() == 0,
        old(d)@.data.len() == 0,
        unbroken(v),
        chunk@ == encode_utf8("data: "@ + v + "\n\n"@) || (v.len() > 0 && v[0] != ' ' && chunk@
            == encode_utf8("data:"@ + v + "\n\n"@)),
        call_ensures(SseDecoder::feed, (d, chunk), events),
    ensures
        events@.len() == 1,
        events@[0]@ == v,
        final(d)@.buf.len() == 0,
        final(d)@.data.len() == 0,
{
    let line = if chunk@ == encode_utf8("data: "@ + v + "\n\n"@) {
        "data: "@ + v
    } else {
        "data:"@ + v
    };
    assert(old(d)@.buf + chunk@ =~= chunk@);
    assert(old(d)@.data =~= Seq::empty());
    lemma_single_event(line, v);
    assert(text::views(events@) == seq![v]);
    assert(text::views(events@)[0] == events@[0]@);
}

/// Comments, fields of other names and lines of no field add nothing to an event
/// and complete none; a `data` field without a colon adds an empty line.
pub proof fn law_only_data_counts(d: &mut SseDecoder, line: &str, name: Seq<char>, x: Seq<char>, blank: bool)
    requires
        call_ensures(SseDecoder::process_line, (d, line), blank),
        !name.contains(':'),
    ensures
        final(d)@.buf == old(d)@.buf,
        blank <==> line@.len() == 0,
        line@ == ":"@ + x ==> final(d)@.data == old(d)@.data,
        line@ == name + ":"@ + x && name != "data"@ ==> final(d)@.data == old(d)@.data,
        line@ == name && name != "data"@ ==> final(d)@.data == old(d)@.data,
        line@ == "data"@ ==> final(d)@.data == old(d)@.data.push(Seq::empty()),
        line@ == "data: "@ + x ==> final(d)@.data == old(d)@.data.push(x),
        line@ == "data:"@ + x && x.len() > 0 && x[0] != ' ' ==> final(d)@.data == old(
            d,
        )@.data.push(x),
{
    reveal_strlit(":");
    reveal_strlit("data");
    let data = old(d)@.data;
    let n = name.len() as int;
    if line@ == ":"@ + x {
        assert(line@[0] == ':');
    }
    if line@ == name + ":"@ + x && name != "data"@ {
        assert forall|i: int| 0 <= i < n implies line@[i] != ':' by {
            assert(line@[i] == name[i]);
        }
        assert(line@[n] == ':');
        text::lemma_position_is(line@, ':', n);
        assert(line@.take(n) =~= name);
    }
    if line@ == name {
        assert forall|i: int| 0 <= i < n implies line@[i] != ':' by {
            assert(line@[i] == name[i]);
        }
        text::lemma_position_is(line@, ':', n);
        assert(line@.take(n) =~= name);
    }
    if line@ == "data"@ {
        text::lemma_position_is(line@, ':', 4);
        assert(line@.take(4) =~= "data"@);
    }
    if line@ == "data: "@ + x {
        lemma_data_line(data, line@, x);
    }
    if line@ == "data:"@ + x && x.len() > 0 && x[0] != ' ' {
        lemma_data_line(data, line@, x);
    }
}

/// What a blank line completes is every data line since the one before, and
/// nothing where there was none.
pub proof fn law_blank_line_completes_the_event(d: &mut SseDecoder, chunk: &[u8], events: Vec<String>)
    requires
        old(d)@.buf.len() == 0,
        chunk@ == seq![10u8],
        call_ensures(SseDecoder::feed, (d, chunk), events),
    ensures
        final(d)@.data.len() == 0,
        old(d)@.data.len() == 0 ==> events@.len() == 0,
        old(d)@.data.len() > 0 ==> events@.len() == 1 && events@[0]@ == text::joined(
            old(d)@.data,
            "\n"@,
        ),
{
    let blank = Seq::<char>::empty();
    let data = old(d)@.data;
    assert(old(d)@.buf + chunk@ =~= chunk@);
    assert(blank + "\n"@ + blank =~= "\n"@);
    lemma_first_line(blank, blank);
    lemma_line_feed_bytes(blank);
    assert("\n"@ + blank =~= "\n"@);
    assert(encode_utf8("\n"@) =~= chunk@);
    lemma_no_bytes();
    let lines = lines_in(chunk@);
    assert(lines =~= seq![blank]);
    assert(lines.drop_first() =~= Seq::empty());
    reveal_with_fuel(events_in, 2);
    reveal_with_fuel(data_after, 2);
    if data.len() > 0 {
        assert(events_in(data, lines) =~= seq![text::joined(data, "\n"@)]);
        assert(text::views(events@)[0] == events@[0]@);
    } else {
        assert(events_in(data, lines) =~= Seq::empty());
    }
    assert(text::views(events@).len() == events@.len());
}

/// Of several payloads the first that answers the request brings the outcome;
/// where none answers there is none.
pub proof fn law_first_answer_counts(payloads: Seq<Seq<char>>, id: u64, k: int)
    requires
        0 <= k <= payloads.len(),
        forall|i: int| 0 <= i < k ==> payload_reply(#[trigger] payloads[i], id) is None,
    ensures
        k < payloads.len() && payload_reply(payloads[k], id) is Some ==> first_reply(payloads, id)
            == payload_reply(payloads[k], id),
        k == payloads.len() ==> first_reply(payloads, id) is None,
    decreases payloads.len(),
{
    if payloads.len() > 0 && k > 0 {
        assert(payload_reply(payloads[0], id) is None);
        let rest = payloads.drop_first();
        assert forall|i: int| 0 <= i < k - 1 implies payload_reply(#[trigger] rest[i], id)
            is None by {
            assert(rest[i] == payloads[i + 1]);
        }
        law_first_answer_counts(rest, id, k - 1);
    }
}

/// An event whose JSON has the id of the request and a result answers it with
/// that result; an event that is no JSON, or is for another request, does not
/// answer it.
pub proof fn law_event_answers_its_request(payload: &str, id: u64, r: Option<Result<Json, McpError>>)
    requires
        call_ensures(sse_payload, (payload, id), r),
    ensures
        json::json_value(payload@) is None ==> r is None,
        json::json_value(payload@) matches Some(v) ==> {
            let ours = v.member("id"@) == Some(JsonView::Number(NumberView::Unsigned(id)));
            &&& !ours ==> r is None
            &&& ours && v.member("error"@) is None ==> (v.member("result"@) matches Some(result)
                ==> (r matches Some(Ok(got)) && got@ == result))
            &&& ours && v.member("error"@) is Some ==> (r matches Some(
                Err(McpError::ServerError { .. }),
            ))
            &&& ours && v.member("error"@) is None && v.member("result"@) is None ==> r is None
        },
{
}

/// Waiting ends in an error where the time runs out, where reading fails, and
/// where the stream ends without an answer; it goes on after a chunk that brings
/// none.
pub proof fn law_waiting_ends(
    reader: &mut SseReader,
    ev: StreamEvent,
    r: Option<Result<Json, McpError>>,
)
    requires
        call_ensures(SseReader::step, (reader, ev), r),
    ensures
        final(reader).request() == old(reader).request(),
        ev matches StreamEvent::TimedOut(t) ==> (r matches Some(Err(McpError::Timeout(w))) && w@
            == t@),
        ev matches StreamEvent::Failed(e) ==> (r matches Some(Err(McpError::Protocol(w))) && w@
            == "http body read error: "@ + e@),
        ev is End ==> r is Some,
        ev is End && old(reader).state().buf.len() == 0 && old(reader).state().data.len() == 0 ==> (
        r matches Some(Err(McpError::Protocol(w))) && w@
            == "SSE stream ended without a response for id "@ + text::decimal(
            old(reader).request() as nat,
        )),
        ev matches StreamEvent::Chunk(c) ==> (c@.len() == 0 && old(reader).state().buf.len() == 0
            ==> r is None && final(reader).state() == old(reader).state()),
{
    let state = old(reader).state();
    if state.buf.len() == 0 && state.data.len() == 0 {
        assert(state.buf =~= Seq::empty());
        assert(state.data =~= Seq::empty());
        assert(state == SseState::start());
        law_end_is_two_line_feeds(Seq::empty());
    }
    if let StreamEvent::Chunk(c) = ev {
        if c@.len() == 0 && state.buf.len() == 0 {
            assert(state.buf + c@ =~= encode_utf8(Seq::empty()));
            lemma_no_bytes();
            assert(state.buf =~= Seq::empty());
        }
    }
}

/// The end of a stream completes what is left of it: a `data` line that no line
/// feed ended counts as if one had, and the event of all its lines is given.
pub proof fn law_end_completes_what_is_left(
    d: &mut SseDecoder,
    line: Seq<char>,
    v: Seq<char>,
    events: Vec<String>,
)
    requires
        call_ensures(SseDecoder::flush, (d,), events),
    ensures
        final(d)@.buf.len() == 0,
        final(d)@.data.len() == 0,
        old(d)@.buf.len() == 0 && old(d)@.data.len() == 0 ==> events@.len() == 0,
        old(d)@.buf.len() == 0 && old(d)@.data.len() > 0 ==> events@.len() == 1 && events@[0]@
            == text::joined(old(d)@.data, "\n"@),
        unbroken(v) && old(d)@.buf == encode_utf8("data: "@ + v) ==> events@.len() == 1
            && events@[0]@ == text::joined(old(d)@.data.push(v), "\n"@),
{
    let state = old(d)@;
    if state.buf.len() == 0 {
        let blank = Seq::<char>::empty();
        assert(encode_utf8(blank) =~= Seq::empty());
        assert(state.buf =~= encode_utf8(blank));
        encode_utf8_valid_utf8(blank);
        encode_utf8_decode_utf8(blank);
        assert(state.last_line() == blank);
        assert(with_line(state.data, blank) == state.data);
        if state.data.len() > 0 {
            assert(text::views(events@) == seq![text::joined(state.data, "\n"@)]);
            assert(text::views(events@).len() == 1);
            assert(text::views(events@)[0] == events@[0]@);
        } else {
            assert(text::views(events@).len() == 0);
        }
    }
    if unbroken(v) && state.buf == encode_utf8("data: "@ + v) {
        let whole = "data: "@ + v;
        reveal_strlit("data: ");
        assert forall|i: int| 0 <= i < whole.len() implies #[trigger] whole[i] != '\n' && whole[i]
            != '\r' by {
            if i >= 6 {
                assert(whole[i] == v[i - 6]);
            }
        }
        lemma_unbroken_bytes(whole);
        if state.buf.len() > 0 {
            assert(state.buf[state.buf.len() - 1] != 13);
        }
        encode_utf8_valid_utf8(whole);
        encode_utf8_decode_utf8(whole);
        lemma_data_line(state.data, whole, v);
        assert(text::views(events@) == seq![text::joined(state.data.push(v), "\n"@)]);
        assert(text::views(events@).len() == 1);
        assert(text::views(events@)[0] == events@[0]@);
    }
}

/// A reader that stands between events and gets one in a chunk gives the outcome
/// that its payload brings, if it brings one, and waits on if it does not.
pub proof fn law_reader_gives_the_answer(
    reader: &mut SseReader,
    payload: &str,
    chunk: Vec<u8>,
    r: Option<Result<Json, McpError>>,
    answer: Option<Result<Json, McpError>>,
)
    requires
        old(reader).state().buf.len() == 0,
        old(reader).state().data.len() == 0,
        unbroken(payload@),
        chunk@ == encode_utf8("data: "@ + payload@ + "\n\n"@),
        call_ensures(SseReader::step, (reader, StreamEvent::Chunk(chunk)), r),
        call_ensures(sse_payload, (payload, old(reader).request()), answer),
    ensures
        r is Some <==> answer is Some,
        rpc::opt_reply(r) == rpc::opt_reply(answer),
        final(reader).state().buf.len() == 0,
        final(reader).state().data.len() == 0,
{
    let state = old(reader).state();
    assert(state.buf + chunk@ =~= chunk@);
    assert(state.data =~= Seq::empty());
    lemma_single_event("data: "@ + payload@, payload@);
    let payloads = seq![payload@];
    assert(state.events(chunk@) == payloads);
    assert(payloads.drop_first() =~= Seq::empty());
    reveal_with_fuel(first_reply, 2);
}

/// A reader that was just made waits for its request and has read nothing.
pub proof fn law_new_reader_waits(id: u64, reader: SseReader)
    requires
        call_ensures(SseReader::new, (id,), reader),
    ensures
        reader.request() == id,
        reader.state().buf.len() == 0,
        reader.state().data.len() == 0,
{
}

} // verus!
