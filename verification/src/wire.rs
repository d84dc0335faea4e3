//! The events that go to a frontend while a turn runs.

use crate::json;
use crate::json::{Json, JsonView, NumberView};
use crate::text;
use vstd::prelude::*;
use vstd::string::*;

verus! {

/// One event. What does not belong to an event of its type is absent, and
/// absent fields are left out of its JSON.
pub struct OutgoingEvent {
    pub event_type: &'static str,
    pub id: Option<String>,
    /// Pairs the start of a tool call with its end.
    pub tool_call_id: Option<String>,
    pub tool_name: Option<String>,
    pub description: Option<String>,
    pub content: Option<String>,
    pub name: Option<String>,
    pub arguments: Option<String>,
    /// A preview of the change that an approval is asked for.
    pub preview: Option<String>,
    pub output: Option<String>,
    pub message: Option<String>,
    /// Input tokens of the whole session.
    pub usage_in: Option<u64>,
    /// Output tokens of the whole session.
    pub usage_out: Option<u64>,
    /// Tokens read from the prompt cache, in the whole session.
    pub usage_cache_read: Option<u64>,
    /// Tokens written to the prompt cache, in the whole session.
    pub usage_cache_write: Option<u64>,
    /// How long the turn took, in milliseconds.
    pub elapsed_ms: Option<u64>,
}

/// The view of an [`OutgoingEvent`].
pub struct EventView {
    pub event_type: Seq<char>,
    pub id: Option<Seq<char>>,
    pub tool_call_id: Option<Seq<char>>,
    pub tool_name: Option<Seq<char>>,
    pub description: Option<Seq<char>>,
    pub content: Option<Seq<char>>,
    pub name: Option<Seq<char>>,
    pub arguments: Option<Seq<char>>,
    pub preview: Option<Seq<char>>,
    pub output: Option<Seq<char>>,
    pub message: Option<Seq<char>>,
    pub usage_in: Option<u64>,
    pub usage_out: Option<u64>,
    pub usage_cache_read: Option<u64>,
    pub usage_cache_write: Option<u64>,
    pub elapsed_ms: Option<u64>,
}

impl View for OutgoingEvent {
    type V = EventView;

    open spec fn view(&self) -> EventView {
        EventView {
            event_type: self.event_type@,
            id: text::opt_view(self.id),
            tool_call_id: text::opt_view(self.tool_call_id),
            tool_name: text::opt_view(self.tool_name),
            description: text::opt_view(self.description),
            content: text::opt_view(self.content),
            name: text::opt_view(self.name),
            arguments: text::opt_view(self.arguments),
            preview: text::opt_view(self.preview),
            output: text::opt_view(self.output),
            message: text::opt_view(self.message),
            usage_in: self.usage_in,
            usage_out: self.usage_out,
            usage_cache_read: self.usage_cache_read,
            usage_cache_write: self.usage_cache_write,
            elapsed_ms: self.elapsed_ms,
        }
    }
}

/// `v` with a text member, where there is a text.
pub open spec fn with_text(v: JsonView, key: Seq<char>, s: Option<Seq<char>>) -> JsonView {
    match s {
        Some(t) => v.with(key, JsonView::Str(t)),
        None => v,
    }
}

/// `v` with a number member, where there is a number.
pub open spec fn with_number(v: JsonView, key: Seq<char>, n: Option<u64>) -> JsonView {
    match n {
        Some(k) => v.with(key, JsonView::Number(NumberView::Unsigned(k))),
        None => v,
    }
}

impl EventView {
    /// An event of a type, with no other field.
    pub open spec fn base(event_type: Seq<char>) -> EventView {
        EventView {
            event_type,
            id: None,
            tool_call_id: None,
            tool_name: None,
            description: None,
            content: None,
            name: None,
            arguments: None,
            preview: None,
            output: None,
            message: None,
            usage_in: None,
            usage_out: None,
            usage_cache_read: None,
            usage_cache_write: None,
            elapsed_ms: None,
        }
    }

    /// The texts of an event, as members of an object.
    pub open spec fn text_members(self) -> JsonView {
        let v = JsonView::empty_object().with("type"@, JsonView::Str(self.event_type));
        let v = with_text(v, "id"@, self.id);
        let v = with_text(v, "tool_call_id"@, self.tool_call_id);
        let v = with_text(v, "tool_name"@, self.tool_name);
        let v = with_text(v, "description"@, self.description);
        let v = with_text(v, "content"@, self.content);
        let v = with_text(v, "name"@, self.name);
        let v = with_text(v, "arguments"@, self.arguments);
        let v = with_text(v, "preview"@, self.preview);
        let v = with_text(v, "output"@, self.output);
        with_text(v, "message"@, self.message)
    }

    /// The JSON of an event.
    pub open spec fn json(self) -> JsonView {
        let v = with_number(self.text_members(), "usage_in"@, self.usage_in);
        let v = with_number(v, "usage_out"@, self.usage_out);
        let v = with_number(v, "usage_cache_read"@, self.usage_cache_read);
        let v = with_number(v, "usage_cache_write"@, self.usage_cache_write);
        with_number(v, "elapsed_ms"@, self.elapsed_ms)
    }
}

fn add_text(v: Json, key: &str, s: &Option<String>) -> (out: Json)
    ensures
        out@ == with_text(v@, key@, text::opt_view(*s)),
{
    match s {
        Some(t) => v.with(key, Json::text(t.as_str())),
        None => v,
    }
}

fn add_number(v: Json, key: &str, n: Option<u64>) -> (out: Json)
    ensures
        out@ == with_number(v@, key@, n),
{
    match n {
        Some(k) => v.with(key, Json::unsigned(k)),
        None => v,
    }
}

impl OutgoingEvent {
    fn base(event_type: &'static str) -> (out: Self)
        ensures
            out@ == EventView::base(event_type@),
    {
        OutgoingEvent {
            event_type,
            id: None,
            tool_call_id: None,
            tool_name: None,
            description: None,
            content: None,
            name: None,
            arguments: None,
            preview: None,
            output: None,
            message: None,
            usage_in: None,
            usage_out: None,
            usage_cache_read: None,
            usage_cache_write: None,
            elapsed_ms: None,
        }
    }

    /// Text of the answer.
    pub fn content(s: String) -> (out: Self)
        ensures
            out@ == (EventView { content: Some(s@), ..EventView::base("content"@) }),
    {
        let mut ev = OutgoingEvent::base("content");
        ev.content = Some(s);
        ev
    }

    /// Text of the model's thinking.
    pub fn thinking(s: String) -> (out: Self)
        ensures
            out@ == (EventView { content: Some(s@), ..EventView::base("thinking"@) }),
    {
        let mut ev = OutgoingEvent::base("thinking");
        ev.content = Some(s);
        ev
    }

    /// A tool call begins.
    pub fn tool_start(name: String, args: String, tool_call_id: String) -> (out: Self)
        ensures
            out@ == (EventView {
                name: Some(name@),
                arguments: Some(args@),
                tool_call_id: Some(tool_call_id@),
                ..EventView::base("tool_start"@)
            }),
    {
        let mut ev = OutgoingEvent::base("tool_start");
        ev.name = Some(name);
        ev.arguments = Some(args);
        ev.tool_call_id = Some(tool_call_id);
        ev
    }

    /// A tool call has ended.
    pub fn tool_end(name: String, output: String, tool_call_id: String) -> (out: Self)
        ensures
            out@ == (EventView {
                name: Some(name@),
                output: Some(output@),
                tool_call_id: Some(tool_call_id@),
                ..EventView::base("tool_end"@)
            }),
    {
        let mut ev = OutgoingEvent::base("tool_end");
        ev.name = Some(name);
        ev.output = Some(output);
        ev.tool_call_id = Some(tool_call_id);
        ev
    }

    /// Something failed.
    pub fn error(msg: String) -> (out: Self)
        ensures
            out@ == (EventView {
                content: Some(msg@),
                message: Some(msg@),
                ..EventView::base("error"@)
            }),
    {
        let mut ev = OutgoingEvent::base("error");
        ev.content = Some(text::copy_str(msg.as_str()));
        ev.message = Some(msg);
        ev
    }

    /// The turn is over.
    pub fn done() -> (out: Self)
        ensures
            out@ == EventView::base("done"@),
    {
        OutgoingEvent::base("done")
    }

    /// The turn is over, with the tokens of the session and the time it took.
    pub fn done_with_summary(
        usage_in: u64,
        usage_out: u64,
        cache_read: u64,
        cache_write: u64,
        elapsed_ms: u64,
    ) -> (out: Self)
        ensures
            out@ == (EventView {
                usage_in: Some(usage_in),
                usage_out: Some(usage_out),
                usage_cache_read: Some(cache_read),
                usage_cache_write: Some(cache_write),
                elapsed_ms: Some(elapsed_ms),
                ..EventView::base("done"@)
            }),
    {
        let mut ev = OutgoingEvent::base("done");
        ev.usage_in = Some(usage_in);
        ev.usage_out = Some(usage_out);
        ev.usage_cache_read = Some(cache_read);
        ev.usage_cache_write = Some(cache_write);
        ev.elapsed_ms = Some(elapsed_ms);
        ev
    }

    /// A message came while a turn was running. It is no error: the turn goes
    /// on.
    pub fn busy(msg: String) -> (out: Self)
        ensures
            out@ == (EventView {
                content: Some(msg@),
                message: Some(msg@),
                ..EventView::base("busy"@)
            }),
    {
        let mut ev = OutgoingEvent::base("busy");
        ev.content = Some(text::copy_str(msg.as_str()));
        ev.message = Some(msg);
        ev
    }

    /// A message that came while a turn was running has been queued.
    pub fn queued(text: String) -> (out: Self)
        ensures
            out@ == (EventView { message: Some(text@), ..EventView::base("queued"@) }),
    {
        let mut ev = OutgoingEvent::base("queued");
        ev.message = Some(text);
        ev
    }

    /// An approval is asked for. The description, which is for display, is the
    /// text of the arguments, shortened where it is longer than 300 characters.
    pub fn approval_request(
        request_id: String,
        tool_name: String,
        args: &Json,
        preview: Option<String>,
    ) -> (out: Self)
        ensures
            out@ == approval_view(
                request_id@,
                tool_name@,
                json::json_text(args@),
                text::opt_view(preview),
            ),
    {
        OutgoingEvent::approval_of(request_id, tool_name, json::print_json(args), preview)
    }

    /// An approval is asked for, given the text of the arguments.
    pub fn approval_of(
        request_id: String,
        tool_name: String,
        args: String,
        preview: Option<String>,
    ) -> (out: Self)
        ensures
            out@ == approval_view(request_id@, tool_name@, args@, text::opt_view(preview)),
    {
        let mut ev = OutgoingEvent::base("approval_request");
        ev.id = Some(request_id);
        ev.tool_name = Some(tool_name);
        ev.description = Some(text::shorten(args.as_str(), 300));
        ev.arguments = Some(args);
        ev.preview = preview;
        ev
    }

    /// The event as JSON.
    pub fn to_json(&self) -> (out: Json)
        ensures
            out@ == self@.json(),
    {
        let v = Json::empty_object().with("type", Json::text(self.event_type));
        let v = add_text(v, "id", &self.id);
        let v = add_text(v, "tool_call_id", &self.tool_call_id);
        let v = add_text(v, "tool_name", &self.tool_name);
        let v = add_text(v, "description", &self.description);
        let v = add_text(v, "content", &self.content);
        let v = add_text(v, "name", &self.name);
        let v = add_text(v, "arguments", &self.arguments);
        let v = add_text(v, "preview", &self.preview);
        let v = add_text(v, "output", &self.output);
        let v = add_text(v, "message", &self.message);
        let v = add_number(v, "usage_in", self.usage_in);
        let v = add_number(v, "usage_out", self.usage_out);
        let v = add_number(v, "usage_cache_read", self.usage_cache_read);
        let v = add_number(v, "usage_cache_write", self.usage_cache_write);
        add_number(v, "elapsed_ms", self.elapsed_ms)
    }

    /// The event as one line of newline-delimited JSON, without the line feed.
    pub fn to_line(&self) -> (out: String)
        ensures
            out@ == json::json_text(self@.json()),
            forall|i: int| 0 <= i < out@.len() ==> #[trigger] out@[i] != '\n',
    {
        json::print_json(&self.to_json())
    }
}

/// The request for an approval.
pub open spec fn approval_view(
    request_id: Seq<char>,
    tool_name: Seq<char>,
    args: Seq<char>,
    preview: Option<Seq<char>>,
) -> EventView {
    EventView {
        id: Some(request_id),
        tool_name: Some(tool_name),
        description: Some(text::shortened(args, 300)),
        arguments: Some(args),
        preview,
        ..EventView::base("approval_request"@)
    }
}

// ── how full the context is ─────────────────────────────────────────────

/// How full the context of a session is, and what the session has used.
pub struct ContextStats {
    /// The tokens in the context now.
    pub current_tokens: u64,
    /// The share of the window that they take, as a numerator and a
    /// denominator; none where the window is not known.
    pub occupancy: Option<(u64, u64)>,
    pub is_compressing: bool,
    pub cumulative_in: u64,
    pub cumulative_out: u64,
    pub cache_read_tokens: u64,
    pub cache_write_tokens: u64,
    pub max_tokens: u64,
}

/// The figures for a frontend. The occupancy goes by the input tokens of the
/// last answer, not by what the session has used; a window of zero has none.
pub fn context_stats(
    last_input_tokens: u64,
    usage_in: u64,
    usage_out: u64,
    cache_read: u64,
    cache_write: u64,
    max_tokens: u64,
) -> (out: ContextStats)
    ensures
        out.current_tokens == last_input_tokens,
        out.occupancy == (if max_tokens > 0 {
            Some((last_input_tokens, max_tokens))
        } else {
            None
        }),
        !out.is_compressing,
        out.cumulative_in == usage_in,
        out.cumulative_out == usage_out,
        out.cache_read_tokens == cache_read,
        out.cache_write_tokens == cache_write,
        out.max_tokens == max_tokens,
{
    ContextStats {
        current_tokens: last_input_tokens,
        occupancy: if max_tokens > 0 {
            Some((last_input_tokens, max_tokens))
        } else {
            None
        },
        is_compressing: false,
        cumulative_in: usage_in,
        cumulative_out: usage_out,
        cache_read_tokens: cache_read,
        cache_write_tokens: cache_write,
        max_tokens,
    }
}

// ── laws ────────────────────────────────────────────────────────────────

proof fn lemma_with_text(v: JsonView, key: Seq<char>, s: Option<Seq<char>>)
    requires
        v is Object,
    ensures
        with_text(v, key, s) is Object,
        forall|q: Seq<char>| #[trigger]
            with_text(v, key, s).member(q) == (if q == key && s is Some {
                Some(JsonView::Str(s->0))
            } else {
                v.member(q)
            }),
{
    if let Some(t) = s {
        json::lemma_with_member(v, key, JsonView::Str(t));
    }
}

proof fn lemma_with_number(v: JsonView, key: Seq<char>, n: Option<u64>)
    requires
        v is Object,
    ensures
        with_number(v, key, n) is Object,
        forall|q: Seq<char>| #[trigger]
            with_number(v, key, n).member(q) == (if q == key && n is Some {
                Some(JsonView::Number(NumberView::Unsigned(n->0)))
            } else {
                v.member(q)
            }),
{
    if let Some(k) = n {
        json::lemma_with_member(v, key, JsonView::Number(NumberView::Unsigned(k)));
    }
}

/// The JSON of a text that may be absent.
pub open spec fn text_member(s: Option<Seq<char>>) -> Option<JsonView> {
    match s {
        Some(t) => Some(JsonView::Str(t)),
        None => None,
    }
}

/// The JSON of a number that may be absent.
pub open spec fn number_member(n: Option<u64>) -> Option<JsonView> {
    match n {
        Some(k) => Some(JsonView::Number(NumberView::Unsigned(k))),
        None => None,
    }
}

/// The JSON of an event has its type and the fields that are there, under their
/// own names; a field that is absent is not in it at all.
pub proof fn law_json_has_the_present_fields(e: EventView)
    ensures
        e.json().member("type"@) == Some(JsonView::Str(e.event_type)),
        e.json().member("id"@) == text_member(e.id),
        e.json().member("tool_call_id"@) == text_member(e.tool_call_id),
        e.json().member("tool_name"@) == text_member(e.tool_name),
        e.json().member("description"@) == text_member(e.description),
        e.json().member("content"@) == text_member(e.content),
        e.json().member("name"@) == text_member(e.name),
        e.json().member("arguments"@) == text_member(e.arguments),
        e.json().member("preview"@) == text_member(e.preview),
        e.json().member("output"@) == text_member(e.output),
        e.json().member("message"@) == text_member(e.message),
        e.json().member("usage_in"@) == number_member(e.usage_in),
        e.json().member("usage_out"@) == number_member(e.usage_out),
        e.json().member("usage_cache_read"@) == number_member(e.usage_cache_read),
        e.json().member("usage_cache_write"@) == number_member(e.usage_cache_write),
        e.json().member("elapsed_ms"@) == number_member(e.elapsed_ms),
{
    reveal_strlit("type");
    reveal_strlit("id");
    reveal_strlit("tool_call_id");
    reveal_strlit("tool_name");
    reveal_strlit("description");
    reveal_strlit("content");
    reveal_strlit("name");
    reveal_strlit("arguments");
    reveal_strlit("preview");
    reveal_strlit("output");
    reveal_strlit("message");
    reveal_strlit("usage_in");
    reveal_strlit("usage_out");
    reveal_strlit("usage_cache_read");
    reveal_strlit("usage_cache_write");
    reveal_strlit("elapsed_ms");
    assert("type"@.len() == 4);
    assert("id"@.len() == 2);
    assert("tool_call_id"@.len() == 12);
    assert("tool_name"@.len() == 9);
    assert("description"@.len() == 11);
    assert("content"@.len() == 7);
    assert("name"@.len() == 4);
    assert("arguments"@.len() == 9);
    assert("preview"@.len() == 7);
    assert("output"@.len() == 6);
    assert("message"@.len() == 7);
    assert("usage_in"@.len() == 8);
    assert("usage_out"@.len() == 9);
    assert("usage_cache_read"@.len() == 16);
    assert("usage_cache_write"@.len() == 17);
    assert("elapsed_ms"@.len() == 10);
    assert("type"@[0] == 't');
    assert("name"@[0] == 'n');
    assert("tool_name"@[0] == 't');
    assert("arguments"@[0] == 'a');
    assert("usage_out"@[0] == 'u');
    assert("content"@[0] == 'c');
    assert("preview"@[0] == 'p');
    assert("message"@[0] == 'm');
    let v0 = JsonView::empty_object().with("type"@, JsonView::Str(e.event_type));
    json::lemma_with_member(JsonView::empty_object(), "type"@, JsonView::Str(e.event_type));
    lemma_with_text(v0, "id"@, e.id);
    let v1 = with_text(v0, "id"@, e.id);
    lemma_with_text(v1, "tool_call_id"@, e.tool_call_id);
    let v2 = with_text(v1, "tool_call_id"@, e.tool_call_id);
    lemma_with_text(v2, "tool_name"@, e.tool_name);
    let v3 = with_text(v2, "tool_name"@, e.tool_name);
    lemma_with_text(v3, "description"@, e.description);
    let v4 = with_text(v3, "description"@, e.description);
    lemma_with_text(v4, "content"@, e.content);
    let v5 = with_text(v4, "content"@, e.content);
    lemma_with_text(v5, "name"@, e.name);
    let v6 = with_text(v5, "name"@, e.name);
    lemma_with_text(v6, "arguments"@, e.arguments);
    let v7 = with_text(v6, "arguments"@, e.arguments);
    lemma_with_text(v7, "preview"@, e.preview);
    let v8 = with_text(v7, "preview"@, e.preview);
    lemma_with_text(v8, "output"@, e.output);
    let v9 = with_text(v8, "output"@, e.output);
    lemma_with_text(v9, "message"@, e.message);
    let v10 = with_text(v9, "message"@, e.message);
    lemma_with_number(v10, "usage_in"@, e.usage_in);
    let v11 = with_number(v10, "usage_in"@, e.usage_in);
    lemma_with_number(v11, "usage_out"@, e.usage_out);
    let v12 = with_number(v11, "usage_out"@, e.usage_out);
    lemma_with_number(v12, "usage_cache_read"@, e.usage_cache_read);
    let v13 = with_number(v12, "usage_cache_read"@, e.usage_cache_read);
    lemma_with_number(v13, "usage_cache_write"@, e.usage_cache_write);
    let v14 = with_number(v13, "usage_cache_write"@, e.usage_cache_write);
    lemma_with_number(v14, "elapsed_ms"@, e.elapsed_ms);
    let v15 = with_number(v14, "elapsed_ms"@, e.elapsed_ms);
}

/// Text of the answer and of the thinking go out as they are, each under its own
/// type, and with nothing else.
pub proof fn law_text_goes_out_as_it_is(s: String, answer: OutgoingEvent, thought: OutgoingEvent)
    requires
        call_ensures(OutgoingEvent::content, (s,), answer),
        call_ensures(OutgoingEvent::thinking, (s,), thought),
    ensures
        answer.event_type@ == "content"@,
        thought.event_type@ == "thinking"@,
        text::opt_view(answer.content) == Some(s@),
        text::opt_view(thought.content) == Some(s@),
        answer.message is None && thought.message is None,
        answer.tool_call_id is None && thought.tool_call_id is None,
        answer@.json().member("content"@) == Some(JsonView::Str(s@)),
{
    law_json_has_the_present_fields(answer@);
    assert(answer@.message == text::opt_view(answer.message));
    assert(thought@.message == text::opt_view(thought.message));
    assert(answer@.tool_call_id == text::opt_view(answer.tool_call_id));
    assert(thought@.tool_call_id == text::opt_view(thought.tool_call_id));
}

/// The start of a tool call carries its name and arguments, its end the name and
/// the output, and both the id of the call, by which a frontend pairs them.
pub proof fn law_tool_events_are_paired(
    name: String,
    args: String,
    output: String,
    id: String,
    start: OutgoingEvent,
    end: OutgoingEvent,
)
    requires
        call_ensures(OutgoingEvent::tool_start, (name, args, id), start),
        call_ensures(OutgoingEvent::tool_end, (name, output, id), end),
    ensures
        start.event_type@ == "tool_start"@,
        end.event_type@ == "tool_end"@,
        text::opt_view(start.tool_call_id) == Some(id@),
        text::opt_view(end.tool_call_id) == Some(id@),
        text::opt_view(start.name) == Some(name@),
        text::opt_view(end.name) == Some(name@),
        text::opt_view(start.arguments) == Some(args@),
        text::opt_view(end.output) == Some(output@),
        start.output is None,
        end.arguments is None,
{
    assert(start@.output == text::opt_view(start.output));
    assert(end@.arguments == text::opt_view(end.arguments));
}

/// An error, a notice that the agent is busy and a notice of a queued message
/// are told apart by their type, and say what they were given to say.
pub proof fn law_notices_say_their_text(
    msg: String,
    failed: OutgoingEvent,
    busy: OutgoingEvent,
    queued: OutgoingEvent,
)
    requires
        call_ensures(OutgoingEvent::error, (msg,), failed),
        call_ensures(OutgoingEvent::busy, (msg,), busy),
        call_ensures(OutgoingEvent::queued, (msg,), queued),
    ensures
        failed.event_type@ == "error"@,
        busy.event_type@ == "busy"@,
        queued.event_type@ == "queued"@,
        text::opt_view(failed.message) == Some(msg@),
        text::opt_view(failed.content) == Some(msg@),
        text::opt_view(busy.message) == Some(msg@),
        text::opt_view(busy.content) == Some(msg@),
        text::opt_view(queued.message) == Some(msg@),
        queued.content is None,
{
    assert(queued@.content == text::opt_view(queued.content));
}

/// The end of a turn has no figures, or each of them in its own field.
pub proof fn law_summary_has_each_figure(
    usage_in: u64,
    usage_out: u64,
    cache_read: u64,
    cache_write: u64,
    elapsed_ms: u64,
    plain: OutgoingEvent,
    full: OutgoingEvent,
)
    requires
        call_ensures(OutgoingEvent::done, (), plain),
        call_ensures(
            OutgoingEvent::done_with_summary,
            (usage_in, usage_out, cache_read, cache_write, elapsed_ms),
            full,
        ),
    ensures
        plain.event_type@ == "done"@,
        plain.usage_in is None && plain.usage_out is None && plain.elapsed_ms is None,
        full.event_type@ == "done"@,
        full.usage_in == Some(usage_in),
        full.usage_out == Some(usage_out),
        full.usage_cache_read == Some(cache_read),
        full.usage_cache_write == Some(cache_write),
        full.elapsed_ms == Some(elapsed_ms),
{
}

/// A request for approval names the tool and carries the whole arguments, which
/// are what is approved; only the description, which is for display, is cut after
/// 300 characters.
pub proof fn law_approval_shows_what_is_approved(
    id: String,
    tool: String,
    args: String,
    preview: Option<String>,
    ev: OutgoingEvent,
)
    requires
        call_ensures(OutgoingEvent::approval_of, (id, tool, args, preview), ev),
    ensures
        ev.event_type@ == "approval_request"@,
        text::opt_view(ev.id) == Some(id@),
        text::opt_view(ev.tool_name) == Some(tool@),
        text::opt_view(ev.arguments) == Some(args@),
        text::opt_view(ev.preview) == text::opt_view(preview),
        args@.len() <= 300 ==> text::opt_view(ev.description) == Some(args@),
        args@.len() > 300 ==> (text::opt_view(ev.description) matches Some(d) && d.len() == 303
            && d.take(300) == args@.take(300)),
{
    reveal_strlit("...");
    if args@.len() > 300 {
        let d = text::opt_view(ev.description)->0;
        assert(d.take(300) =~= args@.take(300));
    }
}

/// A request for approval of a call carries the text of its arguments.
pub proof fn law_approval_carries_the_arguments(
    id: String,
    tool: String,
    args: &Json,
    preview: Option<String>,
    ev: OutgoingEvent,
)
    requires
        call_ensures(OutgoingEvent::approval_request, (id, tool, args, preview), ev),
    ensures
        ev.event_type@ == "approval_request"@,
        text::opt_view(ev.id) == Some(id@),
        text::opt_view(ev.tool_name) == Some(tool@),
        text::opt_view(ev.arguments) == Some(json::json_text(args@)),
        text::opt_view(ev.preview) == text::opt_view(preview),
{
}

/// What goes over the wire is the JSON of the event, with its type in it.
pub proof fn law_line_is_the_event(ev: &OutgoingEvent, v: Json, line: String)
    requires
        call_ensures(OutgoingEvent::to_json, (ev,), v),
        call_ensures(OutgoingEvent::to_line, (ev,), line),
    ensures
        line@ == json::json_text(v@),
        v@.member("type"@) == Some(JsonView::Str(ev.event_type@)),
        v@.member("tool_call_id"@) == text_member(text::opt_view(ev.tool_call_id)),
        v@.member("message"@) == text_member(text::opt_view(ev.message)),
        v@.member("arguments"@) == text_member(text::opt_view(ev.arguments)),
        v@.member("id"@) == text_member(text::opt_view(ev.id)),
        v@.member("tool_name"@) == text_member(text::opt_view(ev.tool_name)),
        v@.member("description"@) == text_member(text::opt_view(ev.description)),
        v@.member("content"@) == text_member(text::opt_view(ev.content)),
        v@.member("name"@) == text_member(text::opt_view(ev.name)),
        v@.member("preview"@) == text_member(text::opt_view(ev.preview)),
        v@.member("output"@) == text_member(text::opt_view(ev.output)),
        v@.member("usage_in"@) == number_member(ev.usage_in),
        v@.member("usage_out"@) == number_member(ev.usage_out),
        v@.member("usage_cache_read"@) == number_member(ev.usage_cache_read),
        v@.member("usage_cache_write"@) == number_member(ev.usage_cache_write),
        v@.member("elapsed_ms"@) == number_member(ev.elapsed_ms),
{
    law_json_has_the_present_fields(ev@);
}

/// How full the context is goes by the tokens of the last answer, not by those of
/// the whole session, and is not told for a window of no size.
pub proof fn law_occupancy_goes_by_the_last_answer(
    last: u64,
    usage_in: u64,
    usage_out: u64,
    cache_read: u64,
    cache_write: u64,
    window: u64,
    out: ContextStats,
)
    requires
        call_ensures(
            context_stats,
            (last, usage_in, usage_out, cache_read, cache_write, window),
            out,
        ),
    ensures
        out.current_tokens == last,
        window > 0 ==> out.occupancy == Some((last, window)),
        window == 0 ==> out.occupancy is None,
        out.cumulative_in == usage_in,
        out.cumulative_out == usage_out,
        out.cache_read_tokens == cache_read,
        out.cache_write_tokens == cache_write,
        out.max_tokens == window,
        !out.is_compressing,
{
}

/// What an event does not have is left out of its JSON: there is no member for it,
/// not even an empty one.
pub proof fn law_absent_fields_are_left_out(ev: &OutgoingEvent, v: Json)
    requires
        call_ensures(OutgoingEvent::to_json, (ev,), v),
    ensures
        ev.id is None <==> v@.member("id"@) is None,
        ev.tool_call_id is None <==> v@.member("tool_call_id"@) is None,
        ev.tool_name is None <==> v@.member("tool_name"@) is None,
        ev.description is None <==> v@.member("description"@) is None,
        ev.content is None <==> v@.member("content"@) is None,
        ev.name is None <==> v@.member("name"@) is None,
        ev.arguments is None <==> v@.member("arguments"@) is None,
        ev.preview is None <==> v@.member("preview"@) is None,
        ev.output is None <==> v@.member("output"@) is None,
        ev.message is None <==> v@.member("message"@) is None,
        ev.usage_in is None <==> v@.member("usage_in"@) is None,
        ev.usage_out is None <==> v@.member("usage_out"@) is None,
        ev.usage_cache_read is None <==> v@.member("usage_cache_read"@) is None,
        ev.usage_cache_write is None <==> v@.member("usage_cache_write"@) is None,
        ev.elapsed_ms is None <==> v@.member("elapsed_ms"@) is None,
        ev.content matches Some(t) ==> v@.member("content"@) == Some(JsonView::Str(t@)),
        ev.usage_in matches Some(n) ==> v@.member("usage_in"@) == Some(
            JsonView::Number(NumberView::Unsigned(n)),
        ),
{
    law_json_has_the_present_fields(ev@);
}

/// Whether an event tells nothing of tokens and time.
pub open spec fn no_figures(ev: OutgoingEvent) -> bool {
    ev.usage_in is None && ev.usage_out is None && ev.usage_cache_read is None
        && ev.usage_cache_write is None && ev.elapsed_ms is None
}

/// Whether an event tells nothing of a tool call.
pub open spec fn no_call(ev: OutgoingEvent) -> bool {
    ev.tool_call_id is None && ev.name is None && ev.arguments is None && ev.output is None
}

/// Whether an event asks for nothing.
pub open spec fn no_request(ev: OutgoingEvent) -> bool {
    ev.id is None && ev.tool_name is None && ev.description is None && ev.preview is None
}

/// An event tells what belongs to its type and no more.
pub proof fn law_events_tell_no_more(
    s: String,
    name: String,
    args: String,
    id: String,
    answer: OutgoingEvent,
    thought: OutgoingEvent,
    failed: OutgoingEvent,
    busy: OutgoingEvent,
    queued: OutgoingEvent,
    start: OutgoingEvent,
    end: OutgoingEvent,
    done: OutgoingEvent,
)
    requires
        call_ensures(OutgoingEvent::content, (s,), answer),
        call_ensures(OutgoingEvent::thinking, (s,), thought),
        call_ensures(OutgoingEvent::error, (s,), failed),
        call_ensures(OutgoingEvent::busy, (s,), busy),
        call_ensures(OutgoingEvent::queued, (s,), queued),
        call_ensures(OutgoingEvent::tool_start, (name, args, id), start),
        call_ensures(OutgoingEvent::tool_end, (name, s, id), end),
        call_ensures(OutgoingEvent::done, (), done),
    ensures
        no_figures(answer) && no_call(answer) && no_request(answer),
        no_figures(thought) && no_call(thought) && no_request(thought),
        no_figures(failed) && no_call(failed) && no_request(failed),
        no_figures(busy) && no_call(busy) && no_request(busy),
        no_figures(queued) && no_call(queued) && no_request(queued),
        no_figures(start) && no_request(start) && start.content is None && start.message is None,
        no_figures(end) && no_request(end) && end.content is None && end.message is None,
        no_figures(done) && no_call(done) && no_request(done) && done.content is None
            && done.message is None,
{
    lemma_fields(answer);
    lemma_fields(thought);
    lemma_fields(failed);
    lemma_fields(busy);
    lemma_fields(queued);
    lemma_fields(start);
    lemma_fields(end);
    lemma_fields(done);
}

proof fn lemma_fields(ev: OutgoingEvent)
    ensures
        ev.id is None <==> ev@.id is None,
        ev.tool_call_id is None <==> ev@.tool_call_id is None,
        ev.tool_name is None <==> ev@.tool_name is None,
        ev.description is None <==> ev@.description is None,
        ev.content is None <==> ev@.content is None,
        ev.name is None <==> ev@.name is None,
        ev.arguments is None <==> ev@.arguments is None,
        ev.preview is None <==> ev@.preview is None,
        ev.output is None <==> ev@.output is None,
        ev.message is None <==> ev@.message is None,
{
}

} // verus!
