//! What a client does between opening a connection and an answer: the
//! handshake, the ids of its requests, the session that an HTTP server assigns,
//! and the lines that a subprocess writes.

use crate::json;
use crate::json::{Json, JsonView, NumberView};
use crate::mcp::error::{McpError, McpErrorView};
use crate::mcp::rpc;
use crate::mcp::rpc::ReplyView;
use crate::mcp::tools;
use crate::mcp::tools::{CallResult, McpTool};
use crate::table::Table;
use crate::text;
use crate::tool;
use crate::tool::{ToolDefinition, ToolDefinitionView};
use vstd::prelude::*;
use vstd::string::*;

verus! {

// ── the handshake ───────────────────────────────────────────────────────

/// What a client that is connecting waits for.
#[derive(Clone, Copy, Debug, PartialEq, Eq, Structural)]
pub enum Stage {
    /// The answer to `initialize`.
    Initialize,
    /// That the notification has gone out.
    Notify,
    /// The answer to `tools/list`.
    List,
    /// The list of tools that the answer holds.
    Decode,
    /// Nothing more.
    Closed,
}

/// What happened.
pub enum ConnectEvent {
    /// The request was answered with this result.
    Reply(Json),
    /// The notification has gone out.
    Sent,
    /// The result is this list of tools.
    Listed(Vec<McpTool>),
    /// The result is no list of tools, with the cause in words.
    Unreadable(String),
    /// The request or the notification failed.
    Failed(McpError),
}

/// What to do next.
pub enum ConnectAction {
    /// Send a request and wait for its answer.
    Request { id: u64, method: String, params: Json },
    /// Send a notification.
    Notify { method: String },
    /// Read the result as a list of tools.
    Decode(Json),
    /// Connected, with these tools.
    Finish(Vec<ToolDefinition>),
    /// Give up.
    Fail(McpError),
}

/// The view of a [`ConnectAction`].
pub enum ConnectView {
    Request { id: u64, method: Seq<char>, params: JsonView },
    Notify { method: Seq<char> },
    Decode(JsonView),
    Finish(Seq<ToolDefinitionView>),
    Fail(McpErrorView),
}

impl View for ConnectAction {
    type V = ConnectView;

    open spec fn view(&self) -> ConnectView {
        match self {
            ConnectAction::Request { id, method, params } => ConnectView::Request {
                id: *id,
                method: method@,
                params: params@,
            },
            ConnectAction::Notify { method } => ConnectView::Notify { method: method@ },
            ConnectAction::Decode(v) => ConnectView::Decode(v@),
            ConnectAction::Finish(defs) => ConnectView::Finish(tool::definition_views(defs@)),
            ConnectAction::Fail(e) => ConnectView::Fail(e@),
        }
    }
}

/// Whether an event can happen at a stage.
pub open spec fn can_happen(stage: Stage, ev: ConnectEvent) -> bool {
    match stage {
        Stage::Initialize | Stage::List => ev is Reply || ev is Failed,
        Stage::Notify => ev is Sent || ev is Failed,
        Stage::Decode => ev is Listed || ev is Unreadable,
        Stage::Closed => false,
    }
}

/// The views of a server's tools, as the agent sees them.
pub open spec fn presented(server: Seq<char>, list: Seq<McpTool>) -> Seq<ToolDefinitionView> {
    Seq::new(
        list.len(),
        |i: int|
            tools::definition_of(
                server,
                list[i].name@,
                text::opt_view(list[i].title),
                list[i].description@,
                list[i].input_schema@,
            ),
    )
}

/// The first action of a handshake.
pub open spec fn first_action(version: Seq<char>) -> ConnectView {
    ConnectView::Request {
        id: 1,
        method: "initialize"@,
        params: rpc::initialize_view(version),
    }
}

/// The stage that follows an event.
pub open spec fn next_stage(stage: Stage, ev: ConnectEvent) -> Stage {
    if ev is Failed {
        Stage::Closed
    } else {
        match stage {
            Stage::Initialize => Stage::Notify,
            Stage::Notify => Stage::List,
            Stage::List => Stage::Decode,
            _ => Stage::Closed,
        }
    }
}

/// The action that follows an event.
pub open spec fn next_action(server: Seq<char>, stage: Stage, ev: ConnectEvent) -> ConnectView {
    match ev {
        ConnectEvent::Failed(e) => ConnectView::Fail(e@),
        ConnectEvent::Sent => ConnectView::Request {
            id: 2,
            method: "tools/list"@,
            params: JsonView::empty_object(),
        },
        ConnectEvent::Reply(v) => if stage == Stage::Initialize {
            ConnectView::Notify { method: "notifications/initialized"@ }
        } else {
            ConnectView::Decode(v@)
        },
        ConnectEvent::Listed(list) => ConnectView::Finish(presented(server, list@)),
        ConnectEvent::Unreadable(e) => ConnectView::Fail(
            McpErrorView::Protocol("tools/list parse error: "@ + e@),
        ),
    }
}

/// The handshake with a server: `initialize`, the notification that it
/// succeeded, and `tools/list`.
pub struct Handshake {
    server: String,
    stage: Stage,
}

impl Handshake {
    /// The name of the server.
    pub closed spec fn server(self) -> Seq<char> {
        self.server@
    }

    /// What is awaited.
    pub closed spec fn stage(self) -> Stage {
        self.stage
    }

    /// Begins: the handshake and the first thing to do.
    pub fn begin(server: &str, client_version: &str) -> (r: (Self, ConnectAction))
        ensures
            r.0.server() == server@,
            r.0.stage() == Stage::Initialize,
            r.1@ == first_action(client_version@),
    {
        let action = ConnectAction::Request {
            id: 1,
            method: text::copy_str("initialize"),
            params: rpc::initialize_params(client_version),
        };
        (Handshake { server: text::copy_str(server), stage: Stage::Initialize }, action)
    }

    /// Takes an event; what to do next.
    pub fn step(&mut self, ev: ConnectEvent) -> (action: ConnectAction)
        requires
            can_happen(old(self).stage(), ev),
        ensures
            final(self).server() == old(self).server(),
            final(self).stage() == next_stage(old(self).stage(), ev),
            action@ == next_action(old(self).server(), old(self).stage(), ev),
    {
        match ev {
            ConnectEvent::Failed(e) => {
                self.stage = Stage::Closed;
                ConnectAction::Fail(e)
            },
            ConnectEvent::Sent => {
                self.stage = Stage::List;
                ConnectAction::Request {
                    id: 2,
                    method: text::copy_str("tools/list"),
                    params: Json::empty_object(),
                }
            },
            ConnectEvent::Reply(v) => {
                if self.stage == Stage::Initialize {
                    self.stage = Stage::Notify;
                    ConnectAction::Notify { method: text::copy_str("notifications/initialized") }
                } else {
                    self.stage = Stage::Decode;
                    ConnectAction::Decode(v)
                }
            },
            ConnectEvent::Listed(list) => {
                self.stage = Stage::Closed;
                let ghost listed = list@;
                let defs = tools::tool_definitions(self.server.as_str(), list);
                assert(tool::definition_views(defs@) =~= presented(self.server@, listed));
                ConnectAction::Finish(defs)
            },
            ConnectEvent::Unreadable(e) => {
                self.stage = Stage::Closed;
                ConnectAction::Fail(
                    McpError::Protocol(text::cat2("tools/list parse error: ", e.as_str())),
                )
            },
        }
    }
}

/// The actions that follow events, one after the other.
pub open spec fn actions_of(server: Seq<char>, stage: Stage, events: Seq<ConnectEvent>) -> Seq<
    ConnectView,
>
    decreases events.len(),
{
    if events.len() == 0 {
        Seq::empty()
    } else {
        seq![next_action(server, stage, events[0])] + actions_of(
            server,
            next_stage(stage, events[0]),
            events.drop_first(),
        )
    }
}

/// A handshake in which nothing fails sends `initialize` as request 1, then
/// the notification, then `tools/list` as request 2, and ends with the tools
/// that the server listed.
pub proof fn law_handshake_sequence(
    server: Seq<char>,
    version: Seq<char>,
    info: Json,
    listing: Json,
    list: Vec<McpTool>,
)
    ensures
        seq![first_action(version)] + actions_of(
            server,
            Stage::Initialize,
            seq![
                ConnectEvent::Reply(info),
                ConnectEvent::Sent,
                ConnectEvent::Reply(listing),
                ConnectEvent::Listed(list),
            ],
        ) == seq![
            ConnectView::Request {
                id: 1,
                method: "initialize"@,
                params: rpc::initialize_view(version),
            },
            ConnectView::Notify { method: "notifications/initialized"@ },
            ConnectView::Request {
                id: 2,
                method: "tools/list"@,
                params: JsonView::empty_object(),
            },
            ConnectView::Decode(listing@),
            ConnectView::Finish(presented(server, list@)),
        ],
{
    reveal_with_fuel(actions_of, 5);
    let events = seq![
        ConnectEvent::Reply(info),
        ConnectEvent::Sent,
        ConnectEvent::Reply(listing),
        ConnectEvent::Listed(list),
    ];
    assert(events.drop_first() =~= seq![
        ConnectEvent::Sent,
        ConnectEvent::Reply(listing),
        ConnectEvent::Listed(list),
    ]);
    assert(events.drop_first().drop_first() =~= seq![
        ConnectEvent::Reply(listing),
        ConnectEvent::Listed(list),
    ]);
    assert(events.drop_first().drop_first().drop_first() =~= seq![ConnectEvent::Listed(list)]);
    assert(events.drop_first().drop_first().drop_first().drop_first() =~= Seq::empty());
    assert(actions_of(server, Stage::Initialize, events) =~= seq![
        ConnectView::Notify { method: "notifications/initialized"@ },
        ConnectView::Request { id: 2, method: "tools/list"@, params: JsonView::empty_object() },
        ConnectView::Decode(listing@),
        ConnectView::Finish(presented(server, list@)),
    ]);
}

/// A handshake that fails at any stage is over: its only action is to give up
/// with that error.
pub proof fn law_failure_ends_the_handshake(server: Seq<char>, stage: Stage, e: McpError)
    ensures
        next_action(server, stage, ConnectEvent::Failed(e)) == ConnectView::Fail(e@),
        next_stage(stage, ConnectEvent::Failed(e)) == Stage::Closed,
{
}

// ── request ids ─────────────────────────────────────────────────────────

/// The ids that requests get: the next one is one more than the last.
pub struct RequestIds {
    next: u64,
}

impl RequestIds {
    /// The id of the next request.
    pub closed spec fn next(self) -> u64 {
        self.next
    }

    /// The first request gets id 1.
    pub fn new() -> (out: Self)
        ensures
            out.next() == 1,
    {
        RequestIds { next: 1 }
    }

    /// Whether there is no id left to take.
    pub fn is_spent(&self) -> (r: bool)
        ensures
            r == (self.next() == u64::MAX),
    {
        self.next == u64::MAX
    }

    /// An id for a request.
    pub fn take(&mut self) -> (id: u64)
        requires
            old(self).next() < u64::MAX,
        ensures
            id == old(self).next(),
            final(self).next() == id + 1,
    {
        let id: u64 = self.next;
        self.next = id + 1;
        id
    }
}

// ── a subprocess ────────────────────────────────────────────────────────

/// What came of reading a line from a subprocess.
pub enum LineEvent {
    /// A line.
    Line(String),
    /// The subprocess has closed its output.
    Closed,
    /// Reading failed, with the cause in words.
    Failed(String),
    /// The time for the call, as it is shown, ran out.
    TimedOut(String),
}

/// The outcome that a line brings for request `id`, if it answers.
pub open spec fn line_reply(line: Seq<char>, id: u64) -> Option<ReplyView> {
    let t = text::trimmed(line);
    if t.len() == 0 {
        None
    } else {
        rpc::reply_of(rpc::incoming_view(json::json_value(t), id))
    }
}

/// The outcome of waiting for the answer to `id`, after one more event.
pub open spec fn recv_outcome(ev: LineEvent, id: u64) -> Option<ReplyView> {
    match ev {
        LineEvent::Line(line) => line_reply(line@, id),
        LineEvent::Closed => Some(
            ReplyView::Failed(McpErrorView::Protocol("server closed stdout"@)),
        ),
        LineEvent::Failed(e) => Some(ReplyView::Failed(McpErrorView::Io(e@))),
        LineEvent::TimedOut(t) => Some(ReplyView::Failed(McpErrorView::Timeout(t@))),
    }
}

/// Takes one event while waiting for the answer to `id`; none where the
/// waiting goes on. Blank lines, notifications and answers to other requests
/// are skipped.
pub fn recv_response(ev: LineEvent, id: u64) -> (r: Option<Result<Json, McpError>>)
    ensures
        rpc::opt_reply(r) == recv_outcome(ev, id),
{
    match ev {
        LineEvent::Line(line) => {
            let t = text::trim(line.as_str());
            if t.as_str().is_empty() {
                None
            } else {
                rpc::settle(rpc::parse_incoming(t.as_str(), id))
            }
        },
        LineEvent::Closed => Some(Err(McpError::Protocol(text::copy_str("server closed stdout")))),
        LineEvent::Failed(e) => Some(Err(McpError::Io(e))),
        LineEvent::TimedOut(t) => Some(Err(McpError::Timeout(t))),
    }
}

/// A blank line is never an answer.
pub proof fn law_blank_line_is_skipped(line: Seq<char>, id: u64)
    requires
        text::trimmed(line).len() == 0,
    ensures
        line_reply(line, id) is None,
{
}

/// What the answer to a tool call was read as, or that it could not be.
pub fn decoded_call(r: Result<CallResult, String>) -> (out: Result<CallResult, McpError>)
    ensures
        match r {
            Ok(v) => out == Ok::<CallResult, McpError>(v),
            Err(e) => out matches Err(err) && err@ == McpErrorView::Protocol(
                "tools/call parse error: "@ + e@,
            ),
        },
{
    match r {
        Ok(v) => Ok(v),
        Err(e) => Err(McpError::Protocol(text::cat2("tools/call parse error: ", e.as_str()))),
    }
}

// ── HTTP ────────────────────────────────────────────────────────────────

/// What can fail on the way of a request over HTTP, with the cause in words.
pub enum HttpFailure {
    /// The client could not be set up.
    Build(String),
    /// The request could not be sent.
    Post(String),
    /// The answer is not JSON.
    Body(String),
}

/// The error for a failure on the way.
pub fn http_error(f: HttpFailure) -> (e: McpError)
    ensures
        e@ == McpErrorView::Protocol(
            match f {
                HttpFailure::Build(c) => "http client build error: "@ + c@,
                HttpFailure::Post(c) => "http post error: "@ + c@,
                HttpFailure::Body(c) => "http response json parse error: "@ + c@,
            },
        ),
{
    McpError::Protocol(
        match f {
            HttpFailure::Build(c) => text::cat2("http client build error: ", c.as_str()),
            HttpFailure::Post(c) => text::cat2("http post error: ", c.as_str()),
            HttpFailure::Body(c) => text::cat2("http response json parse error: ", c.as_str()),
        },
    )
}

/// Whether an answer is a stream of events, by its content type.
pub fn is_event_stream(content_type: &Option<String>) -> (r: bool)
    ensures
        r == (match text::opt_view(*content_type) {
            Some(t) => text::occurs("text/event-stream"@, t),
            None => false,
        }),
{
    match content_type {
        Some(t) => text::contains(t.as_str(), "text/event-stream"),
        None => false,
    }
}

/// The first of three settings that is there at all.
pub open spec fn first_set(
    a: Option<Seq<char>>,
    b: Option<Seq<char>>,
    c: Option<Seq<char>>,
) -> Option<Seq<char>> {
    if a is Some {
        a
    } else if b is Some {
        b
    } else {
        c
    }
}

/// The proxy for remote servers: that for tools, or else the first of the
/// settings that is there, unless it is blank.
pub open spec fn chosen_proxy(
    tool_proxy: Option<Seq<char>>,
    llm_proxy: Option<Seq<char>>,
    https_proxy: Option<Seq<char>>,
    https_proxy_lower: Option<Seq<char>>,
) -> Option<Seq<char>> {
    if tool_proxy is Some {
        tool_proxy
    } else {
        match first_set(llm_proxy, https_proxy, https_proxy_lower) {
            Some(s) => if text::trimmed(s).len() == 0 {
                None
            } else {
                Some(text::trimmed(s))
            },
            None => None,
        }
    }
}

/// Chooses the proxy for remote servers, given the proxy for tools and the
/// settings `CONGA_LLM_PROXY`, `HTTPS_PROXY` and `https_proxy`. None is a
/// direct connection.
pub fn pick_mcp_proxy(
    tool_proxy: Option<String>,
    llm_proxy: Option<String>,
    https_proxy: Option<String>,
    https_proxy_lower: Option<String>,
) -> (r: Option<String>)
    ensures
        text::opt_view(r) == chosen_proxy(
            text::opt_view(tool_proxy),
            text::opt_view(llm_proxy),
            text::opt_view(https_proxy),
            text::opt_view(https_proxy_lower),
        ),
{
    if tool_proxy.is_some() {
        return tool_proxy;
    }
    let set: Option<String> = if llm_proxy.is_some() {
        llm_proxy
    } else if https_proxy.is_some() {
        https_proxy
    } else {
        https_proxy_lower
    };
    match set {
        Some(s) => {
            let t = text::trim(s.as_str());
            if t.as_str().is_empty() {
                None
            } else {
                Some(t)
            }
        },
        None => None,
    }
}

/// The session id after an answer that may carry one: a blank one counts as
/// none, and without one the session id stays.
pub open spec fn session_after(session: Option<Seq<char>>, header: Option<Seq<char>>) -> Option<
    Seq<char>,
> {
    match header {
        Some(v) => if text::trimmed(v).len() == 0 {
            session
        } else {
            Some(text::trimmed(v))
        },
        None => session,
    }
}

/// A character that the name of an HTTP header may hold.
pub open spec fn header_name_char(c: char) -> bool {
    ||| 'a' <= c <= 'z'
    ||| 'A' <= c <= 'Z'
    ||| '0' <= c <= '9'
    ||| c == '!' || c == '#' || c == '$' || c == '%' || c == '&' || c == '\'' || c == '*' || c == '+'
    ||| c == '-' || c == '.' || c == '^' || c == '_' || c == '`' || c == '|' || c == '~'
}

/// Whether a text can be the name of an HTTP header.
pub open spec fn header_name(s: Seq<char>) -> bool {
    0 < s.len() <= 65535 && forall|i: int| 0 <= i < s.len() ==> header_name_char(#[trigger] s[i])
}

/// Whether a text can be the value of an HTTP header: it holds no control
/// character but tabs.
pub open spec fn header_value(s: Seq<char>) -> bool {
    forall|i: int|
        0 <= i < s.len() ==> (#[trigger] s[i] == '\t' || (s[i] >= ' ' && s[i] != '\u{7f}'))
}

/// `HeaderName::from_bytes` of `http`, as `reqwest` exports it: whether it
/// takes the name, which it does for 1 to 65535 token characters.
#[verifier::external_body]
fn takes_header_name(name: &str) -> (r: bool)
    ensures
        r == header_name(name@),
{
    reqwest::header::HeaderName::from_bytes(name.as_bytes()).is_ok()
}

/// `HeaderValue::from_str` of `http`, as `reqwest` exports it: whether it
/// takes the value, which it does where no byte is a control character but a
/// tab.
#[verifier::external_body]
fn takes_header_value(value: &str) -> (r: bool)
    ensures
        r == header_value(value@),
{
    reqwest::header::HeaderValue::from_str(value).is_ok()
}

/// The views of headers.
pub open spec fn header_views(list: Seq<(String, String)>) -> Seq<(Seq<char>, Seq<char>)> {
    Seq::new(list.len(), |i: int| (list[i].0@, list[i].1@))
}

/// The configured headers that can be sent at all.
pub open spec fn sendable(list: Seq<(Seq<char>, Seq<char>)>) -> Seq<(Seq<char>, Seq<char>)>
    decreases list.len(),
{
    if list.len() == 0 {
        Seq::empty()
    } else {
        let before = sendable(list.drop_last());
        if header_name(list.last().0) && header_value(list.last().1) {
            before.push(list.last())
        } else {
            before
        }
    }
}

/// The header that carries a session id.
pub open spec fn session_header(session: Option<Seq<char>>) -> Seq<(Seq<char>, Seq<char>)> {
    match session {
        Some(id) => seq![("mcp-session-id"@, id)],
        None => Seq::empty(),
    }
}

/// The headers of a request: what it holds and takes, the session id where
/// there is one, and the configured ones.
pub open spec fn request_headers(
    session: Option<Seq<char>>,
    configured: Seq<(Seq<char>, Seq<char>)>,
) -> Seq<(Seq<char>, Seq<char>)> {
    seq![
        ("content-type"@, "application/json"@),
        ("accept"@, "application/json, text/event-stream"@),
    ] + session_header(session) + sendable(configured)
}

/// The session with an HTTP server. A server that keeps state assigns an id
/// and expects it with every later request.
pub struct HttpSession {
    id: Option<String>,
}

impl HttpSession {
    /// The id that the server assigned.
    pub closed spec fn id(self) -> Option<Seq<char>> {
        text::opt_view(self.id)
    }

    /// No id yet.
    pub fn new() -> (out: Self)
        ensures
            out.id() is None,
    {
        HttpSession { id: None }
    }

    /// Takes the session header of an answer, where it has one.
    pub fn capture_session_id(&mut self, header: &Option<String>)
        ensures
            final(self).id() == session_after(old(self).id(), text::opt_view(*header)),
    {
        if let Some(v) = header {
            let t = text::trim(v.as_str());
            if !t.as_str().is_empty() {
                self.id = Some(t);
            }
        }
    }

    /// The headers of the next request.
    pub fn headers(&self, configured: &Table<String>) -> (out: Vec<(String, String)>)
        ensures
            header_views(out@) == request_headers(self.id(), header_views(configured.list())),
    {
        let mut out: Vec<(String, String)> = Vec::new();
        out.push((text::copy_str("content-type"), text::copy_str("application/json")));
        out.push((text::copy_str("accept"), text::copy_str("application/json, text/event-stream")));
        if let Some(id) = &self.id {
            out.push((text::copy_str("mcp-session-id"), text::copy_str(id.as_str())));
        }
        let ghost head = header_views(out@);
        let ghost all = header_views(configured.list());
        assert(head =~= seq![
            ("content-type"@, "application/json"@),
            ("accept"@, "application/json, text/event-stream"@),
        ] + session_header(self.id()));
        assert(head =~= head + sendable(all.take(0)));
        let n: usize = configured.len();
        for i in 0..n
            invariant
                n == all.len(),
                all == header_views(configured.list()),
                header_views(out@) == head + sendable(all.take(i as int)),
        {
            let (k, v) = configured.at(i);
            let ghost before = out@;
            assert(all.take(i + 1).drop_last() =~= all.take(i as int));
            assert(all.take(i + 1).last() == (k@, v@));
            if takes_header_name(k.as_str()) && takes_header_value(v.as_str()) {
                out.push((text::copy_str(k.as_str()), text::copy_str(v.as_str())));
                assert(header_views(out@) =~= header_views(before).push((k@, v@)));
                assert(head + sendable(all.take(i as int)).push((k@, v@)) =~= (head + sendable(
                    all.take(i as int),
                )).push((k@, v@)));
            }
        }
        assert(all.take(all.len() as int) =~= all);
        out
    }
}

/// The session id after answers, one after the other.
pub open spec fn session_after_all(headers: Seq<Option<Seq<char>>>) -> Option<Seq<char>>
    decreases headers.len(),
{
    if headers.len() == 0 {
        None
    } else {
        session_after(session_after_all(headers.drop_last()), headers.last())
    }
}

/// Once a server has assigned an id, every later request carries that id, as
/// long as no answer brings another one.
pub proof fn law_session_id_is_echoed(
    before: Seq<Option<Seq<char>>>,
    id: Seq<char>,
    after: Seq<Option<Seq<char>>>,
    configured: Seq<(Seq<char>, Seq<char>)>,
)
    requires
        text::trimmed(id).len() > 0,
        forall|i: int| 0 <= i < after.len() ==> (#[trigger] after[i]) is None,
    ensures
        session_after_all(before.push(Some(id)) + after) == Some(text::trimmed(id)),
        request_headers(session_after_all(before.push(Some(id)) + after), configured)[2] == (
            "mcp-session-id"@,
            text::trimmed(id),
        ),
    decreases after.len(),
{
    let all = before.push(Some(id)) + after;
    if after.len() == 0 {
        assert(all =~= before.push(Some(id)));
        assert(before.push(Some(id)).drop_last() =~= before);
    } else {
        law_session_id_is_echoed(before, id, after.drop_last(), configured);
        assert(all.drop_last() =~= before.push(Some(id)) + after.drop_last());
        assert(all.last() == after.last());
    }
}

/// A server that assigns no id never gets one that it did not assign.
pub proof fn law_stateless_server_gets_no_id(headers: Seq<Option<Seq<char>>>)
    requires
        forall|i: int| 0 <= i < headers.len() ==> (#[trigger] headers[i]) is None,
    ensures
        session_after_all(headers) is None,
        session_header(session_after_all(headers)).len() == 0,
    decreases headers.len(),
{
    if headers.len() > 0 {
        law_stateless_server_gets_no_id(headers.drop_last());
        assert(headers.last() is None);
    }
}

// ── laws ────────────────────────────────────────────────────────────────

/// The tools that a handshake ends with are those that the server listed, in
/// order, each with the server in its name.
pub proof fn law_handshake_ends_with_the_tools(
    h: &mut Handshake,
    list: Vec<McpTool>,
    action: ConnectAction,
    i: int,
)
    requires
        old(h).stage() == Stage::Decode,
        call_ensures(Handshake::step, (h, ConnectEvent::Listed(list)), action),
        0 <= i < list@.len(),
    ensures
        action matches ConnectAction::Finish(defs) && defs@.len() == list@.len() && defs@[i].name@
            == "mcp__"@ + old(h).server() + "__"@ + list@[i].name@ && defs@[i].description@
            == list@[i].description@ && defs@[i].parameters@ == list@[i].input_schema@,
        final(h).stage() == Stage::Closed,
{
    if let ConnectAction::Finish(defs) = action {
        let v = tool::definition_views(defs@);
        assert(v.len() == defs@.len());
        assert(v[i] == defs@[i]@);
    }
}

/// The handshake begins with `initialize` as request 1, which announces the
/// client's version, and knows the server by its name.
pub proof fn law_handshake_begins(server: &str, version: &str, r: (Handshake, ConnectAction))
    requires
        call_ensures(Handshake::begin, (server, version), r),
    ensures
        r.0.server() == server@,
        r.0.stage() == Stage::Initialize,
        r.1 matches ConnectAction::Request { id, method, params } && id == 1 && method@
            == "initialize"@ && (params@.member("clientInfo"@) matches Some(client)
            && client.member("version"@) == Some(JsonView::Str(version@))),
{
    if let ConnectAction::Request { id, method, params } = r.1 {
        assert(params@ == rpc::initialize_view(version@));
        lemma_initialize_version(version@);
    }
}

proof fn lemma_initialize_version(version: Seq<char>)
    ensures
        rpc::initialize_view(version).member("clientInfo"@) matches Some(client)
            && client.member("version"@) == Some(JsonView::Str(version)),
{
    reveal_strlit("protocolVersion");
    reveal_strlit("clientInfo");
    reveal_strlit("capabilities");
    reveal_strlit("name");
    reveal_strlit("version");
    assert("protocolVersion"@.len() == 15);
    assert("clientInfo"@.len() == 10);
    assert("capabilities"@.len() == 12);
    assert("name"@.len() == 4);
    assert("version"@.len() == 7);
    let none = JsonView::empty_object();
    let named = none.with("name"@, JsonView::Str("conga"@));
    let client = named.with("version"@, JsonView::Str(version));
    json::lemma_with_member(none, "name"@, JsonView::Str("conga"@));
    json::lemma_with_member(named, "version"@, JsonView::Str(version));
    let a = none.with("protocolVersion"@, JsonView::Str(rpc::PROTOCOL_VERSION@));
    let b = a.with("clientInfo"@, client);
    json::lemma_with_member(none, "protocolVersion"@, JsonView::Str(rpc::PROTOCOL_VERSION@));
    json::lemma_with_member(a, "clientInfo"@, client);
    json::lemma_with_member(b, "capabilities"@, none);
}

/// A handshake goes on step by step: an answer to `initialize` is followed by the
/// notification, that by `tools/list` as request 2, and its answer is read; a
/// failure at any step, or a listing that cannot be read, ends it with an error.
pub proof fn law_handshake_goes_on(h: &mut Handshake, ev: ConnectEvent, action: ConnectAction)
    requires
        can_happen(old(h).stage(), ev),
        call_ensures(Handshake::step, (h, ev), action),
    ensures
        final(h).server() == old(h).server(),
        old(h).stage() == Stage::Initialize && ev is Reply ==> final(h).stage() == Stage::Notify
            && (action matches ConnectAction::Notify { method } && method@
            == "notifications/initialized"@),
        old(h).stage() == Stage::Notify && ev is Sent ==> final(h).stage() == Stage::List && (
        action matches ConnectAction::Request { id, method, params } && id == 2 && method@
            == "tools/list"@ && params@ == JsonView::Object(Seq::empty())),
        old(h).stage() == Stage::List ==> (ev matches ConnectEvent::Reply(v) ==> final(h).stage()
            == Stage::Decode && (action matches ConnectAction::Decode(w) && w@ == v@)),
        ev matches ConnectEvent::Failed(e) ==> final(h).stage() == Stage::Closed && (
        action matches ConnectAction::Fail(w) && w@ == e@),
        ev matches ConnectEvent::Unreadable(e) ==> final(h).stage() == Stage::Closed && (
        action matches ConnectAction::Fail(McpError::Protocol(w)) && w@
            == "tools/list parse error: "@ + e@),
{
}

/// No two requests get the same id: each gets the one behind the last.
pub proof fn law_ids_are_new(ids: &mut RequestIds, id: u64)
    requires
        call_ensures(RequestIds::take, (ids,), id),
    ensures
        id == old(ids).next(),
        final(ids).next() > id,
        final(ids).next() == old(ids).next() + 1,
{
}

/// The first request gets id 1.
pub proof fn law_ids_begin_at_one(ids: RequestIds)
    requires
        call_ensures(RequestIds::new, (), ids),
    ensures
        ids.next() == 1,
{
}

/// A line that is the JSON of an answer to the request, with white space around
/// it or not, ends the waiting with its result or its error; a line that is no
/// JSON, is blank, or is for another request does not; and an end of the output,
/// an error or a time that runs out ends it with an error.
pub proof fn law_waiting_for_a_line(ev: LineEvent, id: u64, r: Option<Result<Json, McpError>>)
    requires
        call_ensures(recv_response, (ev, id), r),
    ensures
        ev matches LineEvent::Line(line) ==> {
            let t = text::trimmed(line@);
            &&& t.len() == 0 ==> r is None
            &&& json::json_value(t) is None ==> r is None
            &&& t.len() > 0 ==> (json::json_value(t) matches Some(v) ==> {
                let ours = v.member("id"@) == Some(JsonView::Number(NumberView::Unsigned(id)));
                &&& !ours ==> r is None
                &&& ours && v.member("error"@) is None ==> (v.member("result"@) matches Some(result)
                    ==> (r matches Some(Ok(got)) && got@ == result))
                &&& ours && v.member("error"@) is Some ==> (r matches Some(
                    Err(McpError::ServerError { .. }),
                ))
            })
        },
        ev is Closed ==> (r matches Some(Err(McpError::Protocol(w))) && w@
            == "server closed stdout"@),
        ev matches LineEvent::Failed(e) ==> (r matches Some(Err(McpError::Io(w))) && w@ == e@),
        ev matches LineEvent::TimedOut(t) ==> (r matches Some(Err(McpError::Timeout(w))) && w@
            == t@),
{
}

/// What an answer was read as is what the call returns; one that could not be
/// read is an error.
pub proof fn law_read_call_is_returned(r: Result<CallResult, String>, out: Result<CallResult, McpError>)
    requires
        call_ensures(decoded_call, (r,), out),
    ensures
        r matches Ok(v) ==> (out matches Ok(w) && w == v),
        r matches Err(e) ==> (out matches Err(McpError::Protocol(w)) && w@
            == "tools/call parse error: "@ + e@),
{
}

/// Each failure on the way of a request is told by what failed.
pub proof fn law_failures_are_told_apart(f: HttpFailure, e: McpError)
    requires
        call_ensures(http_error, (f,), e),
    ensures
        e is Protocol,
        f matches HttpFailure::Build(c) ==> e->Protocol_0@ == "http client build error: "@ + c@,
        f matches HttpFailure::Post(c) ==> e->Protocol_0@ == "http post error: "@ + c@,
        f matches HttpFailure::Body(c) ==> e->Protocol_0@ == "http response json parse error: "@
            + c@,
{
}

/// An answer is a stream of events where its type says so, whatever stands around
/// it, and not where it has no type.
pub proof fn law_streams_are_told_by_their_type(
    content_type: &Option<String>,
    before: Seq<char>,
    after: Seq<char>,
    r: bool,
)
    requires
        call_ensures(is_event_stream, (content_type,), r),
    ensures
        *content_type is None ==> !r,
        *content_type matches Some(t) ==> (t@ == before + "text/event-stream"@ + after ==> r),
        *content_type matches Some(t) ==> (r ==> text::occurs("text/event-stream"@, t@)),
{
    if let Some(t) = *content_type {
        if t@ == before + "text/event-stream"@ + after {
            let i = before.len() as int;
            assert(t@.subrange(i, i + "text/event-stream"@.len()) =~= "text/event-stream"@);
        }
    }
}

/// The proxy for tools is the one that is used where it is set; then that for
/// models, then the common ones, each without the white space around it, and a
/// blank setting means no proxy.
pub proof fn law_proxy_for_tools_comes_first(
    tool: Option<String>,
    llm: Option<String>,
    upper: Option<String>,
    lower: Option<String>,
    r: Option<String>,
)
    requires
        call_ensures(pick_mcp_proxy, (tool, llm, upper, lower), r),
    ensures
        tool matches Some(p) ==> (r matches Some(q) && q@ == p@),
        tool is None ==> (llm matches Some(p) ==> text::opt_view(r) == (if text::trimmed(p@).len()
            == 0 {
            None
        } else {
            Some(text::trimmed(p@))
        })),
        tool is None && llm is None ==> (upper matches Some(p) ==> text::opt_view(r) == (
        if text::trimmed(p@).len() == 0 {
            None
        } else {
            Some(text::trimmed(p@))
        })),
        tool is None && llm is None && upper is None ==> (lower matches Some(p) ==> text::opt_view(
            r,
        ) == (if text::trimmed(p@).len() == 0 {
            None
        } else {
            Some(text::trimmed(p@))
        })),
        tool is None && llm is None && upper is None && lower is None ==> r is None,
{
    assert(r is None <==> text::opt_view(r) is None);
}

/// A session id that an answer brings, without the white space around it, takes
/// the place of the one before; a blank one, and an answer without one, leave it.
pub proof fn law_session_id_is_captured(s: &mut HttpSession, header: &Option<String>)
    requires
        call_ensures(HttpSession::capture_session_id, (s, header), ()),
    ensures
        *header is None ==> final(s).id() == old(s).id(),
        *header matches Some(v) ==> (text::trimmed(v@).len() == 0 ==> final(s).id() == old(
            s,
        ).id()),
        *header matches Some(v) ==> (text::trimmed(v@).len() > 0 ==> final(s).id() == Some(
            text::trimmed(v@),
        )),
{
}

/// Every request says what it holds and what it takes, carries the session id
/// where there is one and none where there is not, and then every configured
/// header that can be sent, in order, and no other.
pub proof fn law_headers_of_a_request(s: &HttpSession, configured: &Table<String>, out: Vec<(String, String)>)
    requires
        call_ensures(HttpSession::headers, (s, configured), out),
    ensures
        out@.len() >= 2,
        out@[0].0@ == "content-type"@ && out@[0].1@ == "application/json"@,
        out@[1].0@ == "accept"@ && out@[1].1@ == "application/json, text/event-stream"@,
        s.id() matches Some(id) ==> out@.len() >= 3 && out@[2].0@ == "mcp-session-id"@
            && out@[2].1@ == id && header_views(out@).skip(3) == sendable(
            header_views(configured.list()),
        ),
        s.id() is None ==> header_views(out@).skip(2) == sendable(header_views(configured.list())),
{
    let v = header_views(out@);
    let more = sendable(header_views(configured.list()));
    assert(v.len() == out@.len());
    assert(v[0] == (out@[0].0@, out@[0].1@));
    assert(v[1] == (out@[1].0@, out@[1].1@));
    if s.id() is Some {
        assert(v[2] == (out@[2].0@, out@[2].1@));
        assert(v.skip(3) =~= more);
    } else {
        assert(v.skip(2) =~= more);
    }
}

/// Of the configured headers those are sent that have a proper name and a proper
/// value, in their order.
pub proof fn law_proper_headers_are_sent(list: Seq<(Seq<char>, Seq<char>)>, h: (Seq<char>, Seq<char>))
    ensures
        sendable(Seq::empty()).len() == 0,
        header_name(h.0) && header_value(h.1) ==> sendable(list.push(h)) == sendable(list).push(h),
        !(header_name(h.0) && header_value(h.1)) ==> sendable(list.push(h)) == sendable(list),
{
    assert(list.push(h).drop_last() =~= list);
}

} // verus!
