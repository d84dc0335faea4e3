//! JSON-RPC messages: what is sent to a server, and which of the messages that
//! come back answers a request.

use crate::json;
use crate::json::{Json, JsonView, NumberView};
use crate::mcp::error::{McpError, McpErrorView};
use crate::text;
use vstd::prelude::*;
use vstd::string::*;

verus! {

/// The protocol version that `initialize` announces.
pub const PROTOCOL_VERSION: &'static str = "2025-06-18";

// ── messages to the server ──────────────────────────────────────────────

/// The body of a request.
pub open spec fn request_view(id: u64, method: Seq<char>, params: JsonView) -> JsonView {
    JsonView::empty_object().with("jsonrpc"@, JsonView::Str("2.0"@)).with(
        "id"@,
        JsonView::Number(NumberView::Unsigned(id)),
    ).with("method"@, JsonView::Str(method)).with("params"@, params)
}

/// The body of a notification: a message without an id, which gets no answer.
pub open spec fn notification_view(method: Seq<char>) -> JsonView {
    JsonView::empty_object().with("jsonrpc"@, JsonView::Str("2.0"@)).with(
        "method"@,
        JsonView::Str(method),
    )
}

/// The parameters of `initialize`.
pub open spec fn initialize_view(client_version: Seq<char>) -> JsonView {
    JsonView::empty_object().with("protocolVersion"@, JsonView::Str(PROTOCOL_VERSION@)).with(
        "clientInfo"@,
        JsonView::empty_object().with("name"@, JsonView::Str("conga"@)).with(
            "version"@,
            JsonView::Str(client_version),
        ),
    ).with("capabilities"@, JsonView::empty_object())
}

/// The parameters of `tools/call`.
pub open spec fn call_view(tool: Seq<char>, args: JsonView) -> JsonView {
    JsonView::empty_object().with("name"@, JsonView::Str(tool)).with("arguments"@, args)
}

/// The body of a request.
pub fn request_body(id: u64, method: &str, params: Json) -> (out: Json)
    ensures
        out@ == request_view(id, method@, params@),
{
    Json::empty_object().with("jsonrpc", Json::text("2.0")).with("id", Json::unsigned(id)).with(
        "method",
        Json::text(method),
    ).with("params", params)
}

/// The body of a notification.
pub fn notification_body(method: &str) -> (out: Json)
    ensures
        out@ == notification_view(method@),
{
    Json::empty_object().with("jsonrpc", Json::text("2.0")).with("method", Json::text(method))
}

/// The parameters of `initialize`.
pub fn initialize_params(client_version: &str) -> (out: Json)
    ensures
        out@ == initialize_view(client_version@),
{
    let client = Json::empty_object().with("name", Json::text("conga")).with(
        "version",
        Json::text(client_version),
    );
    Json::empty_object().with("protocolVersion", Json::text(PROTOCOL_VERSION)).with(
        "clientInfo",
        client,
    ).with("capabilities", Json::empty_object())
}

/// The parameters of `tools/call`.
pub fn call_params(tool: &str, args: &Json) -> (out: Json)
    ensures
        out@ == call_view(tool@, args@),
{
    Json::empty_object().with("name", Json::text(tool)).with("arguments", args.copy())
}

/// Whether a text is one line: a line feed ends it and stands nowhere else.
pub open spec fn is_one_line(s: Seq<char>) -> bool {
    &&& s.len() > 0
    &&& s.last() == '\n'
    &&& forall|i: int| 0 <= i < s.len() - 1 ==> #[trigger] s[i] != '\n'
}

/// A message as it goes to a server that reads newline-delimited JSON: the
/// text of the body and a line feed. However the message reads, the frame is
/// exactly one line.
pub fn message_line(body: &Json) -> (out: String)
    ensures
        out@ == json::json_text(body@).push('\n'),
        is_one_line(out@),
{
    let mut out: String = json::print_json(body);
    out.push('\n');
    out
}

/// The line that carries a request.
pub fn write_request(id: u64, method: &str, params: Json) -> (out: String)
    ensures
        out@ == json::json_text(request_view(id, method@, params@)).push('\n'),
        is_one_line(out@),
{
    message_line(&request_body(id, method, params))
}

/// The line that carries a notification.
pub fn write_notification(method: &str) -> (out: String)
    ensures
        out@ == json::json_text(notification_view(method@)).push('\n'),
        is_one_line(out@),
{
    message_line(&notification_body(method))
}

// ── messages from the server ────────────────────────────────────────────

/// What a JSON-RPC message is to one who waits for the answer to a request.
pub enum Parsed {
    /// The answer.
    Result(Json),
    /// An error that answers the request.
    Error { code: i64, message: String },
    /// Something else: a notification, or a message for another request.
    Other,
}

/// The view of a [`Parsed`].
pub enum ParsedView {
    Result(JsonView),
    Error { code: i64, message: Seq<char> },
    Other,
}

impl View for Parsed {
    type V = ParsedView;

    open spec fn view(&self) -> ParsedView {
        match self {
            Parsed::Result(v) => ParsedView::Result(v@),
            Parsed::Error { code, message } => ParsedView::Error { code: *code, message: message@ },
            Parsed::Other => ParsedView::Other,
        }
    }
}

/// The code of an error object, -1 where it has no integer code.
pub open spec fn error_code(err: JsonView) -> i64 {
    match err.member("code"@) {
        Some(c) => match c.i64_value() {
            Some(n) => n,
            None => -1i64,
        },
        None => -1i64,
    }
}

/// The message of an error object.
pub open spec fn error_text(err: JsonView) -> Seq<char> {
    match err.member("message"@) {
        Some(m) => match m.str_value() {
            Some(s) => s,
            None => "unknown error"@,
        },
        None => "unknown error"@,
    }
}

/// What the message `v` is to one who waits for the answer to request `id`.
pub open spec fn parsed_view(v: JsonView, id: u64) -> ParsedView {
    match v.member("id"@) {
        None => ParsedView::Other,
        Some(n) => if n.u64_value() != Some(id) {
            ParsedView::Other
        } else {
            match v.member("error"@) {
                Some(err) => ParsedView::Error { code: error_code(err), message: error_text(err) },
                None => match v.member("result"@) {
                    Some(result) => ParsedView::Result(result),
                    None => ParsedView::Other,
                },
            }
        },
    }
}

/// Matches a JSON-RPC message against the id of a request.
pub fn parse_jsonrpc_value(v: &Json, expected_id: u64) -> (r: Parsed)
    ensures
        r@ == parsed_view(v@, expected_id),
{
    let id_val = match v.get("id") {
        Some(i) => i,
        None => {
            return Parsed::Other;
        },
    };
    match id_val.as_u64() {
        Some(id) => {
            if id != expected_id {
                return Parsed::Other;
            }
        },
        None => {
            return Parsed::Other;
        },
    }
    if let Some(err) = v.get("error") {
        let code: i64 = match err.get("code") {
            Some(c) => match c.as_i64() {
                Some(n) => n,
                None => -1,
            },
            None => -1,
        };
        let message: String = match err.get("message") {
            Some(m) => match m.as_str() {
                Some(s) => s.clone(),
                None => text::copy_str("unknown error"),
            },
            None => text::copy_str("unknown error"),
        };
        Parsed::Error { code, message }
    } else {
        match v.get("result") {
            Some(result) => Parsed::Result(result.copy()),
            None => Parsed::Other,
        }
    }
}

/// One line that the server wrote: the answer to a request, an error that
/// answers it, or something to skip.
pub enum IncomingMessage {
    Response { result: Json },
    Error { code: i64, message: String },
    Other,
}

impl View for IncomingMessage {
    type V = ParsedView;

    open spec fn view(&self) -> ParsedView {
        match self {
            IncomingMessage::Response { result } => ParsedView::Result(result@),
            IncomingMessage::Error { code, message } => ParsedView::Error {
                code: *code,
                message: message@,
            },
            IncomingMessage::Other => ParsedView::Other,
        }
    }
}

/// What a message that may not be JSON at all is to one who waits for `id`.
pub open spec fn incoming_view(v: Option<JsonView>, id: u64) -> ParsedView {
    match v {
        Some(j) => parsed_view(j, id),
        None => ParsedView::Other,
    }
}

/// Matches a message that has been read as JSON, where that was possible.
pub fn incoming(v: Option<Json>, expected_id: u64) -> (r: IncomingMessage)
    ensures
        r@ == incoming_view(json::opt_json(v), expected_id),
{
    match v {
        Some(j) => match parse_jsonrpc_value(&j, expected_id) {
            Parsed::Result(result) => IncomingMessage::Response { result },
            Parsed::Error { code, message } => IncomingMessage::Error { code, message },
            Parsed::Other => IncomingMessage::Other,
        },
        None => IncomingMessage::Other,
    }
}

/// Matches one line of a server's output; a line that is not JSON is skipped.
pub fn parse_incoming(line: &str, expected_id: u64) -> (r: IncomingMessage)
    ensures
        r@ == incoming_view(json::json_value(line@), expected_id),
{
    incoming(json::parse_json(line), expected_id)
}

/// The outcome of a request: its result, or the error that answers it.
pub enum ReplyView {
    Result(JsonView),
    Failed(McpErrorView),
}

/// The view of an outcome.
pub open spec fn reply_view(r: Result<Json, McpError>) -> ReplyView {
    match r {
        Ok(v) => ReplyView::Result(v@),
        Err(e) => ReplyView::Failed(e@),
    }
}

/// The outcome that a message brings, if it answers at all.
pub open spec fn reply_of(m: ParsedView) -> Option<ReplyView> {
    match m {
        ParsedView::Result(v) => Some(ReplyView::Result(v)),
        ParsedView::Error { code, message } => Some(
            ReplyView::Failed(McpErrorView::ServerError { code, message }),
        ),
        ParsedView::Other => None,
    }
}

/// The view of an optional outcome.
pub open spec fn opt_reply(r: Option<Result<Json, McpError>>) -> Option<ReplyView> {
    match r {
        Some(o) => Some(reply_view(o)),
        None => None,
    }
}

/// The outcome that a message brings: none for a message to skip.
pub fn settle(m: IncomingMessage) -> (r: Option<Result<Json, McpError>>)
    ensures
        opt_reply(r) == reply_of(m@),
{
    match m {
        IncomingMessage::Response { result } => Some(Ok(result)),
        IncomingMessage::Error { code, message } => Some(
            Err(McpError::ServerError { code, message }),
        ),
        IncomingMessage::Other => None,
    }
}

/// The outcome of a request whose single answer is the JSON value `v`.
pub open spec fn single_reply(v: JsonView, id: u64) -> ReplyView {
    match reply_of(parsed_view(v, id)) {
        Some(r) => r,
        None => ReplyView::Failed(no_answer(id, json::json_text(v))),
    }
}

/// The error for an answer, with this text, that does not answer request `id`.
pub open spec fn no_answer(id: u64, body: Seq<char>) -> McpErrorView {
    McpErrorView::Protocol(
        "http response has no result/error for id "@ + text::decimal(id as nat) + ": "@ + body,
    )
}

/// The error for an answer that does not answer request `id`.
pub fn unanswered(id: u64, body: &str) -> (e: McpError)
    ensures
        e@ == no_answer(id, body@),
{
    let n = text::show_u64(id);
    McpError::Protocol(
        text::cat4("http response has no result/error for id ", n.as_str(), ": ", body),
    )
}

/// The outcome of a request that was answered with one JSON value.
pub fn reply_to_json(v: &Json, id: u64) -> (r: Result<Json, McpError>)
    ensures
        reply_view(r) == single_reply(v@, id),
{
    match parse_jsonrpc_value(v, id) {
        Parsed::Result(result) => Ok(result),
        Parsed::Error { code, message } => Err(McpError::ServerError { code, message }),
        Parsed::Other => {
            let body = json::print_json(v);
            Err(unanswered(id, body.as_str()))
        },
    }
}

// ── laws ────────────────────────────────────────────────────────────────

/// A message that carries a result answers the request with its id and no
/// other.
pub proof fn law_result_answers_its_request(v: JsonView, n: u64, id: u64, result: JsonView)
    requires
        v.member("id"@) == Some(JsonView::Number(NumberView::Unsigned(n))),
        v.member("error"@) is None,
        v.member("result"@) == Some(result),
    ensures
        parsed_view(v, n) == ParsedView::Result(result),
        id != n ==> parsed_view(v, id) == ParsedView::Other,
{
}

/// A message without an id is no answer to any request.
pub proof fn law_notification_is_skipped(v: JsonView, id: u64)
    requires
        v.member("id"@) is None,
    ensures
        parsed_view(v, id) == ParsedView::Other,
{
}

/// A message whose id is no unsigned integer is no answer to any request.
pub proof fn law_foreign_id_is_skipped(v: JsonView, n: JsonView, id: u64)
    requires
        v.member("id"@) == Some(n),
        n.u64_value() is None,
    ensures
        parsed_view(v, id) == ParsedView::Other,
{
}

/// A message that has an error member is never taken for a result, whatever
/// else it holds.
pub proof fn law_error_wins_over_result(v: JsonView, id: u64)
    requires
        v.member("error"@) is Some,
    ensures
        !(parsed_view(v, id) is Result),
{
}

/// A tool call goes out as it was made: the parameters name the tool, and hold
/// the arguments that were given and nothing in their place.
pub proof fn law_call_carries_its_arguments(tool: &str, args: &Json, out: Json)
    requires
        call_ensures(call_params, (tool, args), out),
    ensures
        out@ is Object,
        out@.member("name"@) == Some(JsonView::Str(tool@)),
        out@.member("arguments"@) == Some(args@),
{
    reveal_strlit("name");
    reveal_strlit("arguments");
    assert("name"@.len() != "arguments"@.len());
    let v = JsonView::empty_object();
    json::lemma_with_member(v, "name"@, JsonView::Str(tool@));
    json::lemma_with_member(v.with("name"@, JsonView::Str(tool@)), "arguments"@, args@);
}

/// Two calls that differ in the tool or in the arguments send different
/// parameters.
pub proof fn law_different_calls_differ(
    tool: &str,
    args: &Json,
    out: Json,
    other_tool: &str,
    other_args: &Json,
    other: Json,
)
    requires
        call_ensures(call_params, (tool, args), out),
        call_ensures(call_params, (other_tool, other_args), other),
        out@ == other@,
    ensures
        tool@ == other_tool@,
        args@ == other_args@,
{
    law_call_carries_its_arguments(tool, args, out);
    law_call_carries_its_arguments(other_tool, other_args, other);
}

/// A request says which protocol it speaks, its id, its method, and its
/// parameters as they were given.
pub proof fn law_request_has_its_parts(id: u64, method: &str, params: Json, out: Json)
    requires
        call_ensures(request_body, (id, method, params), out),
    ensures
        out@ is Object,
        out@.member("jsonrpc"@) == Some(JsonView::Str("2.0"@)),
        out@.member("id"@) == Some(JsonView::Number(NumberView::Unsigned(id))),
        out@.member("method"@) == Some(JsonView::Str(method@)),
        out@.member("params"@) == Some(params@),
{
    lemma_request_keys();
    let a = JsonView::empty_object();
    let b = a.with("jsonrpc"@, JsonView::Str("2.0"@));
    let c = b.with("id"@, JsonView::Number(NumberView::Unsigned(id)));
    let d = c.with("method"@, JsonView::Str(method@));
    json::lemma_with_member(a, "jsonrpc"@, JsonView::Str("2.0"@));
    json::lemma_with_member(b, "id"@, JsonView::Number(NumberView::Unsigned(id)));
    json::lemma_with_member(c, "method"@, JsonView::Str(method@));
    json::lemma_with_member(d, "params"@, params@);
}

proof fn lemma_request_keys()
    ensures
        "jsonrpc"@ != "id"@,
        "jsonrpc"@ != "method"@,
        "jsonrpc"@ != "params"@,
        "id"@ != "method"@,
        "id"@ != "params"@,
        "method"@ != "params"@,
{
    reveal_strlit("jsonrpc");
    reveal_strlit("id");
    reveal_strlit("method");
    reveal_strlit("params");
    assert("jsonrpc"@.len() == 7);
    assert("id"@.len() == 2);
    assert("method"@.len() == 6);
    assert("params"@.len() == 6);
    assert("method"@[0] == 'm');
    assert("params"@[0] == 'p');
}

/// A notification says its protocol and its method, and has no id: no answer
/// can be meant for it.
pub proof fn law_notification_has_no_id(method: &str, out: Json)
    requires
        call_ensures(notification_body, (method,), out),
    ensures
        out@ is Object,
        out@.member("jsonrpc"@) == Some(JsonView::Str("2.0"@)),
        out@.member("method"@) == Some(JsonView::Str(method@)),
        out@.member("id"@) is None,
{
    lemma_request_keys();
    let a = JsonView::empty_object();
    let b = a.with("jsonrpc"@, JsonView::Str("2.0"@));
    json::lemma_with_member(a, "jsonrpc"@, JsonView::Str("2.0"@));
    json::lemma_with_member(b, "method"@, JsonView::Str(method@));
}

/// `initialize` announces the version of the protocol, the client by its name
/// and version, and no capabilities.
pub proof fn law_initialize_announces_the_client(version: &str, out: Json)
    requires
        call_ensures(initialize_params, (version,), out),
    ensures
        out@.member("protocolVersion"@) == Some(JsonView::Str("2025-06-18"@)),
        out@.member("clientInfo"@) matches Some(client) && client.member("name"@) == Some(
            JsonView::Str("conga"@),
        ) && client.member("version"@) == Some(JsonView::Str(version@)),
        out@.member("capabilities"@) == Some(JsonView::Object(Seq::empty())),
{
    reveal_strlit("protocolVersion");
    reveal_strlit("clientInfo");
    reveal_strlit("capabilities");
    reveal_strlit("name");
    reveal_strlit("version");
    assert("protocolVersion"@.len() == 15);
    assert("clientInfo"@.len() == 10);
    assert("capabilities"@.len() == 12);
    assert("name"@.len() == 4);
    assert("version"@.len() == 7);
    let none = JsonView::empty_object();
    let named = none.with("name"@, JsonView::Str("conga"@));
    let client = named.with("version"@, JsonView::Str(version@));
    json::lemma_with_member(none, "name"@, JsonView::Str("conga"@));
    json::lemma_with_member(named, "version"@, JsonView::Str(version@));
    let a = none.with("protocolVersion"@, JsonView::Str(PROTOCOL_VERSION@));
    let b = a.with("clientInfo"@, client);
    json::lemma_with_member(none, "protocolVersion"@, JsonView::Str(PROTOCOL_VERSION@));
    json::lemma_with_member(a, "clientInfo"@, client);
    json::lemma_with_member(b, "capabilities"@, none);
}

/// What is written to a subprocess is the text of the message and a line feed,
/// whatever the message.
pub proof fn law_line_is_the_message(id: u64, method: &str, params: Json, body: Json, out: String)
    requires
        call_ensures(request_body, (id, method, params), body),
        call_ensures(write_request, (id, method, params), out),
    ensures
        out@.len() == json::json_text(body@).len() + 1,
        out@.last() == '\n',
        out@.drop_last() == json::json_text(body@),
{
    assert(out@.drop_last() =~= json::json_text(body@));
}

/// What is written of a notification is its text and a line feed.
pub proof fn law_notification_line_is_the_message(method: &str, body: Json, out: String)
    requires
        call_ensures(notification_body, (method,), body),
        call_ensures(write_notification, (method,), out),
    ensures
        out@.len() == json::json_text(body@).len() + 1,
        out@.last() == '\n',
        out@.drop_last() == json::json_text(body@),
{
    assert(out@.drop_last() =~= json::json_text(body@));
}

/// A message with a result and the id of the request is read as that result,
/// and as nothing for any other request.
pub proof fn law_result_is_read(v: &Json, n: u64, result: JsonView, id: u64, r: Parsed)
    requires
        v@.member("id"@) == Some(JsonView::Number(NumberView::Unsigned(n))),
        v@.member("error"@) is None,
        v@.member("result"@) == Some(result),
        call_ensures(parse_jsonrpc_value, (v, id), r),
    ensures
        if id == n {
            r matches Parsed::Result(got) && got@ == result
        } else {
            r is Other
        },
{
}

/// A message with an error and the id of the request is read as that error, with
/// its code and its words; where it has none of them, as -1 and `unknown error`.
pub proof fn law_error_is_read(v: &Json, n: u64, error: JsonView, id: u64, r: Parsed)
    requires
        v@.member("id"@) == Some(JsonView::Number(NumberView::Unsigned(n))),
        v@.member("error"@) == Some(error),
        call_ensures(parse_jsonrpc_value, (v, id), r),
    ensures
        id != n ==> r is Other,
        id == n ==> r is Error,
        id == n ==> (error.member("code"@) matches Some(JsonView::Number(NumberView::Signed(c)))
            ==> r->Error_code == c),
        id == n ==> (error.member("code"@) matches Some(JsonView::Number(NumberView::Unsigned(c)))
            ==> r->Error_code == (if c <= i64::MAX {
            c as int
        } else {
            -1
        })),
        id == n && error.member("code"@) is None ==> r->Error_code == -1,
        id == n ==> (error.member("message"@) matches Some(JsonView::Str(m))
            ==> r->Error_message@ == m),
        id == n && error.member("message"@) is None ==> r->Error_message@ == "unknown error"@,
        id == n ==> (error.member("message"@) matches Some(m) ==> (!(m is Str)
            ==> r->Error_message@ == "unknown error"@)),
        id == n ==> (error.member("code"@) matches Some(c) ==> (!(c is Number) ==> r->Error_code
            == -1)),
{
}

/// A message without an id, with the id of another request, or with neither
/// result nor error, is skipped.
pub proof fn law_other_messages_are_skipped(v: &Json, id: u64, r: Parsed)
    requires
        call_ensures(parse_jsonrpc_value, (v, id), r),
        v@.member("id"@) != Some(JsonView::Number(NumberView::Unsigned(id))) || (v@.member(
            "error"@,
        ) is None && v@.member("result"@) is None),
    ensures
        r is Other,
{
}

/// A line is read as the message that its JSON is; a line that is no JSON is
/// skipped. What comes of it for the caller is the result, the error that the
/// server sent, or nothing.
pub proof fn law_line_is_settled_by_its_message(
    line: &str,
    id: u64,
    m: IncomingMessage,
    r: Option<Result<Json, McpError>>,
)
    requires
        call_ensures(parse_incoming, (line, id), m),
        call_ensures(settle, (m,), r),
    ensures
        json::json_value(line@) is None ==> r is None,
        json::json_value(line@) matches Some(v) ==> {
            &&& v.member("id"@) != Some(JsonView::Number(NumberView::Unsigned(id))) ==> r is None
            &&& (v.member("id"@) == Some(JsonView::Number(NumberView::Unsigned(id))) && v.member(
                "error"@,
            ) is None) ==> (v.member("result"@) matches Some(result) ==> (r matches Some(
                Ok(got),
            ) && got@ == result))
            &&& (v.member("id"@) == Some(JsonView::Number(NumberView::Unsigned(id))) && v.member(
                "error"@,
            ) is Some) ==> (r matches Some(Err(McpError::ServerError { .. })))
        },
{
}

/// A response that is one JSON value answers the request with its result or its
/// error. One that does not answer it is an error of the protocol, never a
/// result.
pub proof fn law_single_answer(v: &Json, id: u64, r: Result<Json, McpError>)
    requires
        call_ensures(reply_to_json, (v, id), r),
    ensures
        ({
            let ours = v@.member("id"@) == Some(JsonView::Number(NumberView::Unsigned(id)));
            &&& (ours && v@.member("error"@) is None) ==> (v@.member("result"@) matches Some(
                result,
            ) ==> (r matches Ok(got) && got@ == result))
            &&& (ours && v@.member("error"@) is Some) ==> (r matches Err(e)
                && e is ServerError)
            &&& (!ours || (v@.member("error"@) is None && v@.member("result"@) is None)) ==> (
            r matches Err(e) && e is Protocol)
        }),
{
}

/// An answer that does not answer is an error of the protocol that names the request
/// and shows what came instead.
pub proof fn law_wrong_answer_is_shown(id: u64, body: &str, e: McpError)
    requires
        call_ensures(unanswered, (id, body), e),
    ensures
        e matches McpError::Protocol(w) && w@ == "http response has no result/error for id "@
            + text::decimal(id as nat) + ": "@ + body@,
        e matches McpError::Protocol(w) && w@.len() >= body@.len() && w@.skip(
            w@.len() - body@.len(),
        ) == body@,
{
    if let McpError::Protocol(w) = e {
        assert(w@.skip(w@.len() - body@.len()) =~= body@);
    }
}

/// What could not be read as JSON is skipped.
pub proof fn law_what_is_no_json_is_skipped(id: u64, r: IncomingMessage)
    requires
        call_ensures(incoming, (None, id), r),
    ensures
        r is Other,
{
}

} // verus!
