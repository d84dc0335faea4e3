//! What can go wrong between the client and an MCP server.

use crate::text;
use vstd::prelude::*;

verus! {

/// An MCP client error. Causes from outside are carried as their text.
pub enum McpError {
    Io(String),
    Json(String),
    Protocol(String),
    /// The duration that ran out, as it is shown.
    Timeout(String),
    ServerError { code: i64, message: String },
}

/// The view of an [`McpError`].
pub enum McpErrorView {
    Io(Seq<char>),
    Json(Seq<char>),
    Protocol(Seq<char>),
    Timeout(Seq<char>),
    ServerError { code: i64, message: Seq<char> },
}

impl View for McpError {
    type V = McpErrorView;

    open spec fn view(&self) -> McpErrorView {
        match self {
            McpError::Io(e) => McpErrorView::Io(e@),
            McpError::Json(e) => McpErrorView::Json(e@),
            McpError::Protocol(e) => McpErrorView::Protocol(e@),
            McpError::Timeout(e) => McpErrorView::Timeout(e@),
            McpError::ServerError { code, message } => McpErrorView::ServerError {
                code: *code,
                message: message@,
            },
        }
    }
}

impl McpErrorView {
    /// The error in words.
    pub open spec fn words(self) -> Seq<char> {
        match self {
            McpErrorView::Io(e) => "io error: "@ + e,
            McpErrorView::Json(e) => "json error: "@ + e,
            McpErrorView::Protocol(e) => "protocol error: "@ + e,
            McpErrorView::Timeout(e) => "call timeout after "@ + e,
            McpErrorView::ServerError { code, message } => "server returned error "@
                + text::decimal_int(code as int) + ": "@ + message,
        }
    }
}

impl McpError {
    /// The error in words.
    pub fn message(&self) -> (out: String)
        ensures
            out@ == self@.words(),
    {
        match self {
            McpError::Io(e) => text::cat2("io error: ", e.as_str()),
            McpError::Json(e) => text::cat2("json error: ", e.as_str()),
            McpError::Protocol(e) => text::cat2("protocol error: ", e.as_str()),
            McpError::Timeout(e) => text::cat2("call timeout after ", e.as_str()),
            McpError::ServerError { code, message } => {
                let n = text::show_i64(*code);
                text::cat4("server returned error ", n.as_str(), ": ", message.as_str())
            },
        }
    }
}

/// Whether a text ends with another.
pub open spec fn ends_with(s: Seq<char>, end: Seq<char>) -> bool {
    s.len() >= end.len() && s.skip(s.len() - end.len()) == end
}

/// An error is told by its kind and its cause: what kind it is stands first, the
/// cause at the end, and the code of a server between them.
pub proof fn law_error_names_its_cause(e: &McpError, out: String)
    requires
        call_ensures(McpError::message, (e,), out),
    ensures
        match *e {
            McpError::Io(c) => "io error: "@.is_prefix_of(out@) && ends_with(out@, c@),
            McpError::Json(c) => "json error: "@.is_prefix_of(out@) && ends_with(out@, c@),
            McpError::Protocol(c) => "protocol error: "@.is_prefix_of(out@) && ends_with(out@, c@),
            McpError::Timeout(c) => "call timeout after "@.is_prefix_of(out@) && ends_with(
                out@,
                c@,
            ),
            McpError::ServerError { code, message } => ends_with(out@, message@)
                && "server returned error "@.is_prefix_of(out@) && out@.skip(
                "server returned error "@.len() as int,
            ) == text::decimal_int(code as int) + ": "@ + message@,
        },
{
    match e {
        McpError::Io(c) => {
            assert("io error: "@ =~= out@.take("io error: "@.len() as int));
            assert(out@.skip(out@.len() - c@.len()) =~= c@);
        },
        McpError::Json(c) => {
            assert("json error: "@ =~= out@.take("json error: "@.len() as int));
            assert(out@.skip(out@.len() - c@.len()) =~= c@);
        },
        McpError::Protocol(c) => {
            assert("protocol error: "@ =~= out@.take("protocol error: "@.len() as int));
            assert(out@.skip(out@.len() - c@.len()) =~= c@);
        },
        McpError::Timeout(c) => {
            assert("call timeout after "@ =~= out@.take("call timeout after "@.len() as int));
            assert(out@.skip(out@.len() - c@.len()) =~= c@);
        },
        McpError::ServerError { code, message } => {
            let n = "server returned error "@.len() as int;
            assert("server returned error "@ =~= out@.take(n));
            assert(out@.skip(n) =~= text::decimal_int(*code as int) + ": "@ + message@);
            assert(out@.skip(out@.len() - message@.len()) =~= message@);
        },
    }
}

} // verus!
