//! Extension scripts: what a script registers, and what its hooks make of a
//! tool call.
//!
//! A script runs on a thread of its own, which no value of the script ever
//! leaves. What is read off such a value comes here in plain form.

use crate::json;
use crate::json::{Json, JsonView};
use crate::table::Table;
use crate::text;
use crate::tool;
use crate::tool::{
    BlockView, ContentBlock, OutcomeView, RiskLevel, ToolDefinition, ToolDefinitionView, ToolResult,
    ToolResultView,
};
use vstd::prelude::*;
use vstd::string::*;

verus! {

/// The most memory that scripts may use, in bytes.
pub const SANDBOX_MEMORY_LIMIT: usize = 64 * 1024 * 1024;

/// The largest stack that scripts may use, in bytes.
pub const SANDBOX_STACK_LIMIT: usize = 1024 * 1024;

/// What runs before any script: a collector of registrations and a console.
pub const PRELUDE: &'static str = "
\"use strict\";
var __conga_tools = [], __conga_before = [], __conga_after = [];
var conga = {
    registerTool(def) { __conga_tools.push(def); },
    registerBeforeToolCall(fn) { __conga_before.push(fn); },
    registerAfterToolCall(fn) { __conga_after.push(fn); },
};
var console = {
    log(...a) { __conga_print(\"[ext-js]\", ...a); },
    error(...a) { __conga_print(\"[ext-js error]\", ...a); },
};
";

// ── errors ──────────────────────────────────────────────────────────────

/// What is known of an error that a script caused.
pub enum ScriptError {
    /// It threw an exception.
    Exception { message: Option<String>, stack: Option<String> },
    /// It threw something else, which is shown so.
    Thrown(String),
    /// The engine failed, with the cause in words.
    Engine(String),
}

/// The words of an error.
pub open spec fn error_words(e: ScriptError) -> Seq<char> {
    match e {
        ScriptError::Exception { message, stack } => {
            let m = match message {
                Some(t) => t@,
                None => "unknown error"@,
            };
            match stack {
                Some(s) => m + "\n"@ + s@,
                None => m,
            }
        },
        ScriptError::Thrown(t) => t@,
        ScriptError::Engine(t) => t@,
    }
}

/// Puts an error into words: the message of an exception, and its stack where
/// it has one.
pub fn error_string(e: ScriptError) -> (out: String)
    ensures
        out@ == error_words(e),
{
    match e {
        ScriptError::Exception { message, stack } => {
            let m: String = match message {
                Some(t) => t,
                None => text::copy_str("unknown error"),
            };
            match stack {
                Some(s) => text::cat3(m.as_str(), "\n", s.as_str()),
                None => m,
            }
        },
        ScriptError::Thrown(t) => t,
        ScriptError::Engine(t) => t,
    }
}

/// The error that loading a script ends with: its path, and what went wrong.
pub fn script_error(path: &str, cause: &str) -> (out: String)
    ensures
        out@ == path@ + ": "@ + cause@,
{
    text::cat3(path, ": ", cause)
}

// ── registrations ───────────────────────────────────────────────────────

/// A tool as it is read off a script. Reading a property can fail, with the
/// cause in words; one that is not there is none.
pub struct RawTool {
    pub name: Result<String, String>,
    pub label: Result<Option<String>, String>,
    pub description: Result<Option<String>, String>,
    pub risk: Result<Option<String>, String>,
    pub parameters: Result<Option<Json>, String>,
    pub execute: Result<(), String>,
}

/// The view of a [`RawTool`].
pub struct RawToolView {
    pub name: Result<Seq<char>, Seq<char>>,
    pub label: Result<Seq<char>, Seq<char>>,
    pub description: Result<Seq<char>, Seq<char>>,
    pub risk: Result<Seq<char>, Seq<char>>,
    pub parameters: Result<Option<JsonView>, Seq<char>>,
    pub execute: Result<(), Seq<char>>,
}

/// The view of an optional text that was read: one that is not there is empty.
pub open spec fn read_view(r: Result<Option<String>, String>) -> Result<Seq<char>, Seq<char>> {
    match r {
        Ok(Some(s)) => Ok(s@),
        Ok(None) => Ok(Seq::empty()),
        Err(e) => Err(e@),
    }
}

impl View for RawTool {
    type V = RawToolView;

    open spec fn view(&self) -> RawToolView {
        RawToolView {
            name: match self.name {
                Ok(s) => Ok(s@),
                Err(e) => Err(e@),
            },
            label: read_view(self.label),
            description: read_view(self.description),
            risk: read_view(self.risk),
            parameters: match self.parameters {
                Ok(Some(p)) => Ok(Some(p@)),
                Ok(None) => Ok(None),
                Err(e) => Err(e@),
            },
            execute: match self.execute {
                Ok(()) => Ok(()),
                Err(e) => Err(e@),
            },
        }
    }
}

/// The parameters of a tool that declares none.
pub open spec fn no_parameters() -> JsonView {
    JsonView::empty_object().with("type"@, JsonView::Str("object"@)).with(
        "properties"@,
        JsonView::empty_object(),
    )
}

/// The error for a property of a tool.
pub open spec fn field_error(name: Seq<char>, key: Seq<char>, e: Seq<char>) -> Seq<char> {
    "tool "@ + name + "."@ + key + ": "@ + e
}

/// The tool that stands at place `i` of a script's registrations, or the first
/// property that cannot be read.
pub open spec fn tool_of(i: int, raw: RawToolView) -> Result<ToolDefinitionView, Seq<char>> {
    match raw.name {
        Err(e) => Err("tool #"@ + text::decimal(i as nat) + ": "@ + e),
        Ok(name) => match raw.label {
            Err(e) => Err(field_error(name, "label"@, e)),
            Ok(label) => match raw.description {
                Err(e) => Err(field_error(name, "description"@, e)),
                Ok(description) => match raw.risk {
                    Err(e) => Err(field_error(name, "risk"@, e)),
                    Ok(risk) => match raw.parameters {
                        Err(e) => Err("tool "@ + name + ": "@ + e),
                        Ok(parameters) => match raw.execute {
                            Err(e) => Err("tool "@ + name + ": "@ + e),
                            Ok(()) => Ok(
                                ToolDefinitionView {
                                    name,
                                    label,
                                    description,
                                    parameters: match parameters {
                                        Some(p) => p,
                                        None => no_parameters(),
                                    },
                                    risk: tool::risk_named(risk),
                                },
                            ),
                        },
                    },
                },
            },
        },
    }
}

/// The tools that scripts register, in order, or the first error.
pub open spec fn tools_of(raw: Seq<Result<RawToolView, Seq<char>>>) -> Result<
    Seq<ToolDefinitionView>,
    Seq<char>,
>
    decreases raw.len(),
{
    if raw.len() == 0 {
        Ok(Seq::empty())
    } else {
        match tools_of(raw.drop_last()) {
            Err(e) => Err(e),
            Ok(before) => match raw.last() {
                Err(e) => Err(e),
                Ok(t) => match tool_of(raw.len() - 1, t) {
                    Ok(d) => Ok(before.push(d)),
                    Err(e) => Err(e),
                },
            },
        }
    }
}

/// The views of registrations.
pub open spec fn raw_views(raw: Seq<Result<RawTool, String>>) -> Seq<Result<RawToolView, Seq<char>>> {
    Seq::new(
        raw.len(),
        |i: int|
            match raw[i] {
                Ok(t) => Ok(t@),
                Err(e) => Err(e@),
            },
    )
}

/// The view of one tool or an error.
pub open spec fn tool_view(r: Result<ToolDefinition, String>) -> Result<
    ToolDefinitionView,
    Seq<char>,
> {
    match r {
        Ok(d) => Ok(d@),
        Err(e) => Err(e@),
    }
}

/// The view of tools or an error.
pub open spec fn tools_view(r: Result<Vec<ToolDefinition>, String>) -> Result<
    Seq<ToolDefinitionView>,
    Seq<char>,
> {
    match r {
        Ok(d) => Ok(tool::definition_views(d@)),
        Err(e) => Err(e@),
    }
}

fn read_field(name: &str, key: &str, r: Result<Option<String>, String>) -> (out: Result<String, String>)
    ensures
        match (out, read_view(r)) {
            (Ok(s), Ok(v)) => s@ == v,
            (Err(e), Err(v)) => e@ == field_error(name@, key@, v),
            _ => false,
        },
{
    match r {
        Ok(Some(s)) => Ok(s),
        Ok(None) => Ok(String::new()),
        Err(e) => {
            let head = text::cat5("tool ", name, ".", key, ": ");
            Err(text::cat2(head.as_str(), e.as_str()))
        },
    }
}

fn default_parameters() -> (out: Json)
    ensures
        out@ == no_parameters(),
{
    Json::empty_object().with("type", Json::text("object")).with("properties", Json::empty_object())
}

/// Reads one registration.
pub fn collect_tool(i: usize, raw: RawTool) -> (r: Result<ToolDefinition, String>)
    ensures
        tool_view(r) == tool_of(i as int, raw@),
{
    let name: String = match raw.name {
        Ok(n) => n,
        Err(e) => {
            let n = text::show_usize(i);
            return Err(text::cat4("tool #", n.as_str(), ": ", e.as_str()));
        },
    };
    let label: String = match read_field(name.as_str(), "label", raw.label) {
        Ok(s) => s,
        Err(e) => {
            return Err(e);
        },
    };
    let description: String = match read_field(name.as_str(), "description", raw.description) {
        Ok(s) => s,
        Err(e) => {
            return Err(e);
        },
    };
    let risk: RiskLevel = match read_field(name.as_str(), "risk", raw.risk) {
        Ok(s) => tool::risk_from_name(s.as_str()),
        Err(e) => {
            return Err(e);
        },
    };
    let parameters: Json = match raw.parameters {
        Ok(Some(p)) => p,
        Ok(None) => default_parameters(),
        Err(e) => {
            return Err(text::cat4("tool ", name.as_str(), ": ", e.as_str()));
        },
    };
    match raw.execute {
        Ok(()) => Ok(ToolDefinition { name, label, description, parameters, risk }),
        Err(e) => Err(text::cat4("tool ", name.as_str(), ": ", e.as_str())),
    }
}

/// Reads the registrations of all scripts.
pub fn collect(raw: Vec<Result<RawTool, String>>) -> (r: Result<Vec<ToolDefinition>, String>)
    ensures
        tools_view(r) == tools_of(raw_views(raw@)),
{
    let ghost all = raw_views(raw@);
    let ghost given = raw@;
    let n: usize = raw.len();
    let mut rest = raw;
    let mut out: Vec<ToolDefinition> = Vec::new();
    let mut i: usize = 0;
    assert(tool::definition_views(out@) =~= Seq::empty());
    while rest.len() > 0
        invariant
            all == raw_views(raw@),
            given == raw@,
            n == given.len(),
            i + rest@.len() == n,
            rest@ == given.skip(i as int),
            tools_of(all.take(i as int)) == Ok::<Seq<ToolDefinitionView>, Seq<char>>(
                tool::definition_views(out@),
            ),
        decreases rest@.len(),
    {
        let next = rest.remove(0);
        assert(next == given[i as int]);
        assert(rest@ =~= given.skip(i + 1));
        let ghost before = out@;
        assert(all.take(i + 1).drop_last() =~= all.take(i as int));
        assert(all.take(i + 1).last() == all[i as int]);
        let def: Result<ToolDefinition, String> = match next {
            Ok(t) => collect_tool(i, t),
            Err(e) => Err(e),
        };
        match def {
            Ok(d) => {
                out.push(d);
                assert(tool::definition_views(out@) =~= tool::definition_views(before).push(d@));
            },
            Err(e) => {
                proof {
                    lemma_first_error(all, i + 1);
                }
                return Err(e);
            },
        }
        i += 1;
    }
    assert(all.take(all.len() as int) =~= all);
    Ok(out)
}

proof fn lemma_first_error(raw: Seq<Result<RawToolView, Seq<char>>>, k: int)
    requires
        0 <= k <= raw.len(),
        tools_of(raw.take(k)) is Err,
    ensures
        tools_of(raw) == tools_of(raw.take(k)),
    decreases raw.len(),
{
    if k == raw.len() {
        assert(raw.take(k) =~= raw);
    } else {
        assert(raw.drop_last().take(k) =~= raw.take(k));
        lemma_first_error(raw.drop_last(), k);
    }
}

/// Which kinds of hooks scripts have registered.
#[derive(Clone, Copy, Debug, PartialEq, Eq, Structural)]
pub struct ScriptHooks {
    pub before: bool,
    pub after: bool,
}

/// What scripts add to the agent.
pub struct JsExtensions {
    /// Their tools, in the order of the scripts.
    pub tools: Vec<ToolDefinition>,
    /// The kinds of hooks to run.
    pub hooks: ScriptHooks,
}

/// The extensions that no script makes.
pub fn no_extensions() -> (out: JsExtensions)
    ensures
        out.tools@.len() == 0,
        out.hooks == (ScriptHooks { before: false, after: false }),
{
    JsExtensions { tools: Vec::new(), hooks: ScriptHooks { before: false, after: false } }
}

/// What scripts add to the agent: their tools, and hooks of a kind where they
/// have registered any.
pub fn build_extensions(tools: Vec<ToolDefinition>, before: usize, after: usize) -> (out:
    JsExtensions)
    ensures
        out.tools == tools,
        out.hooks == (ScriptHooks { before: before > 0, after: after > 0 }),
{
    JsExtensions { tools, hooks: ScriptHooks { before: before > 0, after: after > 0 } }
}

// ── calling a tool ──────────────────────────────────────────────────────

/// The place of the first tool with a name.
pub open spec fn tool_at(tools: Seq<ToolDefinitionView>, name: Seq<char>) -> Option<int>
    decreases tools.len(),
{
    if tools.len() == 0 {
        None
    } else {
        match tool_at(tools.drop_last(), name) {
            Some(i) => Some(i),
            None => if tools.last().name == name {
                Some(tools.len() - 1)
            } else {
                None
            },
        }
    }
}

/// The place of the tool to call.
pub fn find_tool(tools: &Vec<ToolDefinition>, name: &str) -> (r: Result<usize, String>)
    ensures
        match tool_at(tool::definition_views(tools@), name@) {
            Some(i) => r matches Ok(k) && k == i && i < tools@.len(),
            None => r matches Err(e) && e@ == "no such js tool: "@ + name@,
        },
{
    let ghost all = tool::definition_views(tools@);
    for i in 0..tools.len()
        invariant
            all == tool::definition_views(tools@),
            tool_at(all.take(i as int), name@) is None,
    {
        assert(all.take(i + 1).drop_last() =~= all.take(i as int));
        if text::same(tools[i].name.as_str(), name) {
            proof {
                lemma_tool_at_stays(all, i + 1, name@);
            }
            return Ok(i);
        }
    }
    assert(all.take(all.len() as int) =~= all);
    Err(text::cat2("no such js tool: ", name))
}

proof fn lemma_tool_at_stays(tools: Seq<ToolDefinitionView>, k: int, name: Seq<char>)
    requires
        0 <= k <= tools.len(),
        tool_at(tools.take(k), name) is Some,
    ensures
        tool_at(tools, name) == tool_at(tools.take(k), name),
    decreases tools.len(),
{
    if k == tools.len() {
        assert(tools.take(k) =~= tools);
    } else {
        assert(tools.drop_last().take(k) =~= tools.take(k));
        lemma_tool_at_stays(tools.drop_last(), k, name);
    }
}

/// What a tool call runs in.
pub struct ToolContext {
    pub cwd: String,
    pub env: Table<String>,
    pub session_id: String,
    pub state_dir: String,
}

/// What a script sees of it. The environment, which may hold secrets, is not
/// among it.
pub open spec fn script_view(ctx: ToolContext) -> Seq<(Seq<char>, Seq<char>)> {
    seq![
        ("cwd"@, ctx.cwd@),
        ("sessionId"@, ctx.session_id@),
        ("stateDir"@, ctx.state_dir@),
    ]
}

/// The views of properties.
pub open spec fn property_views(list: Seq<(String, String)>) -> Seq<(Seq<char>, Seq<char>)> {
    Seq::new(list.len(), |i: int| (list[i].0@, list[i].1@))
}

/// The properties of the object that `execute` gets beside the arguments.
pub fn script_context(ctx: ToolContext) -> (out: Vec<(String, String)>)
    ensures
        property_views(out@) == script_view(ctx),
{
    let mut out: Vec<(String, String)> = Vec::new();
    let ghost view = script_view(ctx);
    out.push((text::copy_str("cwd"), ctx.cwd));
    out.push((text::copy_str("sessionId"), ctx.session_id));
    out.push((text::copy_str("stateDir"), ctx.state_dir));
    assert(property_views(out@) =~= view);
    out
}

/// What `execute` returned.
pub enum Returned {
    /// A string, or why it could not be read.
    Text(Result<String, String>),
    /// An object, with the properties that are read off it.
    Object { content: Option<String>, is_error: bool, details: Option<Json> },
    /// Anything else, `undefined` and `null` among it.
    Nothing,
    /// It threw, with the error in words.
    Threw(String),
}

/// The result of a call, given what `execute` returned.
pub open spec fn result_of(r: Returned) -> OutcomeView {
    match r {
        Returned::Text(Ok(s)) => OutcomeView::Result(ToolResultView::text(s@)),
        Returned::Text(Err(e)) => OutcomeView::Failed(e@),
        Returned::Object { content, is_error, details } => OutcomeView::Result(
            ToolResultView {
                content: seq![
                    BlockView::Text {
                        text: match content {
                            Some(t) => t@,
                            None => Seq::empty(),
                        },
                    },
                ],
                details: match details {
                    Some(d) => d@,
                    None => JsonView::Null,
                },
                is_error,
            },
        ),
        Returned::Nothing => OutcomeView::Result(ToolResultView::text(Seq::empty())),
        Returned::Threw(e) => OutcomeView::Result(ToolResultView::error(e@)),
    }
}

/// The result of a call. A script that throws reports an error to the model;
/// the call itself has not failed.
pub fn tool_result_from_js(r: Returned) -> (out: Result<ToolResult, String>)
    ensures
        tool::outcome_view(out) == result_of(r),
{
    match r {
        Returned::Text(Ok(s)) => Ok(ToolResult::text(s)),
        Returned::Text(Err(e)) => Err(e),
        Returned::Object { content, is_error, details } => {
            let t: String = match content {
                Some(t) => t,
                None => String::new(),
            };
            let d: Json = match details {
                Some(d) => d,
                None => Json::Null,
            };
            Ok(ToolResult { content: tool::one_text(t), details: d, is_error })
        },
        Returned::Nothing => {
            let empty = String::new();
            assert(empty@ =~= Seq::empty());
            Ok(ToolResult::text(empty))
        },
        Returned::Threw(e) => Ok(ToolResult::error(e)),
    }
}

/// How a call fared on its way to the script's thread and back.
pub enum Delivery {
    /// It was aborted before it was sent.
    Aborted,
    /// The thread is gone.
    Unavailable,
    /// Waiting for the reply failed, with the cause in words.
    JoinFailed(String),
    /// The reply was dropped.
    Dropped,
    /// The reply.
    Replied(Result<ToolResult, String>),
}

/// The outcome of a call.
pub open spec fn delivered(d: Delivery) -> OutcomeView {
    match d {
        Delivery::Aborted => OutcomeView::Result(ToolResultView::error("aborted"@)),
        Delivery::Unavailable => OutcomeView::Failed("ext-js runtime unavailable"@),
        Delivery::JoinFailed(e) => OutcomeView::Failed("ext-js join: "@ + e@),
        Delivery::Dropped => OutcomeView::Failed("ext-js reply dropped"@),
        Delivery::Replied(r) => tool::outcome_view(r),
    }
}

/// What a call returns to the agent.
pub fn call_outcome(d: Delivery) -> (r: Result<ToolResult, String>)
    ensures
        tool::outcome_view(r) == delivered(d),
{
    match d {
        Delivery::Aborted => Ok(ToolResult::error(text::copy_str("aborted"))),
        Delivery::Unavailable => Err(text::copy_str("ext-js runtime unavailable")),
        Delivery::JoinFailed(e) => Err(text::cat2("ext-js join: ", e.as_str())),
        Delivery::Dropped => Err(text::copy_str("ext-js reply dropped")),
        Delivery::Replied(r) => r,
    }
}

// ── hooks before a call ─────────────────────────────────────────────────

/// What a hook has to say of a tool call.
pub enum ToolCallVerdict {
    Allow,
    Block(String),
    Modify(Json),
}

/// The view of a [`ToolCallVerdict`].
pub enum VerdictView {
    Allow,
    Block(Seq<char>),
    Modify(JsonView),
}

impl View for ToolCallVerdict {
    type V = VerdictView;

    open spec fn view(&self) -> VerdictView {
        match self {
            ToolCallVerdict::Allow => VerdictView::Allow,
            ToolCallVerdict::Block(reason) => VerdictView::Block(reason@),
            ToolCallVerdict::Modify(args) => VerdictView::Modify(args@),
        }
    }
}

/// What a hook that runs before a call returned.
pub enum BeforeReturn {
    /// It threw.
    Threw,
    /// An object. What it has in `block` is a reason; what it has in `modify`
    /// are arguments.
    Object { block: Option<String>, modify: Option<Json> },
    /// The string `allow`, or anything else.
    Other,
}

/// The view of a [`BeforeReturn`].
pub enum BeforeView {
    Pass,
    Block(Seq<char>),
    Modify(JsonView),
}

impl View for BeforeReturn {
    type V = BeforeView;

    open spec fn view(&self) -> BeforeView {
        match self {
            BeforeReturn::Object { block: Some(reason), .. } => BeforeView::Block(reason@),
            BeforeReturn::Object { block: None, modify: Some(args) } => BeforeView::Modify(args@),
            _ => BeforeView::Pass,
        }
    }
}

/// The verdict of hooks: the first reason to block, or else the last
/// arguments that a hook has put in place of the given ones.
pub open spec fn verdict_of(answers: Seq<BeforeView>) -> VerdictView
    decreases answers.len(),
{
    if answers.len() == 0 {
        VerdictView::Allow
    } else {
        match verdict_of(answers.drop_last()) {
            VerdictView::Block(reason) => VerdictView::Block(reason),
            before => match answers.last() {
                BeforeView::Block(reason) => VerdictView::Block(reason),
                BeforeView::Modify(args) => VerdictView::Modify(args),
                BeforeView::Pass => before,
            },
        }
    }
}

/// The hooks of one tool call, one after the other.
pub struct BeforeHooks {
    args: Json,
    modified: bool,
    given: Ghost<JsonView>,
    answers: Ghost<Seq<BeforeView>>,
}

impl BeforeHooks {
    /// What the hooks so far have returned.
    pub closed spec fn answers(self) -> Seq<BeforeView> {
        self.answers@
    }

    /// The arguments of the call.
    pub closed spec fn given(self) -> JsonView {
        self.given@
    }

    /// The arguments that the next hook sees.
    pub open spec fn current(self) -> JsonView {
        match verdict_of(self.answers()) {
            VerdictView::Modify(args) => args,
            _ => self.given(),
        }
    }

    /// No hook has blocked the call, and the arguments are up to date.
    pub closed spec fn wf(self) -> bool {
        &&& !(verdict_of(self.answers@) is Block)
        &&& self.modified == (verdict_of(self.answers@) is Modify)
        &&& self.args@ == (match verdict_of(self.answers@) {
            VerdictView::Modify(args) => args,
            _ => self.given@,
        })
    }

    /// Begins with the arguments of the call.
    pub fn new(args: Json) -> (out: Self)
        ensures
            out.wf(),
            out.given() == args@,
            out.answers() == Seq::<BeforeView>::empty(),
    {
        BeforeHooks {
            args,
            modified: false,
            given: Ghost(args@),
            answers: Ghost(Seq::empty()),
        }
    }

    /// The arguments for the next hook.
    pub fn args(&self) -> (out: &Json)
        requires
            self.wf(),
        ensures
            out@ == self.current(),
    {
        &self.args
    }

    /// Takes what a hook returned. A reason to block ends it: the hooks behind
    /// are not asked.
    pub fn step(&mut self, r: BeforeReturn) -> (blocked: Option<String>)
        requires
            old(self).wf(),
        ensures
            final(self).given() == old(self).given(),
            final(self).answers() == old(self).answers().push(r@),
            match blocked {
                Some(reason) => verdict_of(final(self).answers()) == VerdictView::Block(reason@),
                None => final(self).wf(),
            },
    {
        let ghost seen = self.answers@;
        self.answers = Ghost(seen.push(r@));
        assert(seen.push(r@).drop_last() =~= seen);
        match r {
            BeforeReturn::Object { block, modify } => {
                match block {
                    Some(reason) => Some(reason),
                    None => {
                        if let Some(args) = modify {
                            self.args = args;
                            self.modified = true;
                        }
                        None
                    },
                }
            },
            _ => None,
        }
    }

    /// The verdict, where no hook has blocked the call.
    pub fn finish(self) -> (v: ToolCallVerdict)
        requires
            self.wf(),
        ensures
            v@ == verdict_of(self.answers()),
    {
        if self.modified {
            ToolCallVerdict::Modify(self.args)
        } else {
            ToolCallVerdict::Allow
        }
    }
}

/// The verdict for the agent, given the reply of the script's thread. Where
/// the thread is gone the call is allowed: hooks of scripts add to the
/// permission policy, which applies all the same.
pub fn before_verdict(reply: Option<ToolCallVerdict>) -> (v: ToolCallVerdict)
    ensures
        v@ == (match reply {
            Some(r) => r@,
            None => VerdictView::Allow,
        }),
{
    match reply {
        Some(r) => r,
        None => ToolCallVerdict::Allow,
    }
}

/// Once a hook blocks a call it stays blocked, whatever the hooks behind it
/// would say.
pub proof fn law_block_is_final(answers: Seq<BeforeView>, more: Seq<BeforeView>)
    requires
        verdict_of(answers) is Block,
    ensures
        verdict_of(answers + more) == verdict_of(answers),
    decreases more.len(),
{
    if more.len() == 0 {
        assert(answers + more =~= answers);
    } else {
        law_block_is_final(answers, more.drop_last());
        assert((answers + more).drop_last() =~= answers + more.drop_last());
    }
}

/// A hook that throws, or that returns nothing of use, is as good as absent.
pub proof fn law_passing_hook_changes_nothing(before: Seq<BeforeView>, after: Seq<BeforeView>)
    ensures
        verdict_of(before.push(BeforeView::Pass) + after) == verdict_of(before + after),
    decreases after.len(),
{
    if after.len() == 0 {
        assert(before.push(BeforeView::Pass) + after =~= before.push(BeforeView::Pass));
        assert(before + after =~= before);
        assert(before.push(BeforeView::Pass).drop_last() =~= before);
    } else {
        law_passing_hook_changes_nothing(before, after.drop_last());
        assert((before.push(BeforeView::Pass) + after).drop_last() =~= before.push(BeforeView::Pass)
            + after.drop_last());
        assert((before + after).drop_last() =~= before + after.drop_last());
    }
}

// ── hooks after a call ──────────────────────────────────────────────────

/// The result of a tool call on its way to the model.
pub struct ToolResultMessage {
    pub tool_call_id: String,
    pub tool_name: String,
    pub content: Vec<ContentBlock>,
    pub is_error: bool,
    pub timestamp: i64,
}

/// The view of a [`ToolResultMessage`].
pub struct MessageView {
    pub tool_call_id: Seq<char>,
    pub tool_name: Seq<char>,
    pub content: Seq<BlockView>,
    pub is_error: bool,
    pub timestamp: i64,
}

impl View for ToolResultMessage {
    type V = MessageView;

    open spec fn view(&self) -> MessageView {
        MessageView {
            tool_call_id: self.tool_call_id@,
            tool_name: self.tool_name@,
            content: tool::block_views(self.content@),
            is_error: self.is_error,
            timestamp: self.timestamp,
        }
    }
}

/// The first text of a result.
pub open spec fn first_text(blocks: Seq<BlockView>) -> Seq<char>
    decreases blocks.len(),
{
    if blocks.len() == 0 {
        Seq::empty()
    } else {
        match blocks[0] {
            BlockView::Text { text } => text,
            _ => first_text(blocks.drop_first()),
        }
    }
}

/// The text of a result that a hook sees.
pub fn hook_text(result: &ToolResultMessage) -> (out: String)
    ensures
        out@ == first_text(result@.content),
{
    let ghost all = result@.content;
    assert(all.skip(0) =~= all);
    for i in 0..result.content.len()
        invariant
            all == tool::block_views(result.content@),
            first_text(all) == first_text(all.skip(i as int)),
    {
        assert(all.skip(i as int)[0] == result.content@[i as int]@);
        assert(all.skip(i as int).drop_first() =~= all.skip(i + 1));
        if let ContentBlock::Text { text } = &result.content[i] {
            return text::copy_str(text.as_str());
        }
    }
    assert(all.skip(all.len() as int) =~= Seq::empty());
    let out = String::new();
    assert(out@ =~= Seq::empty());
    out
}

/// What a hook that runs after a call returned.
pub enum AfterReturn {
    /// It threw.
    Threw,
    /// An object, with the properties that are read off it.
    Object { text: Option<String>, is_error: Option<bool> },
    /// Anything else.
    Other,
}

/// The result that a hook makes of a result.
pub open spec fn rewritten(m: MessageView, r: AfterReturn) -> MessageView {
    match r {
        AfterReturn::Object { text, is_error } => MessageView {
            content: match text {
                Some(t) => seq![BlockView::Text { text: t@ }],
                None => m.content,
            },
            is_error: match is_error {
                Some(e) => e,
                None => m.is_error,
            },
            ..m
        },
        _ => m,
    }
}

/// Takes what a hook returned into a result.
pub fn after_hook(result: &mut ToolResultMessage, r: AfterReturn)
    ensures
        final(result)@ == rewritten(old(result)@, r),
{
    if let AfterReturn::Object { text, is_error } = r {
        if let Some(t) = text {
            result.content = tool::one_text(t);
        }
        if let Some(e) = is_error {
            result.is_error = e;
        }
    }
}

/// Whatever the environment holds, a script sees the same.
pub proof fn law_scripts_do_not_see_the_environment(a: ToolContext, b: ToolContext)
    requires
        a.cwd@ == b.cwd@,
        a.session_id@ == b.session_id@,
        a.state_dir@ == b.state_dir@,
    ensures
        script_view(a) == script_view(b),
{
}

/// No hook can pass a result off as that of another call.
pub proof fn law_hooks_keep_the_call(m: MessageView, r: AfterReturn)
    ensures
        rewritten(m, r).tool_call_id == m.tool_call_id,
        rewritten(m, r).tool_name == m.tool_name,
        rewritten(m, r).timestamp == m.timestamp,
{
}

/// What a hook does not return stays as it was, and what it returns is what the
/// result then has: without `isError` a result is an error exactly where it was
/// one, and without `text` its content is the same. A hook that throws, or that
/// returns no object, changes nothing.
pub proof fn law_hook_changes_only_what_it_returns(result: &mut ToolResultMessage, r: AfterReturn)
    requires
        call_ensures(after_hook, (result, r), ()),
    ensures
        match r {
            AfterReturn::Object { text, is_error } => {
                &&& is_error is None ==> final(result).is_error == old(result).is_error
                &&& is_error matches Some(e) ==> final(result).is_error == e
                &&& text is None ==> tool::block_views(final(result).content@)
                    == tool::block_views(old(result).content@)
                &&& text matches Some(t) ==> tool::block_views(final(result).content@)
                    == seq![BlockView::Text { text: t@ }]
            },
            _ => final(result).is_error == old(result).is_error && tool::block_views(
                final(result).content@,
            ) == tool::block_views(old(result).content@),
        },
        final(result).tool_call_id@ == old(result).tool_call_id@,
        final(result).tool_name@ == old(result).tool_name@,
        final(result).timestamp == old(result).timestamp,
{
    let before = old(result)@;
    let after = final(result)@;
    assert(after.is_error == final(result).is_error);
    assert(before.is_error == old(result).is_error);
    assert(after.content == tool::block_views(final(result).content@));
}

/// The text that a hook sees is that of the first block that is text, and
/// nothing where no block is.
pub proof fn law_hook_sees_the_first_text(result: &ToolResultMessage, k: int, out: String)
    requires
        call_ensures(hook_text, (result,), out),
        0 <= k <= result.content@.len(),
        forall|i: int| 0 <= i < k ==> !((#[trigger] result.content@[i]) is Text),
    ensures
        k < result.content@.len() ==> (result.content@[k] matches ContentBlock::Text { text }
            ==> out@ == text@),
        k == result.content@.len() ==> out@.len() == 0,
{
    let all = result@.content;
    assert forall|i: int| 0 <= i < k implies !((#[trigger] all[i]) is Text) by {
        assert(all[i] == result.content@[i]@);
    }
    lemma_first_text(all, k);
    if k < all.len() {
        assert(all[k] == result.content@[k]@);
    }
}

proof fn lemma_first_text(blocks: Seq<BlockView>, k: int)
    requires
        0 <= k <= blocks.len(),
        forall|i: int| 0 <= i < k ==> !((#[trigger] blocks[i]) is Text),
    ensures
        k < blocks.len() ==> (blocks[k] matches BlockView::Text { text } ==> first_text(blocks)
            == text),
        k == blocks.len() ==> first_text(blocks).len() == 0,
    decreases blocks.len(),
{
    if blocks.len() > 0 && k > 0 {
        let rest = blocks.drop_first();
        assert forall|i: int| 0 <= i < k - 1 implies !((#[trigger] rest[i]) is Text) by {
            assert(rest[i] == blocks[i + 1]);
        }
        assert(!(blocks[0] is Text));
        lemma_first_text(rest, k - 1);
    }
}

/// A hook's object that gives a reason blocks the call, whatever else it holds;
/// one that gives arguments and no reason puts them in place; and a hook that
/// throws or returns anything else leaves the call alone.
pub proof fn law_what_a_hook_means(r: BeforeReturn)
    ensures
        r matches BeforeReturn::Object { block: Some(reason), .. } ==> r@ == BeforeView::Block(
            reason@,
        ),
        r matches BeforeReturn::Object { block: None, modify: Some(args) } ==> r@
            == BeforeView::Modify(args@),
        r matches BeforeReturn::Object { block: None, modify: None } ==> r@ == BeforeView::Pass,
        r is Threw || r is Other ==> r@ == BeforeView::Pass,
{
}

/// The first hook that blocks a call decides: its reason is the verdict, whatever
/// hooks before it have put in place and whatever those behind it say.
pub proof fn law_first_block_decides(answers: Seq<BeforeView>, k: int)
    requires
        0 <= k < answers.len(),
        answers[k] is Block,
        forall|i: int| 0 <= i < k ==> !((#[trigger] answers[i]) is Block),
    ensures
        verdict_of(answers) == VerdictView::Block(answers[k]->Block_0),
    decreases answers.len(),
{
    let head = answers.drop_last();
    if k < head.len() {
        assert forall|i: int| 0 <= i < k implies !((#[trigger] head[i]) is Block) by {
            assert(head[i] == answers[i]);
        }
        assert(head[k] == answers[k]);
        law_first_block_decides(head, k);
    } else {
        assert forall|i: int| 0 <= i < head.len() implies !((#[trigger] head[i]) is Block) by {
            assert(head[i] == answers[i]);
        }
        lemma_unblocked(head);
    }
}

proof fn lemma_unblocked(answers: Seq<BeforeView>)
    requires
        forall|i: int| 0 <= i < answers.len() ==> !((#[trigger] answers[i]) is Block),
    ensures
        !(verdict_of(answers) is Block),
    decreases answers.len(),
{
    if answers.len() > 0 {
        let head = answers.drop_last();
        assert forall|i: int| 0 <= i < head.len() implies !((#[trigger] head[i]) is Block) by {
            assert(head[i] == answers[i]);
        }
        lemma_unblocked(head);
        assert(!(answers[answers.len() - 1] is Block));
    }
}

/// Where no hook blocks a call, the last arguments that a hook has put in place
/// are those it is made with; where none has, it is made as it was given.
pub proof fn law_last_arguments_count(answers: Seq<BeforeView>, k: int)
    requires
        -1 <= k < answers.len(),
        forall|i: int| 0 <= i < answers.len() ==> !((#[trigger] answers[i]) is Block),
        forall|i: int| k < i < answers.len() ==> !((#[trigger] answers[i]) is Modify),
        k >= 0 ==> answers[k] is Modify,
    ensures
        k >= 0 ==> verdict_of(answers) == VerdictView::Modify(answers[k]->Modify_0),
        k == -1 ==> verdict_of(answers) == VerdictView::Allow,
    decreases answers.len(),
{
    if answers.len() > 0 {
        let head = answers.drop_last();
        assert forall|i: int| 0 <= i < head.len() implies !((#[trigger] head[i]) is Block) by {
            assert(head[i] == answers[i]);
        }
        lemma_unblocked(head);
        assert(!(answers[answers.len() - 1] is Block));
        if k < head.len() {
            assert forall|i: int| k < i < head.len() implies !((#[trigger] head[i]) is Modify) by {
                assert(head[i] == answers[i]);
            }
            assert(!(answers[answers.len() - 1] is Modify));
            if k >= 0 {
                assert(head[k] == answers[k]);
            }
            law_last_arguments_count(head, k);
        }
    }
}

/// Hooks are asked with the arguments of the call until one of them puts others
/// in place; a reason to block comes back at once, and the rest is not asked.
pub proof fn law_hooks_are_asked_in_turn(h: &mut BeforeHooks, r: BeforeReturn, blocked: Option<String>)
    requires
        old(h).wf(),
        call_ensures(BeforeHooks::step, (h, r), blocked),
    ensures
        r matches BeforeReturn::Object { block: Some(reason), .. } ==> (blocked matches Some(
            got,
        ) && got@ == reason@),
        !(r matches BeforeReturn::Object { block: Some(reason), .. }) ==> blocked is None,
        r matches BeforeReturn::Object { block: None, modify: Some(args) } ==> final(h).current()
            == args@,
        r is Threw || r is Other ==> final(h).current() == old(h).current(),
        r matches BeforeReturn::Object { block: None, modify: None } ==> final(h).current() == old(
            h,
        ).current(),
        final(h).given() == old(h).given(),
{
    let seen = old(h).answers();
    assert(seen.push(r@).drop_last() =~= seen);
    assert(seen.push(r@).last() == r@);
}

/// The verdict at the end is the arguments that the next hook would have seen,
/// where they were changed, and to allow the call where they were not.
pub proof fn law_verdict_is_what_stands(h: BeforeHooks, v: ToolCallVerdict)
    requires
        h.wf(),
        call_ensures(BeforeHooks::finish, (h,), v),
    ensures
        !(v is Block),
        v matches ToolCallVerdict::Modify(args) ==> args@ == h.current(),
        v is Allow ==> h.current() == h.given(),
{
}

/// The verdict of the script's thread is the verdict; without one the call is
/// allowed.
pub proof fn law_missing_verdict_allows(reply: Option<ToolCallVerdict>, v: ToolCallVerdict)
    requires
        call_ensures(before_verdict, (reply,), v),
    ensures
        reply matches Some(r) ==> v@ == r@,
        reply is None ==> v is Allow,
{
}

/// What `execute` returns reaches the model: a string as its text; an object as
/// its content, its details and whether it is an error; an exception as an error
/// with its words; and anything else as an empty text.
pub proof fn law_returned_value_is_the_result(r: Returned, out: Result<ToolResult, String>)
    requires
        call_ensures(tool_result_from_js, (r,), out),
    ensures
        r matches Returned::Text(Ok(s)) ==> (out matches Ok(t) && !t.is_error && t.details@
            == JsonView::Null && tool::block_views(t.content@) == seq![
            BlockView::Text { text: s@ },
        ]),
        r matches Returned::Text(Err(e)) ==> (out matches Err(w) && w@ == e@),
        r matches Returned::Object { content, is_error, details } ==> (out matches Ok(t)
            && t.is_error == is_error && t.details@ == (match details {
            Some(d) => d@,
            None => JsonView::Null,
        }) && tool::block_views(t.content@) == seq![
            BlockView::Text {
                text: match content {
                    Some(c) => c@,
                    None => Seq::empty(),
                },
            },
        ]),
        r is Nothing ==> (out matches Ok(t) && !t.is_error && tool::block_views(t.content@) == seq![
            BlockView::Text { text: Seq::empty() },
        ]),
        r matches Returned::Threw(e) ==> (out matches Ok(t) && t.is_error && tool::block_views(
            t.content@,
        ) == seq![BlockView::Text { text: e@ }]),
{
    if let Ok(t) = out {
        assert(t@.content == tool::block_views(t.content@));
        assert(t@.is_error == t.is_error);
    }
}

/// A reply comes back as it is; a call that was aborted is an error to the model;
/// and a call that never got a reply has failed.
pub proof fn law_reply_comes_back(d: Delivery, r: Result<ToolResult, String>)
    requires
        call_ensures(call_outcome, (d,), r),
    ensures
        d matches Delivery::Replied(Ok(t)) ==> (r matches Ok(u) && u@ == t@),
        d matches Delivery::Replied(Err(e)) ==> (r matches Err(w) && w@ == e@),
        d is Aborted ==> (r matches Ok(t) && t.is_error && tool::block_views(t.content@) == seq![
            BlockView::Text { text: "aborted"@ },
        ]),
        d is Unavailable || d is Dropped || d is JoinFailed ==> r is Err,
        d matches Delivery::JoinFailed(e) ==> (r matches Err(w) && w@ == "ext-js join: "@ + e@),
        d is Unavailable ==> (r matches Err(w) && w@ == "ext-js runtime unavailable"@),
        d is Dropped ==> (r matches Err(w) && w@ == "ext-js reply dropped"@),
{
    if let Ok(t) = r {
        assert(t@.content == tool::block_views(t.content@));
        assert(t@.is_error == t.is_error);
    }
}

/// A tool that a script registers is known by what the script says of it: its
/// name, label, description and parameters, and its risk, which is high unless
/// the script says low or medium. What it leaves out is empty, and a tool
/// without parameters takes an object without properties.
pub proof fn law_tool_is_what_the_script_says(i: usize, raw: RawTool, r: Result<ToolDefinition, String>)
    requires
        call_ensures(collect_tool, (i, raw), r),
        raw.name is Ok,
        raw.label is Ok,
        raw.description is Ok,
        raw.risk is Ok,
        raw.parameters is Ok,
        raw.execute is Ok,
    ensures
        r matches Ok(d) && {
            &&& d.name@ == raw.name->Ok_0@
            &&& d.label@ == (match raw.label->Ok_0 {
                Some(s) => s@,
                None => Seq::empty(),
            })
            &&& d.description@ == (match raw.description->Ok_0 {
                Some(s) => s@,
                None => Seq::empty(),
            })
            &&& raw.parameters->Ok_0 matches Some(p) ==> d.parameters@ == p@
            &&& raw.parameters->Ok_0 is None ==> d.parameters@.member("type"@) == Some(
                JsonView::Str("object"@),
            ) && d.parameters@.member("properties"@) == Some(JsonView::Object(Seq::empty()))
            &&& raw.risk->Ok_0 matches Some(s) ==> d.risk == (if s@ == "low"@ {
                RiskLevel::Low
            } else if s@ == "medium"@ {
                RiskLevel::Medium
            } else {
                RiskLevel::High
            })
            &&& raw.risk->Ok_0 is None ==> d.risk == RiskLevel::High
        },
{
    reveal_strlit("type");
    reveal_strlit("properties");
    reveal_strlit("low");
    reveal_strlit("medium");
    assert("low"@.len() == 3);
    assert("medium"@.len() == 6);
    assert("type"@.len() != "properties"@.len());
    let none = JsonView::empty_object();
    let typed = none.with("type"@, JsonView::Str("object"@));
    json::lemma_with_member(none, "type"@, JsonView::Str("object"@));
    json::lemma_with_member(typed, "properties"@, none);
}

/// A tool of which anything cannot be read is no tool: the error names the tool,
/// or its place where it has no name.
pub proof fn law_unreadable_tool_is_an_error(i: usize, raw: RawTool, r: Result<ToolDefinition, String>)
    requires
        call_ensures(collect_tool, (i, raw), r),
        raw.name is Err || raw.label is Err || raw.description is Err || raw.risk is Err
            || raw.parameters is Err || raw.execute is Err,
    ensures
        r is Err,
        raw.name matches Err(e) ==> r->Err_0@ == "tool #"@ + text::decimal(i as nat) + ": "@ + e@,
        raw.name matches Ok(name) ==> ("tool "@ + name@).is_prefix_of(r->Err_0@),
        raw.name matches Ok(name) ==> (raw.label matches Err(e) ==> r->Err_0@ == "tool "@ + name@
            + "."@ + "label"@ + ": "@ + e@),
        raw.name is Ok && raw.label is Ok ==> (raw.description matches Err(e) ==> r->Err_0@
            == "tool "@ + raw.name->Ok_0@ + "."@ + "description"@ + ": "@ + e@),
        raw.name is Ok && raw.label is Ok && raw.description is Ok ==> (raw.risk matches Err(e)
            ==> r->Err_0@ == "tool "@ + raw.name->Ok_0@ + "."@ + "risk"@ + ": "@ + e@),
        raw.name is Ok && raw.label is Ok && raw.description is Ok && raw.risk is Ok ==> (
        raw.parameters matches Err(e) ==> r->Err_0@ == "tool "@ + raw.name->Ok_0@ + ": "@ + e@),
        raw.name is Ok && raw.label is Ok && raw.description is Ok && raw.risk is Ok
            && raw.parameters is Ok ==> (raw.execute matches Err(e) ==> r->Err_0@ == "tool "@
            + raw.name->Ok_0@ + ": "@ + e@),
{
    if let Ok(name) = raw.name {
        let head = "tool "@ + name@;
        let w = r->Err_0@;
        assert(w.subrange(0, head.len() as int) =~= head);
    }
}

/// All tools of all scripts come in the order in which they were registered, one
/// for each registration; the first that cannot be read ends it.
pub proof fn law_tools_keep_their_order(raw: Seq<Result<RawToolView, Seq<char>>>)
    ensures
        tools_of(raw) matches Ok(defs) ==> defs.len() == raw.len() && forall|i: int|
            0 <= i < raw.len() ==> (#[trigger] raw[i]) is Ok && tool_of(i, raw[i]->Ok_0) == Ok::<
                ToolDefinitionView,
                Seq<char>,
            >(defs[i]),
        tools_of(raw) is Err ==> exists|i: int|
            0 <= i < raw.len() && ((#[trigger] raw[i]) is Err || tool_of(i, raw[i]->Ok_0) is Err),
    decreases raw.len(),
{
    if raw.len() > 0 {
        let head = raw.drop_last();
        law_tools_keep_their_order(head);
        if let Ok(defs) = tools_of(raw) {
            assert forall|i: int| 0 <= i < raw.len() implies (#[trigger] raw[i]) is Ok && tool_of(
                i,
                raw[i]->Ok_0,
            ) == Ok::<ToolDefinitionView, Seq<char>>(defs[i]) by {
                if i < head.len() {
                    assert(head[i] == raw[i]);
                }
            }
        } else if tools_of(head) is Err {
            let i = choose|i: int|
                0 <= i < head.len() && ((#[trigger] head[i]) is Err || tool_of(i, head[i]->Ok_0)
                    is Err);
            assert(raw[i] == head[i]);
        } else {
            assert(raw[raw.len() - 1] == raw.last());
        }
    }
}

/// A tool is called by its name: the first that has it is found, and a name that
/// no tool has is an error that says so.
pub proof fn law_tool_is_found_by_name(tools: &Vec<ToolDefinition>, name: &str, r: Result<usize, String>)
    requires
        call_ensures(find_tool, (tools, name), r),
    ensures
        r matches Ok(k) ==> k < tools@.len() && tools@[k as int].name@ == name@ && forall|i: int|
            0 <= i < k ==> (#[trigger] tools@[i]).name@ != name@,
        r matches Err(e) ==> e@ == "no such js tool: "@ + name@ && forall|i: int|
            0 <= i < tools@.len() ==> (#[trigger] tools@[i]).name@ != name@,
{
    let all = tool::definition_views(tools@);
    lemma_tool_at(all, name@);
    assert forall|i: int| 0 <= i < tools@.len() implies (#[trigger] tools@[i]).name@
        == all[i].name by {}
}

proof fn lemma_tool_at(tools: Seq<ToolDefinitionView>, name: Seq<char>)
    ensures
        tool_at(tools, name) matches Some(k) ==> 0 <= k < tools.len() && tools[k].name == name
            && forall|i: int| 0 <= i < k ==> (#[trigger] tools[i]).name != name,
        tool_at(tools, name) is None ==> forall|i: int|
            0 <= i < tools.len() ==> (#[trigger] tools[i]).name != name,
    decreases tools.len(),
{
    if tools.len() > 0 {
        let head = tools.drop_last();
        lemma_tool_at(head, name);
        assert forall|i: int| 0 <= i < head.len() implies (#[trigger] tools[i]).name
            == head[i].name by {}
        if tool_at(head, name) is None {
            assert forall|i: int| 0 <= i < head.len() implies (#[trigger] tools[i]).name
                != name by {
                assert(head[i].name != name);
            }
        } else {
            let k = tool_at(head, name)->0;
            assert forall|i: int| 0 <= i < k implies (#[trigger] tools[i]).name != name by {
                assert(head[i].name != name);
            }
        }
    }
}

/// A script is told where it runs, in which session, and where it may keep
/// state, and nothing else.
pub proof fn law_script_is_told_its_place(ctx: ToolContext, out: Vec<(String, String)>)
    requires
        call_ensures(script_context, (ctx,), out),
    ensures
        out@.len() == 3,
        out@[0].0@ == "cwd"@ && out@[0].1@ == ctx.cwd@,
        out@[1].0@ == "sessionId"@ && out@[1].1@ == ctx.session_id@,
        out@[2].0@ == "stateDir"@ && out@[2].1@ == ctx.state_dir@,
{
    let v = property_views(out@);
    assert(v.len() == out@.len());
    assert(v[0] == (out@[0].0@, out@[0].1@));
    assert(v[1] == (out@[1].0@, out@[1].1@));
    assert(v[2] == (out@[2].0@, out@[2].1@));
}

/// The words of an exception are its message, with its stack on the lines behind
/// it; of anything else they are what it is shown as.
pub proof fn law_error_is_put_into_words(e: ScriptError, out: String)
    requires
        call_ensures(error_string, (e,), out),
    ensures
        e matches ScriptError::Exception { message: Some(m), stack: Some(s) } ==> out@ == m@
            + "\n"@ + s@,
        e matches ScriptError::Exception { message: Some(m), stack: None } ==> out@ == m@,
        e matches ScriptError::Exception { message: None, stack: None } ==> out@
            == "unknown error"@,
        e matches ScriptError::Exception { message: None, stack: Some(s) } ==> out@
            == "unknown error"@ + "\n"@ + s@,
        e matches ScriptError::Thrown(t) ==> out@ == t@,
        e matches ScriptError::Engine(t) ==> out@ == t@,
{
}

/// What scripts add is the tools that they registered, and hooks of each kind
/// exactly where any was registered.
pub proof fn law_extensions_are_what_was_registered(
    tools: Vec<ToolDefinition>,
    before: usize,
    after: usize,
    out: JsExtensions,
)
    requires
        call_ensures(build_extensions, (tools, before, after), out),
    ensures
        out.tools@ == tools@,
        out.hooks.before <==> before > 0,
        out.hooks.after <==> after > 0,
{
}

/// The first registration that cannot be read ends the reading of all of them, with
/// its error, whatever stands behind it.
pub proof fn law_first_error_ends_it(raw: Seq<Result<RawToolView, Seq<char>>>, i: int)
    requires
        0 <= i < raw.len(),
        tools_of(raw.take(i)) is Ok,
    ensures
        raw[i] matches Err(e) ==> tools_of(raw) == Err::<Seq<ToolDefinitionView>, Seq<char>>(e),
        raw[i] matches Ok(t) ==> (tool_of(i, t) matches Err(e) ==> tools_of(raw) == Err::<
            Seq<ToolDefinitionView>,
            Seq<char>,
        >(e)),
    decreases raw.len(),
{
    if i == raw.len() - 1 {
        assert(raw.take(i) =~= raw.drop_last());
    } else {
        assert(raw.drop_last().take(i) =~= raw.take(i));
        law_first_error_ends_it(raw.drop_last(), i);
    }
}

/// An error of a script names the script first; and where no script is loaded,
/// there are no tools and no hooks.
pub proof fn law_script_is_named(path: &str, cause: &str, out: String, none: JsExtensions)
    requires
        call_ensures(script_error, (path, cause), out),
        call_ensures(no_extensions, (), none),
    ensures
        path@.is_prefix_of(out@),
        out@.skip(out@.len() - cause@.len()) == cause@,
        out@.len() == path@.len() + 2 + cause@.len(),
        none.tools@.len() == 0 && !none.hooks.before && !none.hooks.after,
{
    reveal_strlit(": ");
    assert(out@.subrange(0, path@.len() as int) =~= path@);
    assert(out@.skip(out@.len() - cause@.len()) =~= cause@);
}

/// The hooks begin with the arguments of the call, and the next hook sees those that
/// stand.
pub proof fn law_next_hook_sees_what_stands(args: Json, h: BeforeHooks, later: &BeforeHooks, seen: &Json)
    requires
        call_ensures(BeforeHooks::new, (args,), h),
        later.wf(),
        call_ensures(BeforeHooks::args, (later,), seen),
    ensures
        h.given() == args@,
        h.current() == args@,
        seen@ == later.current(),
{
}

} // verus!
