//! The tools of MCP servers, as the agent sees them.

use crate::json::{Json, JsonView};
use crate::mcp::error::{McpError, McpErrorView};
use crate::text;
use crate::tool;
use crate::tool::{
    BlockView, ContentBlock, OutcomeView, RiskLevel, ToolDefinition, ToolDefinitionView, ToolResult,
    ToolResultView,
};
use vstd::prelude::*;
use vstd::string::*;
use vstd::utf8::*;

verus! {

/// A tool as a server lists it.
pub struct McpTool {
    pub name: String,
    pub title: Option<String>,
    pub description: String,
    pub input_schema: Json,
}

/// One item of what a server returns from a tool call.
pub struct McpContent {
    pub kind: String,
    pub text: Option<String>,
    pub data: Option<String>,
    pub mime_type: Option<String>,
}

/// The view of an [`McpContent`].
pub struct McpContentView {
    pub kind: Seq<char>,
    pub text: Option<Seq<char>>,
    pub data: Option<Seq<char>>,
    pub mime_type: Option<Seq<char>>,
}

impl View for McpContent {
    type V = McpContentView;

    open spec fn view(&self) -> McpContentView {
        McpContentView {
            kind: self.kind@,
            text: text::opt_view(self.text),
            data: text::opt_view(self.data),
            mime_type: text::opt_view(self.mime_type),
        }
    }
}

/// The views of content items.
pub open spec fn content_views(items: Seq<McpContent>) -> Seq<McpContentView> {
    Seq::new(items.len(), |i: int| items[i]@)
}

/// What a server returns from a tool call.
pub struct CallResult {
    pub content: Vec<McpContent>,
    pub is_error: bool,
}

// ── content ─────────────────────────────────────────────────────────────

/// A text as `Debug` shows it: in quotes, with escapes.
pub uninterp spec fn quoted(s: Seq<char>) -> Seq<char>;

/// `Debug` of `str` in std: the text in quotes, with escapes. Which characters
/// it escapes, and how, is not stated beyond the name [`quoted`].
#[verifier::external_body]
fn show_quoted(s: &str) -> (out: String)
    ensures
        out@ == quoted(s@),
{
    format!("{s:?}")
}

/// An optional text as `Debug` shows it.
pub open spec fn quoted_opt(s: Option<Seq<char>>) -> Seq<char> {
    match s {
        Some(t) => "Some("@ + quoted(t) + ")"@,
        None => "None"@,
    }
}

/// A content item as `Debug` shows it, given how its parts are shown.
pub open spec fn shown_parts(
    kind: Seq<char>,
    text: Seq<char>,
    data: Seq<char>,
    mime_type: Seq<char>,
) -> Seq<char> {
    "McpContent { kind: "@ + kind + ", text: "@ + text + ", data: "@ + data + ", mime_type: "@
        + mime_type + " }"@
}

/// A content item as `Debug` shows it.
pub open spec fn shown(c: McpContentView) -> Seq<char> {
    shown_parts(quoted(c.kind), quoted_opt(c.text), quoted_opt(c.data), quoted_opt(c.mime_type))
}

/// What stands for an image: images are not passed on, and the model is told
/// so in place of getting a block that it would never see.
pub open spec fn image_notice(c: McpContentView) -> Seq<char> {
    "[image content omitted: "@ + (match c.mime_type {
        Some(m) => m,
        None => "unknown mime"@,
    }) + ", "@ + text::decimal(
        match c.data {
            Some(d) => encode_utf8(d).len(),
            None => 0,
        },
    ) + " bytes of base64]"@
}

/// The text that stands for a content item; a text item without text has none.
pub open spec fn content_text(c: McpContentView) -> Option<Seq<char>> {
    if c.kind == "text"@ {
        c.text
    } else if c.kind == "image"@ {
        Some(image_notice(c))
    } else {
        Some(shown(c))
    }
}

/// The blocks that stand for items, in their order.
pub open spec fn blocks_of(items: Seq<McpContentView>) -> Seq<BlockView>
    decreases items.len(),
{
    if items.len() == 0 {
        Seq::empty()
    } else {
        let before = blocks_of(items.drop_last());
        match content_text(items.last()) {
            Some(text) => before.push(BlockView::Text { text }),
            None => before,
        }
    }
}

/// The blocks of a tool result: those of its items, or one empty text.
pub open spec fn result_blocks(items: Seq<McpContentView>) -> Seq<BlockView> {
    let blocks = blocks_of(items);
    if blocks.len() == 0 {
        seq![BlockView::Text { text: Seq::empty() }]
    } else {
        blocks
    }
}

fn show_opt(s: &Option<String>) -> (out: String)
    ensures
        out@ == quoted_opt(text::opt_view(*s)),
{
    match s {
        Some(t) => {
            let q = show_quoted(t.as_str());
            text::cat3("Some(", q.as_str(), ")")
        },
        None => text::copy_str("None"),
    }
}

/// A content item as `Debug` shows it, given how its parts are shown.
pub fn show_parts(kind: &str, text: &str, data: &str, mime_type: &str) -> (out: String)
    ensures
        out@ == shown_parts(kind@, text@, data@, mime_type@),
{
    let head = text::cat5("McpContent { kind: ", kind, ", text: ", text, ", data: ");
    let tail = text::cat4(data, ", mime_type: ", mime_type, " }");
    let out = text::cat2(head.as_str(), tail.as_str());
    assert(out@ =~= shown_parts(kind@, text@, data@, mime_type@));
    out
}

fn show_content(c: &McpContent) -> (out: String)
    ensures
        out@ == shown(c@),
{
    let kind = show_quoted(c.kind.as_str());
    let txt = show_opt(&c.text);
    let data = show_opt(&c.data);
    let mime = show_opt(&c.mime_type);
    show_parts(kind.as_str(), txt.as_str(), data.as_str(), mime.as_str())
}

fn notice(c: &McpContent) -> (out: String)
    ensures
        out@ == image_notice(c@),
{
    let n: usize = match &c.data {
        Some(d) => d.as_str().as_bytes().len(),
        None => 0,
    };
    let size = text::show_usize(n);
    let mime: String = match &c.mime_type {
        Some(m) => text::copy_str(m.as_str()),
        None => text::copy_str("unknown mime"),
    };
    text::cat5(
        "[image content omitted: ",
        mime.as_str(),
        ", ",
        size.as_str(),
        " bytes of base64]",
    )
}

/// The blocks that stand for what a server returned.
pub fn content_to_blocks(items: &Vec<McpContent>) -> (out: Vec<ContentBlock>)
    ensures
        tool::block_views(out@) == result_blocks(content_views(items@)),
{
    let mut out: Vec<ContentBlock> = Vec::new();
    let ghost all = content_views(items@);
    assert(tool::block_views(out@) =~= blocks_of(all.take(0)));
    for i in 0..items.len()
        invariant
            all == content_views(items@),
            tool::block_views(out@) == blocks_of(all.take(i as int)),
    {
        let c = &items[i];
        let ghost before = out@;
        assert(all.take(i + 1).drop_last() =~= all.take(i as int));
        assert(all.take(i + 1).last() == c@);
        let text: Option<String> = if text::same(c.kind.as_str(), "text") {
            text::copy_opt(&c.text)
        } else if text::same(c.kind.as_str(), "image") {
            Some(notice(c))
        } else {
            Some(show_content(c))
        };
        if let Some(t) = text {
            let ghost shown_text = t@;
            out.push(ContentBlock::text(t));
            assert(tool::block_views(out@) =~= tool::block_views(before).push(
                BlockView::Text { text: shown_text },
            ));
        }
    }
    assert(all.take(all.len() as int) =~= all);
    if out.len() == 0 {
        tool::one_text(String::new())
    } else {
        out
    }
}

// ── definitions ─────────────────────────────────────────────────────────

/// The name under which the agent knows a server's tool. Tools of different
/// servers, and built-in ones, may have the same name; the prefix keeps them
/// apart.
pub open spec fn prefixed_name(server: Seq<char>, tool: Seq<char>) -> Seq<char> {
    "mcp__"@ + server + "__"@ + tool
}

/// A server's tool as the agent sees it. The risk is high: an external server
/// is unvetted code.
pub open spec fn definition_of(
    server: Seq<char>,
    name: Seq<char>,
    title: Option<Seq<char>>,
    description: Seq<char>,
    schema: JsonView,
) -> ToolDefinitionView {
    ToolDefinitionView {
        name: prefixed_name(server, name),
        label: server + "/"@ + (match title {
            Some(t) => t,
            None => name,
        }),
        description,
        parameters: schema,
        risk: RiskLevel::High,
    }
}

/// Presents one tool of a server to the agent.
pub fn mcp_tool_definition(server_name: &str, t: McpTool) -> (out: ToolDefinition)
    ensures
        out@ == definition_of(
            server_name@,
            t.name@,
            text::opt_view(t.title),
            t.description@,
            t.input_schema@,
        ),
{
    let name = text::cat4("mcp__", server_name, "__", t.name.as_str());
    let shown: String = match t.title {
        Some(title) => title,
        None => t.name,
    };
    let label = text::cat3(server_name, "/", shown.as_str());
    ToolDefinition {
        name,
        label,
        description: t.description,
        parameters: t.input_schema,
        risk: RiskLevel::High,
    }
}

/// Presents every tool of a server to the agent, in the order of its list.
pub fn tool_definitions(server_name: &str, list: Vec<McpTool>) -> (out: Vec<ToolDefinition>)
    ensures
        out@.len() == list@.len(),
        forall|i: int|
            0 <= i < list@.len() ==> (#[trigger] out@[i])@ == definition_of(
                server_name@,
                list@[i].name@,
                text::opt_view(list@[i].title),
                list@[i].description@,
                list@[i].input_schema@,
            ),
{
    let ghost all = list@;
    let mut list = list;
    let mut out: Vec<ToolDefinition> = Vec::new();
    while list.len() > 0
        invariant
            all.len() == out@.len() + list@.len(),
            list@ == all.skip(out@.len() as int),
            forall|i: int|
                0 <= i < out@.len() ==> (#[trigger] out@[i])@ == definition_of(
                    server_name@,
                    all[i].name@,
                    text::opt_view(all[i].title),
                    all[i].description@,
                    all[i].input_schema@,
                ),
        decreases list@.len(),
    {
        let t = list.remove(0);
        assert(t == all[out@.len() as int]);
        out.push(mcp_tool_definition(server_name, t));
        assert(list@ =~= all.skip(out@.len() as int));
    }
    out
}

/// The outcome of calling a server's tool, given what the server answered.
pub open spec fn call_outcome(answer: Result<(Seq<McpContentView>, bool), McpErrorView>) -> OutcomeView {
    match answer {
        Ok((content, is_error)) => OutcomeView::Result(
            ToolResultView { content: result_blocks(content), details: JsonView::Null, is_error },
        ),
        Err(e) => OutcomeView::Failed(e.words()),
    }
}

/// The view of a server's answer to a tool call.
pub open spec fn answer_view(answer: Result<CallResult, McpError>) -> Result<
    (Seq<McpContentView>, bool),
    McpErrorView,
> {
    match answer {
        Ok(r) => Ok((content_views(r.content@), r.is_error)),
        Err(e) => Err(e@),
    }
}

/// What a call that was aborted before it was sent returns; none where the
/// call is to be sent.
pub fn before_call(aborted: bool) -> (r: Option<ToolResult>)
    ensures
        match r {
            Some(t) => aborted && t@ == ToolResultView::error("aborted"@),
            None => !aborted,
        },
{
    if aborted {
        Some(ToolResult::error(text::copy_str("aborted")))
    } else {
        None
    }
}

/// What a call returns to the agent, given what the server answered.
pub fn after_call(answer: Result<CallResult, McpError>) -> (r: Result<ToolResult, String>)
    ensures
        tool::outcome_view(r) == call_outcome(answer_view(answer)),
{
    match answer {
        Ok(resp) => Ok(
            ToolResult {
                content: content_to_blocks(&resp.content),
                details: Json::Null,
                is_error: resp.is_error,
            },
        ),
        Err(e) => Err(e.message()),
    }
}

// ── laws ────────────────────────────────────────────────────────────────

/// A tool result is never empty: the model always gets at least one block.
pub proof fn law_result_has_a_block(items: Seq<McpContentView>)
    ensures
        result_blocks(items).len() > 0,
{
}

/// Everything that is passed on to the model is text: no image reaches it.
pub proof fn law_only_text_is_passed_on(items: Seq<McpContentView>)
    ensures
        forall|i: int| 0 <= i < result_blocks(items).len() ==> (#[trigger] result_blocks(items)[i]) is Text,
{
    lemma_blocks_are_text(items);
}

proof fn lemma_blocks_are_text(items: Seq<McpContentView>)
    ensures
        forall|i: int| 0 <= i < blocks_of(items).len() ==> (#[trigger] blocks_of(items)[i]) is Text,
    decreases items.len(),
{
    if items.len() > 0 {
        lemma_blocks_are_text(items.drop_last());
    }
}

/// Two tools of one server never collide: the name under which the agent knows
/// a tool determines the name that the server gave it.
pub proof fn law_names_of_a_server_are_distinct(server: Seq<char>, a: Seq<char>, b: Seq<char>)
    requires
        prefixed_name(server, a) == prefixed_name(server, b),
    ensures
        a == b,
{
    let head = "mcp__"@ + server + "__"@;
    let n = head.len() as int;
    assert(prefixed_name(server, a).skip(n) =~= a);
    assert(prefixed_name(server, b).skip(n) =~= b);
}

/// A tool of a server reaches the agent with what the server says of it: its
/// description and its schema as they are, a name that holds that of the server
/// and its own, and its title, or its name where it has none, as the label. Its
/// risk is high, whatever the server says.
pub proof fn law_tool_is_what_the_server_says(server: &str, t: McpTool, out: ToolDefinition)
    requires
        call_ensures(mcp_tool_definition, (server, t), out),
    ensures
        out.name@ == "mcp__"@ + server@ + "__"@ + t.name@,
        t.title matches Some(title) ==> out.label@ == server@ + "/"@ + title@,
        t.title is None ==> out.label@ == server@ + "/"@ + t.name@,
        out.description@ == t.description@,
        out.parameters@ == t.input_schema@,
        out.risk == RiskLevel::High,
{
}

/// Every tool that a server lists is presented, in the order of the list.
pub proof fn law_every_listed_tool_is_presented(
    server: &str,
    list: Vec<McpTool>,
    out: Vec<ToolDefinition>,
    i: int,
)
    requires
        call_ensures(tool_definitions, (server, list), out),
        0 <= i < list@.len(),
    ensures
        out@.len() == list@.len(),
        out@[i].name@ == "mcp__"@ + server@ + "__"@ + list@[i].name@,
        out@[i].description@ == list@[i].description@,
        out@[i].parameters@ == list@[i].input_schema@,
        out@[i].risk == RiskLevel::High,
{
    assert(out@[i]@.name == out@[i].name@);
}

/// Texts of a server are passed on as they are, in their order: what one more
/// item adds is its text where it is a text, a notice with its type and size
/// where it is an image, and what it is shown as where it is anything else. A
/// text item without text adds nothing.
pub proof fn law_one_more_item(items: Seq<McpContentView>, c: McpContentView)
    ensures
        blocks_of(Seq::empty()).len() == 0,
        c.kind == "text"@ ==> (c.text matches Some(t) ==> blocks_of(items.push(c)) == blocks_of(
            items,
        ).push(BlockView::Text { text: t })),
        c.kind == "text"@ && c.text is None ==> blocks_of(items.push(c)) == blocks_of(items),
        c.kind == "image"@ ==> (c.mime_type matches Some(m) ==> (c.data matches Some(d)
            ==> blocks_of(items.push(c)) == blocks_of(items).push(
            BlockView::Text {
                text: "[image content omitted: "@ + m + ", "@ + text::decimal(encode_utf8(d).len())
                    + " bytes of base64]"@,
            },
        ))),
        c.kind != "text"@ && c.kind != "image"@ ==> blocks_of(items.push(c)) == blocks_of(
            items,
        ).push(
            BlockView::Text {
                text: "McpContent { kind: "@ + quoted(c.kind) + ", text: "@ + quoted_opt(c.text)
                    + ", data: "@ + quoted_opt(c.data) + ", mime_type: "@ + quoted_opt(c.mime_type)
                    + " }"@,
            },
        ),
{
    reveal_strlit("text");
    reveal_strlit("image");
    assert("text"@.len() != "image"@.len());
    assert(items.push(c).drop_last() =~= items);
}

/// Where a server returns texts alone, the model gets exactly those texts.
pub proof fn law_texts_come_through(items: Seq<McpContentView>)
    requires
        items.len() > 0,
        forall|i: int|
            0 <= i < items.len() ==> (#[trigger] items[i]).kind == "text"@ && items[i].text is Some,
    ensures
        result_blocks(items).len() == items.len(),
        forall|i: int|
            0 <= i < items.len() ==> #[trigger] result_blocks(items)[i] == (BlockView::Text {
                text: items[i].text->0,
            }),
{
    lemma_texts_come_through(items);
}

proof fn lemma_texts_come_through(items: Seq<McpContentView>)
    requires
        forall|i: int|
            0 <= i < items.len() ==> (#[trigger] items[i]).kind == "text"@ && items[i].text is Some,
    ensures
        blocks_of(items).len() == items.len(),
        forall|i: int|
            0 <= i < items.len() ==> #[trigger] blocks_of(items)[i] == (BlockView::Text {
                text: items[i].text->0,
            }),
    decreases items.len(),
{
    if items.len() > 0 {
        let head = items.drop_last();
        assert forall|i: int| 0 <= i < head.len() implies (#[trigger] head[i]).kind == "text"@
            && head[i].text is Some by {
            assert(head[i] == items[i]);
        }
        lemma_texts_come_through(head);
        assert(items[items.len() - 1].kind == "text"@);
        assert forall|i: int| 0 <= i < items.len() implies #[trigger] blocks_of(items)[i] == (
        BlockView::Text { text: items[i].text->0 }) by {
            if i < head.len() {
                assert(blocks_of(items)[i] == blocks_of(head)[i]);
                assert(head[i] == items[i]);
            }
        }
    }
}

/// What a server answers to a call is the result, an error where the server says
/// so; a call that could not be answered has failed, with the error in words.
pub proof fn law_answer_is_the_result(answer: Result<CallResult, McpError>, r: Result<ToolResult, String>)
    requires
        call_ensures(after_call, (answer,), r),
    ensures
        r is Ok <==> answer is Ok,
        answer matches Ok(a) ==> r->Ok_0.is_error == a.is_error && tool::block_views(
            r->Ok_0.content@,
        ) == result_blocks(content_views(a.content@)) && r->Ok_0.details@ == JsonView::Null,
        answer matches Err(McpError::ServerError { code, message }) ==> r->Err_0@
            == "server returned error "@ + text::decimal_int(code as int) + ": "@ + message@,
        answer matches Err(McpError::Timeout(t)) ==> r->Err_0@ == "call timeout after "@ + t@,
        answer matches Err(McpError::Protocol(e)) ==> r->Err_0@ == "protocol error: "@ + e@,
        answer matches Err(McpError::Io(e)) ==> r->Err_0@ == "io error: "@ + e@,
        answer matches Err(McpError::Json(e)) ==> r->Err_0@ == "json error: "@ + e@,
{
    if let Ok(t) = r {
        assert(t@.content == tool::block_views(t.content@));
        assert(t@.is_error == t.is_error);
    }
}

/// A call that was aborted is not sent: the model is told so. Any other is.
pub proof fn law_aborted_call_is_not_sent(aborted: bool, r: Option<ToolResult>)
    requires
        call_ensures(before_call, (aborted,), r),
    ensures
        r is Some <==> aborted,
        r matches Some(t) ==> t.is_error && tool::block_views(t.content@) == seq![
            BlockView::Text { text: "aborted"@ },
        ],
{
    if let Some(t) = r {
        assert(t@.content == tool::block_views(t.content@));
        assert(t@.is_error == t.is_error);
    }
}

/// What is made of a server's items is what the model gets, and one empty text
/// where nothing is.
pub proof fn law_nothing_is_an_empty_text(items: &Vec<McpContent>, out: Vec<ContentBlock>)
    requires
        call_ensures(content_to_blocks, (items,), out),
    ensures
        items@.len() == 0 ==> tool::block_views(out@) == seq![
            BlockView::Text { text: Seq::empty() },
        ],
        blocks_of(content_views(items@)).len() > 0 ==> tool::block_views(out@) == blocks_of(
            content_views(items@),
        ),
{
}

/// What is not known of an image is told as such: an image without a type has an
/// unknown one, and one without data has no bytes.
pub proof fn law_what_is_missing_of_an_image(items: Seq<McpContentView>, c: McpContentView)
    requires
        c.kind == "image"@,
    ensures
        c.mime_type is None && c.data is None ==> blocks_of(items.push(c)) == blocks_of(items).push(
            BlockView::Text {
                text: "[image content omitted: unknown mime, "@ + text::decimal(0)
                    + " bytes of base64]"@,
            },
        ),
        c.mime_type is None ==> (c.data matches Some(d) ==> blocks_of(items.push(c)) == blocks_of(
            items,
        ).push(
            BlockView::Text {
                text: "[image content omitted: unknown mime, "@ + text::decimal(
                    encode_utf8(d).len(),
                ) + " bytes of base64]"@,
            },
        )),
        c.data is None ==> (c.mime_type matches Some(m) ==> blocks_of(items.push(c)) == blocks_of(
            items,
        ).push(
            BlockView::Text {
                text: "[image content omitted: "@ + m + ", "@ + text::decimal(0)
                    + " bytes of base64]"@,
            },
        )),
{
    reveal_strlit("image");
    reveal_strlit("text");
    assert("image"@.len() == 5 && "text"@.len() == 4);
    assert(items.push(c).drop_last() =~= items);
    reveal_strlit("[image content omitted: ");
    reveal_strlit("unknown mime");
    reveal_strlit(", ");
    reveal_strlit("[image content omitted: unknown mime, ");
    assert("[image content omitted: "@ + "unknown mime"@ + ", "@
        =~= "[image content omitted: unknown mime, "@);
}

/// A text that is there is shown in brackets behind `Some`, one that is missing as
/// `None`.
pub proof fn law_missing_texts_are_told_from_others(t: Seq<char>)
    ensures
        quoted_opt(Some(t)) == "Some("@ + quoted(t) + ")"@,
        quoted_opt(None) == "None"@,
        quoted_opt(Some(t)) != quoted_opt(None),
{
    reveal_strlit("Some(");
    reveal_strlit("None");
    assert(quoted_opt(Some(t))[0] == 'S');
    assert(quoted_opt(None)[0] == 'N');
}

} // verus!
