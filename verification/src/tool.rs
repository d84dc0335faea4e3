//! Tools as the agent sees them: what a tool declares of itself, and what a
//! call of one returns.

use crate::json::{Json, JsonView};
use crate::text;
use vstd::prelude::*;
use vstd::string::*;

verus! {

/// How much harm a tool call can do.
#[derive(Clone, Copy, Debug, PartialEq, Eq, Structural)]
pub enum RiskLevel {
    Low,
    Medium,
    High,
}

/// The name under which a script knows a risk.
pub open spec fn risk_label(risk: RiskLevel) -> Seq<char> {
    match risk {
        RiskLevel::Low => "low"@,
        RiskLevel::Medium => "medium"@,
        RiskLevel::High => "high"@,
    }
}

/// The risk that a script names. Anything unexpected is graded high: it is
/// gated, never waved through.
pub open spec fn risk_named(name: Seq<char>) -> RiskLevel {
    if name == "low"@ {
        RiskLevel::Low
    } else if name == "medium"@ {
        RiskLevel::Medium
    } else {
        RiskLevel::High
    }
}

/// The name of a risk.
pub fn risk_name(risk: RiskLevel) -> (out: &'static str)
    ensures
        out@ == risk_label(risk),
{
    match risk {
        RiskLevel::Low => "low",
        RiskLevel::Medium => "medium",
        RiskLevel::High => "high",
    }
}

/// The risk with a name.
pub fn risk_from_name(name: &str) -> (r: RiskLevel)
    ensures
        r == risk_named(name@),
{
    if text::same(name, "low") {
        RiskLevel::Low
    } else if text::same(name, "medium") {
        RiskLevel::Medium
    } else {
        RiskLevel::High
    }
}

/// Naming a risk loses nothing.
pub proof fn law_risk_survives_its_name(risk: RiskLevel)
    ensures
        risk_named(risk_label(risk)) == risk,
{
    reveal_strlit("low");
    reveal_strlit("medium");
    reveal_strlit("high");
    assert("low"@.len() == 3);
    assert("medium"@.len() == 6);
    assert("high"@.len() == 4);
}

/// One piece of what a tool returns.
pub enum ContentBlock {
    Text { text: String },
    Image { data: String, mime_type: String },
}

/// The view of a [`ContentBlock`].
pub enum BlockView {
    Text { text: Seq<char> },
    Image { data: Seq<char>, mime_type: Seq<char> },
}

impl View for ContentBlock {
    type V = BlockView;

    open spec fn view(&self) -> BlockView {
        match self {
            ContentBlock::Text { text } => BlockView::Text { text: text@ },
            ContentBlock::Image { data, mime_type } => BlockView::Image {
                data: data@,
                mime_type: mime_type@,
            },
        }
    }
}

/// The views of blocks.
pub open spec fn block_views(blocks: Seq<ContentBlock>) -> Seq<BlockView> {
    Seq::new(blocks.len(), |i: int| blocks[i]@)
}

impl ContentBlock {
    /// A block of text.
    pub fn text(text: String) -> (out: Self)
        ensures
            out@ == (BlockView::Text { text: text@ }),
    {
        ContentBlock::Text { text }
    }
}

/// One block of text, as a list.
pub fn one_text(text: String) -> (out: Vec<ContentBlock>)
    ensures
        block_views(out@) == seq![BlockView::Text { text: text@ }],
{
    let mut out: Vec<ContentBlock> = Vec::new();
    out.push(ContentBlock::text(text));
    assert(block_views(out@) =~= seq![BlockView::Text { text: text@ }]);
    out
}

/// What a tool call returns to the model.
pub struct ToolResult {
    pub content: Vec<ContentBlock>,
    pub details: Json,
    pub is_error: bool,
}

/// The view of a [`ToolResult`].
pub struct ToolResultView {
    pub content: Seq<BlockView>,
    pub details: JsonView,
    pub is_error: bool,
}

impl View for ToolResult {
    type V = ToolResultView;

    open spec fn view(&self) -> ToolResultView {
        ToolResultView {
            content: block_views(self.content@),
            details: self.details@,
            is_error: self.is_error,
        }
    }
}

impl ToolResultView {
    /// A result that is one text.
    pub open spec fn text(text: Seq<char>) -> ToolResultView {
        ToolResultView {
            content: seq![BlockView::Text { text }],
            details: JsonView::Null,
            is_error: false,
        }
    }

    /// A result that reports an error.
    pub open spec fn error(text: Seq<char>) -> ToolResultView {
        ToolResultView {
            content: seq![BlockView::Text { text }],
            details: JsonView::Null,
            is_error: true,
        }
    }
}

impl ToolResult {
    /// A result that is one text.
    pub fn text(text: String) -> (out: Self)
        ensures
            out@ == ToolResultView::text(text@),
    {
        ToolResult { content: one_text(text), details: Json::Null, is_error: false }
    }

    /// A result that reports an error.
    pub fn error(text: String) -> (out: Self)
        ensures
            out@ == ToolResultView::error(text@),
    {
        ToolResult { content: one_text(text), details: Json::Null, is_error: true }
    }
}

/// The outcome of a tool call: a result, or the words of a failure.
pub enum OutcomeView {
    Result(ToolResultView),
    Failed(Seq<char>),
}

/// The view of an outcome.
pub open spec fn outcome_view(r: Result<ToolResult, String>) -> OutcomeView {
    match r {
        Ok(v) => OutcomeView::Result(v@),
        Err(e) => OutcomeView::Failed(e@),
    }
}

/// What a tool declares of itself.
pub struct ToolDefinition {
    pub name: String,
    pub label: String,
    pub description: String,
    pub parameters: Json,
    pub risk: RiskLevel,
}

/// The view of a [`ToolDefinition`].
pub struct ToolDefinitionView {
    pub name: Seq<char>,
    pub label: Seq<char>,
    pub description: Seq<char>,
    pub parameters: JsonView,
    pub risk: RiskLevel,
}

impl View for ToolDefinition {
    type V = ToolDefinitionView;

    open spec fn view(&self) -> ToolDefinitionView {
        ToolDefinitionView {
            name: self.name@,
            label: self.label@,
            description: self.description@,
            parameters: self.parameters@,
            risk: self.risk,
        }
    }
}

/// The views of definitions.
pub open spec fn definition_views(defs: Seq<ToolDefinition>) -> Seq<ToolDefinitionView> {
    Seq::new(defs.len(), |i: int| defs[i]@)
}

/// A result that is a text is no error, and one that reports an error is one;
/// either holds the text and nothing besides.
pub proof fn law_errors_are_told_from_texts(text: String, plain: ToolResult, failed: ToolResult)
    requires
        call_ensures(ToolResult::text, (text,), plain),
        call_ensures(ToolResult::error, (text,), failed),
    ensures
        !plain.is_error,
        failed.is_error,
        plain.content@.len() == 1,
        failed.content@.len() == 1,
        plain.content@[0]@ == (BlockView::Text { text: text@ }),
        failed.content@[0]@ == (BlockView::Text { text: text@ }),
        plain.details@ == JsonView::Null,
        failed.details@ == JsonView::Null,
{
    assert(plain@.content.len() == plain.content@.len());
    assert(failed@.content.len() == failed.content@.len());
    assert(plain@.content[0] == plain.content@[0]@);
    assert(failed@.content[0] == failed.content@[0]@);
    assert(plain@.is_error == plain.is_error);
    assert(failed@.is_error == failed.is_error);
}

/// A risk that is not named as low or medium is high.
pub proof fn law_unknown_risk_is_high(name: &str, r: RiskLevel)
    requires
        call_ensures(risk_from_name, (name,), r),
    ensures
        r == RiskLevel::Low <==> name@ == "low"@,
        r == RiskLevel::Medium <==> name@ == "medium"@,
        name@ != "low"@ && name@ != "medium"@ ==> r == RiskLevel::High,
{
    reveal_strlit("low");
    reveal_strlit("medium");
    assert("low"@.len() == 3);
    assert("medium"@.len() == 6);
}

} // verus!
