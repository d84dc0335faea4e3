//! What a session is set up with: its limits, and the prompts that it works
//! with.

use crate::text;
use crate::tools::AgentRole;
use vstd::prelude::*;
use vstd::string::*;

verus! {

/// The prompts that a configuration may replace.
pub struct Prompts {
    pub identity_prefix: Option<String>,
    pub summarization: Option<String>,
    pub checkpoint: Option<String>,
}

/// The configuration of an agent, as far as it sets up a session.
pub struct AgentConfig {
    pub model: String,
    pub max_tokens: u32,
    pub memory_window: usize,
    pub compaction_cooldown_secs: u64,
    pub after_response_hook_timeout_secs: u64,
    pub thinking_enabled: bool,
    pub prompts: Prompts,
}

/// The limits of a model, as its provider reports them.
#[derive(Clone, Copy, Debug, PartialEq, Eq, Structural)]
pub struct ModelLimits {
    pub max_input_tokens: u64,
    pub max_output_tokens: u64,
}

/// What is found when a session is set up.
pub struct SessionInputs {
    /// The answer of the provider to the question for the model's limits.
    pub limits: Result<Option<ModelLimits>, String>,
    /// The token budget of the history where no limit is known.
    pub default_token_budget: u64,
    /// The prompt for checkpoints that is built in.
    pub default_checkpoint_prompt: String,
    /// The system prompt of the workspace, or why it could not be loaded.
    pub system_prompt: Result<String, String>,
    /// The skills of the workspace.
    pub skills: Option<String>,
}

/// How a session is set up.
pub struct SessionPlan {
    pub model: String,
    /// The most tokens of one answer.
    pub max_tokens: u32,
    /// The most events of the history.
    pub max_events: usize,
    /// The token budget of the history.
    pub token_budget: u64,
    pub compaction_cooldown_secs: u64,
    pub summarization_prompt: Option<String>,
    pub checkpoint_prompt: String,
    pub system_prompt: String,
    pub after_response_hook_timeout_secs: u64,
    /// Whether messages are indexed for recall by meaning.
    pub indexes_messages: bool,
    pub role: AgentRole,
}

/// The view of a [`SessionPlan`].
pub struct SessionPlanView {
    pub model: Seq<char>,
    pub max_tokens: u32,
    pub max_events: usize,
    pub token_budget: u64,
    pub compaction_cooldown_secs: u64,
    pub summarization_prompt: Option<Seq<char>>,
    pub checkpoint_prompt: Seq<char>,
    pub system_prompt: Seq<char>,
    pub after_response_hook_timeout_secs: u64,
    pub indexes_messages: bool,
    pub role: AgentRole,
}

impl View for SessionPlan {
    type V = SessionPlanView;

    open spec fn view(&self) -> SessionPlanView {
        SessionPlanView {
            model: self.model@,
            max_tokens: self.max_tokens,
            max_events: self.max_events,
            token_budget: self.token_budget,
            compaction_cooldown_secs: self.compaction_cooldown_secs,
            summarization_prompt: text::opt_view(self.summarization_prompt),
            checkpoint_prompt: self.checkpoint_prompt@,
            system_prompt: self.system_prompt@,
            after_response_hook_timeout_secs: self.after_response_hook_timeout_secs,
            indexes_messages: self.indexes_messages,
            role: self.role,
        }
    }
}

/// The smaller of two numbers.
pub open spec fn smaller(a: int, b: int) -> int {
    if a <= b {
        a
    } else {
        b
    }
}

/// The limits that a provider reports; a provider that cannot tell has none.
pub open spec fn known_limits(r: Result<Option<ModelLimits>, String>) -> Option<ModelLimits> {
    match r {
        Ok(l) => l,
        Err(_) => None,
    }
}

/// The most tokens of one answer: what is configured, or the model's limit
/// where that is less. The limit counts modulo two to the 32nd.
pub open spec fn capped_tokens(configured: u32, limits: Option<ModelLimits>) -> int {
    match limits {
        Some(l) => smaller(configured as int, l.max_output_tokens as int % 0x1_0000_0000),
        None => configured as int,
    }
}

/// The token budget of the history: the usual one, or the model's limit where
/// that is less.
pub open spec fn capped_budget(budget: u64, limits: Option<ModelLimits>) -> int {
    match limits {
        Some(l) => smaller(budget as int, l.max_input_tokens as int),
        None => budget as int,
    }
}

/// The system prompt with the skills behind it; where it could not be loaded
/// it is empty.
pub open spec fn full_prompt(prompt: Result<String, String>, skills: Option<Seq<char>>) -> Seq<char> {
    let head = match prompt {
        Ok(p) => p@,
        Err(_) => Seq::empty(),
    };
    match skills {
        Some(s) => head + "\n\n"@ + s,
        None => head,
    }
}

/// How a session with a configuration is set up, given what is found.
pub open spec fn plan_of(c: AgentConfig, indexes_messages: bool, i: SessionInputs) -> SessionPlanView {
    let limits = known_limits(i.limits);
    SessionPlanView {
        model: c.model@,
        max_tokens: capped_tokens(c.max_tokens, limits) as u32,
        max_events: c.memory_window,
        token_budget: capped_budget(i.default_token_budget, limits) as u64,
        compaction_cooldown_secs: c.compaction_cooldown_secs,
        summarization_prompt: text::opt_view(c.prompts.summarization),
        checkpoint_prompt: match text::opt_view(c.prompts.checkpoint) {
            Some(p) => p,
            None => i.default_checkpoint_prompt@,
        },
        system_prompt: full_prompt(i.system_prompt, text::opt_view(i.skills)),
        after_response_hook_timeout_secs: c.after_response_hook_timeout_secs,
        indexes_messages,
        role: AgentRole::Orchestrator,
    }
}

fn cap_tokens(configured: u32, limits: &Option<ModelLimits>) -> (n: u32)
    ensures
        n == capped_tokens(configured, *limits),
{
    match limits {
        Some(l) => {
            let most: u64 = l.max_output_tokens;
            let cap: u32 = #[verifier::truncate] (most as u32);
            assert(most as u32 == most % 0x1_0000_0000) by (bit_vector);
            if configured <= cap {
                configured
            } else {
                cap
            }
        },
        None => configured,
    }
}

/// Sets up a session.
pub struct SessionBuilder {
    config: AgentConfig,
    embedding_recall: bool,
}

impl SessionBuilder {
    /// The configuration.
    pub closed spec fn config(self) -> AgentConfig {
        self.config
    }

    /// Whether messages are indexed for recall by meaning.
    pub closed spec fn embedding_recall(self) -> bool {
        self.embedding_recall
    }

    /// Starts with a configuration.
    pub fn new(config: AgentConfig) -> (out: Self)
        ensures
            out.config() == config,
            !out.embedding_recall(),
    {
        SessionBuilder { config, embedding_recall: false }
    }

    /// The same with recall by meaning.
    pub fn with_embedding_recall(self) -> (out: Self)
        ensures
            out.config() == self.config(),
            out.embedding_recall(),
    {
        SessionBuilder { config: self.config, embedding_recall: true }
    }

    /// The plan of the session.
    pub fn build(self, inputs: SessionInputs) -> (out: SessionPlan)
        ensures
            out@ == plan_of(self.config(), self.embedding_recall(), inputs),
    {
        let limits: Option<ModelLimits> = match inputs.limits {
            Ok(l) => l,
            Err(_) => None,
        };
        let max_tokens: u32 = cap_tokens(self.config.max_tokens, &limits);
        let token_budget: u64 = match &limits {
            Some(l) => if inputs.default_token_budget <= l.max_input_tokens {
                inputs.default_token_budget
            } else {
                l.max_input_tokens
            },
            None => inputs.default_token_budget,
        };
        let mut system_prompt: String = match inputs.system_prompt {
            Ok(p) => p,
            Err(_) => String::new(),
        };
        if let Some(skills) = &inputs.skills {
            system_prompt.append("\n\n");
            system_prompt.append(skills.as_str());
        }
        let checkpoint_prompt: String = match self.config.prompts.checkpoint {
            Some(p) => p,
            None => inputs.default_checkpoint_prompt,
        };
        SessionPlan {
            model: self.config.model,
            max_tokens,
            max_events: self.config.memory_window,
            token_budget,
            compaction_cooldown_secs: self.config.compaction_cooldown_secs,
            summarization_prompt: self.config.prompts.summarization,
            checkpoint_prompt,
            system_prompt,
            after_response_hook_timeout_secs: self.config.after_response_hook_timeout_secs,
            indexes_messages: self.embedding_recall,
            role: AgentRole::Orchestrator,
        }
    }
}

/// The plan of a session.
pub fn build_session(config: AgentConfig, inputs: SessionInputs) -> (out: SessionPlan)
    ensures
        out@ == plan_of(config, false, inputs),
{
    SessionBuilder::new(config).build(inputs)
}

/// The plan of a session with recall by meaning.
pub fn build_session_with_embedding(config: AgentConfig, inputs: SessionInputs) -> (out: SessionPlan)
    ensures
        out@ == plan_of(config, true, inputs),
{
    SessionBuilder::new(config).with_embedding_recall().build(inputs)
}

/// A session never asks for more than was configured, nor for more than the
/// model can give, where the model's limit fits into 32 bits.
pub proof fn law_limits_are_kept(c: AgentConfig, indexes: bool, i: SessionInputs)
    ensures
        plan_of(c, indexes, i).max_tokens <= c.max_tokens,
        plan_of(c, indexes, i).token_budget <= i.default_token_budget,
        known_limits(i.limits) matches Some(l) ==> plan_of(c, indexes, i).token_budget
            <= l.max_input_tokens && (l.max_output_tokens <= u32::MAX ==> plan_of(
            c,
            indexes,
            i,
        ).max_tokens <= l.max_output_tokens),
{
}

/// The most tokens of an answer are what is configured, unless the model is known
/// to give fewer; and so is the budget of the history.
pub proof fn law_smaller_limit_counts(b: SessionBuilder, i: SessionInputs, out: SessionPlan)
    requires
        call_ensures(SessionBuilder::build, (b, i), out),
    ensures
        i.limits is Err || i.limits->Ok_0 is None ==> out.max_tokens == b.config().max_tokens
            && out.token_budget == i.default_token_budget,
        i.limits matches Ok(Some(l)) ==> {
            &&& out.max_tokens <= b.config().max_tokens
            &&& out.max_tokens == b.config().max_tokens || (l.max_output_tokens - out.max_tokens)
                % 0x1_0000_0000 == 0
            &&& l.max_output_tokens <= u32::MAX ==> out.max_tokens == (if b.config().max_tokens
                <= l.max_output_tokens {
                b.config().max_tokens as int
            } else {
                l.max_output_tokens as int
            })
            &&& out.token_budget == (if i.default_token_budget <= l.max_input_tokens {
                i.default_token_budget
            } else {
                l.max_input_tokens
            })
        },
{
    let plan = out@;
    assert(plan.max_tokens == out.max_tokens);
    assert(plan.token_budget == out.token_budget);
}

/// A session works with what is configured: the model, the window, the times and
/// the prompts; the prompt for checkpoints that is built in stands in only where
/// none is configured.
pub proof fn law_session_works_as_configured(b: SessionBuilder, i: SessionInputs, out: SessionPlan)
    requires
        call_ensures(SessionBuilder::build, (b, i), out),
    ensures
        out.model@ == b.config().model@,
        out.max_events == b.config().memory_window,
        out.compaction_cooldown_secs == b.config().compaction_cooldown_secs,
        out.after_response_hook_timeout_secs == b.config().after_response_hook_timeout_secs,
        text::opt_view(out.summarization_prompt) == text::opt_view(
            b.config().prompts.summarization,
        ),
        b.config().prompts.checkpoint matches Some(p) ==> out.checkpoint_prompt@ == p@,
        b.config().prompts.checkpoint is None ==> out.checkpoint_prompt@
            == i.default_checkpoint_prompt@,
        out.indexes_messages == b.embedding_recall(),
        out.role == AgentRole::Orchestrator,
{
    let plan = out@;
    assert(plan.max_events == out.max_events);
    assert(plan.indexes_messages == out.indexes_messages);
    assert(plan.compaction_cooldown_secs == out.compaction_cooldown_secs);
    assert(plan.after_response_hook_timeout_secs == out.after_response_hook_timeout_secs);
    assert(plan.role == out.role);
}

/// The system prompt is that of the workspace, with the skills behind it and a
/// blank line between; one that could not be loaded is empty.
pub proof fn law_skills_follow_the_prompt(b: SessionBuilder, i: SessionInputs, out: SessionPlan)
    requires
        call_ensures(SessionBuilder::build, (b, i), out),
    ensures
        i.skills is None ==> (i.system_prompt matches Ok(p) ==> out.system_prompt@ == p@),
        i.skills is None && i.system_prompt is Err ==> out.system_prompt@.len() == 0,
        i.skills matches Some(s) ==> (i.system_prompt matches Ok(p) ==> out.system_prompt@ == p@
            + "\n\n"@ + s@),
        i.skills matches Some(s) ==> (i.system_prompt is Err ==> out.system_prompt@ == "\n\n"@ + s@),
{
    if i.system_prompt is Err && i.skills is Some {
        let s = i.skills->0;
        assert(Seq::<char>::empty() + "\n\n"@ + s@ =~= "\n\n"@ + s@);
    }
}

/// A session with recall by meaning indexes messages, one without does not, and
/// they are the same otherwise.
pub proof fn law_recall_is_the_only_difference(
    config: AgentConfig,
    i: SessionInputs,
    plain: SessionPlan,
    recalling: SessionPlan,
)
    requires
        call_ensures(build_session, (config, i), plain),
        call_ensures(build_session_with_embedding, (config, i), recalling),
    ensures
        !plain.indexes_messages,
        recalling.indexes_messages,
        plain@ == (SessionPlanView { indexes_messages: false, ..recalling@ }),
        plain.model@ == config.model@,
{
    assert(plain@.indexes_messages == plain.indexes_messages);
    assert(recalling@.indexes_messages == recalling.indexes_messages);
}

} // verus!
