//! What the gateway gives its agent, and the agents that that one starts.

use crate::path;
use crate::text;
use crate::tools;
use crate::tools::{
    AgentRole, MetadataView, RegisteredTool, RegisteredView, RegistryView, SettingsView,
    Surroundings, ToolKind, ToolMetadata, ToolRegistry, ToolRegistryConfig, ToolSettings,
    ToolsConfig,
};
use vstd::prelude::*;
use vstd::string::*;

verus! {

/// The token budget of the compactor behind the tool for the context.
pub const CONTEXT_TOOL_BUDGET: u64 = 8000;

/// What is found when the gateway sets up its agent.
pub struct PipelineInputs {
    pub provider_name: String,
    /// The model of the provider that was found.
    pub provider_model: String,
    /// Whether the provider supports thinking.
    pub supports_thinking: bool,
    /// Whether the configuration asks for it.
    pub thinking_enabled: bool,
    /// The prompt for summaries, where one is configured.
    pub summarization_prompt: Option<String>,
    /// How many agents may run at once beside the one that starts them.
    pub max_concurrency: usize,
    pub tools: ToolsConfig,
    pub around: Surroundings,
    /// Whether recall by meaning could be set up.
    pub history_search: bool,
    /// The names of the workflows that were found.
    pub workflows: Vec<String>,
    /// The names of the plugins that were found.
    pub plugins: Vec<String>,
    /// Whether there is someone to ask for approval.
    pub can_approve: bool,
}

/// What the agent of the gateway is set up with.
pub struct AgentPipeline {
    /// The model of the agent, of its tools and of its compacting.
    pub model: String,
    /// The tools of the agent.
    pub tools: ToolRegistry,
    /// The tools of the agents that it starts.
    pub worker_tools: ToolRegistry,
    pub thinking_enabled: bool,
    /// Whether the agents that it starts think.
    pub spawner_thinking: bool,
    /// How many agents may run at once beside it.
    pub spawn_budget: usize,
    /// What to log where thinking was asked for in vain.
    pub warning: Option<String>,
    /// Whether calls ask for approval.
    pub asks_for_approval: bool,
}

/// The tools that only the gateway has. The one for the context compacts with the
/// model of the provider, with a budget of its own, and with the configured
/// prompt where there is one.
pub open spec fn extra_tools(model: Seq<char>, prompt: Option<Seq<char>>) -> Seq<RegisteredView> {
    seq![
        RegisteredView {
            kind: ToolKind::Message,
            name: "message"@,
            dir: None,
            restricted: false,
            settings: SettingsView::Default,
            metadata: Some(
                MetadataView {
                    display_name: "Send Message"@,
                    category: "communication"@,
                    tags: seq!["message"@, "send"@],
                    requires_approval: false,
                    is_mutating: false,
                },
            ),
        },
        RegisteredView {
            kind: ToolKind::Cron,
            name: "cron"@,
            dir: None,
            restricted: false,
            settings: SettingsView::Default,
            metadata: Some(
                MetadataView {
                    display_name: "Schedule Task"@,
                    category: "system"@,
                    tags: seq!["cron"@, "schedule"@],
                    requires_approval: false,
                    is_mutating: false,
                },
            ),
        },
        RegisteredView {
            kind: ToolKind::Context,
            name: "context"@,
            dir: None,
            restricted: false,
            settings: SettingsView::Compactor { model, budget: CONTEXT_TOOL_BUDGET, prompt },
            metadata: Some(
                MetadataView {
                    display_name: "Context Management"@,
                    category: "system"@,
                    tags: seq!["context"@, "compression"@],
                    requires_approval: false,
                    is_mutating: true,
                },
            ),
        },
    ]
}

fn gateway_tool(
    kind: ToolKind,
    name: &str,
    display_name: &str,
    category: &str,
    tag1: &str,
    tag2: &str,
    is_mutating: bool,
    settings: ToolSettings,
) -> (out: RegisteredTool)
    ensures
        out@ == (RegisteredView {
            kind,
            name: name@,
            dir: None,
            restricted: false,
            settings: settings@,
            metadata: Some(
                MetadataView {
                    display_name: display_name@,
                    category: category@,
                    tags: seq![tag1@, tag2@],
                    requires_approval: false,
                    is_mutating,
                },
            ),
        }),
{
    let mut tags: Vec<String> = Vec::new();
    tags.push(text::copy_str(tag1));
    tags.push(text::copy_str(tag2));
    assert(text::views(tags@) =~= seq![tag1@, tag2@]);
    RegisteredTool {
        kind,
        name: text::copy_str(name),
        dir: None,
        restricted: false,
        settings,
        metadata: Some(
            ToolMetadata {
                display_name: text::copy_str(display_name),
                category: text::copy_str(category),
                tags,
                requires_approval: false,
                is_mutating,
            },
        ),
    }
}

/// The tools that only the gateway has.
pub fn build_extra_tools(model: &str, prompt: &Option<String>) -> (out: Vec<RegisteredTool>)
    ensures
        tools::registered_views(out@) == extra_tools(model@, text::opt_view(*prompt)),
{
    let mut out: Vec<RegisteredTool> = Vec::new();
    out.push(
        gateway_tool(
            ToolKind::Message,
            "message",
            "Send Message",
            "communication",
            "message",
            "send",
            false,
            ToolSettings::Default,
        ),
    );
    out.push(
        gateway_tool(
            ToolKind::Cron,
            "cron",
            "Schedule Task",
            "system",
            "cron",
            "schedule",
            false,
            ToolSettings::Default,
        ),
    );
    out.push(
        gateway_tool(
            ToolKind::Context,
            "context",
            "Context Management",
            "system",
            "context",
            "compression",
            true,
            ToolSettings::Compactor {
                model: text::copy_str(model),
                budget: CONTEXT_TOOL_BUDGET,
                prompt: text::copy_opt(prompt),
            },
        ),
    );
    assert(tools::registered_views(out@) =~= extra_tools(model@, text::opt_view(*prompt)));
    out
}

/// What goes into the registry of an agent in a role, before the tools that only
/// the gateway has. Only the orchestrator searches the history.
pub open spec fn role_view(p: PipelineInputs, workspace: Seq<char>, role: AgentRole) -> RegistryView {
    RegistryView {
        core: tools::core_view(p.tools, p.around, workspace, role),
        extra_tools: Seq::empty(),
        history_search: role == AgentRole::Orchestrator && p.history_search,
        workflows: text::views(p.workflows@),
        plugins: text::views(p.plugins@),
    }
}

/// The tools of an agent in a role.
pub open spec fn role_tools(p: PipelineInputs, workspace: Seq<char>, role: AgentRole) -> Map<
    Seq<char>,
    RegisteredView,
> {
    tools::with_tools(Map::empty(), tools::all_tools(role_view(p, workspace, role)))
}

fn role_registry(p: &PipelineInputs, role: AgentRole) -> (r: Option<ToolRegistry>)
    ensures
        match tools::main_workspace(p.tools, p.around) {
            Some(workspace) => r matches Some(out) && out.wf() && out@ == role_tools(
                *p,
                workspace,
                role,
            ),
            None => r is None,
        },
        (p.around.cwd matches Some(dir) && path::absolute(dir@)) ==> r is Some,
{
    let none: Vec<RegisteredTool> = Vec::new();
    let c = ToolRegistryConfig {
        tools: p.tools.copy(),
        around: p.around.copy(),
        role,
        extra_tools: none,
        history_search: role.can_spawn() && p.history_search,
        workflows: text::copy_list(&p.workflows),
        plugins: text::copy_list(&p.plugins),
    };
    proof {
        assert(tools::registered_views(c.extra_tools@) =~= Seq::empty());
        assert(tools::main_workspace(c.tools, c.around) == tools::main_workspace(
            p.tools,
            p.around,
        ));
        if let Some(workspace) = tools::main_workspace(p.tools, p.around) {
            assert(c.with_workspace(workspace) == role_view(*p, workspace, role));
        }
    }
    tools::build_tool_registry(c)
}

/// The warning for a provider that cannot think.
pub open spec fn thinking_warning(provider: Seq<char>) -> Seq<char> {
    "Provider '"@ + provider + "' does not support thinking mode. Thinking disabled."@
}

/// Whether an agent is set up as it is to be in a workspace.
pub open spec fn set_up_in(out: AgentPipeline, p: PipelineInputs, workspace: Seq<char>) -> bool {
    &&& out.tools.wf()
    &&& out.tools@ == tools::with_tools(
        role_tools(p, workspace, AgentRole::Orchestrator),
        extra_tools(p.provider_model@, text::opt_view(p.summarization_prompt)),
    )
    &&& out.worker_tools.wf()
    &&& out.worker_tools@ == role_tools(p, workspace, AgentRole::Worker)
    &&& out.model@ == p.provider_model@
    &&& out.thinking_enabled == (p.thinking_enabled && p.supports_thinking)
    &&& out.spawner_thinking == out.thinking_enabled
    &&& out.spawn_budget == p.max_concurrency
    &&& text::opt_view(out.warning) == (if p.thinking_enabled && !p.supports_thinking {
        Some(thinking_warning(p.provider_name@))
    } else {
        None
    })
    &&& out.asks_for_approval == p.can_approve
}

/// Sets up the agent of the gateway. It gets the orchestrator's tools and those
/// of the gateway; the agents that it starts get a worker's, and do not search
/// the history. It runs the model of the provider that was found, and it and the
/// agents that it starts think where that is asked for and the provider can. All
/// of them work in the workspace that is found; where that cannot be made
/// absolute there is no agent.
pub fn setup_agent_pipeline(p: PipelineInputs) -> (r: Option<AgentPipeline>)
    ensures
        match tools::main_workspace(p.tools, p.around) {
            Some(workspace) => r matches Some(out) && set_up_in(out, p, workspace),
            None => r is None,
        },
        (p.around.cwd matches Some(dir) && path::absolute(dir@)) ==> r is Some,
{
    let warning: Option<String> = if p.thinking_enabled && !p.supports_thinking {
        Some(
            text::cat3(
                "Provider '",
                p.provider_name.as_str(),
                "' does not support thinking mode. Thinking disabled.",
            ),
        )
    } else {
        None
    };
    match (role_registry(&p, AgentRole::Orchestrator), role_registry(&p, AgentRole::Worker)) {
        (Some(orchestrator_tools), Some(worker_tools)) => {
            let mut tools = orchestrator_tools;
            tools.register_all(
                build_extra_tools(p.provider_model.as_str(), &p.summarization_prompt),
            );
            Some(
                AgentPipeline {
                    tools,
                    worker_tools,
                    model: p.provider_model,
                    thinking_enabled: p.thinking_enabled && p.supports_thinking,
                    spawner_thinking: p.thinking_enabled && p.supports_thinking,
                    spawn_budget: p.max_concurrency,
                    warning,
                    asks_for_approval: p.can_approve,
                },
            )
        },
        _ => None,
    }
}

/// The agents that the gateway's agent starts cannot start any others, unless a
/// plugin takes the name of a tool that does.
pub proof fn law_started_agents_start_none(p: PipelineInputs, workspace: Seq<char>)
    requires
        forall|i: int|
            0 <= i < p.plugins@.len() ==> (#[trigger] p.plugins@[i])@ != "spawn"@ && p.plugins@[i]@
                != "spawn_parallel"@,
    ensures
        !role_tools(p, workspace, AgentRole::Worker).dom().contains("spawn"@),
        !role_tools(p, workspace, AgentRole::Worker).dom().contains("spawn_parallel"@),
{
    let v = role_view(p, workspace, AgentRole::Worker);
    let list = tools::all_tools(v);
    let head = tools::core_tools(v.core) + tools::system_tools();
    let plugins = tools::plain_tools(ToolKind::Plugin, v.plugins);
    assert(list =~= head + plugins);
    tools::lemma_worker_names(v.core);
    tools::lemma_dom(Map::empty(), list, "spawn"@);
    tools::lemma_dom(Map::empty(), list, "spawn_parallel"@);
    assert forall|i: int| 0 <= i < list.len() implies (#[trigger] list[i]).name != "spawn"@
        && list[i].name != "spawn_parallel"@ by {
        if i < head.len() {
            assert(list[i] == head[i]);
        } else {
            assert(list[i] == plugins[i - head.len()]);
            assert(p.plugins@[i - head.len()]@ != "spawn"@);
        }
    }
}

/// The agent runs the model of the provider; it and the agents that it starts
/// think exactly where that is asked for and the provider can, and a warning says
/// so where it cannot. Approval is asked for where there is someone to ask.
pub proof fn law_agent_is_set_up_as_asked(p: PipelineInputs, r: Option<AgentPipeline>)
    requires
        call_ensures(setup_agent_pipeline, (p,), r),
        r is Some,
    ensures
        r->0.model@ == p.provider_model@,
        r->0.thinking_enabled <==> p.thinking_enabled && p.supports_thinking,
        r->0.spawner_thinking <==> p.thinking_enabled && p.supports_thinking,
        r->0.warning is Some <==> p.thinking_enabled && !p.supports_thinking,
        r->0.warning matches Some(w) ==> text::occurs(p.provider_name@, w@) && w@ == "Provider '"@
            + p.provider_name@ + "' does not support thinking mode. Thinking disabled."@,
        r->0.asks_for_approval <==> p.can_approve,
        r->0.spawn_budget == p.max_concurrency,
{
    let out = r->0;
    let w = text::opt_view(out.warning);
    if p.thinking_enabled && !p.supports_thinking {
        let i = "Provider '"@.len() as int;
        assert(w->0.subrange(i, i + p.provider_name@.len()) =~= p.provider_name@);
    }
}

/// The agent can send messages, schedule tasks and look after its context, and
/// the last of these compacts with the provider's model, within 8000 tokens and
/// with the configured prompt.
pub proof fn law_agent_has_the_tools_of_the_gateway(p: PipelineInputs, r: Option<AgentPipeline>)
    requires
        call_ensures(setup_agent_pipeline, (p,), r),
        r is Some,
    ensures
        r->0.tools@.dom().contains("message"@) && r->0.tools@["message"@].kind == ToolKind::Message,
        r->0.tools@.dom().contains("cron"@) && r->0.tools@["cron"@].kind == ToolKind::Cron,
        r->0.tools@.dom().contains("context"@) && r->0.tools@["context"@].kind == ToolKind::Context,
        r->0.tools@["context"@].settings matches SettingsView::Compactor { model, budget, prompt }
            && model == p.provider_model@ && budget == 8000 && prompt == text::opt_view(
            p.summarization_prompt,
        ),
{
    let workspace = tools::main_workspace(p.tools, p.around)->0;
    let m = role_tools(p, workspace, AgentRole::Orchestrator);
    let list = extra_tools(p.provider_model@, text::opt_view(p.summarization_prompt));
    reveal_strlit("message");
    reveal_strlit("cron");
    reveal_strlit("context");
    assert("message"@.len() == 7);
    assert("cron"@.len() == 4);
    assert("context"@.len() == 7);
    assert("message"@[0] == 'm');
    assert("context"@[0] == 'c');
    tools::law_last_of_a_name_stands(m, list, "message"@, 0);
    tools::law_last_of_a_name_stands(m, list, "cron"@, 1);
    tools::law_last_of_a_name_stands(m, list, "context"@, 2);
}

/// The agent can start others and search the history where that could be set up;
/// every plugin is there for it and for those that it starts, and every workflow
/// for it.
pub proof fn law_agent_has_what_was_found(p: PipelineInputs, r: Option<AgentPipeline>, i: int)
    requires
        call_ensures(setup_agent_pipeline, (p,), r),
        r is Some,
    ensures
        r->0.tools@.dom().contains("spawn"@),
        p.history_search ==> r->0.tools@.dom().contains("history_search"@),
        0 <= i < p.plugins@.len() ==> r->0.tools@.dom().contains(p.plugins@[i]@)
            && r->0.worker_tools@.dom().contains(p.plugins@[i]@),
        0 <= i < p.workflows@.len() ==> r->0.tools@.dom().contains(p.workflows@[i]@),
{
    let workspace = tools::main_workspace(p.tools, p.around)->0;
    let v = role_view(p, workspace, AgentRole::Orchestrator);
    let w = role_view(p, workspace, AgentRole::Worker);
    let m = role_tools(p, workspace, AgentRole::Orchestrator);
    let list = extra_tools(p.provider_model@, text::opt_view(p.summarization_prompt));
    tools::law_what_else_an_agent_can_call(v, i);
    tools::law_what_else_an_agent_can_call(w, i);
    assert(tools::all_tools(v)[8].name == "spawn"@);
    tools::lemma_dom(Map::empty(), tools::all_tools(v), "spawn"@);
    tools::lemma_dom(m, list, "spawn"@);
    tools::lemma_dom(m, list, "history_search"@);
    if 0 <= i < p.plugins@.len() {
        tools::lemma_dom(m, list, p.plugins@[i]@);
    }
    if 0 <= i < p.workflows@.len() {
        tools::lemma_dom(m, list, p.workflows@[i]@);
    }
}

/// The tools of the gateway: what each is called, and that only the one for the
/// context changes anything, which none asks approval for.
pub proof fn law_tools_of_the_gateway(model: &str, prompt: &Option<String>, out: Vec<RegisteredTool>)
    requires
        call_ensures(build_extra_tools, (model, prompt), out),
    ensures
        out@.len() == 3,
        out@[0].kind == ToolKind::Message && out@[0].name@ == "message"@,
        out@[1].kind == ToolKind::Cron && out@[1].name@ == "cron"@,
        out@[2].kind == ToolKind::Context && out@[2].name@ == "context"@,
        forall|i: int|
            0 <= i < 3 ==> ((#[trigger] out@[i]).metadata matches Some(m) && !m.requires_approval
                && m.is_mutating == (i == 2)),
        forall|i: int| 0 <= i < 3 ==> (#[trigger] out@[i]).dir is None && !out@[i].restricted,
        out@[0].metadata matches Some(m) && m.display_name@ == "Send Message"@ && m.category@
            == "communication"@ && text::views(m.tags@) == seq!["message"@, "send"@],
        out@[1].metadata matches Some(m) && m.display_name@ == "Schedule Task"@ && m.category@
            == "system"@ && text::views(m.tags@) == seq!["cron"@, "schedule"@],
        out@[2].metadata matches Some(m) && m.display_name@ == "Context Management"@ && m.category@
            == "system"@ && text::views(m.tags@) == seq!["context"@, "compression"@],
{
    let v = tools::registered_views(out@);
    assert(v.len() == out@.len());
    assert(v[0] == out@[0]@);
    assert(v[1] == out@[1]@);
    assert(v[2] == out@[2]@);
    assert forall|i: int| 0 <= i < 3 implies ((#[trigger] out@[i]).metadata matches Some(m)
        && !m.requires_approval && m.is_mutating == (i == 2)) by {
        assert(v[i] == out@[i]@);
    }
    assert forall|i: int| 0 <= i < 3 implies (#[trigger] out@[i]).dir is None
        && !out@[i].restricted by {
        assert(v[i] == out@[i]@);
        assert(v[i].dir == text::opt_view(out@[i].dir));
    }
}

/// The agents that the gateway's agent starts do not search the history, unless a
/// plugin takes the name of the tool that does.
pub proof fn law_started_agents_do_not_search(p: PipelineInputs, r: Option<AgentPipeline>)
    requires
        call_ensures(setup_agent_pipeline, (p,), r),
        r is Some,
        forall|i: int|
            0 <= i < p.plugins@.len() ==> (#[trigger] p.plugins@[i])@ != "history_search"@,
    ensures
        !r->0.worker_tools@.dom().contains("history_search"@),
{
    let workspace = tools::main_workspace(p.tools, p.around)->0;
    let v = role_view(p, workspace, AgentRole::Worker);
    let list = tools::all_tools(v);
    let head = tools::core_tools(v.core) + tools::system_tools();
    let plugins = tools::plain_tools(ToolKind::Plugin, v.plugins);
    assert(list =~= head + plugins);
    reveal_strlit("history_search");
    reveal_strlit("read_file");
    reveal_strlit("list_dir");
    reveal_strlit("web_fetch");
    reveal_strlit("web_search");
    reveal_strlit("ask_user");
    reveal_strlit("write_file");
    reveal_strlit("edit_file");
    reveal_strlit("exec");
    reveal_strlit("query_history");
    reveal_strlit("clear_session");
    reveal_strlit("new_session");
    assert("history_search"@.len() == 14);
    assert("read_file"@.len() == 9);
    assert("list_dir"@.len() == 8);
    assert("web_fetch"@.len() == 9);
    assert("web_search"@.len() == 10);
    assert("ask_user"@.len() == 8);
    assert("write_file"@.len() == 10);
    assert("edit_file"@.len() == 9);
    assert("exec"@.len() == 4);
    assert("query_history"@.len() == 13);
    assert("clear_session"@.len() == 13);
    assert("new_session"@.len() == 11);
    tools::lemma_dom(Map::empty(), list, "history_search"@);
    assert forall|i: int| 0 <= i < list.len() implies (#[trigger] list[i]).name
        != "history_search"@ by {
        if i < head.len() {
            assert(list[i] == head[i]);
        } else {
            assert(list[i] == plugins[i - head.len()]);
            assert(p.plugins@[i - head.len()]@ != "history_search"@);
        }
    }
}

} // verus!
