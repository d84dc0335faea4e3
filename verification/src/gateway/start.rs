//! Starting the gateway, and what to say where it cannot start.

use crate::json;
use crate::json::Json;
use crate::path;
use crate::text;
use crate::tools;
use crate::tools::{
    AgentRole, RegisteredTool, RegistryView, Surroundings, ToolRegistry, ToolRegistryConfig,
    ToolsConfig,
};
use vstd::prelude::*;
use vstd::string::*;

verus! {

/// How the gateway starts.
pub enum GatewayStart {
    /// The configuration is wrong: print these lines and stop.
    Invalid(Vec<String>),
    /// No channel is enabled: print these lines and stop.
    NoChannels(Vec<String>),
    /// Run.
    Run,
}

/// The view of a [`GatewayStart`].
pub enum StartView {
    Invalid(Seq<Seq<char>>),
    NoChannels(Seq<Seq<char>>),
    Run,
}

impl View for GatewayStart {
    type V = StartView;

    open spec fn view(&self) -> StartView {
        match self {
            GatewayStart::Invalid(lines) => StartView::Invalid(text::views(lines@)),
            GatewayStart::NoChannels(lines) => StartView::NoChannels(text::views(lines@)),
            GatewayStart::Run => StartView::Run,
        }
    }
}

/// What is said of a wrong configuration.
pub open spec fn validation_report(errors: Seq<Seq<char>>) -> Seq<Seq<char>> {
    seq!["Configuration validation failed:"@] + Seq::new(
        errors.len(),
        |i: int| "  - "@ + errors[i],
    ) + seq!["\nPlease fix the configuration and try again."@]
}

/// What is said where no channel is enabled.
pub open spec fn no_channels_hint() -> Seq<Seq<char>> {
    seq![
        "⚠️  No channels configured"@,
        "Add a channel to your config:"@,
        "\n  channels:"@,
        "    telegram:"@,
        "      enabled: true"@,
        "      token: \"YOUR_BOT_TOKEN\""@,
        "      allow_from: []"@,
    ]
}

/// How the gateway starts with a configuration.
pub open spec fn start_of(errors: Option<Seq<Seq<char>>>, enabled_channels: usize) -> StartView {
    match errors {
        Some(e) => StartView::Invalid(validation_report(e)),
        None => if enabled_channels == 0 {
            StartView::NoChannels(no_channels_hint())
        } else {
            StartView::Run
        },
    }
}

/// The lines that are printed of a wrong configuration.
pub fn print_validation_errors(errors: &Vec<String>) -> (out: Vec<String>)
    ensures
        text::views(out@) == validation_report(text::views(errors@)),
{
    let mut out: Vec<String> = Vec::new();
    out.push(text::copy_str("Configuration validation failed:"));
    for i in 0..errors.len()
        invariant
            out@.len() == i + 1,
            out@[0]@ == "Configuration validation failed:"@,
            forall|j: int| 0 <= j < i ==> (#[trigger] out@[j + 1])@ == "  - "@ + errors@[j]@,
    {
        out.push(text::cat2("  - ", errors[i].as_str()));
        assert forall|j: int| 0 <= j < i + 1 implies (#[trigger] out@[j + 1])@ == "  - "@
            + errors@[j]@ by {}
    }
    let ghost mid = out@;
    out.push(text::copy_str("\nPlease fix the configuration and try again."));
    proof {
        let want = validation_report(text::views(errors@));
        assert forall|k: int| 0 <= k < want.len() implies text::views(out@)[k] == want[k] by {
            if 0 < k < want.len() - 1 {
                assert(mid[(k - 1) + 1]@ == "  - "@ + errors@[k - 1]@);
            }
        }
        assert(text::views(out@) =~= want);
    }
    out
}

/// The lines that are printed where no channel is enabled.
pub fn print_no_channels_hint() -> (out: Vec<String>)
    ensures
        text::views(out@) == no_channels_hint(),
{
    let mut out: Vec<String> = Vec::new();
    out.push(text::copy_str("⚠️  No channels configured"));
    out.push(text::copy_str("Add a channel to your config:"));
    out.push(text::copy_str("\n  channels:"));
    out.push(text::copy_str("    telegram:"));
    out.push(text::copy_str("      enabled: true"));
    out.push(text::copy_str("      token: \"YOUR_BOT_TOKEN\""));
    out.push(text::copy_str("      allow_from: []"));
    assert(text::views(out@) =~= no_channels_hint());
    out
}

/// The view of an optional list of errors.
pub open spec fn errors_view(errors: Option<Vec<String>>) -> Option<Seq<Seq<char>>> {
    match errors {
        Some(e) => Some(text::views(e@)),
        None => None,
    }
}

/// Decides how the gateway starts, given what is wrong with the configuration
/// and how many channels it enables.
pub fn gateway_start(errors: &Option<Vec<String>>, enabled_channels: usize) -> (r: GatewayStart)
    ensures
        r@ == start_of(errors_view(*errors), enabled_channels),
{
    match errors {
        Some(e) => GatewayStart::Invalid(print_validation_errors(e)),
        None => if enabled_channels == 0 {
            GatewayStart::NoChannels(print_no_channels_hint())
        } else {
            GatewayStart::Run
        },
    }
}

// ── channels ────────────────────────────────────────────────────────────

/// A channel: whether it is built in, and whether it is enabled.
pub struct ChannelSwitch {
    pub name: String,
    pub compiled: bool,
    pub enabled: bool,
}

/// The warning for a channel that is enabled but not built in.
pub open spec fn missing_channel(name: Seq<char>) -> Seq<char> {
    "Channel '"@ + name
        + "' is enabled in config but was NOT compiled. Rebuild with: cargo run --features "@ + name
        + " -- gateway"@
}

/// The warnings for channels.
pub open spec fn channel_warnings(list: Seq<ChannelSwitch>) -> Seq<Seq<char>>
    decreases list.len(),
{
    if list.len() == 0 {
        Seq::empty()
    } else {
        let before = channel_warnings(list.drop_last());
        if list.last().enabled && !list.last().compiled {
            before.push(missing_channel(list.last().name@))
        } else {
            before
        }
    }
}

/// Warns of the channels that are enabled but not built in.
pub fn warn_disabled_features(list: &Vec<ChannelSwitch>) -> (out: Vec<String>)
    ensures
        text::views(out@) == channel_warnings(list@),
{
    let mut out: Vec<String> = Vec::new();
    assert(text::views(out@) =~= channel_warnings(list@.take(0)));
    for i in 0..list.len()
        invariant
            text::views(out@) == channel_warnings(list@.take(i as int)),
    {
        let c = &list[i];
        let ghost before = out@;
        assert(list@.take(i + 1).drop_last() =~= list@.take(i as int));
        assert(list@.take(i + 1).last() == *c);
        if c.enabled && !c.compiled {
            let w = text::cat5(
                "Channel '",
                c.name.as_str(),
                "' is enabled in config but was NOT compiled. Rebuild with: cargo run --features ",
                c.name.as_str(),
                " -- gateway",
            );
            let ghost shown = w@;
            out.push(w);
            assert(text::views(out@) =~= text::views(before).push(shown));
        }
    }
    assert(list@.take(list@.len() as int) =~= list@);
    out
}

// ── slash commands ──────────────────────────────────────────────────────

/// Where a user's own commands stand, below the home directory.
pub fn user_commands_dir(home: &Option<String>) -> (r: Option<String>)
    ensures
        text::opt_view(r) == (match text::opt_view(*home) {
            Some(h) => Some(path::below(h, ".gasket/commands"@)),
            None => None,
        }),
{
    match home {
        Some(h) => Some(path::join_path(h.as_str(), ".gasket/commands")),
        None => None,
    }
}

/// The commands that are built in, in the order in which they are registered.
pub fn builtin_commands() -> (out: Vec<String>)
    ensures
        text::views(out@) == seq!["exit"@, "clear"@, "help"@, "new"@, "sessions"@, "model"@],
{
    let mut out: Vec<String> = Vec::new();
    out.push(text::copy_str("exit"));
    out.push(text::copy_str("clear"));
    out.push(text::copy_str("help"));
    out.push(text::copy_str("new"));
    out.push(text::copy_str("sessions"));
    out.push(text::copy_str("model"));
    assert(text::views(out@) =~= seq!["exit"@, "clear"@, "help"@, "new"@, "sessions"@, "model"@]);
    out
}

// ── running one tool ────────────────────────────────────────────────────

/// Builds the registry that a tool is run from: the orchestrator's, without tools
/// of any mode of running. Where no workspace can be made absolute there is none.
pub fn command_line_tools(
    config: ToolsConfig,
    around: Surroundings,
    history_search: bool,
    workflows: Vec<String>,
    plugins: Vec<String>,
) -> (r: Option<ToolRegistry>)
    ensures
        match tools::main_workspace(config, around) {
            Some(workspace) => r matches Some(out) && out.wf() && out@ == tools::with_tools(
                Map::empty(),
                tools::all_tools(
                    RegistryView {
                        core: tools::core_view(config, around, workspace, AgentRole::Orchestrator),
                        extra_tools: Seq::empty(),
                        history_search,
                        workflows: text::views(workflows@),
                        plugins: text::views(plugins@),
                    },
                ),
            ),
            None => r is None,
        },
        (around.cwd matches Some(dir) && path::absolute(dir@)) ==> r is Some,
{
    let none: Vec<RegisteredTool> = Vec::new();
    let c = ToolRegistryConfig {
        tools: config,
        around,
        role: AgentRole::Orchestrator,
        extra_tools: none,
        history_search,
        workflows,
        plugins,
    };
    assert(tools::registered_views(c.extra_tools@) =~= Seq::empty());
    tools::build_tool_registry(c)
}

/// The error for arguments that are no JSON.
pub open spec fn bad_arguments(args: Seq<char>) -> Seq<char> {
    "Failed to parse tool arguments as JSON: "@ + args
}

/// The arguments of a tool that is run from the command line.
pub fn tool_arguments(args: &str) -> (r: Result<Json, String>)
    ensures
        match json::json_value(args@) {
            Some(v) => r matches Ok(j) && j@ == v,
            None => r matches Err(e) && e@ == bad_arguments(args@),
        },
{
    checked_arguments(json::parse_json(args), args)
}

/// The arguments, given what they were read as.
pub fn checked_arguments(parsed: Option<Json>, args: &str) -> (r: Result<Json, String>)
    ensures
        match json::opt_json(parsed) {
            Some(v) => r matches Ok(j) && j@ == v,
            None => r matches Err(e) && e@ == bad_arguments(args@),
        },
{
    match parsed {
        Some(v) => Ok(v),
        None => Err(text::cat2("Failed to parse tool arguments as JSON: ", args)),
    }
}

/// What is printed after a tool was run, or the error to end with.
pub fn tool_report(name: &str, outcome: Result<String, String>) -> (r: Result<Vec<String>, String>)
    ensures
        match outcome {
            Ok(t) => r matches Ok(lines) && text::views(lines@) == seq![
                "✓ Tool '"@ + name@ + "' executed successfully.\n"@,
                t@,
            ],
            Err(e) => r matches Err(w) && w@ == "Tool '"@ + name@ + "' failed: "@ + e@,
        },
{
    match outcome {
        Ok(t) => {
            let ghost shown = t@;
            let mut lines: Vec<String> = Vec::new();
            lines.push(text::cat3("✓ Tool '", name, "' executed successfully.\n"));
            lines.push(t);
            assert(text::views(lines@) =~= seq![
                "✓ Tool '"@ + name@ + "' executed successfully.\n"@,
                shown,
            ]);
            Ok(lines)
        },
        Err(e) => Err(text::cat4("Tool '", name, "' failed: ", e.as_str())),
    }
}

// ── laws ────────────────────────────────────────────────────────────────

/// The gateway runs exactly where the configuration is right and some channel is
/// enabled. Otherwise every error of the configuration is named, in order.
pub proof fn law_gateway_runs_where_it_can(
    errors: &Option<Vec<String>>,
    enabled: usize,
    r: GatewayStart,
)
    requires
        call_ensures(gateway_start, (errors, enabled), r),
    ensures
        r is Run <==> *errors is None && enabled > 0,
        r is NoChannels <==> *errors is None && enabled == 0,
        *errors matches Some(list) ==> (r matches GatewayStart::Invalid(lines) && lines@.len()
            == list@.len() + 2 && forall|i: int|
            0 <= i < list@.len() ==> (#[trigger] lines@[i + 1])@ == "  - "@ + list@[i]@),
        r matches GatewayStart::Invalid(lines) ==> lines@[0]@ == "Configuration validation failed:"@
            && lines@.last()@ == "\nPlease fix the configuration and try again."@,
        r matches GatewayStart::NoChannels(lines) ==> lines@.len() == 7 && lines@[0]@
            == "⚠️  No channels configured"@ && lines@[4]@ == "      enabled: true"@,
{
    if let Some(list) = *errors {
        if let GatewayStart::Invalid(lines) = r {
            let want = validation_report(text::views(list@));
            assert(text::views(lines@) == want);
            assert(text::views(lines@).len() == lines@.len());
            assert forall|i: int| 0 <= i < list@.len() implies (#[trigger] lines@[i + 1])@
                == "  - "@ + list@[i]@ by {
                assert(text::views(lines@)[i + 1] == lines@[i + 1]@);
                assert(want[i + 1] == "  - "@ + text::views(list@)[i]);
            }
            let n = lines@.len() - 1;
            assert(text::views(lines@)[0] == lines@[0]@);
            assert(text::views(lines@)[n] == lines@[n]@);
            assert(want[n] == "\nPlease fix the configuration and try again."@);
        }
    }
    if let GatewayStart::NoChannels(lines) = r {
        assert(text::views(lines@) == no_channels_hint());
        assert(text::views(lines@).len() == lines@.len());
        assert(text::views(lines@)[0] == lines@[0]@);
        assert(text::views(lines@)[4] == lines@[4]@);
    }
}

/// There is a warning for each channel that is enabled but not built in, in
/// order, which names it, and for no other channel.
pub proof fn law_missing_channels_are_named(list: Seq<ChannelSwitch>, c: ChannelSwitch)
    ensures
        channel_warnings(Seq::empty()).len() == 0,
        c.enabled && !c.compiled ==> channel_warnings(list.push(c)) == channel_warnings(list).push(
            "Channel '"@ + c.name@
                + "' is enabled in config but was NOT compiled. Rebuild with: cargo run --features "@
                + c.name@ + " -- gateway"@,
        ),
        !c.enabled || c.compiled ==> channel_warnings(list.push(c)) == channel_warnings(list),
{
    assert(list.push(c).drop_last() =~= list);
}

/// A user's commands stand below the home directory, where that is known.
pub proof fn law_user_commands_are_at_home(home: &Option<String>, r: Option<String>)
    requires
        call_ensures(user_commands_dir, (home,), r),
    ensures
        r is Some <==> *home is Some,
        *home matches Some(h) ==> (h@.len() > 0 && h@.last() != '/' ==> r->0@ == h@ + "/"@
            + ".gasket/commands"@),
{
    reveal_strlit(".gasket/commands");
    assert(".gasket/commands"@[0] == '.');
}

/// What is printed of a tool that was run is what it gave; one that failed is an
/// error with the cause. Either names the tool.
pub proof fn law_tool_outcome_is_printed(
    name: &str,
    outcome: Result<String, String>,
    r: Result<Vec<String>, String>,
)
    requires
        call_ensures(tool_report, (name, outcome), r),
    ensures
        r is Ok <==> outcome is Ok,
        outcome matches Ok(t) ==> r->Ok_0@.len() == 2 && r->Ok_0@[1]@ == t@ && text::occurs(
            name@,
            r->Ok_0@[0]@,
        ),
        outcome matches Err(e) ==> r->Err_0@ == "Tool '"@ + name@ + "' failed: "@ + e@,
{
    if let Ok(t) = outcome {
        let lines = r->Ok_0@;
        assert(text::views(lines).len() == lines.len());
        assert(text::views(lines)[0] == lines[0]@);
        assert(text::views(lines)[1] == lines[1]@);
        let i = "✓ Tool '"@.len() as int;
        assert(lines[0]@.subrange(i, i + name@.len()) =~= name@);
    }
}

/// Arguments are taken as the JSON that they are, and refused with their text
/// where they are none.
pub proof fn law_arguments_must_be_json(args: &str, r: Result<Json, String>)
    requires
        call_ensures(tool_arguments, (args,), r),
    ensures
        r is Ok <==> json::json_value(args@) is Some,
        r matches Ok(v) ==> json::json_value(args@) == Some(v@),
        r matches Err(e) ==> e@ == "Failed to parse tool arguments as JSON: "@ + args@,
{
}

/// The command line has what the orchestrator has: it can start other agents, and
/// call every plugin and workflow.
pub proof fn law_command_line_has_the_tools(
    config: ToolsConfig,
    around: Surroundings,
    history_search: bool,
    workflows: Vec<String>,
    plugins: Vec<String>,
    r: Option<ToolRegistry>,
    i: int,
)
    requires
        call_ensures(
            command_line_tools,
            (config, around, history_search, workflows, plugins),
            r,
        ),
        r is Some,
    ensures
        r->0@.dom().contains("spawn"@),
        r->0@.dom().contains("exec"@),
        0 <= i < plugins@.len() ==> r->0@.dom().contains(plugins@[i]@),
        0 <= i < workflows@.len() ==> r->0@.dom().contains(workflows@[i]@),
        history_search ==> r->0@.dom().contains("history_search"@),
{
    let workspace = tools::main_workspace(config, around)->0;
    let v = RegistryView {
        core: tools::core_view(config, around, workspace, AgentRole::Orchestrator),
        extra_tools: Seq::empty(),
        history_search,
        workflows: text::views(workflows@),
        plugins: text::views(plugins@),
    };
    let list = tools::all_tools(v);
    tools::law_what_else_an_agent_can_call(v, i);
    assert(list[7].name == "exec"@);
    assert(list[8].name == "spawn"@);
    tools::lemma_dom(Map::empty(), list, "exec"@);
    tools::lemma_dom(Map::empty(), list, "spawn"@);
}

} // verus!
