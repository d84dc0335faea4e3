//! The tools that an agent is given: who registers which, and where they work.

use crate::json::{Json, JsonView};
use crate::path;
use crate::table::Table;
use crate::text;
use vstd::prelude::*;
use vstd::string::*;

verus! {

// ── where commands run ──────────────────────────────────────────────────

/// The directory in which commands are to run, as it is written down: the
/// configured one, `.gasket` in the home directory, or the fallback where no home
/// is known.
pub open spec fn workspace_name(
    configured: Option<Seq<char>>,
    home: Option<Seq<char>>,
    fallback: Seq<char>,
) -> Seq<char> {
    match configured {
        Some(ws) => ws,
        None => match home {
            Some(h) => path::below(h, ".gasket"@),
            None => fallback,
        },
    }
}

/// The absolute path of that directory; none where it cannot be made absolute.
pub open spec fn workspace_choice(
    configured: Option<Seq<char>>,
    home: Option<Seq<char>>,
    fallback: Seq<char>,
    cwd: Option<Seq<char>>,
) -> Option<Seq<char>> {
    path::resolved(workspace_name(configured, home, fallback), cwd)
}

/// Chooses the directory in which commands run, as an absolute path. Where it is
/// not there it is to be created; see [`workspace_or_fallback`]. From an absolute
/// working directory there is one wherever the name has no drive letter.
pub fn resolve_exec_workspace(
    configured: &Option<String>,
    home: &Option<String>,
    fallback: &str,
    cwd: &Option<String>,
) -> (r: Option<String>)
    ensures
        text::opt_view(r) == workspace_choice(
            text::opt_view(*configured),
            text::opt_view(*home),
            fallback@,
            text::opt_view(*cwd),
        ),
        r matches Some(out) ==> path::absolute(out@),
        (*cwd matches Some(dir) && path::absolute(dir@) && path::no_drive(
            workspace_name(text::opt_view(*configured), text::opt_view(*home), fallback@),
        )) ==> r is Some,
{
    match configured {
        Some(ws) => path::resolve_to_absolute(ws.as_str(), cwd),
        None => match home {
            Some(h) => {
                let dir = path::join_path(h.as_str(), ".gasket");
                path::resolve_to_absolute(dir.as_str(), cwd)
            },
            None => path::resolve_to_absolute(fallback, cwd),
        },
    }
}

/// The directory that is used: the chosen one, or the fallback, made absolute,
/// where there is none or it could not be created.
pub open spec fn workspace_used(
    chosen: Option<Seq<char>>,
    usable: bool,
    fallback: Seq<char>,
    cwd: Option<Seq<char>>,
) -> Option<Seq<char>> {
    if chosen is Some && usable {
        chosen
    } else {
        path::resolved(fallback, cwd)
    }
}

/// The chosen directory, or the fallback where it could not be created. None
/// where the fallback cannot be made absolute either.
pub fn workspace_or_fallback(
    chosen: Option<String>,
    usable: bool,
    fallback: &str,
    cwd: &Option<String>,
) -> (r: Option<String>)
    ensures
        text::opt_view(r) == workspace_used(
            text::opt_view(chosen),
            usable,
            fallback@,
            text::opt_view(*cwd),
        ),
        (*cwd matches Some(dir) && path::absolute(dir@) && path::no_drive(fallback@)) ==> r is Some,
{
    if chosen.is_some() && usable {
        chosen
    } else {
        path::resolve_to_absolute(fallback, cwd)
    }
}

/// The workspace is absolute, whichever way it came about, so that paths below
/// it can be told from others by their beginning. There is one wherever the
/// fallback is absolute.
pub proof fn law_workspace_is_absolute(
    configured: Option<Seq<char>>,
    home: Option<Seq<char>>,
    fallback: Seq<char>,
    cwd: Option<Seq<char>>,
    usable: bool,
)
    ensures
        ({
            let chosen = workspace_choice(configured, home, fallback, cwd);
            let used = workspace_used(chosen, usable, fallback, cwd);
            &&& chosen matches Some(dir) ==> path::absolute(dir)
            &&& used matches Some(dir) ==> path::absolute(dir)
            &&& path::absolute(fallback) ==> used is Some
        }),
{
    path::law_resolved_is_absolute(workspace_name(configured, home, fallback), cwd);
    path::law_resolved_is_absolute(fallback, cwd);
}

// ── the registry ────────────────────────────────────────────────────────

/// What an agent is there for. Only the orchestrator may start other agents.
#[derive(Clone, Copy, Debug, PartialEq, Eq, Structural)]
pub enum AgentRole {
    Orchestrator,
    Worker,
}

impl AgentRole {
    /// Whether an agent in this role may start other agents.
    pub fn can_spawn(self) -> (r: bool)
        ensures
            r == (self == AgentRole::Orchestrator),
    {
        match self {
            AgentRole::Orchestrator => true,
            AgentRole::Worker => false,
        }
    }
}

/// Which tool it is.
#[derive(Clone, Copy, Debug, PartialEq, Eq, Structural)]
pub enum ToolKind {
    ReadFile,
    ListDir,
    WebFetch,
    WebSearch,
    AskUser,
    WriteFile,
    EditFile,
    Exec,
    Spawn,
    SpawnParallel,
    QueryHistory,
    ClearSession,
    NewSession,
    Message,
    Cron,
    Context,
    HistorySearch,
    /// A workflow, which is a tool under its own name.
    Workflow,
    /// A plugin, which is a tool under its own name.
    Plugin,
}

/// What is shown of a tool and how it is handled.
pub struct ToolMetadata {
    pub display_name: String,
    pub category: String,
    pub tags: Vec<String>,
    pub requires_approval: bool,
    pub is_mutating: bool,
}

/// The view of a [`ToolMetadata`].
pub struct MetadataView {
    pub display_name: Seq<char>,
    pub category: Seq<char>,
    pub tags: Seq<Seq<char>>,
    pub requires_approval: bool,
    pub is_mutating: bool,
}

impl View for ToolMetadata {
    type V = MetadataView;

    open spec fn view(&self) -> MetadataView {
        MetadataView {
            display_name: self.display_name@,
            category: self.category@,
            tags: text::views(self.tags@),
            requires_approval: self.requires_approval,
            is_mutating: self.is_mutating,
        }
    }
}

/// The settings that a tool is made with.
pub enum ToolSettings {
    /// Its own defaults.
    Default,
    /// A part of the configuration.
    Given(Json),
    /// Those of a compactor: the model, its token budget, and the prompt for
    /// summaries where one is configured.
    Compactor { model: String, budget: u64, prompt: Option<String> },
}

/// The view of [`ToolSettings`].
pub enum SettingsView {
    Default,
    Given(JsonView),
    Compactor { model: Seq<char>, budget: u64, prompt: Option<Seq<char>> },
}

impl View for ToolSettings {
    type V = SettingsView;

    open spec fn view(&self) -> SettingsView {
        match self {
            ToolSettings::Default => SettingsView::Default,
            ToolSettings::Given(j) => SettingsView::Given(j@),
            ToolSettings::Compactor { model, budget, prompt } => SettingsView::Compactor {
                model: model@,
                budget: *budget,
                prompt: text::opt_view(*prompt),
            },
        }
    }
}

/// A tool with what it is set up with.
pub struct RegisteredTool {
    pub kind: ToolKind,
    /// The name by which it is called.
    pub name: String,
    /// The directory that it is confined to, or works in.
    pub dir: Option<String>,
    /// Whether commands are confined to the workspace.
    pub restricted: bool,
    pub settings: ToolSettings,
    pub metadata: Option<ToolMetadata>,
}

/// The view of a [`RegisteredTool`].
pub struct RegisteredView {
    pub kind: ToolKind,
    pub name: Seq<char>,
    pub dir: Option<Seq<char>>,
    pub restricted: bool,
    pub settings: SettingsView,
    pub metadata: Option<MetadataView>,
}

impl View for RegisteredTool {
    type V = RegisteredView;

    open spec fn view(&self) -> RegisteredView {
        RegisteredView {
            kind: self.kind,
            name: self.name@,
            dir: text::opt_view(self.dir),
            restricted: self.restricted,
            settings: self.settings@,
            metadata: match self.metadata {
                Some(m) => Some(m@),
                None => None,
            },
        }
    }
}

/// The tools after one more: a tool takes the place of one with its name.
pub open spec fn with_tool(m: Map<Seq<char>, RegisteredView>, t: RegisteredView) -> Map<
    Seq<char>,
    RegisteredView,
> {
    m.insert(t.name, t)
}

/// The tools after a list of them.
pub open spec fn with_tools(m: Map<Seq<char>, RegisteredView>, list: Seq<RegisteredView>) -> Map<
    Seq<char>,
    RegisteredView,
>
    decreases list.len(),
{
    if list.len() == 0 {
        m
    } else {
        with_tool(with_tools(m, list.drop_last()), list.last())
    }
}

proof fn lemma_with_two(
    m: Map<Seq<char>, RegisteredView>,
    a: Seq<RegisteredView>,
    b: Seq<RegisteredView>,
)
    ensures
        with_tools(m, a + b) == with_tools(with_tools(m, a), b),
    decreases b.len(),
{
    if b.len() == 0 {
        assert(a + b =~= a);
    } else {
        lemma_with_two(m, a, b.drop_last());
        assert((a + b).drop_last() =~= a + b.drop_last());
    }
}

/// The tools by name.
pub struct ToolRegistry {
    tools: Table<RegisteredTool>,
}

impl View for ToolRegistry {
    type V = Map<Seq<char>, RegisteredView>;

    closed spec fn view(&self) -> Map<Seq<char>, RegisteredView> {
        Map::new(|k: Seq<char>| self.tools@.dom().contains(k), |k: Seq<char>| self.tools@[k]@)
    }
}

impl ToolRegistry {
    /// Every tool stands under its own name.
    pub closed spec fn wf(self) -> bool {
        self.tools.wf()
    }

    /// No tools.
    pub fn new() -> (out: Self)
        ensures
            out.wf(),
            out@ == Map::<Seq<char>, RegisteredView>::empty(),
    {
        let out = ToolRegistry { tools: Table::new() };
        assert(out@ =~= Map::<Seq<char>, RegisteredView>::empty());
        out
    }

    /// Registers a tool under its name.
    pub fn register(&mut self, tool: RegisteredTool)
        requires
            old(self).wf(),
        ensures
            final(self).wf(),
            final(self)@ == with_tool(old(self)@, tool@),
    {
        let ghost before = self@;
        let ghost v = tool@;
        let name = text::copy_str(tool.name.as_str());
        self.tools.insert(name, tool);
        assert(self@ =~= with_tool(before, v));
    }

    /// The tool with a name.
    pub fn get(&self, name: &str) -> (r: Option<&RegisteredTool>)
        requires
            self.wf(),
        ensures
            match r {
                Some(t) => self@.dom().contains(name@) && self@[name@] == t@,
                None => !self@.dom().contains(name@),
            },
    {
        self.tools.get(name)
    }

    /// Registers tools one after the other.
    pub fn register_all(&mut self, list: Vec<RegisteredTool>)
        requires
            old(self).wf(),
        ensures
            final(self).wf(),
            final(self)@ == with_tools(old(self)@, registered_views(list@)),
    {
        let ghost start = self@;
        let ghost all = registered_views(list@);
        let ghost given = list@;
        let mut rest = list;
        let ghost mut i: int = 0;
        while rest.len() > 0
            invariant
                self.wf(),
                all == registered_views(given),
                0 <= i <= given.len(),
                rest@ == given.skip(i),
                self@ == with_tools(start, all.take(i)),
            decreases rest@.len(),
        {
            let t = rest.remove(0);
            proof {
                assert(t == given[i]);
                assert(rest@ =~= given.skip(i + 1));
                assert(all.take(i + 1).drop_last() =~= all.take(i));
                assert(all.take(i + 1).last() == t@);
                i = i + 1;
            }
            self.register(t);
        }
        assert(all.take(i) =~= all);
    }
}

/// The views of tools.
pub open spec fn registered_views(list: Seq<RegisteredTool>) -> Seq<RegisteredView> {
    Seq::new(list.len(), |i: int| list[i]@)
}

// ── providers ───────────────────────────────────────────────────────────

/// A part of the system that provides tools.
pub trait ToolProvider: Send + Sync {
    /// The tools that it provides.
    spec fn provided(&self) -> Seq<RegisteredView>;

    /// Registers its tools.
    fn register_tools(&self, registry: &mut ToolRegistry)
        requires
            old(registry).wf(),
        ensures
            final(registry).wf(),
            final(registry)@ == with_tools(old(registry)@, self.provided()),
    ;
}

/// A built-in tool with its metadata.
pub open spec fn builtin(
    kind: ToolKind,
    name: Seq<char>,
    dir: Option<Seq<char>>,
    restricted: bool,
    display_name: Seq<char>,
    category: Seq<char>,
    tags: Seq<Seq<char>>,
    guarded: bool,
) -> RegisteredView {
    RegisteredView {
        kind,
        name,
        dir,
        restricted,
        settings: SettingsView::Default,
        metadata: Some(
            MetadataView {
                display_name,
                category,
                tags,
                requires_approval: guarded,
                is_mutating: guarded,
            },
        ),
    }
}

fn tags2(a: &str, b: &str) -> (out: Vec<String>)
    ensures
        text::views(out@) == seq![a@, b@],
{
    let mut out: Vec<String> = Vec::new();
    out.push(text::copy_str(a));
    out.push(text::copy_str(b));
    assert(text::views(out@) =~= seq![a@, b@]);
    out
}

fn tags3(a: &str, b: &str, c: &str) -> (out: Vec<String>)
    ensures
        text::views(out@) == seq![a@, b@, c@],
{
    let mut out: Vec<String> = tags2(a, b);
    let ghost before = out@;
    out.push(text::copy_str(c));
    assert(text::views(out@) =~= text::views(before).push(c@));
    assert(text::views(out@) =~= seq![a@, b@, c@]);
    out
}

fn make(
    kind: ToolKind,
    name: &str,
    dir: &Option<String>,
    restricted: bool,
    display_name: &str,
    category: &str,
    tags: Vec<String>,
    guarded: bool,
) -> (out: RegisteredTool)
    ensures
        out@ == builtin(
            kind,
            name@,
            text::opt_view(*dir),
            restricted,
            display_name@,
            category@,
            text::views(tags@),
            guarded,
        ),
{
    RegisteredTool {
        kind,
        name: text::copy_str(name),
        dir: text::copy_opt(dir),
        restricted,
        settings: ToolSettings::Default,
        metadata: Some(
            ToolMetadata {
                display_name: text::copy_str(display_name),
                category: text::copy_str(category),
                tags,
                requires_approval: guarded,
                is_mutating: guarded,
            },
        ),
    }
}

/// A tool with other settings.
pub open spec fn with_settings(t: RegisteredView, settings: SettingsView) -> RegisteredView {
    RegisteredView { settings, ..t }
}

fn set_up(t: RegisteredTool, settings: ToolSettings) -> (out: RegisteredTool)
    ensures
        out@ == with_settings(t@, settings@),
{
    let mut out = t;
    out.settings = settings;
    out
}

/// What of the configuration concerns tools.
pub struct ToolsConfig {
    /// Whether files outside the workspace are out of bounds.
    pub restrict_to_workspace: bool,
    /// The directory for commands, where one is configured.
    pub exec_workspace: Option<String>,
    /// The settings of the tools for the web.
    pub web: Json,
    /// The settings of the tool for commands.
    pub commands: Json,
}

impl ToolsConfig {
    /// A copy.
    pub fn copy(&self) -> (out: Self)
        ensures
            out.restrict_to_workspace == self.restrict_to_workspace,
            text::opt_view(out.exec_workspace) == text::opt_view(self.exec_workspace),
            out.web@ == self.web@,
            out.commands@ == self.commands@,
    {
        ToolsConfig {
            restrict_to_workspace: self.restrict_to_workspace,
            exec_workspace: text::copy_opt(&self.exec_workspace),
            web: self.web.copy(),
            commands: self.commands.copy(),
        }
    }
}

/// What is found around an agent when its tools are set up.
pub struct Surroundings {
    /// The home directory, where it is known.
    pub home: Option<String>,
    /// The working directory, where it is known.
    pub cwd: Option<String>,
    /// Whether the workspace that is chosen is there or could be created.
    pub workspace_usable: bool,
    /// Whether a client can be made with the settings for the web.
    pub web_client: bool,
}

impl Surroundings {
    /// A copy.
    pub fn copy(&self) -> (out: Self)
        ensures
            text::opt_view(out.home) == text::opt_view(self.home),
            text::opt_view(out.cwd) == text::opt_view(self.cwd),
            out.workspace_usable == self.workspace_usable,
            out.web_client == self.web_client,
    {
        Surroundings {
            home: text::copy_opt(&self.home),
            cwd: text::copy_opt(&self.cwd),
            workspace_usable: self.workspace_usable,
            web_client: self.web_client,
        }
    }
}

/// The workspace that is used, given the fallback.
pub open spec fn workspace_for(
    config: ToolsConfig,
    around: Surroundings,
    fallback: Seq<char>,
) -> Option<Seq<char>> {
    workspace_used(
        workspace_choice(
            text::opt_view(config.exec_workspace),
            text::opt_view(around.home),
            fallback,
            text::opt_view(around.cwd),
        ),
        around.workspace_usable,
        fallback,
        text::opt_view(around.cwd),
    )
}

/// The workspace that is used. From an absolute working directory there is one
/// wherever the fallback has no drive letter.
pub fn find_workspace(config: &ToolsConfig, around: &Surroundings, fallback: &str) -> (r: Option<
    String,
>)
    ensures
        text::opt_view(r) == workspace_for(*config, *around, fallback@),
        (around.cwd matches Some(dir) && path::absolute(dir@) && path::no_drive(fallback@)) ==> r
            is Some,
{
    let chosen = resolve_exec_workspace(
        &config.exec_workspace,
        &around.home,
        fallback,
        &around.cwd,
    );
    workspace_or_fallback(chosen, around.workspace_usable, fallback, &around.cwd)
}

/// The workspace of an agent: the chosen one, or else the working directory.
pub open spec fn main_workspace(config: ToolsConfig, around: Surroundings) -> Option<Seq<char>> {
    workspace_for(config, around, "."@)
}

/// Where commands run: the chosen workspace, or else that of the agent.
pub open spec fn commands_workspace(
    config: ToolsConfig,
    around: Surroundings,
    workspace: Seq<char>,
) -> Seq<char> {
    match workspace_for(config, around, workspace) {
        Some(dir) => dir,
        None => workspace,
    }
}

/// What the tools that every agent has are set up with.
pub struct CoreView {
    /// The directory that files are confined to.
    pub allowed_dir: Option<Seq<char>>,
    /// Where commands run.
    pub exec_workspace: Seq<char>,
    /// Whether commands are confined to the workspace.
    pub restrict: bool,
    pub web: JsonView,
    pub web_client: bool,
    pub commands: JsonView,
    pub role: AgentRole,
}

/// What they are set up with for an agent in a role with a workspace.
pub open spec fn core_view(
    config: ToolsConfig,
    around: Surroundings,
    workspace: Seq<char>,
    role: AgentRole,
) -> CoreView {
    CoreView {
        allowed_dir: if config.restrict_to_workspace {
            Some(workspace)
        } else {
            None
        },
        exec_workspace: commands_workspace(config, around, workspace),
        restrict: config.restrict_to_workspace,
        web: config.web@,
        web_client: around.web_client,
        commands: config.commands@,
        role,
    }
}

/// The tools that every agent has: files, web, commands, and for the
/// orchestrator those that start other agents. Tools that change something ask
/// for approval. Where no client can be made with the settings for the web, the
/// tool that fetches pages has its own.
pub open spec fn core_tools(c: CoreView) -> Seq<RegisteredView> {
    let common = seq![
        builtin(
            ToolKind::ReadFile,
            "read_file"@,
            c.allowed_dir,
            false,
            "Read File"@,
            "filesystem"@,
            seq!["read"@, "file"@],
            false,
        ),
        builtin(
            ToolKind::ListDir,
            "list_dir"@,
            c.allowed_dir,
            false,
            "List Directory"@,
            "filesystem"@,
            seq!["read"@, "directory"@],
            false,
        ),
        with_settings(
            builtin(
                ToolKind::WebFetch,
                "web_fetch"@,
                None,
                false,
                "Web Fetch"@,
                "web"@,
                seq!["http"@, "fetch"@],
                false,
            ),
            if c.web_client {
                SettingsView::Given(c.web)
            } else {
                SettingsView::Default
            },
        ),
        with_settings(
            builtin(
                ToolKind::WebSearch,
                "web_search"@,
                None,
                false,
                "Web Search"@,
                "web"@,
                seq!["search"@, "web"@],
                false,
            ),
            SettingsView::Given(c.web),
        ),
        builtin(
            ToolKind::AskUser,
            "ask_user"@,
            None,
            false,
            "Ask User"@,
            "interaction"@,
            seq!["user"@, "prompt"@],
            false,
        ),
        builtin(
            ToolKind::WriteFile,
            "write_file"@,
            c.allowed_dir,
            false,
            "Write File"@,
            "filesystem"@,
            seq!["write"@, "file"@],
            true,
        ),
        builtin(
            ToolKind::EditFile,
            "edit_file"@,
            c.allowed_dir,
            false,
            "Edit File"@,
            "filesystem"@,
            seq!["edit"@, "file"@],
            true,
        ),
        with_settings(
            builtin(
                ToolKind::Exec,
                "exec"@,
                Some(c.exec_workspace),
                c.restrict,
                "Execute Command"@,
                "system"@,
                seq!["shell"@, "exec"@],
                true,
            ),
            SettingsView::Given(c.commands),
        ),
    ];
    if c.role == AgentRole::Orchestrator {
        common + spawn_tools()
    } else {
        common
    }
}

/// The tools that start other agents.
pub open spec fn spawn_tools() -> Seq<RegisteredView> {
    seq![
        builtin(
            ToolKind::Spawn,
            "spawn"@,
            None,
            false,
            "Spawn Subagent"@,
            "system"@,
            seq!["spawn"@, "agent"@],
            false,
        ),
        builtin(
            ToolKind::SpawnParallel,
            "spawn_parallel"@,
            None,
            false,
            "Spawn Parallel"@,
            "system"@,
            seq!["spawn"@, "parallel"@, "agent"@],
            false,
        ),
    ]
}

/// Provides the tools that every agent has.
pub struct CoreToolProvider {
    restrict: bool,
    allowed_dir: Option<String>,
    exec_workspace: String,
    web: Json,
    web_client: bool,
    commands: Json,
    role: AgentRole,
}

impl View for CoreToolProvider {
    type V = CoreView;

    closed spec fn view(&self) -> CoreView {
        CoreView {
            allowed_dir: text::opt_view(self.allowed_dir),
            exec_workspace: self.exec_workspace@,
            restrict: self.restrict,
            web: self.web@,
            web_client: self.web_client,
            commands: self.commands@,
            role: self.role,
        }
    }
}

impl CoreToolProvider {
    /// A provider for an agent in a role. File tools are confined to the
    /// workspace only where the configuration says so; commands run in the
    /// chosen workspace, or else in this one.
    pub fn new(
        config: &ToolsConfig,
        workspace: &str,
        around: &Surroundings,
        role: AgentRole,
    ) -> (out: Self)
        ensures
            out@ == core_view(*config, *around, workspace@, role),
    {
        let allowed_dir: Option<String> = if config.restrict_to_workspace {
            Some(text::copy_str(workspace))
        } else {
            None
        };
        let exec_workspace: String = match find_workspace(config, around, workspace) {
            Some(dir) => dir,
            None => text::copy_str(workspace),
        };
        CoreToolProvider {
            restrict: config.restrict_to_workspace,
            allowed_dir,
            exec_workspace,
            web: config.web.copy(),
            web_client: around.web_client,
            commands: config.commands.copy(),
            role,
        }
    }
}

impl ToolProvider for CoreToolProvider {
    open spec fn provided(&self) -> Seq<RegisteredView> {
        core_tools(self@)
    }

    fn register_tools(&self, registry: &mut ToolRegistry) {
        let none: Option<String> = None;
        let workspace: Option<String> = Some(text::copy_str(self.exec_workspace.as_str()));
        let fetch_settings: ToolSettings = if self.web_client {
            ToolSettings::Given(self.web.copy())
        } else {
            ToolSettings::Default
        };
        let mut list: Vec<RegisteredTool> = Vec::new();
        list.push(
            make(
                ToolKind::ReadFile,
                "read_file",
                &self.allowed_dir,
                false,
                "Read File",
                "filesystem",
                tags2("read", "file"),
                false,
            ),
        );
        list.push(
            make(
                ToolKind::ListDir,
                "list_dir",
                &self.allowed_dir,
                false,
                "List Directory",
                "filesystem",
                tags2("read", "directory"),
                false,
            ),
        );
        list.push(
            set_up(
                make(
                    ToolKind::WebFetch,
                    "web_fetch",
                    &none,
                    false,
                    "Web Fetch",
                    "web",
                    tags2("http", "fetch"),
                    false,
                ),
                fetch_settings,
            ),
        );
        list.push(
            set_up(
                make(
                    ToolKind::WebSearch,
                    "web_search",
                    &none,
                    false,
                    "Web Search",
                    "web",
                    tags2("search", "web"),
                    false,
                ),
                ToolSettings::Given(self.web.copy()),
            ),
        );
        list.push(
            make(
                ToolKind::AskUser,
                "ask_user",
                &none,
                false,
                "Ask User",
                "interaction",
                tags2("user", "prompt"),
                false,
            ),
        );
        list.push(
            make(
                ToolKind::WriteFile,
                "write_file",
                &self.allowed_dir,
                false,
                "Write File",
                "filesystem",
                tags2("write", "file"),
                true,
            ),
        );
        list.push(
            make(
                ToolKind::EditFile,
                "edit_file",
                &self.allowed_dir,
                false,
                "Edit File",
                "filesystem",
                tags2("edit", "file"),
                true,
            ),
        );
        list.push(
            set_up(
                make(
                    ToolKind::Exec,
                    "exec",
                    &workspace,
                    self.restrict,
                    "Execute Command",
                    "system",
                    tags2("shell", "exec"),
                    true,
                ),
                ToolSettings::Given(self.commands.copy()),
            ),
        );
        if self.role.can_spawn() {
            list.push(
                make(
                    ToolKind::Spawn,
                    "spawn",
                    &none,
                    false,
                    "Spawn Subagent",
                    "system",
                    tags2("spawn", "agent"),
                    false,
                ),
            );
            list.push(
                make(
                    ToolKind::SpawnParallel,
                    "spawn_parallel",
                    &none,
                    false,
                    "Spawn Parallel",
                    "system",
                    tags3("spawn", "parallel", "agent"),
                    false,
                ),
            );
        }
        assert(registered_views(list@) =~= self.provided());
        registry.register_all(list);
    }
}

/// The tools that look into the stores.
pub open spec fn system_tools() -> Seq<RegisteredView> {
    seq![
        builtin(
            ToolKind::QueryHistory,
            "query_history"@,
            None,
            false,
            "Query History"@,
            "history"@,
            seq!["history"@, "search"@],
            false,
        ),
        builtin(
            ToolKind::ClearSession,
            "clear_session"@,
            None,
            false,
            "Clear Session History"@,
            "system"@,
            seq!["session"@, "cleanup"@, "history"@],
            true,
        ),
        builtin(
            ToolKind::NewSession,
            "new_session"@,
            None,
            false,
            "New Session"@,
            "system"@,
            seq!["session"@, "new"@, "reset"@],
            true,
        ),
    ]
}

/// Provides the tools that look into the stores, where there are both.
pub struct SystemToolProvider {
    event_store: bool,
    session_store: bool,
}

impl SystemToolProvider {
    /// Whether there are both stores.
    pub closed spec fn has_stores(self) -> bool {
        self.event_store && self.session_store
    }

    /// A provider, given which of the stores there are.
    pub fn new(event_store: bool, session_store: bool) -> (out: Self)
        ensures
            out.has_stores() == (event_store && session_store),
    {
        SystemToolProvider { event_store, session_store }
    }
}

impl ToolProvider for SystemToolProvider {
    open spec fn provided(&self) -> Seq<RegisteredView> {
        if self.has_stores() {
            system_tools()
        } else {
            Seq::empty()
        }
    }

    fn register_tools(&self, registry: &mut ToolRegistry) {
        let none: Option<String> = None;
        let mut list: Vec<RegisteredTool> = Vec::new();
        if self.event_store && self.session_store {
            list.push(
                make(
                    ToolKind::QueryHistory,
                    "query_history",
                    &none,
                    false,
                    "Query History",
                    "history",
                    tags2("history", "search"),
                    false,
                ),
            );
            list.push(
                make(
                    ToolKind::ClearSession,
                    "clear_session",
                    &none,
                    false,
                    "Clear Session History",
                    "system",
                    tags3("session", "cleanup", "history"),
                    true,
                ),
            );
            list.push(
                make(
                    ToolKind::NewSession,
                    "new_session",
                    &none,
                    false,
                    "New Session",
                    "system",
                    tags3("session", "new", "reset"),
                    true,
                ),
            );
        }
        assert(registered_views(list@) =~= self.provided());
        registry.register_all(list);
    }
}

// ── building a registry ─────────────────────────────────────────────────

/// What a registry is built from.
pub struct ToolRegistryConfig {
    pub tools: ToolsConfig,
    pub around: Surroundings,
    pub role: AgentRole,
    /// Tools of one mode of running, such as that of the gateway.
    pub extra_tools: Vec<RegisteredTool>,
    /// Whether past conversations can be searched by meaning.
    pub history_search: bool,
    /// The names of the workflows that were found.
    pub workflows: Vec<String>,
    /// The names of the plugins that were found.
    pub plugins: Vec<String>,
}

/// What goes into a registry.
pub struct RegistryView {
    pub core: CoreView,
    pub extra_tools: Seq<RegisteredView>,
    pub history_search: bool,
    pub workflows: Seq<Seq<char>>,
    pub plugins: Seq<Seq<char>>,
}

impl ToolRegistryConfig {
    /// What goes into the registry of an agent with a workspace.
    pub open spec fn with_workspace(self, workspace: Seq<char>) -> RegistryView {
        RegistryView {
            core: core_view(self.tools, self.around, workspace, self.role),
            extra_tools: registered_views(self.extra_tools@),
            history_search: self.history_search,
            workflows: text::views(self.workflows@),
            plugins: text::views(self.plugins@),
        }
    }
}

/// A tool without metadata.
pub open spec fn plain_tool(kind: ToolKind, name: Seq<char>) -> RegisteredView {
    RegisteredView { kind, name, dir: None, restricted: false, settings: SettingsView::Default, metadata: None }
}

/// Tools without metadata, by name.
pub open spec fn plain_tools(kind: ToolKind, names: Seq<Seq<char>>) -> Seq<RegisteredView> {
    Seq::new(names.len(), |i: int| plain_tool(kind, names[i]))
}

/// All tools of an agent in the order in which they are registered. Where two
/// have one name the later one stands. Workflows start other agents, so only an
/// agent that may do so gets them.
pub open spec fn all_tools(c: RegistryView) -> Seq<RegisteredView> {
    core_tools(c.core) + system_tools() + c.extra_tools + (if c.history_search {
        seq![plain_tool(ToolKind::HistorySearch, "history_search"@)]
    } else {
        Seq::empty()
    }) + (if c.core.role == AgentRole::Orchestrator {
        plain_tools(ToolKind::Workflow, c.workflows)
    } else {
        Seq::empty()
    }) + plain_tools(ToolKind::Plugin, c.plugins)
}

fn named_tools(kind: ToolKind, names: &Vec<String>) -> (out: Vec<RegisteredTool>)
    ensures
        registered_views(out@) == plain_tools(kind, text::views(names@)),
{
    let mut out: Vec<RegisteredTool> = Vec::new();
    for i in 0..names.len()
        invariant
            out@.len() == i,
            forall|j: int|
                0 <= j < i ==> (#[trigger] out@[j])@ == plain_tool(kind, names@[j]@),
    {
        out.push(
            RegisteredTool {
                kind,
                name: text::copy_str(names[i].as_str()),
                dir: None,
                restricted: false,
                settings: ToolSettings::Default,
                metadata: None,
            },
        );
    }
    assert(registered_views(out@) =~= plain_tools(kind, text::views(names@)));
    out
}

/// Where workflows are looked for.
pub fn workflows_dir(workspace: &str) -> (out: String)
    ensures
        out@ == path::below(workspace@, "workflows"@),
{
    path::join_path(workspace, "workflows")
}

/// Builds the registry of an agent in its workspace. Where that cannot be made
/// absolute there is none; from an absolute working directory there always is.
pub fn build_tool_registry(c: ToolRegistryConfig) -> (r: Option<ToolRegistry>)
    ensures
        match main_workspace(c.tools, c.around) {
            Some(workspace) => r matches Some(out) && out.wf() && out@ == with_tools(
                Map::empty(),
                all_tools(c.with_workspace(workspace)),
            ),
            None => r is None,
        },
        (c.around.cwd matches Some(dir) && path::absolute(dir@)) ==> r is Some,
{
    proof {
        reveal_strlit(".");
    }
    match find_workspace(&c.tools, &c.around, ".") {
        Some(workspace) => Some(registry_in(c, workspace.as_str())),
        None => None,
    }
}

/// Builds the registry of an agent with a workspace.
fn registry_in(c: ToolRegistryConfig, workspace: &str) -> (out: ToolRegistry)
    ensures
        out.wf(),
        out@ == with_tools(Map::empty(), all_tools(c.with_workspace(workspace@))),
{
    let mut tools = ToolRegistry::new();
    let ghost none = Map::<Seq<char>, RegisteredView>::empty();
    let core = CoreToolProvider::new(&c.tools, workspace, &c.around, c.role);
    core.register_tools(&mut tools);
    let system = SystemToolProvider::new(true, true);
    let ghost a = core.provided();
    let ghost b = system_tools();
    let ghost x = registered_views(c.extra_tools@);
    system.register_tools(&mut tools);
    proof {
        lemma_with_two(none, a, b);
        lemma_with_two(none, a + b, x);
    }
    tools.register_all(c.extra_tools);
    let ghost h = if c.history_search {
        seq![plain_tool(ToolKind::HistorySearch, "history_search"@)]
    } else {
        Seq::empty()
    };
    proof {
        lemma_with_two(none, a + b + x, h);
    }
    if c.history_search {
        let t = RegisteredTool {
            kind: ToolKind::HistorySearch,
            name: text::copy_str("history_search"),
            dir: None,
            restricted: false,
            settings: ToolSettings::Default,
            metadata: None,
        };
        assert(h.drop_last() =~= Seq::empty());
        assert(with_tools(tools@, h.drop_last()) == tools@);
        tools.register(t);
    }
    let ghost w = if c.role == AgentRole::Orchestrator {
        plain_tools(ToolKind::Workflow, text::views(c.workflows@))
    } else {
        Seq::empty()
    };
    proof {
        lemma_with_two(none, a + b + x + h, w);
    }
    if c.role.can_spawn() {
        tools.register_all(named_tools(ToolKind::Workflow, &c.workflows));
    }
    proof {
        lemma_with_two(
            none,
            a + b + x + h + w,
            plain_tools(ToolKind::Plugin, text::views(c.plugins@)),
        );
    }
    tools.register_all(named_tools(ToolKind::Plugin, &c.plugins));
    tools
}

// ── laws ────────────────────────────────────────────────────────────────

/// A name is taken where it was before, or where a tool in the list has it.
pub proof fn lemma_dom(m: Map<Seq<char>, RegisteredView>, list: Seq<RegisteredView>, name: Seq<char>)
    ensures
        with_tools(m, list).dom().contains(name) <==> m.dom().contains(name) || exists|i: int|
            0 <= i < list.len() && (#[trigger] list[i]).name == name,
    decreases list.len(),
{
    if list.len() > 0 {
        lemma_dom(m, list.drop_last(), name);
        if exists|i: int| 0 <= i < list.len() && (#[trigger] list[i]).name == name {
            let i = choose|i: int| 0 <= i < list.len() && (#[trigger] list[i]).name == name;
            if i < list.len() - 1 {
                assert(list.drop_last()[i].name == name);
            }
        }
        if exists|i: int|
            0 <= i < list.drop_last().len() && (#[trigger] list.drop_last()[i]).name == name {
            let i = choose|i: int|
                0 <= i < list.drop_last().len() && (#[trigger] list.drop_last()[i]).name == name;
            assert(list[i].name == name);
        }
        if list.last().name == name {
            assert(list[list.len() - 1].name == name);
        }
    }
}

/// Of the tools that a worker has, none is called `spawn` or `spawn_parallel`.
pub proof fn lemma_worker_names(c: CoreView)
    requires
        c.role == AgentRole::Worker,
    ensures
        forall|i: int|
            #![trigger (core_tools(c) + system_tools())[i]]
            0 <= i < (core_tools(c) + system_tools()).len() ==> {
                let name = (core_tools(c) + system_tools())[i].name;
                name != "spawn"@ && name != "spawn_parallel"@
            },
{
    reveal_strlit("spawn");
    reveal_strlit("spawn_parallel");
    reveal_strlit("read_file");
    reveal_strlit("list_dir");
    reveal_strlit("web_fetch");
    reveal_strlit("web_search");
    reveal_strlit("ask_user");
    reveal_strlit("write_file");
    reveal_strlit("edit_file");
    reveal_strlit("exec");
    reveal_strlit("query_history");
    reveal_strlit("clear_session");
    reveal_strlit("new_session");
    assert("spawn"@.len() == 5);
    assert("spawn_parallel"@.len() == 14);
    assert("read_file"@.len() == 9);
    assert("list_dir"@.len() == 8);
    assert("web_fetch"@.len() == 9);
    assert("web_search"@.len() == 10);
    assert("ask_user"@.len() == 8);
    assert("write_file"@.len() == 10);
    assert("edit_file"@.len() == 9);
    assert("exec"@.len() == 4);
    assert("query_history"@.len() == 13);
    assert("clear_session"@.len() == 13);
    assert("new_session"@.len() == 11);
}

/// The orchestrator can start other agents and a worker cannot: of the tools
/// that every agent has, only the orchestrator's name `spawn` and
/// `spawn_parallel`.
pub proof fn law_only_the_orchestrator_spawns(c: CoreView)
    ensures
        with_tools(Map::empty(), core_tools(c)).dom().contains(
            "spawn"@,
        ) <==> c.role == AgentRole::Orchestrator,
        with_tools(Map::empty(), core_tools(c)).dom().contains(
            "spawn_parallel"@,
        ) <==> c.role == AgentRole::Orchestrator,
{
    let list = core_tools(c);
    lemma_dom(Map::empty(), list, "spawn"@);
    lemma_dom(Map::empty(), list, "spawn_parallel"@);
    if c.role == AgentRole::Worker {
        lemma_worker_names(c);
        assert forall|i: int| 0 <= i < list.len() implies (#[trigger] list[i]).name != "spawn"@
            && list[i].name != "spawn_parallel"@ by {
            assert(list[i] == (list + system_tools())[i]);
        }
    }
    if c.role == AgentRole::Orchestrator {
        assert(list[8].name == "spawn"@);
        assert(list[9].name == "spawn_parallel"@);
    }
}

/// Every built-in tool that changes something asks for approval first.
pub proof fn law_mutating_tools_need_approval(c: CoreView)
    ensures
        forall|i: int|
            #![trigger (core_tools(c) + system_tools())[i]]
            0 <= i < (core_tools(c) + system_tools()).len() ==> {
                let m = (core_tools(c) + system_tools())[i].metadata;
                m is Some && (m->0.is_mutating ==> m->0.requires_approval)
            },
{
}

/// Commands run in the workspace of the agent: the two are chosen one after the
/// other, the first as the fallback of the second, and come out the same.
pub proof fn law_commands_run_in_the_workspace(config: ToolsConfig, around: Surroundings)
    ensures
        main_workspace(config, around) matches Some(workspace) ==> commands_workspace(
            config,
            around,
            workspace,
        ) == workspace,
{
}

/// The configured directory is where commands run; without one it is `.gasket`
/// in the home directory; and the fallback stands in only where no home is known.
pub proof fn law_configured_workspace_comes_first(
    configured: &Option<String>,
    home: &Option<String>,
    fallback: &str,
    cwd: &Option<String>,
    r: Option<String>,
)
    requires
        call_ensures(resolve_exec_workspace, (configured, home, fallback, cwd), r),
    ensures
        *configured matches Some(ws) ==> (path::absolute(ws@) ==> (r matches Some(d) && d@
            == ws@)),
        *configured is None ==> (*home matches Some(h) ==> (path::absolute(
            path::below(h@, ".gasket"@),
        ) ==> (r matches Some(d) && d@ == path::below(h@, ".gasket"@)))),
        *configured is None && *home is None && path::absolute(fallback@) ==> (r matches Some(d)
            && d@ == fallback@),
        *configured matches Some(ws) ==> text::opt_view(r) == path::resolved(
            ws@,
            text::opt_view(*cwd),
        ),
        *configured is None ==> (*home matches Some(h) ==> text::opt_view(r) == path::resolved(
            path::below(h@, ".gasket"@),
            text::opt_view(*cwd),
        )),
        *configured is None && *home is None ==> text::opt_view(r) == path::resolved(
            fallback@,
            text::opt_view(*cwd),
        ),
{
}

/// A chosen directory that can be used is used; otherwise the fallback is.
pub proof fn law_usable_workspace_is_used(
    chosen: Option<String>,
    usable: bool,
    fallback: &str,
    cwd: &Option<String>,
    r: Option<String>,
)
    requires
        call_ensures(workspace_or_fallback, (chosen, usable, fallback, cwd), r),
    ensures
        chosen matches Some(d) ==> (usable ==> (r matches Some(w) && w@ == d@)),
        (chosen is None || !usable) && path::absolute(fallback@) ==> (r matches Some(w) && w@
            == fallback@),
        (chosen is None || !usable) ==> text::opt_view(r) == path::resolved(
            fallback@,
            text::opt_view(*cwd),
        ),
{
}

/// A tool that is registered is found under its name, in place of any other with
/// that name, and every other name is left alone.
pub proof fn law_registered_tool_is_found(r: &mut ToolRegistry, t: RegisteredTool, name: Seq<char>)
    requires
        call_ensures(ToolRegistry::register, (r, t), ()),
    ensures
        final(r)@.dom().contains(t.name@),
        final(r)@[t.name@] == t@,
        name != t.name@ ==> (final(r)@.dom().contains(name) <==> old(r)@.dom().contains(name)),
        name != t.name@ && old(r)@.dom().contains(name) ==> final(r)@[name] == old(r)@[name],
{
}

/// Of tools that are registered one after the other, the last with a name is the
/// one that stands under it; a name that none of them has is left alone.
pub proof fn law_last_of_a_name_stands(
    m: Map<Seq<char>, RegisteredView>,
    list: Seq<RegisteredView>,
    name: Seq<char>,
    k: int,
)
    requires
        -1 <= k < list.len(),
        k >= 0 ==> list[k].name == name,
        forall|i: int| k < i < list.len() ==> (#[trigger] list[i]).name != name,
    ensures
        k >= 0 ==> with_tools(m, list).dom().contains(name) && with_tools(m, list)[name] == list[k],
        k == -1 ==> (with_tools(m, list).dom().contains(name) <==> m.dom().contains(name)),
        k == -1 && m.dom().contains(name) ==> with_tools(m, list)[name] == m[name],
    decreases list.len(),
{
    if list.len() > 0 {
        let head = list.drop_last();
        if k < head.len() {
            assert(list[list.len() - 1].name != name);
            assert forall|i: int| k < i < head.len() implies (#[trigger] head[i]).name != name by {
                assert(head[i] == list[i]);
            }
            if k >= 0 {
                assert(head[k] == list[k]);
            }
            law_last_of_a_name_stands(m, head, name, k);
        }
    }
}

/// Whether a kind of tool changes something.
pub open spec fn changes_something(kind: ToolKind) -> bool {
    ||| kind == ToolKind::WriteFile
    ||| kind == ToolKind::EditFile
    ||| kind == ToolKind::Exec
    ||| kind == ToolKind::ClearSession
    ||| kind == ToolKind::NewSession
}

/// Whether a kind of tool works on files.
pub open spec fn works_on_files(kind: ToolKind) -> bool {
    ||| kind == ToolKind::ReadFile
    ||| kind == ToolKind::ListDir
    ||| kind == ToolKind::WriteFile
    ||| kind == ToolKind::EditFile
}

/// The name under which a model calls a built-in kind of tool.
pub open spec fn name_of(kind: ToolKind) -> Seq<char> {
    match kind {
        ToolKind::ReadFile => "read_file"@,
        ToolKind::ListDir => "list_dir"@,
        ToolKind::WebFetch => "web_fetch"@,
        ToolKind::WebSearch => "web_search"@,
        ToolKind::AskUser => "ask_user"@,
        ToolKind::WriteFile => "write_file"@,
        ToolKind::EditFile => "edit_file"@,
        ToolKind::Exec => "exec"@,
        ToolKind::Spawn => "spawn"@,
        ToolKind::SpawnParallel => "spawn_parallel"@,
        ToolKind::QueryHistory => "query_history"@,
        ToolKind::ClearSession => "clear_session"@,
        ToolKind::NewSession => "new_session"@,
        _ => Seq::empty(),
    }
}

/// Every built-in tool is set up as it should be: it goes by its own name; the
/// tools for files are confined to the allowed directory and no others are; only
/// commands run in the workspace, confined to it where that is asked for; the
/// settings reach the tools that they are for; and approval is asked for exactly
/// where something is changed.
pub proof fn law_built_in_tools_are_set_up(c: CoreView, i: int)
    requires
        0 <= i < (core_tools(c) + system_tools()).len(),
    ensures
        ({
            let t = (core_tools(c) + system_tools())[i];
            &&& t.name == name_of(t.kind)
            &&& works_on_files(t.kind) ==> t.dir == c.allowed_dir
            &&& t.kind == ToolKind::Exec ==> t.dir == Some(c.exec_workspace) && t.restricted
                == c.restrict && t.settings == SettingsView::Given(c.commands)
            &&& !works_on_files(t.kind) && t.kind != ToolKind::Exec ==> t.dir is None
            &&& t.kind != ToolKind::Exec ==> !t.restricted
            &&& t.kind == ToolKind::WebSearch ==> t.settings == SettingsView::Given(c.web)
            &&& t.kind == ToolKind::WebFetch ==> t.settings == (if c.web_client {
                SettingsView::Given(c.web)
            } else {
                SettingsView::Default
            })
            &&& t.metadata matches Some(m) && m.requires_approval == changes_something(t.kind)
                && m.is_mutating == changes_something(t.kind)
        }),
{
}

/// Every agent has the tools for files, the web, questions and commands, and
/// those that look into the stores.
pub proof fn law_every_agent_has_the_common_tools(c: CoreView, kind: ToolKind)
    requires
        works_on_files(kind) || kind == ToolKind::WebFetch || kind == ToolKind::WebSearch || kind
            == ToolKind::AskUser || kind == ToolKind::Exec || kind == ToolKind::QueryHistory || kind
            == ToolKind::ClearSession || kind == ToolKind::NewSession,
    ensures
        exists|i: int|
            0 <= i < (core_tools(c) + system_tools()).len() && (#[trigger] (core_tools(c)
                + system_tools())[i]).kind == kind,
{
    let list = core_tools(c) + system_tools();
    let n = core_tools(c).len() as int;
    assert(list[0].kind == ToolKind::ReadFile);
    assert(list[1].kind == ToolKind::ListDir);
    assert(list[2].kind == ToolKind::WebFetch);
    assert(list[3].kind == ToolKind::WebSearch);
    assert(list[4].kind == ToolKind::AskUser);
    assert(list[5].kind == ToolKind::WriteFile);
    assert(list[6].kind == ToolKind::EditFile);
    assert(list[7].kind == ToolKind::Exec);
    assert(list[n].kind == ToolKind::QueryHistory);
    assert(list[n + 1].kind == ToolKind::ClearSession);
    assert(list[n + 2].kind == ToolKind::NewSession);
}

/// Files are confined to the workspace where the configuration says so, and not
/// confined at all where it does not; and the configured settings are those that
/// tools get.
pub proof fn law_confinement_goes_by_the_configuration(
    config: &ToolsConfig,
    workspace: &str,
    around: &Surroundings,
    role: AgentRole,
    out: CoreToolProvider,
)
    requires
        call_ensures(CoreToolProvider::new, (config, workspace, around, role), out),
    ensures
        config.restrict_to_workspace ==> out@.allowed_dir == Some(workspace@),
        !config.restrict_to_workspace ==> out@.allowed_dir is None,
        out@.restrict == config.restrict_to_workspace,
        out@.web == config.web@,
        out@.commands == config.commands@,
        out@.web_client == around.web_client,
        out@.role == role,
        config.exec_workspace matches Some(ws) ==> (path::absolute(ws@)
            && around.workspace_usable ==> out@.exec_workspace == ws@),
        path::absolute(workspace@) && !around.workspace_usable ==> out@.exec_workspace
            == workspace@,
{
}

/// What an agent can call besides the built-in tools: the tools of its mode of
/// running, the search of the history where there is one, every plugin, and every
/// workflow where it may start other agents. A plugin comes last, so none of
/// these can take its name.
pub proof fn law_what_else_an_agent_can_call(v: RegistryView, i: int)
    ensures
        0 <= i < v.plugins.len() ==> with_tools(Map::empty(), all_tools(v)).dom().contains(
            v.plugins[i],
        ) && with_tools(Map::empty(), all_tools(v))[v.plugins[i]].kind == ToolKind::Plugin,
        0 <= i < v.extra_tools.len() ==> with_tools(Map::empty(), all_tools(v)).dom().contains(
            v.extra_tools[i].name,
        ),
        v.history_search ==> with_tools(Map::empty(), all_tools(v)).dom().contains(
            "history_search"@,
        ),
        v.core.role == AgentRole::Orchestrator && 0 <= i < v.workflows.len() ==> with_tools(
            Map::empty(),
            all_tools(v),
        ).dom().contains(v.workflows[i]),
{
    let list = all_tools(v);
    let plugins = plain_tools(ToolKind::Plugin, v.plugins);
    let n = list.len() - plugins.len();
    let base = core_tools(v.core).len() + system_tools().len();
    let none = Map::<Seq<char>, RegisteredView>::empty();
    assert forall|k: int| 0 <= k < plugins.len() implies list[n + k] == #[trigger] plugins[k] by {}
    if 0 <= i < v.plugins.len() {
        let name = v.plugins[i];
        lemma_last_plugin(list, n, plugins, name, i);
    }
    if 0 <= i < v.extra_tools.len() {
        assert(list[base + i] == v.extra_tools[i]);
        lemma_dom(none, list, v.extra_tools[i].name);
    }
    if v.history_search {
        let k = (base + v.extra_tools.len()) as int;
        assert(list[k] == plain_tool(ToolKind::HistorySearch, "history_search"@));
        lemma_dom(none, list, "history_search"@);
    }
    if v.core.role == AgentRole::Orchestrator && 0 <= i < v.workflows.len() {
        let k = base + v.extra_tools.len() + (if v.history_search {
            1int
        } else {
            0
        }) + i;
        assert(list[k] == plain_tools(ToolKind::Workflow, v.workflows)[i]);
        lemma_dom(none, list, v.workflows[i]);
    }
}

proof fn lemma_last_plugin(
    list: Seq<RegisteredView>,
    n: int,
    plugins: Seq<RegisteredView>,
    name: Seq<char>,
    i: int,
)
    requires
        0 <= n,
        list.len() == n + plugins.len(),
        forall|k: int| 0 <= k < plugins.len() ==> list[n + k] == #[trigger] plugins[k],
        forall|k: int| 0 <= k < plugins.len() ==> (#[trigger] plugins[k]).kind == ToolKind::Plugin,
        0 <= i < plugins.len(),
        plugins[i].name == name,
    ensures
        with_tools(Map::empty(), list).dom().contains(name),
        with_tools(Map::empty(), list)[name].kind == ToolKind::Plugin,
    decreases plugins.len() - i,
{
    if exists|k: int| i < k < plugins.len() && (#[trigger] plugins[k]).name == name {
        let k = choose|k: int| i < k < plugins.len() && (#[trigger] plugins[k]).name == name;
        lemma_last_plugin(list, n, plugins, name, k);
    } else {
        assert(list[n + i] == plugins[i]);
        assert forall|j: int| n + i < j < list.len() implies (#[trigger] list[j]).name != name by {
            assert(list[n + (j - n)] == plugins[j - n]);
        }
        law_last_of_a_name_stands(Map::empty(), list, name, n + i);
    }
}

/// A worker gets no workflow: of what it can call, a name that is no built-in
/// tool, no tool of its mode, not the search of the history and no plugin is not
/// there.
pub proof fn law_worker_gets_no_workflow(v: RegistryView, name: Seq<char>)
    requires
        v.core.role == AgentRole::Worker,
        forall|i: int|
            0 <= i < (core_tools(v.core) + system_tools()).len() ==> (#[trigger] (core_tools(v.core)
                + system_tools())[i]).name != name,
        forall|i: int| 0 <= i < v.extra_tools.len() ==> (#[trigger] v.extra_tools[i]).name != name,
        forall|i: int| 0 <= i < v.plugins.len() ==> #[trigger] v.plugins[i] != name,
        name != "history_search"@,
    ensures
        !with_tools(Map::empty(), all_tools(v)).dom().contains(name),
{
    let list = all_tools(v);
    let base = core_tools(v.core) + system_tools();
    let more = base + v.extra_tools;
    let plugins = plain_tools(ToolKind::Plugin, v.plugins);
    lemma_dom(Map::empty(), list, name);
    assert forall|i: int| 0 <= i < list.len() implies (#[trigger] list[i]).name != name by {
        if i < base.len() {
            assert(list[i] == base[i]);
        } else if i < more.len() {
            assert(list[i] == v.extra_tools[i - base.len()]);
        } else if i >= list.len() - plugins.len() {
            let k = i - (list.len() - plugins.len());
            assert(list[i] == plugins[k]);
            assert(v.plugins[k] != name);
        }
    }
}

/// A registry has what it was built from: the built-in tools, those that start
/// other agents where the agent may, the tools of its mode, its plugins, and its
/// workflows where it may start other agents.
pub proof fn law_registry_has_its_tools(
    c: ToolRegistryConfig,
    r: Option<ToolRegistry>,
    kind: ToolKind,
    i: int,
)
    requires
        call_ensures(build_tool_registry, (c,), r),
        r is Some,
    ensures
        works_on_files(kind) || kind == ToolKind::WebFetch || kind == ToolKind::WebSearch || kind
            == ToolKind::AskUser || kind == ToolKind::Exec || kind == ToolKind::QueryHistory || kind
            == ToolKind::ClearSession || kind == ToolKind::NewSession ==> r->0@.dom().contains(
            name_of(kind),
        ),
        c.role == AgentRole::Orchestrator ==> r->0@.dom().contains("spawn"@) && r->0@.dom().contains(
            "spawn_parallel"@,
        ),
        0 <= i < c.extra_tools@.len() ==> r->0@.dom().contains(c.extra_tools@[i].name@),
        0 <= i < c.plugins@.len() ==> r->0@.dom().contains(c.plugins@[i]@)
            && r->0@[c.plugins@[i]@].kind == ToolKind::Plugin,
        c.role == AgentRole::Orchestrator && 0 <= i < c.workflows@.len() ==> r->0@.dom().contains(
            c.workflows@[i]@,
        ),
        c.history_search ==> r->0@.dom().contains("history_search"@),
{
    let ws = main_workspace(c.tools, c.around)->0;
    let v = c.with_workspace(ws);
    let list = all_tools(v);
    let base = core_tools(v.core) + system_tools();
    law_what_else_an_agent_can_call(v, i);
    if works_on_files(kind) || kind == ToolKind::WebFetch || kind == ToolKind::WebSearch || kind
        == ToolKind::AskUser || kind == ToolKind::Exec || kind == ToolKind::QueryHistory || kind
        == ToolKind::ClearSession || kind == ToolKind::NewSession {
        law_every_agent_has_the_common_tools(v.core, kind);
        let k = choose|k: int|
            0 <= k < (core_tools(v.core) + system_tools()).len() && (#[trigger] (core_tools(v.core)
                + system_tools())[k]).kind == kind;
        law_built_in_tools_are_set_up(v.core, k);
        assert(list[k] == base[k]);
        lemma_dom(Map::empty(), list, name_of(kind));
    }
    if c.role == AgentRole::Orchestrator {
        assert(list[8].name == "spawn"@);
        assert(list[9].name == "spawn_parallel"@);
        lemma_dom(Map::empty(), list, "spawn"@);
        lemma_dom(Map::empty(), list, "spawn_parallel"@);
    }
}

/// In a registry without extra tools and plugins, commands run in the configured
/// workspace where that is absolute and can be used, and files are confined to it
/// exactly where the configuration says so.
pub proof fn law_registry_works_in_the_workspace(
    c: ToolRegistryConfig,
    r: Option<ToolRegistry>,
    ws: String,
)
    requires
        call_ensures(build_tool_registry, (c,), r),
        c.tools.exec_workspace == Some(ws),
        path::absolute(ws@),
        c.around.workspace_usable,
        c.extra_tools@.len() == 0,
        c.plugins@.len() == 0,
        forall|i: int|
            0 <= i < c.workflows@.len() ==> (#[trigger] c.workflows@[i])@ != "exec"@
                && c.workflows@[i]@ != "read_file"@ && c.workflows@[i]@ != "write_file"@,
    ensures
        r matches Some(out) && {
            &&& out@.dom().contains("exec"@) && out@["exec"@].dir == Some(ws@)
                && out@["exec"@].restricted == c.tools.restrict_to_workspace
            &&& out@.dom().contains("read_file"@) && out@["read_file"@].dir == (
            if c.tools.restrict_to_workspace {
                Some(ws@)
            } else {
                None
            })
            &&& out@.dom().contains("write_file"@) && out@["write_file"@].dir == (
            if c.tools.restrict_to_workspace {
                Some(ws@)
            } else {
                None
            })
        },
{
    let v = c.with_workspace(ws@);
    let list = all_tools(v);
    assert(main_workspace(c.tools, c.around) == Some(ws@));
    assert(commands_workspace(c.tools, c.around, ws@) == ws@);
    lemma_built_in_stands(v, "read_file"@, 0);
    lemma_built_in_stands(v, "write_file"@, 5);
    lemma_built_in_stands(v, "exec"@, 7);
}

proof fn lemma_built_in_stands(v: RegistryView, name: Seq<char>, k: int)
    requires
        v.extra_tools.len() == 0,
        v.plugins.len() == 0,
        forall|i: int| 0 <= i < v.workflows.len() ==> #[trigger] v.workflows[i] != name,
        k == 0 && name == "read_file"@ || k == 5 && name == "write_file"@ || k == 7 && name
            == "exec"@,
    ensures
        with_tools(Map::empty(), all_tools(v)).dom().contains(name),
        with_tools(Map::empty(), all_tools(v))[name] == core_tools(v.core)[k],
{
    let list = all_tools(v);
    let base = core_tools(v.core) + system_tools();
    let flows = plain_tools(ToolKind::Workflow, v.workflows);
    reveal_strlit("spawn");
    reveal_strlit("spawn_parallel");
    reveal_strlit("read_file");
    reveal_strlit("list_dir");
    reveal_strlit("web_fetch");
    reveal_strlit("web_search");
    reveal_strlit("ask_user");
    reveal_strlit("write_file");
    reveal_strlit("edit_file");
    reveal_strlit("exec");
    reveal_strlit("query_history");
    reveal_strlit("clear_session");
    reveal_strlit("new_session");
    reveal_strlit("history_search");
    assert("spawn"@.len() == 5);
    assert("spawn_parallel"@.len() == 14);
    assert("read_file"@.len() == 9);
    assert("list_dir"@.len() == 8);
    assert("web_fetch"@.len() == 9);
    assert("web_search"@.len() == 10);
    assert("ask_user"@.len() == 8);
    assert("write_file"@.len() == 10);
    assert("edit_file"@.len() == 9);
    assert("exec"@.len() == 4);
    assert("query_history"@.len() == 13);
    assert("clear_session"@.len() == 13);
    assert("new_session"@.len() == 11);
    assert("history_search"@.len() == 14);
    assert("read_file"@[0] == 'r');
    assert("web_fetch"@[0] == 'w');
    assert("edit_file"@[0] == 'e');
    assert("web_search"@[1] == 'e');
    assert("write_file"@[1] == 'r');
    assert(list[k] == core_tools(v.core)[k]);
    assert(list[k].name == name);
    assert forall|i: int| k < i < list.len() implies (#[trigger] list[i]).name != name by {
        if i < base.len() {
            assert(list[i] == base[i]);
        } else {
            let at = i - base.len();
            let h = if v.history_search {
                1int
            } else {
                0
            };
            if at < h {
                assert(list[i] == plain_tool(ToolKind::HistorySearch, "history_search"@));
            } else {
                assert(list[i] == flows[at - h]);
                assert(v.workflows[at - h] != name);
            }
        }
    }
    law_last_of_a_name_stands(Map::empty(), list, name, k);
}

/// The tools that look into the stores are there where both stores are, and not
/// where one is missing.
pub proof fn law_store_tools_need_both_stores(events: bool, sessions: bool, p: SystemToolProvider)
    requires
        call_ensures(SystemToolProvider::new, (events, sessions), p),
    ensures
        events && sessions ==> p.provided().len() == 3,
        !(events && sessions) ==> p.provided().len() == 0,
{
}

/// Only the orchestrator may start other agents.
pub proof fn law_role_decides_who_spawns(role: AgentRole, r: bool)
    requires
        call_ensures(AgentRole::can_spawn, (role,), r),
    ensures
        r <==> role == AgentRole::Orchestrator,
{
}

/// Workflows are looked for in a directory of the workspace.
pub proof fn law_workflows_are_in_the_workspace(workspace: &str, out: String)
    requires
        workspace@.len() > 0,
        workspace@.last() != '/',
        call_ensures(workflows_dir, (workspace,), out),
    ensures
        out@ == workspace@ + "/workflows"@,
{
    reveal_strlit("/");
    reveal_strlit("workflows");
    reveal_strlit("/workflows");
    assert(out@ =~= workspace@ + "/workflows"@);
}

/// What a built-in tool is filed under: tools for files, for the web, for questions,
/// for the history, and for the system.
pub open spec fn filed_under(kind: ToolKind) -> Seq<char> {
    if works_on_files(kind) {
        "filesystem"@
    } else if kind == ToolKind::WebFetch || kind == ToolKind::WebSearch {
        "web"@
    } else if kind == ToolKind::AskUser {
        "interaction"@
    } else if kind == ToolKind::QueryHistory {
        "history"@
    } else {
        "system"@
    }
}

/// What a built-in tool is shown as, and what it is found by.
pub open spec fn shown_as(kind: ToolKind) -> (Seq<char>, Seq<Seq<char>>) {
    match kind {
        ToolKind::ReadFile => ("Read File"@, seq!["read"@, "file"@]),
        ToolKind::ListDir => ("List Directory"@, seq!["read"@, "directory"@]),
        ToolKind::WebFetch => ("Web Fetch"@, seq!["http"@, "fetch"@]),
        ToolKind::WebSearch => ("Web Search"@, seq!["search"@, "web"@]),
        ToolKind::AskUser => ("Ask User"@, seq!["user"@, "prompt"@]),
        ToolKind::WriteFile => ("Write File"@, seq!["write"@, "file"@]),
        ToolKind::EditFile => ("Edit File"@, seq!["edit"@, "file"@]),
        ToolKind::Exec => ("Execute Command"@, seq!["shell"@, "exec"@]),
        ToolKind::Spawn => ("Spawn Subagent"@, seq!["spawn"@, "agent"@]),
        ToolKind::SpawnParallel => ("Spawn Parallel"@, seq!["spawn"@, "parallel"@, "agent"@]),
        ToolKind::QueryHistory => ("Query History"@, seq!["history"@, "search"@]),
        ToolKind::ClearSession => (
            "Clear Session History"@,
            seq!["session"@, "cleanup"@, "history"@],
        ),
        ToolKind::NewSession => ("New Session"@, seq!["session"@, "new"@, "reset"@]),
        _ => (Seq::empty(), Seq::empty()),
    }
}

/// Every built-in tool is filed under what it works on, and shown as what it does.
pub proof fn law_built_in_tools_are_described(c: CoreView, i: int)
    requires
        0 <= i < (core_tools(c) + system_tools()).len(),
    ensures
        ({
            let t = (core_tools(c) + system_tools())[i];
            t.metadata matches Some(m) && m.category == filed_under(t.kind) && m.display_name
                == shown_as(t.kind).0 && m.tags == shown_as(t.kind).1
        }),
{
}

} // verus!
