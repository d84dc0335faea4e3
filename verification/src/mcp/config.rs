//! Which servers are configured, and how each is reached.

use crate::mcp::error::{McpError, McpErrorView};
use crate::path;
use crate::table;
use crate::table::Table;
use crate::text;
use crate::tool;
use crate::tool::{ToolDefinition, ToolDefinitionView};
use vstd::prelude::*;
use vstd::string::*;

verus! {

/// How long a call may take, in seconds, where nothing else is set.
pub const DEFAULT_TIMEOUT_SECS: u64 = 60;

/// One server of the configuration. It is reached over HTTP where it has a
/// `url`, and is run as a subprocess otherwise.
pub struct McpServerConfig {
    /// The command to run.
    pub command: Option<String>,
    /// Its arguments.
    pub args: Vec<String>,
    /// Environment variables that it gets besides its own.
    pub env: Table<String>,
    /// The address of the server.
    pub url: Option<String>,
    /// HTTP headers that every request carries.
    pub headers: Table<String>,
}

impl McpServerConfig {
    /// Whether the server is reached over HTTP.
    pub fn is_http(&self) -> (r: bool)
        ensures
            r == (self.url is Some),
    {
        self.url.is_some()
    }
}

/// The transport to a server.
pub enum Transport {
    /// Requests are posted to an address.
    Http { url: String, headers: Table<String> },
    /// Lines are exchanged with a subprocess.
    Stdio { command: String, args: Vec<String>, env: Table<String> },
}

/// Chooses the transport to a server. One that has neither address nor command
/// gets an empty command, which cannot be run.
pub fn transport_of(cfg: McpServerConfig) -> (t: Transport)
    ensures
        match cfg.url {
            Some(u) => t matches Transport::Http { url, headers } && url@ == u@ && headers
                == cfg.headers,
            None => t matches Transport::Stdio { command, args, env } && args == cfg.args && env
                == cfg.env && command@ == (match cfg.command {
                Some(c) => c@,
                None => Seq::<char>::empty(),
            }),
        },
{
    match cfg.url {
        Some(url) => Transport::Http { url, headers: cfg.headers },
        None => {
            let command: String = match cfg.command {
                Some(c) => c,
                None => String::new(),
            };
            Transport::Stdio { command, args: cfg.args, env: cfg.env }
        },
    }
}

/// What came of reading the configuration file.
pub enum ConfigRead {
    /// There is none.
    NotFound,
    /// It could not be read, with the cause in words.
    Failed(String),
    /// It is not the JSON that it should be, with the cause in words.
    BadJson(String),
    /// Its servers, by name.
    Servers(Table<McpServerConfig>),
}

/// The configured servers: none where there is no file, an error where it
/// cannot be read. No two have one name.
pub fn load_config_from(read: ConfigRead) -> (r: Result<Vec<(String, McpServerConfig)>, McpError>)
    ensures
        match read {
            ConfigRead::NotFound => r matches Ok(list) && list@.len() == 0,
            ConfigRead::Failed(e) => r matches Err(err) && err@ == McpErrorView::Io(e@),
            ConfigRead::BadJson(e) => r matches Err(err) && err@ == McpErrorView::Json(e@),
            ConfigRead::Servers(t) => r matches Ok(list) && list@ == t.list() && (t.wf()
                ==> table::distinct_keys(list@)),
        },
{
    match read {
        ConfigRead::NotFound => Ok(Vec::new()),
        ConfigRead::Failed(e) => Err(McpError::Io(e)),
        ConfigRead::BadJson(e) => Err(McpError::Json(e)),
        ConfigRead::Servers(t) => Ok(t.into_entries()),
    }
}

/// Where the configuration stands: the path that is set, or `mcp.json` in the
/// configuration directory.
pub fn mcp_config_path(set: Option<String>, config_dir: &str) -> (out: String)
    ensures
        out@ == (match set {
            Some(p) => p@,
            None => path::below(config_dir@, "mcp.json"@),
        }),
{
    match set {
        Some(p) => p,
        None => path::join_path(config_dir, "mcp.json"),
    }
}

/// The time for a call in seconds that a setting asks for.
pub open spec fn timeout_of(set: Option<Seq<char>>) -> u64 {
    match set {
        Some(s) => match text::parsed_u64(s) {
            Some(n) => n,
            None => DEFAULT_TIMEOUT_SECS,
        },
        None => DEFAULT_TIMEOUT_SECS,
    }
}

/// The time for a call in seconds: the number that is set, or the default.
pub fn mcp_call_timeout(set: &Option<String>) -> (secs: u64)
    ensures
        secs == timeout_of(text::opt_view(*set)),
{
    match set {
        Some(s) => match text::parse_u64(s.as_str()) {
            Some(n) => n,
            None => DEFAULT_TIMEOUT_SECS,
        },
        None => DEFAULT_TIMEOUT_SECS,
    }
}

// ── loading every server ────────────────────────────────────────────────

/// The tools of the servers that could be loaded, in the order of the servers.
pub open spec fn loaded_tools(
    outcomes: Seq<Result<Seq<ToolDefinitionView>, McpErrorView>>,
) -> Seq<ToolDefinitionView>
    decreases outcomes.len(),
{
    if outcomes.len() == 0 {
        Seq::empty()
    } else {
        let before = loaded_tools(outcomes.drop_last());
        match outcomes.last() {
            Ok(defs) => before + defs,
            Err(_) => before,
        }
    }
}

/// The view of what came of loading one server.
pub open spec fn load_view(r: Result<Vec<ToolDefinition>, McpError>) -> Result<
    Seq<ToolDefinitionView>,
    McpErrorView,
> {
    match r {
        Ok(defs) => Ok(tool::definition_views(defs@)),
        Err(e) => Err(e@),
    }
}

/// The tools of the servers that have been loaded so far.
pub struct LoadedTools {
    tools: Vec<ToolDefinition>,
    outcomes: Ghost<Seq<Result<Seq<ToolDefinitionView>, McpErrorView>>>,
}

impl LoadedTools {
    /// What has come of loading the servers so far.
    pub closed spec fn outcomes(self) -> Seq<Result<Seq<ToolDefinitionView>, McpErrorView>> {
        self.outcomes@
    }

    /// The tools are those of the outcomes.
    pub closed spec fn wf(self) -> bool {
        tool::definition_views(self.tools@) == loaded_tools(self.outcomes@)
    }

    /// No server yet.
    pub fn new() -> (out: Self)
        ensures
            out.wf(),
            out.outcomes() == Seq::<Result<Seq<ToolDefinitionView>, McpErrorView>>::empty(),
    {
        let out = LoadedTools { tools: Vec::new(), outcomes: Ghost(Seq::empty()) };
        assert(tool::definition_views(out.tools@) =~= Seq::empty());
        out
    }

    /// Takes the outcome of one more server. One that failed adds nothing;
    /// what to log of it comes back.
    pub fn take(&mut self, name: &str, outcome: Result<Vec<ToolDefinition>, McpError>) -> (warning:
        Option<String>)
        requires
            old(self).wf(),
        ensures
            final(self).wf(),
            final(self).outcomes() == old(self).outcomes().push(load_view(outcome)),
            text::opt_view(warning) == (match outcome {
                Ok(_) => None,
                Err(e) => Some("mcp "@ + name@ + " load failed: "@ + e@.words()),
            }),
    {
        let ghost before = self.tools@;
        let ghost seen = self.outcomes@;
        let ghost view = load_view(outcome);
        self.outcomes = Ghost(seen.push(view));
        assert(seen.push(view).drop_last() =~= seen);
        match outcome {
            Ok(defs) => {
                let mut defs = defs;
                let ghost more = defs@;
                self.tools.append(&mut defs);
                assert(tool::definition_views(self.tools@) =~= tool::definition_views(before)
                    + tool::definition_views(more));
                None
            },
            Err(e) => {
                let words = e.message();
                Some(text::cat4("mcp ", name, " load failed: ", words.as_str()))
            },
        }
    }

    /// The tools.
    pub fn into_tools(self) -> (out: Vec<ToolDefinition>)
        requires
            self.wf(),
        ensures
            tool::definition_views(out@) == loaded_tools(self.outcomes()),
    {
        self.tools
    }
}

/// One server that cannot be loaded costs the agent none of the other tools.
pub proof fn law_failed_server_is_skipped(
    before: Seq<Result<Seq<ToolDefinitionView>, McpErrorView>>,
    error: McpErrorView,
    after: Seq<Result<Seq<ToolDefinitionView>, McpErrorView>>,
)
    ensures
        loaded_tools(before.push(Err(error)) + after) == loaded_tools(before + after),
    decreases after.len(),
{
    if after.len() == 0 {
        assert(before.push(Err(error)) + after =~= before.push(Err(error)));
        assert(before + after =~= before);
        assert(before.push(Err(error)).drop_last() =~= before);
    } else {
        law_failed_server_is_skipped(before, error, after.drop_last());
        assert((before.push(Err(error)) + after).drop_last() =~= before.push(Err(error))
            + after.drop_last());
        assert((before + after).drop_last() =~= before + after.drop_last());
    }
}

/// A server with an address is reached over HTTP at that address with its
/// headers, whatever else it has; one without is run as its command, with its
/// arguments and its environment.
pub proof fn law_server_is_reached_as_configured(cfg: McpServerConfig, t: Transport)
    requires
        call_ensures(transport_of, (cfg,), t),
    ensures
        t is Http <==> cfg.url is Some,
        t matches Transport::Http { url, headers } ==> url@ == cfg.url->0@ && headers
            == cfg.headers,
        t matches Transport::Stdio { command, args, env } ==> args@ == cfg.args@ && env == cfg.env,
        t matches Transport::Stdio { command, args, env } ==> (cfg.command matches Some(c)
            ==> command@ == c@),
        t matches Transport::Stdio { command, args, env } ==> (cfg.command is None ==> command@.len()
            == 0),
{
}

/// Whether a server is reached over HTTP is told by its address alone.
pub proof fn law_address_means_http(cfg: &McpServerConfig, r: bool)
    requires
        call_ensures(McpServerConfig::is_http, (cfg,), r),
    ensures
        r <==> cfg.url is Some,
{
}

/// No file is no servers; a file that cannot be read, or is not what it should
/// be, is an error and never taken for no servers; and of one that can be read
/// every server is there.
pub proof fn law_configuration_is_read(read: ConfigRead, r: Result<Vec<(String, McpServerConfig)>, McpError>)
    requires
        call_ensures(load_config_from, (read,), r),
    ensures
        r is Ok <==> read is NotFound || read is Servers,
        read is NotFound ==> r->Ok_0@.len() == 0,
        read matches ConfigRead::Servers(t) ==> r->Ok_0@ == t.list(),
        read matches ConfigRead::Failed(e) ==> (r matches Err(McpError::Io(w)) && w@ == e@),
        read matches ConfigRead::BadJson(e) ==> (r matches Err(McpError::Json(w)) && w@ == e@),
{
}

/// The path that is set is the one that is used; without one it is `mcp.json` in
/// the configuration directory.
pub proof fn law_set_path_is_used(set: Option<String>, config_dir: &str, out: String)
    requires
        call_ensures(mcp_config_path, (set, config_dir), out),
    ensures
        set matches Some(p) ==> out@ == p@,
        set is None && config_dir@.len() > 0 && config_dir@.last() != '/' ==> out@ == config_dir@
            + "/"@ + "mcp.json"@,
{
    reveal_strlit("mcp.json");
    assert("mcp.json"@[0] == 'm');
}

/// A number of seconds that is set is the time for a call; anything else leaves
/// it at sixty.
pub proof fn law_timeout_is_what_is_set(set: &Option<String>, secs: u64, n: u64)
    requires
        call_ensures(mcp_call_timeout, (set,), secs),
    ensures
        *set is None ==> secs == 60,
        *set matches Some(s) ==> (text::parsed_u64(s@) == Some(n) ==> secs == n),
        *set matches Some(s) ==> (text::parsed_u64(s@) is None ==> secs == 60),
{
}

/// The tools of every server that could be loaded are there, in the order of the
/// servers: one more server adds its tools at the end.
pub proof fn law_loaded_servers_add_their_tools(
    outcomes: Seq<Result<Seq<ToolDefinitionView>, McpErrorView>>,
    defs: Seq<ToolDefinitionView>,
)
    ensures
        loaded_tools(Seq::empty()).len() == 0,
        loaded_tools(outcomes.push(Ok(defs))) == loaded_tools(outcomes) + defs,
{
    let more = outcomes.push(Ok(defs));
    assert(more.drop_last() =~= outcomes);
}

/// A server that could not be loaded is warned of by its name and the cause, and
/// one that could is not.
pub proof fn law_failed_server_is_warned_of(
    l: &mut LoadedTools,
    name: &str,
    outcome: Result<Vec<ToolDefinition>, McpError>,
    warning: Option<String>,
)
    requires
        old(l).wf(),
        call_ensures(LoadedTools::take, (l, name, outcome), warning),
    ensures
        warning is Some <==> outcome is Err,
        outcome matches Err(McpError::Io(e)) ==> warning->0@ == "mcp "@ + name@ + " load failed: "@
            + ("io error: "@ + e@),
        outcome matches Ok(defs) ==> loaded_tools(final(l).outcomes()) == loaded_tools(
            old(l).outcomes(),
        ) + tool::definition_views(defs@),
        outcome is Err ==> loaded_tools(final(l).outcomes()) == loaded_tools(old(l).outcomes()),
{
    let seen = old(l).outcomes();
    let view = load_view(outcome);
    assert(seen.push(view).drop_last() =~= seen);
    assert(warning is Some <==> text::opt_view(warning) is Some);
}

/// The warning of a server that cannot be loaded names the server, and says in the
/// error's own words what went wrong.
pub proof fn law_warning_has_the_words_of_the_error(
    l: &mut LoadedTools,
    name: &str,
    e: McpError,
    words: String,
    warning: Option<String>,
)
    requires
        call_ensures(McpError::message, (&e,), words),
        call_ensures(LoadedTools::take, (l, name, Err(e)), warning),
    ensures
        warning matches Some(w) && w@ == "mcp "@ + name@ + " load failed: "@ + words@,
{
}

/// The tools at the end are those of the servers that were loaded; at first there
/// are none.
pub proof fn law_tools_at_the_end(l: LoadedTools, out: Vec<ToolDefinition>, fresh: LoadedTools)
    requires
        call_ensures(LoadedTools::into_tools, (l,), out),
        call_ensures(LoadedTools::new, (), fresh),
    ensures
        tool::definition_views(out@) == loaded_tools(l.outcomes()),
        loaded_tools(fresh.outcomes()).len() == 0,
{
}

} // verus!
