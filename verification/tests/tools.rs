use conga_gasket::json::Json;
use conga_gasket::path::{absolute_of, join_path, resolve_to_absolute};
use conga_gasket::tools::{
    build_tool_registry, find_workspace, resolve_exec_workspace, workflows_dir,
    workspace_or_fallback, AgentRole, CoreToolProvider, RegisteredTool, Surroundings,
    SystemToolProvider, ToolKind, ToolProvider, ToolRegistry, ToolRegistryConfig, ToolSettings,
    ToolsConfig,
};

fn config(restrict: bool) -> ToolsConfig {
    ToolsConfig {
        restrict_to_workspace: restrict,
        exec_workspace: None,
        web: Json::text("web settings"),
        commands: Json::text("command settings"),
    }
}

fn around(home: Option<&str>, cwd: Option<&str>, usable: bool) -> Surroundings {
    Surroundings {
        home: home.map(String::from),
        cwd: cwd.map(String::from),
        workspace_usable: usable,
        web_client: true,
    }
}

fn provider(restrict: bool, workspace: &str, role: AgentRole) -> CoreToolProvider {
    CoreToolProvider::new(&config(restrict), workspace, &around(None, None, true), role)
}

fn registry_config(role: AgentRole) -> ToolRegistryConfig {
    ToolRegistryConfig {
        tools: config(false),
        around: around(Some("/home/u"), Some("/cwd"), true),
        role,
        extra_tools: Vec::new(),
        history_search: true,
        workflows: vec!["flow".into()],
        plugins: vec!["plug".into()],
    }
}

#[test]
fn worker_provider_does_not_register_spawn_tools() {
    let mut registry = ToolRegistry::new();
    provider(false, "/tmp", AgentRole::Worker).register_tools(&mut registry);
    assert!(registry.get("spawn").is_none(), "Worker registry must not contain `spawn`");
    assert!(
        registry.get("spawn_parallel").is_none(),
        "Worker registry must not contain `spawn_parallel`"
    );
}

#[test]
fn orchestrator_provider_registers_spawn_tools() {
    let mut registry = ToolRegistry::new();
    provider(false, "/tmp", AgentRole::Orchestrator).register_tools(&mut registry);
    assert!(registry.get("spawn").is_some(), "Orchestrator registry must contain `spawn`");
    assert!(
        registry.get("spawn_parallel").is_some(),
        "Orchestrator registry must contain `spawn_parallel`"
    );
}

#[test]
fn core_tools_are_confined_where_configured() {
    let mut free = ToolRegistry::new();
    CoreToolProvider::new(
        &config(false),
        "/w",
        &around(Some("/home/u"), None, true),
        AgentRole::Worker,
    )
    .register_tools(&mut free);
    assert!(free.get("read_file").unwrap().dir.is_none());
    assert_eq!(free.get("exec").unwrap().dir.as_deref(), Some("/home/u/.gasket"));
    assert!(!free.get("exec").unwrap().restricted);
    let mut bound = ToolRegistry::new();
    provider(true, "/w", AgentRole::Worker).register_tools(&mut bound);
    for name in ["read_file", "list_dir", "write_file", "edit_file"] {
        assert_eq!(bound.get(name).unwrap().dir.as_deref(), Some("/w"), "{name}");
    }
    assert!(bound.get("exec").unwrap().restricted);
    assert_eq!(bound.get("exec").unwrap().dir.as_deref(), Some("/w"));
}

#[test]
fn tools_are_made_with_their_settings() {
    let given = |r: &ToolRegistry, name: &str| match &r.get(name).unwrap().settings {
        ToolSettings::Given(Json::Str(s)) => Some(s.clone()),
        _ => None,
    };
    let r = build_tool_registry(registry_config(AgentRole::Worker)).unwrap();
    assert_eq!(given(&r, "web_fetch").as_deref(), Some("web settings"));
    assert_eq!(given(&r, "web_search").as_deref(), Some("web settings"));
    assert_eq!(given(&r, "exec").as_deref(), Some("command settings"));
    assert_eq!(given(&r, "read_file"), None);
    let mut c = registry_config(AgentRole::Worker);
    c.around.web_client = false;
    let r = build_tool_registry(c).unwrap();
    assert_eq!(given(&r, "web_fetch"), None);
    assert_eq!(given(&r, "web_search").as_deref(), Some("web settings"));
}

#[test]
fn the_registry_works_in_one_workspace() {
    let dirs = |configured: Option<&str>, around: Surroundings| {
        let mut c = registry_config(AgentRole::Worker);
        c.tools.restrict_to_workspace = true;
        c.tools.exec_workspace = configured.map(String::from);
        c.around = around;
        let r = build_tool_registry(c)?;
        let dir = |name: &str| r.get(name).unwrap().dir.clone().unwrap();
        Some((dir("read_file"), dir("exec")))
    };
    let both = |d: &str| Some((d.to_string(), d.to_string()));
    let home = Some("/home/u");
    assert_eq!(dirs(Some("/ws"), around(home, Some("/cwd"), true)), both("/ws"));
    assert_eq!(dirs(Some("ws"), around(home, Some("/cwd"), true)), both("/cwd/ws"));
    assert_eq!(dirs(Some("/ws"), around(home, Some("/cwd"), false)), both("/cwd/."));
    assert_eq!(dirs(None, around(home, None, true)), both("/home/u/.gasket"));
    assert_eq!(dirs(None, around(None, Some("/cwd"), true)), both("/cwd/."));
    assert_eq!(dirs(None, around(None, None, true)), None);
    assert_eq!(dirs(Some("ws"), around(home, None, true)), None);
}

#[test]
fn the_workspace_is_found() {
    let mut c = config(false);
    c.exec_workspace = Some("/ws".into());
    assert_eq!(find_workspace(&c, &around(None, None, true), "/fb").as_deref(), Some("/ws"));
    assert_eq!(find_workspace(&c, &around(None, None, false), "/fb").as_deref(), Some("/fb"));
}

#[test]
fn mutating_tools_require_approval() {
    let registry = build_tool_registry(registry_config(AgentRole::Orchestrator)).unwrap();
    for (name, mutates) in [
        ("read_file", false),
        ("list_dir", false),
        ("web_fetch", false),
        ("web_search", false),
        ("ask_user", false),
        ("write_file", true),
        ("edit_file", true),
        ("exec", true),
        ("spawn", false),
        ("spawn_parallel", false),
        ("query_history", false),
        ("clear_session", true),
        ("new_session", true),
    ] {
        let m = registry.get(name).unwrap().metadata.as_ref().unwrap();
        assert_eq!((m.requires_approval, m.is_mutating), (mutates, mutates), "{name}");
    }
    let m = registry.get("spawn_parallel").unwrap().metadata.as_ref().unwrap();
    assert_eq!(m.display_name, "Spawn Parallel");
    assert_eq!(m.category, "system");
    assert_eq!(m.tags, vec!["spawn", "parallel", "agent"]);
}

#[test]
fn system_tools_need_both_stores() {
    for (events, sessions) in [(true, false), (false, true), (false, false)] {
        let mut r = ToolRegistry::new();
        SystemToolProvider::new(events, sessions).register_tools(&mut r);
        assert!(r.get("query_history").is_none());
    }
    let mut r = ToolRegistry::new();
    SystemToolProvider::new(true, true).register_tools(&mut r);
    assert_eq!(r.get("query_history").unwrap().kind, ToolKind::QueryHistory);
}

#[test]
fn only_an_agent_that_may_spawn_gets_workflows() {
    let r = build_tool_registry(registry_config(AgentRole::Orchestrator)).unwrap();
    assert_eq!(r.get("flow").unwrap().kind, ToolKind::Workflow);
    assert_eq!(r.get("plug").unwrap().kind, ToolKind::Plugin);
    assert_eq!(r.get("history_search").unwrap().kind, ToolKind::HistorySearch);
    let r = build_tool_registry(registry_config(AgentRole::Worker)).unwrap();
    assert!(r.get("flow").is_none());
    assert!(r.get("plug").is_some());
}

#[test]
fn the_later_of_two_tools_with_one_name_stands() {
    let mut c = registry_config(AgentRole::Worker);
    c.extra_tools.push(RegisteredTool {
        kind: ToolKind::Message,
        name: "exec".into(),
        dir: None,
        restricted: false,
        settings: ToolSettings::Default,
        metadata: None,
    });
    c.plugins.push("message".into());
    let r = build_tool_registry(c).unwrap();
    assert_eq!(r.get("exec").unwrap().kind, ToolKind::Message);
    assert_eq!(r.get("message").unwrap().kind, ToolKind::Plugin);
}

#[test]
fn the_workspace_is_absolute() {
    let cwd = Some("/cwd".to_string());
    let home = Some("/home/u".to_string());
    let chosen = |ws: Option<&str>, home: &Option<String>, fb: &str, cwd: &Option<String>| {
        resolve_exec_workspace(&ws.map(String::from), home, fb, cwd)
    };
    assert_eq!(chosen(Some("ws"), &home, ".", &cwd).as_deref(), Some("/cwd/ws"));
    assert_eq!(chosen(Some("/ws"), &home, ".", &None).as_deref(), Some("/ws"));
    assert_eq!(chosen(None, &home, ".", &None).as_deref(), Some("/home/u/.gasket"));
    assert_eq!(chosen(None, &None, "fb", &cwd).as_deref(), Some("/cwd/fb"));
    assert_eq!(chosen(None, &None, "fb", &None), None);
    assert_eq!(chosen(Some("ws"), &home, "/fb", &Some("rel".into())), None);
    let used = |ws: Option<&str>, usable: bool, fb: &str, cwd: &Option<String>| {
        workspace_or_fallback(ws.map(String::from), usable, fb, cwd)
    };
    assert_eq!(used(Some("/ws"), true, "fb", &cwd).as_deref(), Some("/ws"));
    assert_eq!(used(Some("/ws"), false, "fb", &cwd).as_deref(), Some("/cwd/fb"));
    assert_eq!(used(None, true, "/fb", &None).as_deref(), Some("/fb"));
    assert_eq!(used(Some("/ws"), false, "fb", &None), None);
    assert_eq!(workflows_dir("/ws"), "/ws/workflows");
}

#[test]
fn paths_join_as_the_standard_library_joins_them() {
    for base in ["", "a", "a/", "/", "/a/b"] {
        for name in ["", "x", "/x", "x/y"] {
            let want = std::path::Path::new(base).join(name);
            assert_eq!(std::path::Path::new(&join_path(base, name)), want, "{base:?} {name:?}");
        }
    }
}

#[test]
fn paths_are_absolute_as_on_the_platform() {
    for cwd in ["/d", "/d/", "d", "C:\\d", ""] {
        for p in ["x", "/x", "x/y", "C:\\x", "C:x", "\\x", ""] {
            let path = std::path::Path::new(p);
            let seen = std::path::Path::new(cwd).join(p);
            let want = if path.is_absolute() {
                Some(p.to_string())
            } else if seen.is_absolute() {
                seen.to_str().map(String::from)
            } else {
                None
            };
            assert_eq!(resolve_to_absolute(p, &Some(cwd.into())), want, "{cwd:?} {p:?}");
        }
    }
    assert_eq!(resolve_to_absolute("x", &None), None);
    assert_eq!(absolute_of("x", true, None).as_deref(), Some("x"));
    assert_eq!(absolute_of("x", false, Some(("/d/x".into(), true))).as_deref(), Some("/d/x"));
    assert_eq!(absolute_of("x", false, Some(("d/x".into(), false))), None);
    assert_eq!(absolute_of("x", false, None), None);
}
