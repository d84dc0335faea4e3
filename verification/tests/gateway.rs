use conga_gasket::gateway::agent::{build_extra_tools, setup_agent_pipeline, PipelineInputs};
use conga_gasket::gateway::api::{
    handle_commands_list, handle_context_compact, handle_context_get, CommandInfo, SessionStats,
    WatermarkInfo,
};
use conga_gasket::gateway::messages::{
    command_message, dispatch_agent_turn, route, send_message, sends_in_order, ChannelType,
    InboundAction, InboundMessage, OutboundMessage, RouteOutcome,
};
use conga_gasket::gateway::schedule::{
    cron_action, cron_report, cron_state_path, heartbeat_message, CronAction, CronJob, CronRound,
    RoundAction, RoundEvent, Target,
};
use conga_gasket::gateway::start::{
    builtin_commands, checked_arguments, command_line_tools, gateway_start, tool_arguments,
    tool_report, user_commands_dir, warn_disabled_features, ChannelSwitch, GatewayStart,
};
use conga_gasket::json::{Json, JsonNumber};
use conga_gasket::tools::{Surroundings, ToolKind, ToolSettings, ToolsConfig};

fn inbound(content: &str) -> InboundMessage {
    InboundMessage {
        channel: ChannelType::Telegram,
        sender_id: "u".into(),
        chat_id: "c".into(),
        content: content.into(),
    }
}

fn job(chat: Option<&str>, tool: Option<&str>) -> CronJob {
    CronJob {
        id: "j".into(),
        name: "n".into(),
        channel: None,
        chat_id: chat.map(|s| s.to_string()),
        message: "m".into(),
        tool: tool.map(|s| s.to_string()),
        tool_args: None,
    }
}

fn member<'a>(j: &'a Json, k: &str) -> &'a Json {
    j.get(k).expect("member")
}

fn text(j: &Json) -> &str {
    j.as_str().expect("text")
}

fn stats() -> Option<SessionStats> {
    Some(SessionStats {
        token_budget: Json::unsigned(8000),
        compaction_threshold: Json::Number(JsonNumber::Other("0.8".into())),
        threshold_tokens: Json::unsigned(6400),
        current_tokens: Json::unsigned(10),
        usage_percent: Json::Number(JsonNumber::Other("0.125".into())),
        is_compressing: true,
    })
}

fn watermark() -> Option<WatermarkInfo> {
    Some(WatermarkInfo {
        watermark: Json::unsigned(5),
        max_sequence: Json::unsigned(9),
        uncompacted_count: Json::unsigned(4),
        compacted_percent: Json::Number(JsonNumber::Other("55.5".into())),
    })
}

fn tools_config() -> ToolsConfig {
    ToolsConfig {
        restrict_to_workspace: true,
        exec_workspace: Some("w".into()),
        web: Json::Null,
        commands: Json::Null,
    }
}

fn around() -> Surroundings {
    Surroundings {
        home: Some("/home/u".into()),
        cwd: Some("/cwd".into()),
        workspace_usable: true,
        web_client: true,
    }
}

fn inputs(asked: bool, supported: bool) -> PipelineInputs {
    PipelineInputs {
        provider_name: "p".into(),
        provider_model: "m".into(),
        supports_thinking: supported,
        thinking_enabled: asked,
        summarization_prompt: Some("sum up".into()),
        max_concurrency: 4,
        tools: tools_config(),
        around: around(),
        history_search: true,
        workflows: vec!["flow".into()],
        plugins: vec!["plug".into()],
        can_approve: true,
    }
}

#[test]
fn gateway_starts_only_with_channels() {
    assert!(matches!(gateway_start(&None, 1), GatewayStart::Run));
    match gateway_start(&None, 0) {
        GatewayStart::NoChannels(lines) => {
            assert_eq!(lines.len(), 7);
            assert_eq!(lines[0], "⚠️  No channels configured");
            assert_eq!(lines[5], "      token: \"YOUR_BOT_TOKEN\"");
        }
        _ => panic!("expected NoChannels"),
    }
    match gateway_start(&Some(vec!["a".into(), "b".into()]), 3) {
        GatewayStart::Invalid(lines) => assert_eq!(
            lines,
            vec![
                "Configuration validation failed:",
                "  - a",
                "  - b",
                "\nPlease fix the configuration and try again."
            ]
        ),
        _ => panic!("expected Invalid"),
    }
}

#[test]
fn channels_that_are_not_built_in_are_warned_of() {
    let sw = |name: &str, compiled, enabled| ChannelSwitch { name: name.into(), compiled, enabled };
    assert_eq!(
        warn_disabled_features(&vec![
            sw("telegram", true, true),
            sw("discord", false, false),
            sw("slack", false, true),
            sw("feishu", true, false),
        ]),
        vec!["Channel 'slack' is enabled in config but was NOT compiled. Rebuild with: cargo run --features slack -- gateway"]
    );
}

#[test]
fn the_agent_thinks_where_the_provider_can() {
    let p = setup_agent_pipeline(inputs(true, true)).unwrap();
    assert!(p.thinking_enabled && p.warning.is_none() && p.asks_for_approval);
    assert!(p.spawner_thinking);
    assert_eq!(p.model, "m");
    let p = setup_agent_pipeline(inputs(true, false)).unwrap();
    assert!(!p.thinking_enabled && !p.spawner_thinking);
    assert_eq!(
        p.warning.as_deref(),
        Some("Provider 'p' does not support thinking mode. Thinking disabled.")
    );
    let p = setup_agent_pipeline(inputs(false, false)).unwrap();
    assert!(!p.thinking_enabled && p.warning.is_none());
}

#[test]
fn the_agent_has_more_tools_than_those_it_starts() {
    let p = setup_agent_pipeline(inputs(false, false)).unwrap();
    for name in ["spawn", "message", "cron", "context", "history_search", "flow", "plug", "exec"] {
        assert!(p.tools.get(name).is_some(), "{name}");
    }
    for name in ["spawn", "spawn_parallel", "message", "cron", "context", "history_search", "flow"] {
        assert!(p.worker_tools.get(name).is_none(), "{name}");
    }
    assert!(p.worker_tools.get("plug").is_some());
    for tools in [&p.tools, &p.worker_tools] {
        assert_eq!(tools.get("read_file").unwrap().dir.as_deref(), Some("/cwd/w"));
        assert_eq!(tools.get("exec").unwrap().dir.as_deref(), Some("/cwd/w"));
    }
    assert_eq!(p.spawn_budget, 4);
    match &p.tools.get("context").unwrap().settings {
        ToolSettings::Compactor { model, budget, prompt } => {
            assert_eq!((model.as_str(), *budget, prompt.as_deref()), ("m", 8000, Some("sum up")))
        }
        _ => panic!("no compactor"),
    }
}

#[test]
fn without_an_absolute_workspace_there_is_no_agent() {
    let mut p = inputs(false, false);
    p.around.cwd = None;
    assert!(setup_agent_pipeline(p).is_none());
    let mut p = inputs(false, false);
    p.around.workspace_usable = false;
    let p = setup_agent_pipeline(p).unwrap();
    assert_eq!(p.tools.get("exec").unwrap().dir.as_deref(), Some("/cwd/."));
}

#[test]
fn the_command_line_has_the_tools_of_the_orchestrator() {
    let tools = command_line_tools(
        tools_config(),
        around(),
        false,
        vec!["flow".into()],
        vec!["plug".into()],
    )
    .unwrap();
    for name in ["spawn", "flow", "plug", "exec", "query_history"] {
        assert!(tools.get(name).is_some(), "{name}");
    }
    for name in ["message", "cron", "context", "history_search"] {
        assert!(tools.get(name).is_none(), "{name}");
    }
    assert_eq!(tools.get("exec").unwrap().dir.as_deref(), Some("/cwd/w"));
    let mut nowhere = around();
    nowhere.cwd = None;
    assert!(command_line_tools(tools_config(), nowhere, true, vec![], vec![]).is_none());
}

#[test]
fn tools_of_the_gateway() {
    let tools = build_extra_tools("m", &None);
    assert_eq!(
        tools.iter().map(|t| t.kind).collect::<Vec<_>>(),
        vec![ToolKind::Message, ToolKind::Cron, ToolKind::Context]
    );
    let m = tools[2].metadata.as_ref().unwrap();
    assert_eq!(m.display_name, "Context Management");
    assert_eq!(m.tags, vec!["context", "compression"]);
    assert!(m.is_mutating && !m.requires_approval);
    assert!(matches!(
        &tools[2].settings,
        ToolSettings::Compactor { model, budget: 8000, prompt: None } if model == "m"
    ));
    let m = tools[0].metadata.as_ref().unwrap();
    assert_eq!(m.category, "communication");
    assert!(!m.is_mutating);
}

#[test]
fn context_routes_answer() {
    let r = handle_context_get(false, stats(), watermark());
    assert_eq!(r.status, 400);
    assert_eq!(text(member(&r.body, "error")), "Invalid session key");
    let r = handle_context_get(true, stats(), None);
    assert_eq!(r.status, 404);
    assert_eq!(text(member(&r.body, "error")), "Session not found or no compactor available");
    let r = handle_context_get(true, stats(), watermark());
    assert_eq!(r.status, 200);
    let s = member(&r.body, "context_stats");
    assert_eq!(member(s, "threshold_tokens").as_u64(), Some(6400));
    assert!(matches!(member(s, "is_compressing"), Json::Bool(true)));
    assert!(matches!(member(s, "usage_percent"), Json::Number(JsonNumber::Other(t)) if t == "0.125"));
    assert_eq!(member(member(&r.body, "watermark_info"), "uncompacted_count").as_u64(), Some(4));
    assert!(r.body.get("status").is_none());
}

#[test]
fn compacting_answers() {
    assert_eq!(handle_context_compact(false, &None, None, None).status, 400);
    let r = handle_context_compact(true, &Some("busy".into()), stats(), watermark());
    assert_eq!(r.status, 409);
    assert_eq!(text(member(&r.body, "error")), "busy");
    let r = handle_context_compact(true, &None, None, watermark());
    assert_eq!(r.status, 200);
    assert_eq!(text(member(&r.body, "status")), "compaction_completed");
    assert!(r.body.get("context_stats").is_none());
    let r = handle_context_compact(true, &None, stats(), watermark());
    assert_eq!(r.status, 200);
    assert_eq!(text(member(&r.body, "status")), "compaction_completed");
    assert_eq!(member(member(&r.body, "watermark_info"), "watermark").as_u64(), Some(5));
}

#[test]
fn commands_are_listed_without_exit() {
    let c = |n: &str| CommandInfo {
        name: n.into(),
        description: format!("{n}!"),
        aliases: vec!["x".into()],
    };
    let r = handle_commands_list(&vec![c("exit"), c("help"), c("exit"), c("new")]);
    assert_eq!(r.status, 200);
    match &r.body {
        Json::Array(items) => {
            assert_eq!(items.len(), 2);
            assert_eq!(text(member(&items[0], "name")), "help");
            assert_eq!(text(member(&items[1], "description")), "new!");
            assert!(matches!(member(&items[1], "aliases"), Json::Array(a) if a.len() == 1));
        }
        _ => panic!("expected an array"),
    }
}

#[test]
fn commands_reply_and_prompts_become_turns() {
    for outcome in [RouteOutcome::Print("t".into()), RouteOutcome::Error("t".into())] {
        match route(inbound("/x"), outcome) {
            InboundAction::Reply(m) => {
                assert_eq!(m.chat_id.as_deref(), Some("c"));
                assert_eq!(m.content, "t");
                assert!(matches!(m.channel, ChannelType::Telegram));
            }
            _ => panic!("expected a reply"),
        }
    }
    assert!(matches!(route(inbound("/quit"), RouteOutcome::Quit), InboundAction::Ignore));
    for outcome in
        [RouteOutcome::Rewrite { prompt: "p".into() }, RouteOutcome::Passthrough("p".into())]
    {
        match route(inbound("/y"), outcome) {
            InboundAction::Turn(m) => {
                assert_eq!(m.content, "p");
                assert_eq!(m.sender_id, "u");
                assert_eq!(m.chat_id, "c");
            }
            _ => panic!("expected a turn"),
        }
    }
}

#[test]
fn a_turn_that_fails_is_reported() {
    assert!(dispatch_agent_turn(inbound("x"), None).is_none());
    let m = dispatch_agent_turn(inbound("x"), Some("boom".into())).unwrap();
    assert_eq!(m.content, "Error: boom");
    assert_eq!(m.chat_id.as_deref(), Some("c"));
}

#[test]
fn only_streams_are_sent_in_order() {
    let m = |c| OutboundMessage::new(c, "c".into(), "t".into());
    assert!(sends_in_order(&m(ChannelType::WebSocket)));
    assert!(!sends_in_order(&m(ChannelType::Cli)));
    assert!(!sends_in_order(&m(ChannelType::Custom("WebSocket".into()))));
}

#[test]
fn the_command_host_sends() {
    let m = command_message(true, ChannelType::Slack, "c", "t").ok().unwrap();
    assert_eq!((m.chat_id.as_deref(), m.content.as_str()), (Some("c"), "t"));
    assert_eq!(
        command_message(false, ChannelType::Slack, "c", "t").err().unwrap(),
        "Outbound channel not available"
    );
    assert_eq!(send_message(Ok(())), Ok(()));
    assert_eq!(send_message(Err("closed".into())), Err("Outbound send failed: closed".to_string()));
}

#[test]
fn jobs_run_tools_broadcast_or_ask() {
    match cron_action(job(None, Some("evolution"))) {
        CronAction::RunTool { tool, args, target } => {
            assert_eq!(tool, "evolution");
            assert!(matches!(args, Json::Object(m) if m.is_empty()));
            assert_eq!(target.chat_id.as_deref(), Some("cron"));
            assert!(matches!(target.channel, ChannelType::Cli));
        }
        _ => panic!("expected a tool"),
    }
    match cron_action(job(Some("*"), Some("evolution"))) {
        CronAction::RunTool { target, .. } => assert!(target.chat_id.is_none()),
        _ => panic!("expected a tool"),
    }
    match cron_action(job(Some("*"), None)) {
        CronAction::Send(m) => {
            assert!(m.chat_id.is_none());
            assert_eq!(m.content, "m");
        }
        _ => panic!("expected a broadcast"),
    }
    match cron_action(job(Some("42"), None)) {
        CronAction::Ask(m) => {
            assert_eq!(m.sender_id, "cron");
            assert_eq!(m.chat_id, "42");
            assert_eq!(m.content, "m");
        }
        _ => panic!("expected a message"),
    }
}

#[test]
fn job_reports() {
    let target = |c: Option<&str>| Target {
        channel: ChannelType::WebSocket,
        chat_id: c.map(|s| s.to_string()),
    };
    let m = cron_report(target(Some("c")), Ok("done".into()));
    assert_eq!((m.chat_id.as_deref(), m.content.as_str()), (Some("c"), "done"));
    let m = cron_report(target(None), Err("no".into()));
    assert_eq!((m.chat_id.as_deref(), m.content.as_str()), (None, "Cron job error: no"));
}

#[test]
fn heartbeats_come_from_the_command_line() {
    let m = heartbeat_message("check".into());
    assert!(matches!(m.channel, ChannelType::Cli));
    assert_eq!((m.sender_id.as_str(), m.chat_id.as_str(), m.content.as_str()), ("heartbeat", "heartbeat", "check"));
    assert_eq!(cron_state_path("/c"), "/c/state/cron.json");
}

#[test]
fn slash_commands() {
    assert_eq!(builtin_commands(), vec!["exit", "clear", "help", "new", "sessions", "model"]);
    assert_eq!(user_commands_dir(&Some("/h".into())).as_deref(), Some("/h/.gasket/commands"));
    assert_eq!(user_commands_dir(&None), None);
}

#[test]
fn tools_from_the_command_line() {
    let v = tool_arguments("{\"threshold\": 20}").ok().unwrap();
    assert_eq!(member(&v, "threshold").as_u64(), Some(20));
    assert_eq!(
        tool_arguments("{oops").err().unwrap(),
        "Failed to parse tool arguments as JSON: {oops"
    );
    assert!(checked_arguments(Some(Json::Null), "null").is_ok());
    assert!(checked_arguments(None, "x").is_err());
    assert_eq!(
        tool_report("t", Ok("out".into())),
        Ok(vec!["✓ Tool 't' executed successfully.\n".to_string(), "out".to_string()])
    );
    assert_eq!(tool_report("t", Err("e".into())), Err("Tool 't' failed: e".to_string()));
}

#[test]
fn every_job_is_advanced_once_whatever_comes_of_it() {
    let named = |id: &str, chat: Option<&str>, tool: Option<&str>| {
        let mut j = job(chat, tool);
        j.id = id.into();
        j
    };
    let jobs = vec![
        named("a", Some("7"), Some("good")),
        named("b", Some("*"), Some("bad")),
        named("c", Some("*"), None),
        named("d", None, None),
    ];
    let (mut round, mut action) = CronRound::begin(jobs);
    let mut done: Vec<String> = Vec::new();
    loop {
        let event = match action {
            RoundAction::Run { tool, .. } => {
                done.push(format!("run {tool}"));
                RoundEvent::Ran(if tool == "good" { Ok("fine".into()) } else { Err("no".into()) })
            }
            RoundAction::Send(m) => {
                done.push(format!("send {:?} {}", m.chat_id, m.content));
                RoundEvent::HandedOn
            }
            RoundAction::Ask(m) => {
                done.push(format!("ask {} {}", m.chat_id, m.content));
                RoundEvent::HandedOn
            }
            RoundAction::Advance(id) => {
                done.push(format!("advance {id}"));
                RoundEvent::Advanced
            }
            RoundAction::Rest => break,
        };
        action = round.step(event);
    }
    assert_eq!(
        done,
        vec![
            "run good",
            "send Some(\"7\") fine",
            "advance a",
            "run bad",
            "send None Cron job error: no",
            "advance b",
            "send None m",
            "advance c",
            "ask cron m",
            "advance d",
        ]
    );
    assert!(matches!(CronRound::begin(Vec::new()).1, RoundAction::Rest));
}
