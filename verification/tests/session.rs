use conga_gasket::session::{
    build_session, build_session_with_embedding, AgentConfig, ModelLimits, Prompts, SessionInputs,
};
use conga_gasket::tools::AgentRole;
use conga_gasket::vector::VectorStoreConfig;
use conga_gasket::wiki::create_wiki_tables;

fn config(checkpoint: Option<&str>) -> AgentConfig {
    AgentConfig {
        model: "m".into(),
        max_tokens: 4096,
        memory_window: 50,
        compaction_cooldown_secs: 30,
        after_response_hook_timeout_secs: 10,
        thinking_enabled: false,
        prompts: Prompts {
            identity_prefix: None,
            summarization: Some("sum".into()),
            checkpoint: checkpoint.map(|s| s.to_string()),
        },
    }
}

fn inputs(limits: Result<Option<ModelLimits>, String>) -> SessionInputs {
    SessionInputs {
        limits,
        default_token_budget: 8000,
        default_checkpoint_prompt: "cp".into(),
        system_prompt: Ok("sys".into()),
        skills: None,
    }
}

fn limit(i: u64, o: u64) -> Result<Option<ModelLimits>, String> {
    Ok(Some(ModelLimits { max_input_tokens: i, max_output_tokens: o }))
}

#[test]
fn limits_of_the_model_cap_the_session() {
    let p = build_session(config(None), inputs(limit(5000, 1000)));
    assert_eq!((p.max_tokens, p.token_budget), (1000, 5000));
    let p = build_session(config(None), inputs(limit(500_000, 100_000)));
    assert_eq!((p.max_tokens, p.token_budget), (4096, 8000));
    for unknown in [Ok(None), Err("offline".to_string())] {
        let p = build_session(config(None), inputs(unknown));
        assert_eq!((p.max_tokens, p.token_budget), (4096, 8000));
    }
    let p = build_session(config(None), inputs(limit(1, 0x1_0000_0005)));
    assert_eq!((p.max_tokens, p.token_budget), (5, 1));
}

#[test]
fn skills_follow_the_system_prompt() {
    let mut i = inputs(Ok(None));
    i.skills = Some("skill".into());
    assert_eq!(build_session(config(None), i).system_prompt, "sys\n\nskill");
    let mut i = inputs(Ok(None));
    i.system_prompt = Err("unreadable".into());
    assert_eq!(build_session(config(None), i).system_prompt, "");
}

#[test]
fn prompts_and_settings_are_passed_on() {
    let p = build_session(config(Some("own")), inputs(Ok(None)));
    assert_eq!(p.checkpoint_prompt, "own");
    assert_eq!(p.summarization_prompt.as_deref(), Some("sum"));
    assert_eq!(p.model, "m");
    assert_eq!((p.max_events, p.compaction_cooldown_secs, p.after_response_hook_timeout_secs), (50, 30, 10));
    assert_eq!(p.role, AgentRole::Orchestrator);
    assert!(!p.indexes_messages);
    let p = build_session_with_embedding(config(None), inputs(Ok(None)));
    assert_eq!(p.checkpoint_prompt, "cp");
    assert!(p.indexes_messages);
}

#[test]
fn vectors_have_a_default_place() {
    let VectorStoreConfig::LanceDB { path, table } = VectorStoreConfig::default();
    assert_eq!(path, "~/.gasket/vectors");
    assert_eq!(table, "event_embeddings");
}

#[test]
fn wiki_tables_come_before_their_indexes() {
    let s = create_wiki_tables();
    assert_eq!(s.len(), 6);
    assert!(s[0].contains("CREATE TABLE IF NOT EXISTS wiki_pages ("));
    assert_eq!(s[5], "CREATE INDEX IF NOT EXISTS idx_wiki_pages_last_accessed ON wiki_pages(last_accessed)");
}
