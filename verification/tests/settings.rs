use cli_agent::session::{run_single_prompt, save_path, ReplInput, ReplOutcome, Repl, Session};
use cli_agent::settings::{
    apply_cli_overrides, apply_env_overrides, banner_lines, global_config_path,
    project_config_candidates, AgentConfig, AgentError, Args,
};

const MODEL: &str = "sonnet-4-default";
const NOW: i64 = 1_700_000_000; // 2023-11-14 22:13:20 UTC

fn args() -> Args {
    Args {
        prompt: None,
        provider: None,
        model: None,
        verbose: false,
        max_turns: 20,
        config: None,
        non_interactive: false,
        resume: None,
        save_session: None,
    }
}

#[test]
fn defaults_are_the_first_layer() {
    let c = AgentConfig::defaults(MODEL);
    assert_eq!(c.provider.name, "anthropic");
    assert_eq!(c.provider.model, MODEL);
    assert_eq!(c.provider.max_tokens, 4096);
    assert_eq!(c.logging.level, "info");
    assert!(c.ui.banner);
    assert_eq!(c.session.directory, None);
    assert!(c.session.auto_save);
}

#[test]
fn environment_then_flags_override() {
    let mut c = AgentConfig::defaults(MODEL);
    apply_env_overrides(&mut c, Some("openai".to_string()), None, Some("warn".to_string()));
    assert_eq!(c.provider.name, "openai");
    assert_eq!(c.provider.model, MODEL);
    assert_eq!(c.logging.level, "warn");
    let mut a = args();
    a.provider = Some("ollama".to_string());
    a.model = Some("llama3".to_string());
    a.verbose = true;
    a.save_session = Some("/tmp/sessions/today.json".to_string());
    apply_cli_overrides(&mut c, &a);
    assert_eq!(c.provider.name, "ollama");
    assert_eq!(c.provider.model, "llama3");
    assert_eq!(c.logging.level, "debug");
    assert_eq!(c.session.directory.as_deref(), Some("/tmp/sessions"));
}

#[test]
fn validate_requires_prompt_when_non_interactive() {
    let mut a = args();
    assert_eq!(a.validate(), Ok(()));
    a.non_interactive = true;
    assert_eq!(
        a.validate(),
        Err("Non-interactive mode requires a prompt. Use: cli-agent --non-interactive -p \"your prompt\"".to_string())
    );
    a.prompt = Some("fix it".to_string());
    assert_eq!(a.validate(), Ok(()));
}

#[test]
fn global_config_path_precedence() {
    assert_eq!(global_config_path(Some("/x"), Some("/y")), "/x/cli-agent/config.toml");
    assert_eq!(global_config_path(None, Some("/y")), "/y/cli-agent/config.toml");
    assert_eq!(global_config_path(None, None), ".cli-agent.toml");
}

#[test]
fn agent_error_messages() {
    assert_eq!(
        AgentError::Config { message: "bad".to_string() }.message(),
        "Configuration error: bad"
    );
    assert_eq!(AgentError::Session { message: "s".to_string() }.message(), "Session error: s");
    assert_eq!(
        AgentError::Io { path: "/a".to_string(), source: "denied".to_string() }.message(),
        "I/O error at /a: denied"
    );
    assert_eq!(AgentError::Provider { message: "p".to_string() }.message(), "Provider error: p");
}

#[test]
fn banner_is_padded_to_the_box() {
    let mut c = AgentConfig::defaults(MODEL);
    c.provider.name = "openai".to_string();
    let lines = banner_lines(&c, "0.1.0");
    assert_eq!(lines.len(), 6);
    assert_eq!(lines[1], format!("│  cli-agent v{:<27}│", "0.1.0"));
    assert_eq!(lines[2], format!("│  Provider: {:<29}│", "openai"));
    assert_eq!(lines[3], format!("│  Model:    {:<29}│", MODEL));
    assert_eq!(lines[5], "");
    assert_eq!(lines[2].chars().count(), lines[3].chars().count());
}

#[test]
fn session_records_messages_with_times() {
    let mut s = Session::new("anthropic", MODEL, NOW);
    assert_eq!(s.id, "20231114-221320");
    assert_eq!(s.created_at, NOW);
    s.add_message("user", "hi", NOW + 5);
    assert_eq!(s.messages.len(), 1);
    assert_eq!(s.messages[0].timestamp, NOW + 5);
    assert_eq!(Session::default_path("/data/sessions", NOW), "/data/sessions/session-20231114-221320.json");
}

#[test]
fn single_prompt_mode_records_both_sides() {
    let c = AgentConfig::defaults(MODEL);
    let mut s = Session::new("anthropic", MODEL, NOW);
    let reply = run_single_prompt(&mut s, &c, "fix the test", NOW);
    assert_eq!(reply, format!("[agent would call anthropic / {MODEL} with: fix the test]"));
    assert_eq!(s.messages.len(), 2);
    assert_eq!(s.messages[0].role, "user");
    assert_eq!(s.messages[1].content, reply);
}

#[test]
fn interactive_loop_turns_and_limits() {
    let c = AgentConfig::defaults(MODEL);
    let mut s = Session::new("anthropic", MODEL, NOW);
    let mut r = Repl::new(2);
    assert_eq!(r.limit_reached(), None);
    assert_eq!(r.on_input(&mut s, &c, ReplInput::Line("   ".to_string()), NOW), ReplOutcome::Skip);
    let out = r.on_input(&mut s, &c, ReplInput::Line("  hello  ".to_string()), NOW);
    assert_eq!(out, ReplOutcome::Reply(format!("[turn 1: agent would respond via anthropic / {MODEL}]")));
    assert_eq!(s.messages[0].content, "hello");
    assert_eq!(r.turn, 1);
    assert_eq!(r.on_input(&mut s, &c, ReplInput::Line("again".to_string()), NOW), ReplOutcome::Reply(format!("[turn 2: agent would respond via anthropic / {MODEL}]")));
    assert_eq!(r.limit_reached(), Some("Reached maximum of 2 turns.".to_string()));
    let mut r = Repl::new(5);
    assert_eq!(r.on_input(&mut s, &c, ReplInput::Line("quit".to_string()), NOW), ReplOutcome::Stop);
    assert_eq!(r.on_input(&mut s, &c, ReplInput::Line("exit".to_string()), NOW), ReplOutcome::Stop);
    assert_eq!(r.on_input(&mut s, &c, ReplInput::Eof, NOW), ReplOutcome::Stop);
    assert_eq!(r.on_input(&mut s, &c, ReplInput::Failed, NOW), ReplOutcome::Stop);
    assert_eq!(r.turn, 0);
}

#[test]
fn where_sessions_are_saved() {
    let mut c = AgentConfig::defaults(MODEL);
    assert_eq!(save_path(Some("/x/s.json".to_string()), &c, None, NOW), Some("/x/s.json".to_string()));
    assert_eq!(
        save_path(None, &c, Some("/home/u/.local/share".to_string()), NOW),
        Some("/home/u/.local/share/cli-agent/sessions/session-20231114-221320.json".to_string())
    );
    assert_eq!(
        save_path(None, &c, None, NOW),
        Some("./cli-agent/sessions/session-20231114-221320.json".to_string())
    );
    c.session.directory = Some("/d".to_string());
    assert_eq!(save_path(None, &c, None, NOW), Some("/d/session-20231114-221320.json".to_string()));
    c.session.auto_save = false;
    assert_eq!(save_path(None, &c, None, NOW), None);
}

#[test]
fn project_config_is_searched_nearest_first() {
    assert_eq!(
        project_config_candidates("/home/u/proj"),
        vec!["/home/u/proj/.agent.toml", "/home/u/.agent.toml", "/home/.agent.toml", "/.agent.toml"]
    );
    assert_eq!(project_config_candidates("x"), vec!["x/.agent.toml", ".agent.toml"]);
}
