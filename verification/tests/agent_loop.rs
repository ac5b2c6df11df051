use cli_agent::agent_loop::{
    decide_action, extract_text, is_empty_response, last_assistant_text, Agent, AgentError,
    AgentRun, ConversationState, LoopAction, LoopResult, Message, Role, Step,
};
use cli_agent::provider::{AnthropicContent, AnthropicResponse, AnthropicUsage};

fn text(t: &str) -> AnthropicContent {
    AnthropicContent::Text { text: t.to_string() }
}

fn tool_use(id: &str, name: &str, input: &str) -> AnthropicContent {
    AnthropicContent::ToolUse { id: id.to_string(), name: name.to_string(), input: input.to_string() }
}

fn response(content: Vec<AnthropicContent>, stop: Option<&str>) -> AnthropicResponse {
    AnthropicResponse {
        content,
        model: "m".to_string(),
        stop_reason: stop.map(|s| s.to_string()),
        usage: AnthropicUsage { input_tokens: 10, output_tokens: 3 },
    }
}

fn agent() -> Agent {
    Agent::new("key".to_string(), "model-x".to_string())
}

#[test]
fn stop_reasons_decide_the_action() {
    let plain = vec![text("hi")];
    let with_tool = vec![text("hi"), tool_use("t", "echo", "{}")];
    assert_eq!(decide_action(Some("end_turn"), &plain), LoopAction::ReturnToUser);
    assert_eq!(decide_action(Some("stop_sequence"), &plain), LoopAction::ReturnToUser);
    assert_eq!(decide_action(Some("tool_use"), &plain), LoopAction::ExecuteTools);
    assert_eq!(decide_action(Some("max_tokens"), &plain), LoopAction::MaxTokensReached);
    assert_eq!(decide_action(Some("refusal"), &plain), LoopAction::UnexpectedReason("refusal".to_string()));
    assert_eq!(decide_action(None, &plain), LoopAction::ReturnToUser);
    assert_eq!(decide_action(None, &with_tool), LoopAction::ExecuteTools);
}

#[test]
fn text_extraction_and_emptiness() {
    let blocks = vec![text("a"), tool_use("t", "echo", "{}"), text("b")];
    assert_eq!(extract_text(&blocks), "a\nb");
    assert!(is_empty_response(&[]));
    assert!(is_empty_response(&[text("  \n")]));
    assert!(!is_empty_response(&[text(" x ")]));
    assert!(!is_empty_response(&[tool_use("t", "echo", "{}")]));
}

#[test]
fn echo_and_unknown_tools() {
    let a = agent();
    let results = a.handle_tool_calls(&[
        text("doing it"),
        tool_use("1", "echo", "{\"message\": \"ping\"}"),
        tool_use("2", "echo", "{\"other\": 1}"),
        tool_use("3", "rm", "{}"),
    ]);
    assert_eq!(results.len(), 3);
    match &results[0] {
        AnthropicContent::ToolResult { tool_use_id, content, is_error } => {
            assert_eq!(tool_use_id, "1");
            assert_eq!(content, "ping");
            assert_eq!(*is_error, None);
        }
        _ => panic!("expected a result"),
    }
    assert!(matches!(&results[1], AnthropicContent::ToolResult { content, .. } if content == "<missing message>"));
    assert!(matches!(&results[2], AnthropicContent::ToolResult { content, is_error: Some(true), .. }
        if content == "Unknown tool: 'rm'. Available tools: echo"));
}

#[test]
fn token_estimate_counts_bytes() {
    let mut s = ConversationState::new("12345678");
    assert_eq!(s.estimate_token_count(), 2);
    s.add_user_message("abcd");
    s.add_assistant_message(vec![tool_use("t", "echo", "{ \"message\" : \"x\" }")]);
    // 8 + 4 + 4 + len("{\"message\":\"x\"}") = 31 bytes.
    assert_eq!(s.estimate_token_count(), 31 / 4);
    assert!(!s.is_approaching_limit(100));
    assert!(s.is_approaching_limit(8));
    s.record_usage(5, 7);
    s.record_usage(1, 1);
    assert_eq!((s.total_input_tokens, s.total_output_tokens), (6, 8));
}

#[test]
fn loop_runs_tools_then_completes() {
    let a = agent();
    let mut state = ConversationState::new("sys");
    let mut run = AgentRun::start(&mut state, "echo ping");
    assert_eq!(state.messages.len(), 1);
    assert_eq!(run.before_call(&a, &state), None);
    let step = run.on_response(&a, &mut state, response(vec![tool_use("t1", "echo", "{\"message\":\"ping\"}")], Some("tool_use")));
    assert_eq!(step, Step::Continue);
    assert_eq!(state.messages.len(), 3);
    assert_eq!(state.messages[1].role, Role::Assistant);
    assert_eq!(state.messages[2].role, Role::User);
    let step = run.on_response(&a, &mut state, response(vec![text("ping")], Some("end_turn")));
    assert_eq!(step, Step::Finished(Ok(LoopResult::Complete("ping".to_string()))));
    assert_eq!(run.inner_turns, 2);
    assert_eq!((state.total_input_tokens, state.total_output_tokens), (20, 6));
    assert_eq!(last_assistant_text(&state), "ping");
}

#[test]
fn loop_stops_on_limits_and_errors() {
    let mut a = agent();
    a.max_inner_turns = 1;
    let mut state = ConversationState::new("sys");
    let mut run = AgentRun::start(&mut state, "hi");
    let step = run.on_response(&a, &mut state, response(vec![text("partial"), tool_use("t", "echo", "{}")], Some("tool_use")));
    assert_eq!(step, Step::Continue);
    assert_eq!(run.before_call(&a, &state), Some(LoopResult::TurnLimitReached("partial".to_string())));

    let a = agent();
    let mut run = AgentRun::start(&mut state, "again");
    let step = run.on_response(&a, &mut state, response(vec![text("  ")], Some("end_turn")));
    assert_eq!(step, Step::Finished(Err(AgentError::EmptyResponse { turn: 1 })));
    let step = run.on_response(&a, &mut state, response(vec![text("cut")], Some("max_tokens")));
    assert_eq!(step, Step::Finished(Ok(LoopResult::MaxTokens("cut".to_string()))));
    let step = run.on_response(&a, &mut state, response(vec![text("odd")], Some("pause_turn")));
    assert_eq!(step, Step::Finished(Err(AgentError::UnexpectedStopReason("pause_turn".to_string()))));

    let big = "x".repeat(600_000);
    let state = ConversationState::new(&big);
    assert_eq!(AgentRun { inner_turns: 0 }.before_call(&a, &state), Some(LoopResult::ContextOverflow));
}

#[test]
fn results_and_errors_read_well() {
    assert_eq!(LoopResult::Complete("x".to_string()).text(), "x");
    assert!(LoopResult::Complete("x".to_string()).is_complete());
    assert!(!LoopResult::MaxTokens("x".to_string()).is_complete());
    assert_eq!(
        LoopResult::ContextOverflow.text(),
        "The conversation has grown too long. Please start a new session."
    );
    assert_eq!(AgentError::ApiError("boom".to_string()).message(), "API error: boom");
    assert_eq!(AgentError::EmptyResponse { turn: 3 }.message(), "Empty response from model on turn 3");
    assert_eq!(AgentError::UnexpectedStopReason("z".to_string()).message(), "Unexpected stop reason: z");
    assert_eq!(AgentError::MaxTurnsReached { limit: 25 }.message(), "Maximum turns reached: 25");
    let m = Message::user("hello");
    assert_eq!(m.role, Role::User);
    let defs = agent().tool_definitions();
    assert_eq!(defs.len(), 1);
    assert_eq!(defs[0].name, "echo");
    let schema: serde_json::Value = serde_json::from_str(&defs[0].input_schema).unwrap();
    assert_eq!(schema["required"][0], "message");
}
