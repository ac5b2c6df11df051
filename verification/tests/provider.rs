use cli_agent::provider::{
    api_error, judge_status, parse_anthropic_response, parse_flag, parse_openai_response,
    response_lines, to_anthropic_messages, to_anthropic_tools, to_openai_messages,
    to_openai_tools, AnthropicContent, AnthropicResponse, AnthropicUsage, ContentBlock, Message,
    OpenAIChoice, OpenAIChoiceMessage, OpenAIFunctionCall, OpenAIResponse, OpenAIToolCall,
    OpenAIUsage, ProviderConfig, ProviderError, ProviderKind, ProviderResponse, Role,
    StatusVerdict, StopReason, TokenUsage, ToolDefinition,
};

const DEFAULT: &str = "sonnet-4-default";

fn text_block(t: &str) -> ContentBlock {
    ContentBlock::Text { text: t.to_string() }
}

fn strings(v: &[&str]) -> Vec<String> {
    v.iter().map(|s| s.to_string()).collect()
}

#[test]
fn openai_translation_splits_roles_and_tool_traffic() {
    let messages = vec![
        Message { role: Role::User, content: vec![text_block("hello"), text_block("there")] },
        Message {
            role: Role::Assistant,
            content: vec![
                text_block("reading"),
                ContentBlock::ToolUse {
                    id: "t1".to_string(),
                    name: "read_file".to_string(),
                    input: "{ \"path\" : \"a.rs\" }".to_string(),
                },
            ],
        },
        Message {
            role: Role::User,
            content: vec![ContentBlock::ToolResult {
                tool_use_id: "t1".to_string(),
                content: "fn main() {}".to_string(),
                is_error: false,
            }],
        },
        Message { role: Role::System, content: vec![text_block("be brief")] },
    ];
    let out = to_openai_messages("You are helpful.", &messages);
    assert_eq!(out.len(), 5);
    assert_eq!(out[0].role, "system");
    assert_eq!(out[0].content.as_deref(), Some("You are helpful."));
    assert_eq!(out[1].role, "user");
    assert_eq!(out[1].content.as_deref(), Some("hello\nthere"));
    assert_eq!(out[2].role, "assistant");
    assert_eq!(out[2].content.as_deref(), Some("reading"));
    let calls = out[2].tool_calls.as_ref().unwrap();
    assert_eq!(calls.len(), 1);
    assert_eq!(calls[0].id, "t1");
    assert_eq!(calls[0].call_type, "function");
    assert_eq!(calls[0].function.name, "read_file");
    assert_eq!(calls[0].function.arguments, "{\"path\":\"a.rs\"}");
    assert_eq!(out[3].role, "tool");
    assert_eq!(out[3].content.as_deref(), Some("fn main() {}"));
    assert_eq!(out[3].tool_call_id.as_deref(), Some("t1"));
    assert_eq!(out[4].role, "system");
    assert_eq!(out[4].content.as_deref(), Some("be brief"));
}

#[test]
fn openai_translation_edge_cases() {
    // No system message for an empty prompt; no user message for a user
    // turn without text; an assistant turn without text or calls has
    // neither.
    let messages = vec![
        Message { role: Role::User, content: vec![] },
        Message { role: Role::Assistant, content: vec![] },
    ];
    let out = to_openai_messages("", &messages);
    assert_eq!(out.len(), 1);
    assert_eq!(out[0].role, "assistant");
    assert!(out[0].content.is_none());
    assert!(out[0].tool_calls.is_none());
    // Arguments that are not JSON become empty.
    let messages = vec![Message {
        role: Role::Assistant,
        content: vec![ContentBlock::ToolUse {
            id: "x".to_string(),
            name: "n".to_string(),
            input: "not json".to_string(),
        }],
    }];
    let out = to_openai_messages("", &messages);
    assert_eq!(out[0].tool_calls.as_ref().unwrap()[0].function.arguments, "");
}

#[test]
fn anthropic_translation_maps_system_to_user_and_error_flags() {
    let messages = vec![
        Message { role: Role::System, content: vec![text_block("sys")] },
        Message {
            role: Role::User,
            content: vec![
                ContentBlock::ToolResult {
                    tool_use_id: "a".to_string(),
                    content: "ok".to_string(),
                    is_error: false,
                },
                ContentBlock::ToolResult {
                    tool_use_id: "b".to_string(),
                    content: "bad".to_string(),
                    is_error: true,
                },
            ],
        },
        Message { role: Role::Assistant, content: vec![text_block("done")] },
    ];
    let out = to_anthropic_messages(&messages);
    assert_eq!(out.len(), 3);
    assert_eq!(out[0].role, "user");
    assert_eq!(out[1].role, "user");
    assert_eq!(out[2].role, "assistant");
    assert!(matches!(&out[1].content[0], AnthropicContent::ToolResult { is_error: None, .. }));
    assert!(matches!(&out[1].content[1], AnthropicContent::ToolResult { is_error: Some(true), .. }));
    assert!(matches!(&out[2].content[0], AnthropicContent::Text { text } if text == "done"));
}

#[test]
fn tool_definitions_translate_one_for_one() {
    let tools = vec![ToolDefinition {
        name: "read_file".to_string(),
        description: "Read a file".to_string(),
        parameters: "{\"type\":\"object\"}".to_string(),
    }];
    let a = to_anthropic_tools(&tools);
    assert_eq!(a.len(), 1);
    assert_eq!(a[0].name, "read_file");
    assert_eq!(a[0].input_schema, "{\"type\":\"object\"}");
    let o = to_openai_tools(&tools);
    assert_eq!(o[0].tool_type, "function");
    assert_eq!(o[0].function.description, "Read a file");
    assert_eq!(o[0].function.parameters, "{\"type\":\"object\"}");
}

#[test]
fn anthropic_response_normalises() {
    let resp = AnthropicResponse {
        content: vec![
            AnthropicContent::Text { text: "hi".to_string() },
            AnthropicContent::ToolResult {
                tool_use_id: "r".to_string(),
                content: "c".to_string(),
                is_error: None,
            },
        ],
        model: "sonnet-test".to_string(),
        stop_reason: Some("tool_use".to_string()),
        usage: AnthropicUsage { input_tokens: 10, output_tokens: 5 },
    };
    let r = parse_anthropic_response(resp);
    assert_eq!(r.model, "sonnet-test");
    assert_eq!(r.usage, TokenUsage { input_tokens: 10, output_tokens: 5 });
    assert_eq!(r.stop_reason, StopReason::ToolUse);
    assert!(matches!(&r.content[1], ContentBlock::ToolResult { is_error: false, .. }));
    let stops = [
        (Some("end_turn"), StopReason::EndTurn),
        (Some("max_tokens"), StopReason::MaxTokens),
        (Some("refusal"), StopReason::Unknown("refusal".to_string())),
        (None, StopReason::Unknown("none".to_string())),
    ];
    for (reason, expected) in stops {
        let resp = AnthropicResponse {
            content: vec![],
            model: String::new(),
            stop_reason: reason.map(|s| s.to_string()),
            usage: AnthropicUsage { input_tokens: 0, output_tokens: 0 },
        };
        assert_eq!(parse_anthropic_response(resp).stop_reason, expected);
    }
}

fn openai_response(content: Option<&str>, calls: Option<Vec<OpenAIToolCall>>, finish: Option<&str>) -> OpenAIResponse {
    OpenAIResponse {
        choices: vec![OpenAIChoice {
            message: OpenAIChoiceMessage { content: content.map(|s| s.to_string()), tool_calls: calls },
            finish_reason: finish.map(|s| s.to_string()),
        }],
        model: "gpt-4o".to_string(),
        usage: None,
    }
}

#[test]
fn openai_response_normalises() {
    let calls = vec![
        OpenAIToolCall {
            id: "c1".to_string(),
            call_type: "function".to_string(),
            function: OpenAIFunctionCall {
                name: "read_file".to_string(),
                arguments: "{\"path\": \"x\"}".to_string(),
            },
        },
        OpenAIToolCall {
            id: "c2".to_string(),
            call_type: "function".to_string(),
            function: OpenAIFunctionCall { name: "broken".to_string(), arguments: "{oops".to_string() },
        },
    ];
    let r = parse_openai_response(openai_response(Some(""), Some(calls), Some("tool_calls")));
    assert_eq!(r.content.len(), 2);
    assert!(matches!(&r.content[0], ContentBlock::ToolUse { input, .. } if input == "{\"path\":\"x\"}"));
    assert!(matches!(&r.content[1], ContentBlock::ToolUse { input, .. } if input == "{}"));
    assert_eq!(r.stop_reason, StopReason::ToolUse);
    assert_eq!(r.usage, TokenUsage { input_tokens: 0, output_tokens: 0 });

    let mut resp = openai_response(Some("hello"), None, Some("stop"));
    resp.usage = Some(OpenAIUsage { prompt_tokens: 7, completion_tokens: 3, total_tokens: 10 });
    let r = parse_openai_response(resp);
    assert!(matches!(&r.content[0], ContentBlock::Text { text } if text == "hello"));
    assert_eq!(r.stop_reason, StopReason::EndTurn);
    assert_eq!(r.usage, TokenUsage { input_tokens: 7, output_tokens: 3 });
    let r = parse_openai_response(openai_response(None, None, Some("length")));
    assert_eq!(r.stop_reason, StopReason::MaxTokens);
    assert!(r.content.is_empty());
}

#[test]
fn error_classification() {
    let http = ProviderError::Http("connection reset".to_string());
    let rate = ProviderError::RateLimited { retry_after_ms: Some(2000) };
    let auth = ProviderError::Auth("bad key".to_string());
    let server = api_error(503, "overloaded".to_string());
    let client = api_error(400, "bad request".to_string());
    let ser = ProviderError::Serialization("eof".to_string());
    assert!(http.is_retryable() && !http.should_fallback());
    assert!(rate.is_retryable() && rate.should_fallback());
    assert!(!auth.is_retryable() && auth.should_fallback());
    assert!(server.is_retryable() && server.should_fallback());
    assert!(!client.is_retryable() && !client.should_fallback());
    assert!(!ser.is_retryable() && !ser.should_fallback());
    assert_eq!(http.message(), "HTTP error: connection reset");
    assert_eq!(server.message(), "API error (status 503): overloaded");
    assert_eq!(rate.message(), "Rate limited, retry after Some(2000)ms");
    assert_eq!(
        ProviderError::RateLimited { retry_after_ms: None }.message(),
        "Rate limited, retry after Nonems"
    );
    assert_eq!(auth.message(), "Auth error: bad key");
    assert_eq!(ser.message(), "Serialization error: eof");
}

#[test]
fn status_judgement() {
    assert_eq!(judge_status(ProviderKind::Anthropic, 200, None), StatusVerdict::Success);
    assert_eq!(
        judge_status(ProviderKind::OpenAI, 429, Some("3")),
        StatusVerdict::Fail(ProviderError::RateLimited { retry_after_ms: Some(3000) })
    );
    assert_eq!(
        judge_status(ProviderKind::OpenAI, 429, Some("soon")),
        StatusVerdict::Fail(ProviderError::RateLimited { retry_after_ms: None })
    );
    assert_eq!(
        judge_status(ProviderKind::Anthropic, 401, None),
        StatusVerdict::Fail(ProviderError::Auth("Invalid Anthropic API key".to_string()))
    );
    assert_eq!(
        judge_status(ProviderKind::OpenAI, 401, None),
        StatusVerdict::Fail(ProviderError::Auth("Invalid OpenAI API key".to_string()))
    );
    assert_eq!(judge_status(ProviderKind::OpenAI, 500, None), StatusVerdict::ReadBodyForError);
    assert_eq!(judge_status(ProviderKind::OpenAI, 302, None), StatusVerdict::ReadBodyForError);
}

#[test]
fn flags_and_configuration() {
    let args = strings(&["agent", "--provider", "openai", "--model", "gpt-x"]);
    assert_eq!(parse_flag(&args, "--provider").as_deref(), Some("openai"));
    assert_eq!(parse_flag(&args, "--base-url"), None);
    assert_eq!(parse_flag(&strings(&["agent", "--model"]), "--model"), None);

    let c = ProviderConfig::from_cli_and_env(&args, Some("anthropic".to_string()), None, Some("sk-o".to_string()), DEFAULT)
        .unwrap();
    assert_eq!(c.provider_name, "openai");
    assert_eq!(c.model, "gpt-x");
    assert_eq!(c.api_key, "sk-o");
    assert_eq!(c.base_url, None);

    let none = strings(&["agent"]);
    let c = ProviderConfig::from_cli_and_env(&none, None, Some("sk-a".to_string()), None, DEFAULT).unwrap();
    assert_eq!(c.provider_name, "anthropic");
    assert_eq!(c.model, DEFAULT);
    let c = ProviderConfig::from_cli_and_env(&none, Some("openai".to_string()), None, Some("k".to_string()), DEFAULT)
        .unwrap();
    assert_eq!(c.model, "gpt-4o");

    assert_eq!(
        ProviderConfig::from_cli_and_env(&none, None, None, None, DEFAULT).unwrap_err(),
        "ANTHROPIC_API_KEY not set"
    );
    assert_eq!(
        ProviderConfig::from_cli_and_env(&none, Some("openai".to_string()), Some("k".to_string()), None, DEFAULT)
            .unwrap_err(),
        "OPENAI_API_KEY not set"
    );
    assert_eq!(
        ProviderConfig::from_cli_and_env(&strings(&["a", "--provider", "gemini"]), None, None, None, DEFAULT)
            .unwrap_err(),
        "Unknown provider: gemini"
    );
}

#[test]
fn building_a_provider() {
    let args = strings(&["agent", "--base-url", "http://localhost:8080"]);
    let c = ProviderConfig::from_cli_and_env(&args, None, Some("k".to_string()), None, DEFAULT).unwrap();
    let s = c.build_provider().unwrap();
    assert_eq!(s.kind, ProviderKind::Anthropic);
    assert_eq!(s.base_url, "http://localhost:8080");
    assert_eq!(s.kind.name(), "anthropic");
    let c = ProviderConfig {
        provider_name: "openai".to_string(),
        model: "m".to_string(),
        api_key: "k".to_string(),
        base_url: None,
    };
    let s = c.build_provider().unwrap();
    assert_eq!(s.base_url, "https://api.openai.com");
    assert_eq!(s.kind.name(), "openai");
    let c = ProviderConfig {
        provider_name: "x".to_string(),
        model: "m".to_string(),
        api_key: "k".to_string(),
        base_url: None,
    };
    assert_eq!(c.build_provider().unwrap_err(), "Unknown provider: x");
}

#[test]
fn response_display_lines() {
    let resp = ProviderResponse {
        content: vec![
            text_block("Four."),
            ContentBlock::ToolUse {
                id: "t".to_string(),
                name: "read_file".to_string(),
                input: "{\"path\":\"a\"}".to_string(),
            },
            ContentBlock::ToolResult { tool_use_id: "t".to_string(), content: "x".to_string(), is_error: true },
        ],
        usage: TokenUsage { input_tokens: 12, output_tokens: 3 },
        model: "m1".to_string(),
        stop_reason: StopReason::Unknown("odd\"one".to_string()),
    };
    let lines = response_lines(&resp);
    assert_eq!(
        lines,
        vec![
            "Four.".to_string(),
            "[tool_use] read_file (id=t)".to_string(),
            "  input: {\"path\":\"a\"}".to_string(),
            "[tool_result ERROR] (id=t)".to_string(),
            "  x".to_string(),
            format!("\n--- m1 | tokens: 12 in / 3 out | stop: {:?} ---", StopReason::Unknown("odd\"one".to_string())),
        ]
    );
}
