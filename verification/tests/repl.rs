use cli_agent::repl::{
    banner_lines, extract_chat_text, git_diff_args, git_outcome, git_spawn_error,
    git_status_args, handle_builtin, handle_command, history_path, load_extensions, ApiError,
    ChatContentBlock, CommandResult,
};

#[test]
fn builtin_commands() {
    assert!(matches!(handle_builtin("help", false), CommandResult::Continue(t) if t.starts_with("Available commands:\n  /help, /h")));
    assert!(matches!(handle_builtin("h", false), CommandResult::Continue(_)));
    assert_eq!(handle_builtin("quit", false), CommandResult::Exit);
    assert_eq!(handle_builtin("q", true), CommandResult::Exit);
    assert_eq!(handle_builtin("clear", false), CommandResult::ClearScreen);
    assert_eq!(handle_builtin("verbose", true), CommandResult::Continue("Verbose mode is ON".to_string()));
    assert_eq!(handle_builtin("verbose", false), CommandResult::Continue("Verbose mode is OFF".to_string()));
    assert_eq!(
        handle_builtin("nope", false),
        CommandResult::Continue("Unknown command: /nope. Type /help for available commands.".to_string())
    );
}

#[test]
fn lines_are_commands_or_messages() {
    assert_eq!(handle_command("/quit", false), (None, CommandResult::Exit));
    assert_eq!(
        handle_command("/clear", true),
        (Some("[DEBUG] Built-in command: /clear".to_string()), CommandResult::ClearScreen)
    );
    assert_eq!(
        handle_command("héllo", true),
        (
            Some("[DEBUG] Processing message (6 chars): héllo".to_string()),
            CommandResult::Continue("You said: héllo\n\n(LLM integration coming next!)".to_string())
        )
    );
}

#[test]
fn banner_and_history() {
    let b = banner_lines("1.2.3");
    assert_eq!(b.len(), 7);
    assert_eq!(b[1], "  Kodai v1.2.3");
    assert_eq!(history_path(Some("/home/u")), Some("/home/u/.kodai_history".to_string()));
    assert_eq!(history_path(None), None);
}

#[test]
fn chat_text_and_errors() {
    let blocks = vec![
        ChatContentBlock { block_type: "text".to_string(), text: Some("one".to_string()) },
        ChatContentBlock { block_type: "tool_use".to_string(), text: None },
        ChatContentBlock { block_type: "text".to_string(), text: Some("two".to_string()) },
    ];
    assert_eq!(extract_chat_text(&blocks), "one\ntwo");
    let e = ApiError::ApiResponse { status: 401, error_type: "authentication_error".to_string(), message: "bad key".to_string() };
    assert_eq!(e.message(), "API error (401 authentication_error): bad key");
    assert_eq!(
        e.failure_lines(),
        vec!["\nAuthentication failed: bad key".to_string(), "Check your ANTHROPIC_API_KEY environment variable.\n".to_string()]
    );
    let e = ApiError::ApiResponse { status: 500, error_type: "api_error".to_string(), message: "oops".to_string() };
    assert_eq!(e.failure_lines(), vec!["\nAPI error (500 api_error): oops\n".to_string()]);
    let e = ApiError::ApiResponse { status: 529, error_type: "overloaded_error".to_string(), message: "busy".to_string() };
    assert_eq!(e.failure_lines()[0], "\nAPI is overloaded: busy");
    let e = ApiError::UnexpectedResponse { status: 502, body: "<html>".to_string() };
    assert_eq!(e.message(), "Unexpected error response (502): <html>");
    assert_eq!(e.failure_lines(), vec!["\nUnexpected error (502): <html>\n".to_string()]);
    let e = ApiError::Network("timed out".to_string());
    assert_eq!(e.message(), "Network error: timed out");
    assert_eq!(e.failure_lines()[1], "Check your internet connection and try again.\n");
}

#[test]
fn git_commands_and_results() {
    assert_eq!(git_status_args(), vec!["status", "--short"]);
    assert_eq!(git_diff_args(true), vec!["diff", "--cached"]);
    assert_eq!(git_diff_args(false), vec!["diff"]);
    assert_eq!(git_outcome(true, b" M src/a.rs\n", b""), Ok(" M src/a.rs\n".to_string()));
    assert_eq!(git_outcome(false, b"", b"fatal: not a git repository\xff"), Err("fatal: not a git repository\u{fffd}".to_string()));
    assert_eq!(git_spawn_error("not found"), "Failed to run git: not found");
    let (commands, tools) = load_extensions("config.toml");
    assert!(commands.is_empty() && tools.is_empty());
}
