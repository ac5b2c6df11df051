//! The first REPL's command handling (built-in slash commands and the
//! echo of user messages), the chat client's reply extraction and error
//! messages, git command results, and the extension registry.
use vstd::prelude::*;
use vstd::utf8::encode_utf8;
use crate::paths::{path_join, std_path_join};
use crate::streaming::{decode_lossy, std_utf8_lossy};
use crate::text::{decimal, join, join_strings, push_decimal, push_str, str_eq, string_views};

verus! {

// ---------------------------------------------------------------------------
// Commands
// ---------------------------------------------------------------------------

/// The outcome of processing one line.
#[derive(Debug, Clone, PartialEq)]
pub enum CommandResult {
    /// Print the text and continue.
    Continue(String),
    /// Continue without printing.
    Silent,
    /// Clear the terminal, then continue without printing.
    ClearScreen,
    /// Leave the loop.
    Exit,
}

/// An outcome by its values.
pub enum ResultView {
    Continue(Seq<char>),
    Silent,
    ClearScreen,
    Exit,
}

/// The view of an outcome.
pub open spec fn result_view(r: CommandResult) -> ResultView {
    match r {
        CommandResult::Continue(t) => ResultView::Continue(t@),
        CommandResult::Silent => ResultView::Silent,
        CommandResult::ClearScreen => ResultView::ClearScreen,
        CommandResult::Exit => ResultView::Exit,
    }
}

/// The help text of the built-in commands.
pub open spec fn help_text() -> Seq<char> {
    "Available commands:\n  /help, /h       Show this help message\n  /quit, /q       Exit the agent\n  /clear          Clear the terminal screen\n  /verbose        Show verbose mode status\n\nOr just type a message to chat with the agent."@
}

/// What a built-in command (the text after `/`) does.
pub open spec fn builtin_result(cmd: Seq<char>, verbose: bool) -> ResultView {
    if cmd == "help"@ || cmd == "h"@ {
        ResultView::Continue(help_text())
    } else if cmd == "quit"@ || cmd == "q"@ {
        ResultView::Exit
    } else if cmd == "clear"@ {
        ResultView::ClearScreen
    } else if cmd == "verbose"@ {
        ResultView::Continue(
            "Verbose mode is "@ + if verbose {
                "ON"@
            } else {
                "OFF"@
            },
        )
    } else {
        ResultView::Continue("Unknown command: /"@ + cmd + ". Type /help for available commands."@)
    }
}

/// The reply to a user message.
pub open spec fn echo_reply(message: Seq<char>) -> Seq<char> {
    "You said: "@ + message + "\n\n(LLM integration coming next!)"@
}

/// What a line does: a line starting with `/` is a built-in command,
/// anything else a message; in verbose mode a debug line is shown first.
pub open spec fn command_result(input: Seq<char>, verbose: bool) -> (Option<Seq<char>>, ResultView) {
    if input.len() > 0 && input[0] == '/' {
        let cmd = input.skip(1);
        (
            if verbose {
                Some("[DEBUG] Built-in command: /"@ + cmd)
            } else {
                None
            },
            builtin_result(cmd, verbose),
        )
    } else {
        (
            if verbose {
                Some(
                    "[DEBUG] Processing message ("@ + decimal((encode_utf8(input).len() as usize) as nat)
                        + " chars): "@
                        + input,
                )
            } else {
                None
            },
            ResultView::Continue(echo_reply(input)),
        )
    }
}

/// Handles a built-in command (the text after `/`).
pub fn handle_builtin(cmd: &str, verbose: bool) -> (r: CommandResult)
    ensures
        result_view(r) == builtin_result(cmd@, verbose),
{
    if str_eq(cmd, "help") || str_eq(cmd, "h") {
        CommandResult::Continue(
            "Available commands:\n  /help, /h       Show this help message\n  /quit, /q       Exit the agent\n  /clear          Clear the terminal screen\n  /verbose        Show verbose mode status\n\nOr just type a message to chat with the agent.".to_string(),
        )
    } else if str_eq(cmd, "quit") || str_eq(cmd, "q") {
        CommandResult::Exit
    } else if str_eq(cmd, "clear") {
        CommandResult::ClearScreen
    } else if str_eq(cmd, "verbose") {
        let mut s = "Verbose mode is ".to_string();
        push_str(&mut s, if verbose { "ON" } else { "OFF" });
        CommandResult::Continue(s)
    } else {
        let mut s = "Unknown command: /".to_string();
        push_str(&mut s, cmd);
        push_str(&mut s, ". Type /help for available commands.");
        CommandResult::Continue(s)
    }
}

/// Handles a user message: echoes it back.
pub fn handle_user_message(message: &str) -> (r: CommandResult)
    ensures
        result_view(r) == ResultView::Continue(echo_reply(message@)),
{
    let mut s = "You said: ".to_string();
    push_str(&mut s, message);
    push_str(&mut s, "\n\n(LLM integration coming next!)");
    CommandResult::Continue(s)
}

/// Handles one line of input; returns the debug line to show first (in
/// verbose mode) and the outcome.
pub fn handle_command(input: &str, verbose: bool) -> (r: (Option<String>, CommandResult))
    ensures
        (match r.0 {
            Some(d) => Some(d@),
            None => None,
        }, result_view(r.1)) == command_result(input@, verbose),
{
    let cs = crate::text::chars_of(input);
    if cs.len() > 0 && cs[0] == '/' {
        let mut cmd = String::new();
        crate::text::push_chars(&mut cmd, cs.as_slice(), 1, cs.len());
        assert(cs@.subrange(1, cs@.len() as int) == input@.skip(1));
        assert(Seq::<char>::empty() + input@.skip(1) == input@.skip(1));
        let debug = if verbose {
            let mut d = "[DEBUG] Built-in command: /".to_string();
            push_str(&mut d, cmd.as_str());
            Some(d)
        } else {
            None
        };
        (debug, handle_builtin(cmd.as_str(), verbose))
    } else {
        let debug = if verbose {
            let mut d = "[DEBUG] Processing message (".to_string();
            push_decimal(&mut d, input.len() as u64);
            push_str(&mut d, " chars): ");
            push_str(&mut d, input);
            Some(d)
        } else {
            None
        };
        (debug, handle_user_message(input))
    }
}

/// The first REPL's banner, for the program version.
pub open spec fn repl_banner(version: Seq<char>) -> Seq<Seq<char>> {
    seq![
        Seq::<char>::empty(),
        "  Kodai v"@ + version,
        "  Your CLI coding agent"@,
        Seq::<char>::empty(),
        "  Type /help for available commands"@,
        "  Type /quit or press Ctrl+D to exit"@,
        Seq::<char>::empty(),
    ]
}

/// The banner lines for the program version.
pub fn banner_lines(version: &str) -> (lines: Vec<String>)
    ensures
        string_views(lines@) == repl_banner(version@),
{
    let mut v = "  Kodai v".to_string();
    push_str(&mut v, version);
    let lines = vec![
        String::new(),
        v,
        "  Your CLI coding agent".to_string(),
        String::new(),
        "  Type /help for available commands".to_string(),
        "  Type /quit or press Ctrl+D to exit".to_string(),
        String::new(),
    ];
    assert(string_views(lines@) =~= repl_banner(version@));
    lines
}

/// The history file under the home directory, where `HOME` is set.
pub fn history_path(home: Option<&str>) -> (p: Option<String>)
    ensures
        match p {
            Some(x) => home is Some && x@ == std_path_join(home->0@, ".kodai_history"@),
            None => home is None,
        },
{
    match home {
        Some(h) => Some(path_join(h, ".kodai_history")),
        None => None,
    }
}

// ---------------------------------------------------------------------------
// The chat client
// ---------------------------------------------------------------------------

/// A content block of a chat response: its type and its text, if any.
#[derive(Debug, Clone)]
pub struct ChatContentBlock {
    pub block_type: String,
    pub text: Option<String>,
}

/// The texts of the blocks that have one, in order.
pub open spec fn chat_texts(bs: Seq<ChatContentBlock>) -> Seq<Seq<char>>
    decreases bs.len(),
{
    if bs.len() == 0 {
        seq![]
    } else {
        chat_texts(bs.drop_last()) + match bs.last().text {
            Some(t) => seq![t@],
            None => seq![],
        }
    }
}

/// The assistant's text: the blocks' texts joined by line breaks.
pub fn extract_chat_text(content: &[ChatContentBlock]) -> (s: String)
    ensures
        s@ == join(chat_texts(content@), "\n"@),
{
    let mut texts: Vec<String> = Vec::new();
    let mut i: usize = 0;
    while i < content.len()
        invariant
            i <= content@.len(),
            string_views(texts@) == chat_texts(content@.take(i as int)),
        decreases content.len() - i,
    {
        assert(content@.take(i + 1).drop_last() == content@.take(i as int));
        assert(content@.take(i + 1).last() == content@[i as int]);
        let ghost before = texts@;
        match &content[i].text {
            Some(t) => {
                texts.push(t.clone());
                assert(string_views(texts@) == string_views(before).push(t@));
            },
            None => {},
        }
        i = i + 1;
    }
    assert(content@.take(content@.len() as int) == content@);
    join_strings(texts.as_slice(), "\n")
}

/// The ways a chat request fails. A transport failure is held by its
/// text.
#[derive(Debug, Clone, PartialEq)]
pub enum ApiError {
    Network(String),
    ApiResponse { status: u16, error_type: String, message: String },
    UnexpectedResponse { status: u16, body: String },
}

/// The message of a chat error.
pub open spec fn api_error_text(e: ApiError) -> Seq<char> {
    match e {
        ApiError::Network(t) => "Network error: "@ + t@,
        ApiError::ApiResponse { status, error_type, message } => "API error ("@ + decimal(
            status as nat,
        ) + " "@ + error_type@ + "): "@ + message@,
        ApiError::UnexpectedResponse { status, body } => "Unexpected error response ("@ + decimal(
            status as nat,
        ) + "): "@ + body@,
    }
}

/// What the REPL shows for a failed request: a message and a hint.
pub open spec fn failure_lines(e: ApiError) -> Seq<Seq<char>> {
    match e {
        ApiError::Network(t) => seq![
            "\nNetwork error: "@ + t@,
            "Check your internet connection and try again.\n"@,
        ],
        ApiError::ApiResponse { status, error_type, message } => if status == 401 {
            seq![
                "\nAuthentication failed: "@ + message@,
                "Check your ANTHROPIC_API_KEY environment variable.\n"@,
            ]
        } else if status == 429 {
            seq!["\nRate limited: "@ + message@, "Wait a moment and try again.\n"@]
        } else if status == 529 {
            seq![
                "\nAPI is overloaded: "@ + message@,
                "The service is temporarily busy. Try again shortly.\n"@,
            ]
        } else {
            seq![
                "\nAPI error ("@ + decimal(status as nat) + " "@ + error_type@ + "): "@ + message@
                    + "\n"@,
            ]
        },
        ApiError::UnexpectedResponse { status, body } => seq![
            "\nUnexpected error ("@ + decimal(status as nat) + "): "@ + body@ + "\n"@,
        ],
    }
}

impl ApiError {
    /// The message of the error.
    pub fn message(&self) -> (s: String)
        ensures
            s@ == api_error_text(*self),
    {
        let mut s = String::new();
        match self {
            ApiError::Network(t) => {
                push_str(&mut s, "Network error: ");
                push_str(&mut s, t.as_str());
            },
            ApiError::ApiResponse { status, error_type, message } => {
                push_str(&mut s, "API error (");
                push_decimal(&mut s, *status as u64);
                push_str(&mut s, " ");
                push_str(&mut s, error_type.as_str());
                push_str(&mut s, "): ");
                push_str(&mut s, message.as_str());
            },
            ApiError::UnexpectedResponse { status, body } => {
                push_str(&mut s, "Unexpected error response (");
                push_decimal(&mut s, *status as u64);
                push_str(&mut s, "): ");
                push_str(&mut s, body.as_str());
            },
        }
        s
    }

    /// The lines the REPL prints for the failure: the message and a hint
    /// suited to the status.
    pub fn failure_lines(&self) -> (lines: Vec<String>)
        ensures
            string_views(lines@) == failure_lines(*self),
    {
        match self {
            ApiError::Network(t) => {
                let mut a = "\nNetwork error: ".to_string();
                push_str(&mut a, t.as_str());
                let lines = vec![a, "Check your internet connection and try again.\n".to_string()];
                assert(string_views(lines@) =~= failure_lines(*self));
                lines
            },
            ApiError::ApiResponse { status, error_type, message } => {
                if *status == 401 || *status == 429 || *status == 529 {
                    let (head, hint) = if *status == 401 {
                        ("\nAuthentication failed: ", "Check your ANTHROPIC_API_KEY environment variable.\n")
                    } else if *status == 429 {
                        ("\nRate limited: ", "Wait a moment and try again.\n")
                    } else {
                        ("\nAPI is overloaded: ", "The service is temporarily busy. Try again shortly.\n")
                    };
                    let mut a = head.to_string();
                    push_str(&mut a, message.as_str());
                    let lines = vec![a, hint.to_string()];
                    assert(string_views(lines@) =~= failure_lines(*self));
                    lines
                } else {
                    let mut a = "\nAPI error (".to_string();
                    push_decimal(&mut a, *status as u64);
                    push_str(&mut a, " ");
                    push_str(&mut a, error_type.as_str());
                    push_str(&mut a, "): ");
                    push_str(&mut a, message.as_str());
                    push_str(&mut a, "\n");
                    let lines = vec![a];
                    assert(string_views(lines@) =~= failure_lines(*self));
                    lines
                }
            },
            ApiError::UnexpectedResponse { status, body } => {
                let mut a = "\nUnexpected error (".to_string();
                push_decimal(&mut a, *status as u64);
                push_str(&mut a, "): ");
                push_str(&mut a, body.as_str());
                push_str(&mut a, "\n");
                let lines = vec![a];
                assert(string_views(lines@) =~= failure_lines(*self));
                lines
            },
        }
    }
}

// ---------------------------------------------------------------------------
// Git
// ---------------------------------------------------------------------------

/// The arguments of `git status`.
pub fn git_status_args() -> (v: Vec<&'static str>)
    ensures
        v@.map_values(|a: &str| a@) == seq!["status"@, "--short"@],
{
    let v = vec!["status", "--short"];
    assert(v@.map_values(|a: &str| a@) =~= seq!["status"@, "--short"@]);
    v
}

/// The arguments of `git diff`, of the staged changes where asked.
pub fn git_diff_args(staged: bool) -> (v: Vec<&'static str>)
    ensures
        v@.map_values(|a: &str| a@) == if staged {
            seq!["diff"@, "--cached"@]
        } else {
            seq!["diff"@]
        },
{
    if staged {
        let v = vec!["diff", "--cached"];
        assert(v@.map_values(|a: &str| a@) =~= seq!["diff"@, "--cached"@]);
        v
    } else {
        let v = vec!["diff"];
        assert(v@.map_values(|a: &str| a@) =~= seq!["diff"@]);
        v
    }
}

/// The result of a finished git command: its output on success, else its
/// error output, each decoded leniently.
pub fn git_outcome(success: bool, stdout: &[u8], stderr: &[u8]) -> (r: Result<String, String>)
    ensures
        match r {
            Ok(o) => success && o@ == std_utf8_lossy(stdout@),
            Err(e) => !success && e@ == std_utf8_lossy(stderr@),
        },
{
    if success {
        Ok(decode_lossy(stdout))
    } else {
        Err(decode_lossy(stderr))
    }
}

/// The error for a git that could not be started.
pub fn git_spawn_error(error: &str) -> (s: String)
    ensures
        s@ == "Failed to run git: "@ + error@,
{
    let mut s = "Failed to run git: ".to_string();
    push_str(&mut s, error);
    s
}

// ---------------------------------------------------------------------------
// Extensions
// ---------------------------------------------------------------------------

/// A user-defined slash command.
#[derive(Debug, Clone)]
pub struct SlashCommand {
    pub name: String,
    pub description: String,
}

/// A tool loaded from configuration; its schema is JSON text.
#[derive(Debug, Clone)]
pub struct CustomTool {
    pub name: String,
    pub description: String,
    pub input_schema: String,
}

/// Loads the custom commands and tools of a configuration file. None are
/// defined yet, so both lists are empty.
pub fn load_extensions(config_path: &str) -> (r: (Vec<SlashCommand>, Vec<CustomTool>))
    ensures
        r.0@.len() == 0,
        r.1@.len() == 0,
{
    (Vec::new(), Vec::new())
}

} // verus!
