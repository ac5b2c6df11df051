//! The agentic loop: the conversation state sent to the model, the
//! decision taken on each response (return text, run tools, stop), the
//! stop conditions (turn limit, context size, empty responses), and the
//! built-in `echo` tool. The calls to the model are made by the caller,
//! which hands each response to `AgentRun::on_response`.
use vstd::prelude::*;
use vstd::utf8::encode_utf8;
use crate::provider::{
    anthropic_block_views, AnthropicBlockView, AnthropicContent, AnthropicResponse, AnthropicTool,
};
use crate::streaming::{json_reparse, reparse_json};
use crate::text::{decimal, is_ws, join, join_strings, push_decimal, push_str, str_eq, string_views, trim, trimmed_chars};

verus! {

/// The role of a message sender; the system prompt travels separately.
#[derive(Debug, Clone, Copy, PartialEq, Eq, Structural)]
pub enum Role {
    User,
    Assistant,
}

/// A message of the conversation: a role and content blocks.
#[derive(Debug, Clone)]
pub struct Message {
    pub role: Role,
    pub content: Vec<AnthropicContent>,
}

/// A message by its role and block views.
pub open spec fn message_view(m: Message) -> (Role, Seq<AnthropicBlockView>) {
    (m.role, anthropic_block_views(m.content@))
}

impl Message {
    /// A user message with one text block.
    pub fn user(text: &str) -> (m: Message)
        ensures
            message_view(m) == (Role::User, seq![AnthropicBlockView::Text(text@)]),
    {
        let b = AnthropicContent::Text { text: text.to_string() };
        let content = vec![b];
        assert(anthropic_block_views(content@) == seq![AnthropicBlockView::Text(text@)]);
        Message { role: Role::User, content }
    }

    /// An assistant message with the blocks the model returned.
    pub fn assistant(content: Vec<AnthropicContent>) -> (m: Message)
        ensures
            m.role == Role::Assistant,
            m.content@ == content@,
    {
        Message { role: Role::Assistant, content }
    }

    /// A user message carrying tool results.
    pub fn tool_results(results: Vec<AnthropicContent>) -> (m: Message)
        ensures
            m.role == Role::User,
            m.content@ == results@,
    {
        Message { role: Role::User, content: results }
    }
}

// ---------------------------------------------------------------------------
// Text of content blocks
// ---------------------------------------------------------------------------

/// The texts of the text blocks, in order.
pub open spec fn block_texts(bs: Seq<AnthropicBlockView>) -> Seq<Seq<char>>
    decreases bs.len(),
{
    if bs.len() == 0 {
        seq![]
    } else {
        block_texts(bs.drop_last()) + match bs.last() {
            AnthropicBlockView::Text(t) => seq![t],
            _ => seq![],
        }
    }
}

/// All text of the blocks, joined by line breaks.
pub fn extract_text(content: &[AnthropicContent]) -> (s: String)
    ensures
        s@ == join(block_texts(anthropic_block_views(content@)), "\n"@),
{
    let ghost bs = anthropic_block_views(content@);
    let mut texts: Vec<String> = Vec::new();
    let mut i: usize = 0;
    while i < content.len()
        invariant
            i <= content@.len(),
            bs == anthropic_block_views(content@),
            string_views(texts@) == block_texts(bs.take(i as int)),
        decreases content.len() - i,
    {
        assert(bs.take(i + 1).drop_last() == bs.take(i as int));
        assert(bs.take(i + 1).last() == content@[i as int]@);
        let ghost before = texts@;
        match &content[i] {
            AnthropicContent::Text { text } => {
                texts.push(text.clone());
                assert(string_views(texts@) == string_views(before).push(text@));
            },
            _ => {},
        }
        i = i + 1;
    }
    assert(bs.take(content@.len() as int) == bs);
    join_strings(texts.as_slice(), "\n")
}

/// Whether a response says nothing: no blocks, or only text blocks that
/// are blank.
pub open spec fn empty_response(bs: Seq<AnthropicBlockView>) -> bool {
    forall|i: int|
        0 <= i < bs.len() ==> match #[trigger] bs[i] {
            AnthropicBlockView::Text(t) => trim(t).len() == 0,
            _ => false,
        }
}

/// Whether the response has no meaningful content.
pub fn is_empty_response(content: &[AnthropicContent]) -> (b: bool)
    ensures
        b == empty_response(anthropic_block_views(content@)),
{
    let ghost bs = anthropic_block_views(content@);
    let mut i: usize = 0;
    while i < content.len()
        invariant
            i <= content@.len(),
            bs == anthropic_block_views(content@),
            forall|k: int|
                0 <= k < i ==> match #[trigger] bs[k] {
                    AnthropicBlockView::Text(t) => trim(t).len() == 0,
                    _ => false,
                },
        decreases content.len() - i,
    {
        assert(bs[i as int] == content@[i as int]@);
        match &content[i] {
            AnthropicContent::Text { text } => {
                let t = trimmed_chars(text.as_str());
                if t.len() != 0 {
                    return false;
                }
            },
            _ => {
                return false;
            },
        }
        i = i + 1;
    }
    true
}

// ---------------------------------------------------------------------------
// Decisions
// ---------------------------------------------------------------------------

/// What the loop does after a response.
#[derive(Debug, Clone, PartialEq)]
pub enum LoopAction {
    /// The model is done: return its text.
    ReturnToUser,
    /// The model wants tools run.
    ExecuteTools,
    /// The output hit the token limit.
    MaxTokensReached,
    /// A stop reason the loop does not know.
    UnexpectedReason(String),
}

/// A loop action by its values.
pub enum ActionView {
    ReturnToUser,
    ExecuteTools,
    MaxTokensReached,
    UnexpectedReason(Seq<char>),
}

/// The view of an action.
pub open spec fn action_view(a: LoopAction) -> ActionView {
    match a {
        LoopAction::ReturnToUser => ActionView::ReturnToUser,
        LoopAction::ExecuteTools => ActionView::ExecuteTools,
        LoopAction::MaxTokensReached => ActionView::MaxTokensReached,
        LoopAction::UnexpectedReason(r) => ActionView::UnexpectedReason(r@),
    }
}

/// Whether some block is a tool use.
pub open spec fn has_tool_use(bs: Seq<AnthropicBlockView>) -> bool {
    exists|i: int| 0 <= i < bs.len() && #[trigger] bs[i] is ToolUse
}

/// The action for a stop reason: `end_turn` and `stop_sequence` return to
/// the user, `tool_use` runs tools, `max_tokens` reports truncation; with
/// no reason, the content decides (tools if any block is a tool use).
pub open spec fn action_for(reason: Option<Seq<char>>, bs: Seq<AnthropicBlockView>) -> ActionView {
    match reason {
        Some(r) => if r == "end_turn"@ {
            ActionView::ReturnToUser
        } else if r == "tool_use"@ {
            ActionView::ExecuteTools
        } else if r == "max_tokens"@ {
            ActionView::MaxTokensReached
        } else if r == "stop_sequence"@ {
            ActionView::ReturnToUser
        } else {
            ActionView::UnexpectedReason(r)
        },
        None => if has_tool_use(bs) {
            ActionView::ExecuteTools
        } else {
            ActionView::ReturnToUser
        },
    }
}

/// Decides what the loop does from the response's stop reason.
pub fn decide_action(stop_reason: Option<&str>, content: &[AnthropicContent]) -> (a: LoopAction)
    ensures
        action_view(a) == action_for(
            match stop_reason {
                Some(r) => Some(r@),
                None => None,
            },
            anthropic_block_views(content@),
        ),
{
    match stop_reason {
        Some(r) => {
            if str_eq(r, "end_turn") {
                LoopAction::ReturnToUser
            } else if str_eq(r, "tool_use") {
                LoopAction::ExecuteTools
            } else if str_eq(r, "max_tokens") {
                LoopAction::MaxTokensReached
            } else if str_eq(r, "stop_sequence") {
                LoopAction::ReturnToUser
            } else {
                LoopAction::UnexpectedReason(r.to_string())
            }
        },
        None => {
            let ghost bs = anthropic_block_views(content@);
            let mut i: usize = 0;
            while i < content.len()
                invariant
                    i <= content@.len(),
                    stop_reason is None,
                    bs == anthropic_block_views(content@),
                    forall|k: int| 0 <= k < i ==> !(#[trigger] bs[k] is ToolUse),
                decreases content.len() - i,
            {
                assert(bs[i as int] == content@[i as int]@);
                match &content[i] {
                    AnthropicContent::ToolUse { .. } => {
                        assert(bs[i as int] is ToolUse);
                        assert(has_tool_use(bs));
                        return LoopAction::ExecuteTools;
                    },
                    _ => {},
                }
                i = i + 1;
            }
            LoopAction::ReturnToUser
        },
    }
}

// ---------------------------------------------------------------------------
// Results and errors
// ---------------------------------------------------------------------------

/// How one run of the loop ended.
#[derive(Debug, Clone, PartialEq)]
pub enum LoopResult {
    /// The model finished its turn.
    Complete(String),
    /// The output was cut off at the token limit.
    MaxTokens(String),
    /// The turn limit was reached.
    TurnLimitReached(String),
    /// The conversation outgrew the context window.
    ContextOverflow,
}

/// The message shown when the conversation is too long.
pub open spec fn overflow_text() -> Seq<char> {
    "The conversation has grown too long. Please start a new session."@
}

impl LoopResult {
    /// The text to show for the result.
    pub fn text(&self) -> (s: &str)
        ensures
            s@ == match self {
                LoopResult::Complete(t) => t@,
                LoopResult::MaxTokens(t) => t@,
                LoopResult::TurnLimitReached(t) => t@,
                LoopResult::ContextOverflow => overflow_text(),
            },
    {
        match self {
            LoopResult::Complete(t) => t.as_str(),
            LoopResult::MaxTokens(t) => t.as_str(),
            LoopResult::TurnLimitReached(t) => t.as_str(),
            LoopResult::ContextOverflow => "The conversation has grown too long. Please start a new session.",
        }
    }

    /// Whether the model finished normally.
    pub fn is_complete(&self) -> (b: bool)
        ensures
            b == self is Complete,
    {
        match self {
            LoopResult::Complete(_) => true,
            _ => false,
        }
    }
}

/// Errors that end a run of the loop.
#[derive(Debug, Clone, PartialEq)]
pub enum AgentError {
    ApiError(String),
    EmptyResponse { turn: usize },
    UnexpectedStopReason(String),
    MaxTurnsReached { limit: usize },
}

/// The message of an error.
pub open spec fn error_text(e: AgentError) -> Seq<char> {
    match e {
        AgentError::ApiError(m) => "API error: "@ + m@,
        AgentError::EmptyResponse { turn } => "Empty response from model on turn "@ + decimal(
            turn as nat,
        ),
        AgentError::UnexpectedStopReason(r) => "Unexpected stop reason: "@ + r@,
        AgentError::MaxTurnsReached { limit } => "Maximum turns reached: "@ + decimal(limit as nat),
    }
}

impl AgentError {
    /// The message shown to the user.
    pub fn message(&self) -> (s: String)
        ensures
            s@ == error_text(*self),
    {
        let mut s = String::new();
        match self {
            AgentError::ApiError(m) => {
                push_str(&mut s, "API error: ");
                push_str(&mut s, m.as_str());
            },
            AgentError::EmptyResponse { turn } => {
                push_str(&mut s, "Empty response from model on turn ");
                push_decimal(&mut s, *turn as u64);
            },
            AgentError::UnexpectedStopReason(r) => {
                push_str(&mut s, "Unexpected stop reason: ");
                push_str(&mut s, r.as_str());
            },
            AgentError::MaxTurnsReached { limit } => {
                push_str(&mut s, "Maximum turns reached: ");
                push_decimal(&mut s, *limit as u64);
            },
        }
        s
    }
}


// ---------------------------------------------------------------------------
// Conversation state
// ---------------------------------------------------------------------------

/// The growing history the model sees on each call, and the tokens used
/// so far.
#[derive(Debug, Clone)]
pub struct ConversationState {
    pub system_prompt: String,
    pub messages: Vec<Message>,
    pub total_input_tokens: u32,
    pub total_output_tokens: u32,
}

/// The number of bytes of the UTF-8 encoding of `s`.
pub open spec fn bytes_of(s: Seq<char>) -> nat {
    encode_utf8(s).len()
}

/// A tool input as its JSON rendering (the text itself where it is not
/// JSON).
pub open spec fn rendered_input(input: Seq<char>) -> Seq<char> {
    match json_reparse(input) {
        Ok(t) => t,
        Err(_) => input,
    }
}

/// The characters a block counts for: its text, the tool's name and
/// rendered input, or the result's content, in bytes.
pub open spec fn block_size(b: AnthropicBlockView) -> nat {
    match b {
        AnthropicBlockView::Text(t) => bytes_of(t),
        AnthropicBlockView::ToolUse(_, name, input) => bytes_of(name) + bytes_of(rendered_input(input)),
        AnthropicBlockView::ToolResult(_, content, _) => bytes_of(content),
    }
}

/// The total size of a sequence of blocks.
pub open spec fn blocks_size(bs: Seq<AnthropicBlockView>) -> nat
    decreases bs.len(),
{
    if bs.len() == 0 {
        0
    } else {
        blocks_size(bs.drop_last()) + block_size(bs.last())
    }
}

/// The total size of the messages.
pub open spec fn messages_size(ms: Seq<Message>) -> nat
    decreases ms.len(),
{
    if ms.len() == 0 {
        0
    } else {
        messages_size(ms.drop_last()) + blocks_size(anthropic_block_views(ms.last().content@))
    }
}

impl ConversationState {
    /// The size counted for the estimate: the system prompt and every
    /// block, in bytes.
    pub open spec fn size(&self) -> nat {
        bytes_of(self.system_prompt@) + messages_size(self.messages@)
    }

    /// A fresh conversation with the given system prompt.
    pub fn new(system_prompt: &str) -> (s: ConversationState)
        ensures
            s.system_prompt@ == system_prompt@,
            s.messages@.len() == 0,
            s.total_input_tokens == 0,
            s.total_output_tokens == 0,
    {
        ConversationState {
            system_prompt: system_prompt.to_string(),
            messages: Vec::new(),
            total_input_tokens: 0,
            total_output_tokens: 0,
        }
    }

    /// Appends a user message with one text block.
    pub fn add_user_message(&mut self, text: &str)
        ensures
            final(self).system_prompt == old(self).system_prompt,
            final(self).total_input_tokens == old(self).total_input_tokens,
            final(self).total_output_tokens == old(self).total_output_tokens,
            final(self).messages@.drop_last() == old(self).messages@,
            final(self).messages@.len() == old(self).messages@.len() + 1,
            message_view(final(self).messages@.last()) == (
                Role::User,
                seq![AnthropicBlockView::Text(text@)],
            ),
    {
        self.messages.push(Message::user(text));
    }

    /// Appends the assistant's blocks.
    pub fn add_assistant_message(&mut self, content: Vec<AnthropicContent>)
        ensures
            final(self).system_prompt == old(self).system_prompt,
            final(self).total_input_tokens == old(self).total_input_tokens,
            final(self).total_output_tokens == old(self).total_output_tokens,
            final(self).messages@ == old(self).messages@.push(
                Message { role: Role::Assistant, content: final(self).messages@.last().content },
            ),
            final(self).messages@.last().content@ == content@,
    {
        self.messages.push(Message::assistant(content));
    }

    /// Appends tool results as a user message.
    pub fn add_tool_results(&mut self, results: Vec<AnthropicContent>)
        ensures
            final(self).system_prompt == old(self).system_prompt,
            final(self).total_input_tokens == old(self).total_input_tokens,
            final(self).total_output_tokens == old(self).total_output_tokens,
            final(self).messages@ == old(self).messages@.push(
                Message { role: Role::User, content: final(self).messages@.last().content },
            ),
            final(self).messages@.last().content@ == results@,
    {
        self.messages.push(Message::tool_results(results));
    }

    /// Adds a response's token usage to the totals.
    pub fn record_usage(&mut self, input_tokens: u32, output_tokens: u32)
        requires
            old(self).total_input_tokens + input_tokens <= u32::MAX,
            old(self).total_output_tokens + output_tokens <= u32::MAX,
        ensures
            final(self).system_prompt == old(self).system_prompt,
            final(self).messages == old(self).messages,
            final(self).total_input_tokens == old(self).total_input_tokens + input_tokens,
            final(self).total_output_tokens == old(self).total_output_tokens + output_tokens,
    {
        self.total_input_tokens = self.total_input_tokens + input_tokens;
        self.total_output_tokens = self.total_output_tokens + output_tokens;
    }

    /// A rough token estimate: about four bytes per token.
    pub fn estimate_token_count(&self) -> (n: usize)
        requires
            self.size() <= usize::MAX,
        ensures
            n == self.size() / 4,
    {
        let mut chars: usize = self.system_prompt.as_str().len();
        let mut i: usize = 0;
        while i < self.messages.len()
            invariant
                i <= self.messages@.len(),
                self.size() <= usize::MAX,
                chars == bytes_of(self.system_prompt@) + messages_size(self.messages@.take(i as int)),
            decreases self.messages.len() - i,
        {
            proof {
                lemma_messages_size_prefix(self.messages@, i + 1);
                assert(self.messages@.take(i + 1).drop_last() == self.messages@.take(i as int));
            }
            let m = &self.messages[i];
            let ghost bs = anthropic_block_views(m.content@);
            let ghost base = chars;
            let mut j: usize = 0;
            while j < m.content.len()
                invariant
                    j <= m.content@.len(),
                    bs == anthropic_block_views(m.content@),
                    base + blocks_size(bs) <= usize::MAX,
                    chars == base + blocks_size(bs.take(j as int)),
                decreases m.content.len() - j,
            {
                proof {
                    lemma_blocks_size_prefix(bs, j + 1);
                    assert(bs.take(j + 1).drop_last() == bs.take(j as int));
                    assert(bs.take(j + 1).last() == m.content@[j as int]@);
                }
                let add: usize = match &m.content[j] {
                    AnthropicContent::Text { text } => text.as_str().len(),
                    AnthropicContent::ToolUse { name, input, .. } => {
                        let rendered = match reparse_json(input.as_str()) {
                            Ok(t) => t,
                            Err(_) => input.clone(),
                        };
                        name.as_str().len() + rendered.as_str().len()
                    },
                    AnthropicContent::ToolResult { content, .. } => content.as_str().len(),
                };
                chars = chars + add;
                j = j + 1;
            }
            assert(bs.take(m.content@.len() as int) == bs);
            i = i + 1;
        }
        assert(self.messages@.take(self.messages@.len() as int) == self.messages@);
        chars / 4
    }

    /// Whether the estimate is over 80 % of the context window.
    pub fn is_approaching_limit(&self, max_context_tokens: usize) -> (b: bool)
        requires
            self.size() <= usize::MAX,
            max_context_tokens * 80 <= usize::MAX,
        ensures
            b == (self.size() / 4 > (max_context_tokens * 80) / 100),
    {
        self.estimate_token_count() > (max_context_tokens * 80) / 100
    }
}

proof fn lemma_blocks_size_prefix(bs: Seq<AnthropicBlockView>, i: int)
    requires
        0 <= i <= bs.len(),
    ensures
        blocks_size(bs.take(i)) <= blocks_size(bs),
    decreases bs.len() - i,
{
    if i < bs.len() {
        lemma_blocks_size_prefix(bs, i + 1);
        assert(bs.take(i + 1).drop_last() == bs.take(i));
    } else {
        assert(bs.take(i) == bs);
    }
}

proof fn lemma_messages_size_prefix(ms: Seq<Message>, i: int)
    requires
        0 <= i <= ms.len(),
    ensures
        messages_size(ms.take(i)) <= messages_size(ms),
    decreases ms.len() - i,
{
    if i < ms.len() {
        lemma_messages_size_prefix(ms, i + 1);
        assert(ms.take(i + 1).drop_last() == ms.take(i));
    } else {
        assert(ms.take(i) == ms);
    }
}


// ---------------------------------------------------------------------------
// Tools
// ---------------------------------------------------------------------------

/// The string value of a top-level field of a JSON object, as
/// `serde_json` reads it: `None` where the text is not JSON, not an
/// object, lacks the field, or the field is not a string.
pub uninterp spec fn json_string_field(json: Seq<char>, key: Seq<char>) -> Option<Seq<char>>;

/// Reads a string field of a JSON object with `serde_json`; the contract
/// names the result.
#[verifier::external_body]
pub(crate) fn string_field(json: &str, key: &str) -> (r: Option<String>)
    ensures
        match r {
            Some(v) => json_string_field(json@, key@) == Some(v@),
            None => json_string_field(json@, key@) is None,
        },
{
    match serde_json::from_str::<serde_json::Value>(json) {
        Ok(v) => v.get(key).and_then(|f| f.as_str()).map(|f| f.to_string()),
        Err(_) => None,
    }
}

/// The outcome of one tool call: the output, and whether it is an error.
pub open spec fn tool_outcome(name: Seq<char>, input: Seq<char>) -> (Seq<char>, bool) {
    if name == "echo"@ {
        (
            match json_string_field(input, "message"@) {
                Some(m) => m,
                None => "<missing message>"@,
            },
            false,
        )
    } else {
        ("Unknown tool: '"@ + name + "'. Available tools: echo"@, true)
    }
}

/// The result blocks for the tool uses among `bs`, in order: each
/// carries its call's id, the output, and an error flag only on error.
pub open spec fn tool_results_for(bs: Seq<AnthropicBlockView>) -> Seq<AnthropicBlockView>
    decreases bs.len(),
{
    if bs.len() == 0 {
        seq![]
    } else {
        tool_results_for(bs.drop_last()) + match bs.last() {
            AnthropicBlockView::ToolUse(id, name, input) => {
                let (out, err) = tool_outcome(name, input);
                seq![
                    AnthropicBlockView::ToolResult(
                        id,
                        out,
                        if err {
                            Some(true)
                        } else {
                            None
                        },
                    ),
                ]
            },
            _ => seq![],
        }
    }
}

/// The agent's settings: key, model, response limit and the most model
/// calls per user message (0 for no limit).
#[derive(Debug, Clone)]
pub struct Agent {
    pub api_key: String,
    pub model: String,
    pub max_tokens: u32,
    pub max_inner_turns: usize,
}

impl Agent {
    /// An agent with the given key and model: 4096 tokens per response
    /// and at most 25 model calls per user message.
    pub fn new(api_key: String, model: String) -> (a: Agent)
        ensures
            a.api_key@ == api_key@,
            a.model@ == model@,
            a.max_tokens == 4096,
            a.max_inner_turns == 25,
    {
        Agent { api_key, model, max_tokens: 4096, max_inner_turns: 25 }
    }

    /// The tools the model may call: just `echo`.
    pub fn tool_definitions(&self) -> (v: Vec<AnthropicTool>)
        ensures
            v@.len() == 1,
            v@[0].name@ == "echo"@,
            v@[0].description@ == "Echoes back the provided message. Useful for testing the agentic loop."@,
            v@[0].input_schema@ == echo_schema(),
    {
        let t = AnthropicTool {
            name: "echo".to_string(),
            description: "Echoes back the provided message. Useful for testing the agentic loop.".to_string(),
            input_schema: "{\"type\":\"object\",\"properties\":{\"message\":{\"type\":\"string\",\"description\":\"The text to echo back\"}},\"required\":[\"message\"]}".to_string(),
        };
        vec![t]
    }

    /// Runs every tool use among the response's blocks and returns their
    /// results, in order: `echo` returns the call's `message`; any other
    /// tool is an error naming the available tools.
    pub fn handle_tool_calls(&self, content: &[AnthropicContent]) -> (r: Vec<AnthropicContent>)
        ensures
            anthropic_block_views(r@) == tool_results_for(anthropic_block_views(content@)),
    {
        let ghost bs = anthropic_block_views(content@);
        let mut results: Vec<AnthropicContent> = Vec::new();
        let mut i: usize = 0;
        while i < content.len()
            invariant
                i <= content@.len(),
                bs == anthropic_block_views(content@),
                anthropic_block_views(results@) == tool_results_for(bs.take(i as int)),
            decreases content.len() - i,
        {
            assert(bs.take(i + 1).drop_last() == bs.take(i as int));
            assert(bs.take(i + 1).last() == content@[i as int]@);
            let ghost before = results@;
            match &content[i] {
                AnthropicContent::ToolUse { id, name, input } => {
                    let (output, is_error) = if str_eq(name.as_str(), "echo") {
                        let out = match string_field(input.as_str(), "message") {
                            Some(m) => m,
                            None => "<missing message>".to_string(),
                        };
                        (out, false)
                    } else {
                        let mut m = "Unknown tool: '".to_string();
                        push_str(&mut m, name.as_str());
                        push_str(&mut m, "'. Available tools: echo");
                        (m, true)
                    };
                    let b = AnthropicContent::ToolResult {
                        tool_use_id: id.clone(),
                        content: output,
                        is_error: if is_error {
                            Some(true)
                        } else {
                            None
                        },
                    };
                    results.push(b);
                    assert(anthropic_block_views(results@) == anthropic_block_views(before).push(b@));
                },
                _ => {},
            }
            i = i + 1;
        }
        assert(bs.take(content@.len() as int) == bs);
        results
    }
}

/// The echo tool's parameter schema, as JSON text.
pub open spec fn echo_schema() -> Seq<char> {
    "{\"type\":\"object\",\"properties\":{\"message\":{\"type\":\"string\",\"description\":\"The text to echo back\"}},\"required\":[\"message\"]}"@
}

/// The text of the last assistant message among the first `n`, or empty.
pub open spec fn last_assistant_from(ms: Seq<Message>, n: int) -> Seq<char>
    decreases n,
{
    if n <= 0 || n > ms.len() {
        seq![]
    } else if ms[n - 1].role == Role::Assistant {
        join(block_texts(anthropic_block_views(ms[n - 1].content@)), "\n"@)
    } else {
        last_assistant_from(ms, n - 1)
    }
}

/// The text of the last assistant message of the conversation, or empty.
pub fn last_assistant_text(state: &ConversationState) -> (s: String)
    ensures
        s@ == last_assistant_from(state.messages@, state.messages@.len() as int),
{
    let mut n: usize = state.messages.len();
    while n > 0
        invariant
            n <= state.messages@.len(),
            last_assistant_from(state.messages@, state.messages@.len() as int)
                == last_assistant_from(state.messages@, n as int),
        decreases n,
    {
        if state.messages[n - 1].role == Role::Assistant {
            return extract_text(state.messages[n - 1].content.as_slice());
        }
        n = n - 1;
    }
    String::new()
}

// ---------------------------------------------------------------------------
// The loop
// ---------------------------------------------------------------------------

/// The context window the loop guards, in tokens.
pub const CONTEXT_WINDOW: usize = 180_000;

/// What happens after a response.
#[derive(Debug, PartialEq)]
pub enum Step {
    /// Tools ran and their results were added: call the model again.
    Continue,
    /// The run is over.
    Finished(Result<LoopResult, AgentError>),
}

/// One run of the loop for a user message: the model calls made so far.
#[derive(Debug, Clone, Copy)]
pub struct AgentRun {
    pub inner_turns: usize,
}

impl AgentRun {
    /// Starts a run: the user's message joins the conversation.
    pub fn start(state: &mut ConversationState, user_message: &str) -> (r: AgentRun)
        ensures
            r.inner_turns == 0,
            final(state).system_prompt == old(state).system_prompt,
            final(state).total_input_tokens == old(state).total_input_tokens,
            final(state).total_output_tokens == old(state).total_output_tokens,
            final(state).messages@.drop_last() == old(state).messages@,
            final(state).messages@.len() == old(state).messages@.len() + 1,
            message_view(final(state).messages@.last()) == (
                Role::User,
                seq![AnthropicBlockView::Text(user_message@)],
            ),
    {
        state.add_user_message(user_message);
        AgentRun { inner_turns: 0 }
    }

    /// Before each model call: the turn limit (when set) ends the run with
    /// the last assistant text; a conversation over 80 % of the context
    /// window ends it as an overflow; otherwise the call goes ahead.
    pub fn before_call(&self, agent: &Agent, state: &ConversationState) -> (r: Option<LoopResult>)
        requires
            state.size() <= usize::MAX,
        ensures
            agent.max_inner_turns > 0 && self.inner_turns >= agent.max_inner_turns ==> match r {
                Some(LoopResult::TurnLimitReached(t)) => t@ == last_assistant_from(
                    state.messages@,
                    state.messages@.len() as int,
                ),
                _ => false,
            },
            !(agent.max_inner_turns > 0 && self.inner_turns >= agent.max_inner_turns) ==> (r
                == if state.size() / 4 > (CONTEXT_WINDOW * 80) / 100 {
                Some(LoopResult::ContextOverflow)
            } else {
                None::<LoopResult>
            }),
    {
        if agent.max_inner_turns > 0 && self.inner_turns >= agent.max_inner_turns {
            let partial = last_assistant_text(state);
            return Some(LoopResult::TurnLimitReached(partial));
        }
        if state.is_approaching_limit(CONTEXT_WINDOW) {
            return Some(LoopResult::ContextOverflow);
        }
        None
    }

    /// Handles a model response: counts the call, records the usage, adds
    /// the response to the conversation, and decides. An empty response is
    /// an error; then the stop reason rules: text is returned at the end
    /// of a turn, tools are run and their results added (and the run goes
    /// on), truncation returns the text so far, and an unknown reason is an
    /// error.
    pub fn on_response(&mut self, agent: &Agent, state: &mut ConversationState, response: AnthropicResponse) -> (s: Step)
        requires
            old(self).inner_turns < usize::MAX,
            old(state).total_input_tokens + response.usage.input_tokens <= u32::MAX,
            old(state).total_output_tokens + response.usage.output_tokens <= u32::MAX,
        ensures
            final(self).inner_turns == old(self).inner_turns + 1,
            final(state).system_prompt == old(state).system_prompt,
            final(state).total_input_tokens == old(state).total_input_tokens
                + response.usage.input_tokens,
            final(state).total_output_tokens == old(state).total_output_tokens
                + response.usage.output_tokens,
            final(state).messages@.len() >= old(state).messages@.len() + 1,
            final(state).messages@[old(state).messages@.len() as int].role == Role::Assistant,
            final(state).messages@[old(state).messages@.len() as int].content@ == response.content@,
            ({
                let bs = anthropic_block_views(response.content@);
                let turn = old(self).inner_turns + 1;
                if empty_response(bs) {
                    s == Step::Finished(Err(AgentError::EmptyResponse { turn: turn as usize }))
                        && final(state).messages@.len() == old(state).messages@.len() + 1
                } else {
                    match action_for(opt_string(response.stop_reason), bs) {
                        ActionView::ReturnToUser => (match s {
                            Step::Finished(Ok(LoopResult::Complete(t))) => t@ == join(
                                block_texts(bs),
                                "\n"@,
                            ),
                            _ => false,
                        }) && final(state).messages@.len() == old(state).messages@.len() + 1,
                        ActionView::ExecuteTools => s == Step::Continue
                            && final(state).messages@.len() == old(state).messages@.len() + 2
                            && final(state).messages@.last().role == Role::User
                            && anthropic_block_views(final(state).messages@.last().content@)
                            == tool_results_for(bs),
                        ActionView::MaxTokensReached => (match s {
                            Step::Finished(Ok(LoopResult::MaxTokens(t))) => t@ == join(
                                block_texts(bs),
                                "\n"@,
                            ),
                            _ => false,
                        }) && final(state).messages@.len() == old(state).messages@.len() + 1,
                        ActionView::UnexpectedReason(r) => (match s {
                            Step::Finished(Err(AgentError::UnexpectedStopReason(x))) => x@ == r,
                            _ => false,
                        }) && final(state).messages@.len() == old(state).messages@.len() + 1,
                    }
                }
            }),
    {
        self.inner_turns = self.inner_turns + 1;
        state.record_usage(response.usage.input_tokens, response.usage.output_tokens);
        let ghost n0 = state.messages@.len();
        let AnthropicResponse { content, stop_reason, .. } = response;
        let empty = is_empty_response(content.as_slice());
        let action = decide_action(
            match &stop_reason {
                Some(r) => Some(r.as_str()),
                None => None,
            },
            content.as_slice(),
        );
        let text = extract_text(content.as_slice());
        let results = agent.handle_tool_calls(content.as_slice());
        state.add_assistant_message(content);
        if empty {
            return Step::Finished(Err(AgentError::EmptyResponse { turn: self.inner_turns }));
        }
        match action {
            LoopAction::ReturnToUser => Step::Finished(Ok(LoopResult::Complete(text))),
            LoopAction::ExecuteTools => {
                let ghost mid = state.messages@;
                state.add_tool_results(results);
                assert(state.messages@[n0 as int] == mid[n0 as int]);
                Step::Continue
            },
            LoopAction::MaxTokensReached => Step::Finished(Ok(LoopResult::MaxTokens(text))),
            LoopAction::UnexpectedReason(r) => Step::Finished(
                Err(AgentError::UnexpectedStopReason(r)),
            ),
        }
    }
}

/// The view of an optional string.
pub open spec fn opt_string(o: Option<String>) -> Option<Seq<char>> {
    match o {
        Some(s) => Some(s@),
        None => None,
    }
}


// ---------------------------------------------------------------------------
// Laws
// ---------------------------------------------------------------------------

/// The ids of the tool uses among the blocks, in order.
pub open spec fn tool_use_ids(bs: Seq<AnthropicBlockView>) -> Seq<Seq<char>>
    decreases bs.len(),
{
    if bs.len() == 0 {
        seq![]
    } else {
        tool_use_ids(bs.drop_last()) + match bs.last() {
            AnthropicBlockView::ToolUse(id, _, _) => seq![id],
            _ => seq![],
        }
    }
}

/// The ids the tool results answer, in order.
pub open spec fn result_ids(bs: Seq<AnthropicBlockView>) -> Seq<Seq<char>>
    decreases bs.len(),
{
    if bs.len() == 0 {
        seq![]
    } else {
        result_ids(bs.drop_last()) + match bs.last() {
            AnthropicBlockView::ToolResult(id, _, _) => seq![id],
            _ => seq![],
        }
    }
}

proof fn lemma_result_ids_append(a: Seq<AnthropicBlockView>, b: Seq<AnthropicBlockView>)
    ensures
        result_ids(a + b) == result_ids(a) + result_ids(b),
    decreases b.len(),
{
    if b.len() == 0 {
        assert(a + b == a);
    } else {
        lemma_result_ids_append(a, b.drop_last());
        assert((a + b).drop_last() == a + b.drop_last());
        assert((a + b).last() == b.last());
    }
}

/// Every tool use of a response is answered: the results carry exactly
/// the ids of the tool uses, one each, in the same order.
pub proof fn law_every_tool_use_answered(bs: Seq<AnthropicBlockView>)
    ensures
        result_ids(tool_results_for(bs)) == tool_use_ids(bs),
    decreases bs.len(),
{
    if bs.len() > 0 {
        law_every_tool_use_answered(bs.drop_last());
        let tail = match bs.last() {
            AnthropicBlockView::ToolUse(id, name, input) => {
                let (out, err) = tool_outcome(name, input);
                seq![
                    AnthropicBlockView::ToolResult(
                        id,
                        out,
                        if err {
                            Some(true)
                        } else {
                            None
                        },
                    ),
                ]
            },
            _ => seq![],
        };
        lemma_result_ids_append(tool_results_for(bs.drop_last()), tail);
        if tail.len() == 1 {
            assert(result_ids(tail) == result_ids(tail.drop_last()) + seq![
                bs.last()->ToolUse_0,
            ]);
            assert(tail.drop_last() == Seq::<AnthropicBlockView>::empty());
        } else {
            assert(tail == Seq::<AnthropicBlockView>::empty());
        }
    }
}


/// The size counted for a conversation grows by each message's blocks:
/// appending a message that holds a tool result adds the byte length of the
/// result's content, and one that holds a text adds the text's byte length.
pub proof fn law_size_counts_each_block(s: ConversationState, t: ConversationState, m: Message)
    requires
        t.system_prompt == s.system_prompt,
        t.messages@ == s.messages@.push(m),
    ensures
        m.content@.len() == 1 ==> match m.content@[0] {
            AnthropicContent::ToolResult { content, .. } => t.size() == s.size() + encode_utf8(content@).len(),
            AnthropicContent::Text { text } => t.size() == s.size() + encode_utf8(text@).len(),
            _ => t.size() >= s.size(),
        },
        t.size() >= s.size(),
{
    assert(t.messages@.drop_last() == s.messages@);
    let bs = anthropic_block_views(m.content@);
    assert(t.messages@.last() == m);
    assert(messages_size(t.messages@) == messages_size(s.messages@) + blocks_size(bs));
    if m.content@.len() == 1 {
        assert(bs.len() == 1);
        assert(bs.drop_last().len() == 0);
        assert(blocks_size(bs.drop_last()) == 0);
        assert(bs.last() == m.content@[0]@);
        assert(blocks_size(bs) == block_size(bs.last()));
    }
}
} // verus!
