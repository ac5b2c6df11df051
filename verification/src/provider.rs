//! The provider layer: one conversation vocabulary, translated to and from
//! the wire shapes of Anthropic's Messages API and OpenAI's Chat
//! Completions API, plus provider selection from flags and environment
//! values and the classification of failed requests.
//!
//! Tool inputs and parameter schemas are held as JSON text.
use vstd::prelude::*;
use crate::streaming::{json_reparse, reparse_json};
use crate::text::{
    decimal, join, join_strings, parse_u64, parsed_u64, push_decimal, push_str, str_eq, string_views,
};

verus! {

// ---------------------------------------------------------------------------
// Provider-neutral types
// ---------------------------------------------------------------------------

/// A role in the conversation.
#[derive(Debug, Clone, Copy, PartialEq, Eq, Structural)]
pub enum Role {
    User,
    Assistant,
    System,
}

/// A single content block within a message; a tool input is JSON text.
#[derive(Debug, Clone)]
pub enum ContentBlock {
    Text { text: String },
    ToolUse { id: String, name: String, input: String },
    ToolResult { tool_use_id: String, content: String, is_error: bool },
}

/// A content block by its texts.
pub enum BlockView {
    Text(Seq<char>),
    ToolUse(Seq<char>, Seq<char>, Seq<char>),
    ToolResult(Seq<char>, Seq<char>, bool),
}

impl View for ContentBlock {
    type V = BlockView;

    open spec fn view(&self) -> BlockView {
        match self {
            ContentBlock::Text { text } => BlockView::Text(text@),
            ContentBlock::ToolUse { id, name, input } => BlockView::ToolUse(id@, name@, input@),
            ContentBlock::ToolResult { tool_use_id, content, is_error } => BlockView::ToolResult(
                tool_use_id@,
                content@,
                *is_error,
            ),
        }
    }
}

/// The views of a sequence of blocks.
pub open spec fn block_views(s: Seq<ContentBlock>) -> Seq<BlockView> {
    s.map_values(|b: ContentBlock| b@)
}

/// A message in the conversation.
#[derive(Debug, Clone)]
pub struct Message {
    pub role: Role,
    pub content: Vec<ContentBlock>,
}

impl View for Message {
    type V = (Role, Seq<BlockView>);

    open spec fn view(&self) -> (Role, Seq<BlockView>) {
        (self.role, block_views(self.content@))
    }
}

/// The views of a sequence of messages.
pub open spec fn message_views(s: Seq<Message>) -> Seq<(Role, Seq<BlockView>)> {
    s.map_values(|m: Message| m@)
}

/// The texts of the text blocks, in order.
pub open spec fn texts(bs: Seq<BlockView>) -> Seq<Seq<char>>
    decreases bs.len(),
{
    if bs.len() == 0 {
        seq![]
    } else {
        texts(bs.drop_last()) + match bs.last() {
            BlockView::Text(t) => seq![t],
            _ => seq![],
        }
    }
}

/// The texts of the text blocks, joined by line breaks.
pub open spec fn joined_text(bs: Seq<BlockView>) -> Seq<char> {
    join(texts(bs), "\n"@)
}

/// The texts of the text blocks of `blocks`, collected.
fn collect_texts(blocks: &Vec<ContentBlock>) -> (v: Vec<String>)
    ensures
        string_views(v@) == texts(block_views(blocks@)),
{
    let ghost bs = block_views(blocks@);
    let mut v: Vec<String> = Vec::new();
    let mut i: usize = 0;
    while i < blocks.len()
        invariant
            i <= blocks@.len(),
            bs == block_views(blocks@),
            string_views(v@) == texts(bs.take(i as int)),
        decreases blocks.len() - i,
    {
        assert(bs.take(i + 1).drop_last() == bs.take(i as int));
        assert(bs.take(i + 1).last() == blocks@[i as int]@);
        let ghost before = v@;
        match &blocks[i] {
            ContentBlock::Text { text } => {
                v.push(text.clone());
                assert(string_views(v@) == string_views(before).push(text@));
            },
            _ => {},
        }
        i = i + 1;
    }
    assert(bs.take(blocks@.len() as int) == bs);
    v
}

/// The joined text of the text blocks of `blocks`.
fn joined_text_of(blocks: &Vec<ContentBlock>) -> (s: String)
    ensures
        s@ == joined_text(block_views(blocks@)),
{
    let v = collect_texts(blocks);
    join_strings(v.as_slice(), "\n")
}

// ---------------------------------------------------------------------------
// OpenAI wire shapes
// ---------------------------------------------------------------------------

/// The function half of an OpenAI tool call; `arguments` is JSON text.
#[derive(Debug, Clone)]
pub struct OpenAIFunctionCall {
    pub name: String,
    pub arguments: String,
}

/// A tool call in an OpenAI assistant message.
#[derive(Debug, Clone)]
pub struct OpenAIToolCall {
    pub id: String,
    pub call_type: String,
    pub function: OpenAIFunctionCall,
}

/// A tool call by its texts: id, type, function name and arguments.
pub type CallView = (Seq<char>, Seq<char>, Seq<char>, Seq<char>);

impl View for OpenAIToolCall {
    type V = CallView;

    open spec fn view(&self) -> CallView {
        (self.id@, self.call_type@, self.function.name@, self.function.arguments@)
    }
}

/// The views of a sequence of tool calls.
pub open spec fn call_views(s: Seq<OpenAIToolCall>) -> Seq<CallView> {
    s.map_values(|c: OpenAIToolCall| c@)
}

/// A message of the Chat Completions API.
#[derive(Debug, Clone)]
pub struct OpenAIMessage {
    pub role: String,
    pub content: Option<String>,
    pub tool_calls: Option<Vec<OpenAIToolCall>>,
    pub tool_call_id: Option<String>,
}

/// An OpenAI message by its texts.
pub struct OpenAIView {
    pub role: Seq<char>,
    pub content: Option<Seq<char>>,
    pub tool_calls: Option<Seq<CallView>>,
    pub tool_call_id: Option<Seq<char>>,
}

/// The view of an optional string.
pub open spec fn opt_text(o: Option<String>) -> Option<Seq<char>> {
    match o {
        Some(s) => Some(s@),
        None => None,
    }
}

impl View for OpenAIMessage {
    type V = OpenAIView;

    open spec fn view(&self) -> OpenAIView {
        OpenAIView {
            role: self.role@,
            content: opt_text(self.content),
            tool_calls: match self.tool_calls {
                Some(v) => Some(call_views(v@)),
                None => None,
            },
            tool_call_id: opt_text(self.tool_call_id),
        }
    }
}

/// The views of a sequence of OpenAI messages.
pub open spec fn openai_views(s: Seq<OpenAIMessage>) -> Seq<OpenAIView> {
    s.map_values(|m: OpenAIMessage| m@)
}

/// A plain OpenAI message of `role` with `content`.
pub open spec fn plain_view(role: Seq<char>, content: Seq<char>) -> OpenAIView {
    OpenAIView { role, content: Some(content), tool_calls: None, tool_call_id: None }
}

/// The `tool` messages that carry a user message's tool results, in order.
pub open spec fn tool_result_views(bs: Seq<BlockView>) -> Seq<OpenAIView>
    decreases bs.len(),
{
    if bs.len() == 0 {
        seq![]
    } else {
        tool_result_views(bs.drop_last()) + match bs.last() {
            BlockView::ToolResult(id, content, _) => seq![
                OpenAIView {
                    role: "tool"@,
                    content: Some(content),
                    tool_calls: None,
                    tool_call_id: Some(id),
                },
            ],
            _ => seq![],
        }
    }
}

/// The arguments text of a tool input: the input re-rendered by
/// `serde_json`, or empty where it is not JSON.
pub open spec fn openai_arguments(input: Seq<char>) -> Seq<char> {
    match json_reparse(input) {
        Ok(t) => t,
        Err(_) => Seq::empty(),
    }
}

/// The tool calls of an assistant message's tool uses, in order.
pub open spec fn call_views_of(bs: Seq<BlockView>) -> Seq<CallView>
    decreases bs.len(),
{
    if bs.len() == 0 {
        seq![]
    } else {
        call_views_of(bs.drop_last()) + match bs.last() {
            BlockView::ToolUse(id, name, input) => seq![
                (id, "function"@, name, openai_arguments(input)),
            ],
            _ => seq![],
        }
    }
}

/// The OpenAI messages for one conversation message: a user message's
/// joined text (when not empty) and then one `tool` message per tool
/// result; one assistant message with its text (if any) and its tool
/// calls (if any); one system message with the joined text.
pub open spec fn openai_for(role: Role, bs: Seq<BlockView>) -> Seq<OpenAIView> {
    match role {
        Role::User => (if joined_text(bs).len() > 0 {
            seq![plain_view("user"@, joined_text(bs))]
        } else {
            seq![]
        }) + tool_result_views(bs),
        Role::Assistant => seq![
            OpenAIView {
                role: "assistant"@,
                content: if texts(bs).len() == 0 {
                    None
                } else {
                    Some(joined_text(bs))
                },
                tool_calls: if call_views_of(bs).len() == 0 {
                    None
                } else {
                    Some(call_views_of(bs))
                },
                tool_call_id: None,
            },
        ],
        Role::System => seq![plain_view("system"@, joined_text(bs))],
    }
}

/// The OpenAI messages for a conversation, in order.
pub open spec fn openai_all(ms: Seq<(Role, Seq<BlockView>)>) -> Seq<OpenAIView>
    decreases ms.len(),
{
    if ms.len() == 0 {
        seq![]
    } else {
        openai_all(ms.drop_last()) + openai_for(ms.last().0, ms.last().1)
    }
}

/// The OpenAI request messages: the system prompt as a `system` message
/// (when not empty), then the conversation.
pub open spec fn openai_request(system: Seq<char>, ms: Seq<(Role, Seq<BlockView>)>) -> Seq<
    OpenAIView,
> {
    (if system.len() > 0 {
        seq![plain_view("system"@, system)]
    } else {
        seq![]
    }) + openai_all(ms)
}

/// The arguments text for a tool input.
fn arguments_of(input: &str) -> (s: String)
    ensures
        s@ == openai_arguments(input@),
{
    match reparse_json(input) {
        Ok(t) => t,
        Err(_) => String::new(),
    }
}

/// A plain OpenAI message.
fn plain_message(role: &str, content: String) -> (m: OpenAIMessage)
    ensures
        m@ == plain_view(role@, content@),
{
    OpenAIMessage { role: role.to_string(), content: Some(content), tool_calls: None, tool_call_id: None }
}

/// Appends the `tool` messages for the tool results of `blocks`.
fn push_tool_results(out: &mut Vec<OpenAIMessage>, blocks: &Vec<ContentBlock>)
    ensures
        openai_views(final(out)@) == openai_views(old(out)@) + tool_result_views(block_views(blocks@)),
{
    let ghost bs = block_views(blocks@);
    let ghost base = openai_views(out@);
    let mut i: usize = 0;
    while i < blocks.len()
        invariant
            i <= blocks@.len(),
            bs == block_views(blocks@),
            openai_views(out@) == base + tool_result_views(bs.take(i as int)),
        decreases blocks.len() - i,
    {
        assert(bs.take(i + 1).drop_last() == bs.take(i as int));
        assert(bs.take(i + 1).last() == blocks@[i as int]@);
        let ghost before = out@;
        match &blocks[i] {
            ContentBlock::ToolResult { tool_use_id, content, .. } => {
                let m = OpenAIMessage {
                    role: "tool".to_string(),
                    content: Some(content.clone()),
                    tool_calls: None,
                    tool_call_id: Some(tool_use_id.clone()),
                };
                out.push(m);
                assert(openai_views(out@) == openai_views(before).push(m@));
            },
            _ => {},
        }
        i = i + 1;
    }
    assert(bs.take(blocks@.len() as int) == bs);
}

/// The tool calls for the tool uses of `blocks`.
fn tool_calls_of(blocks: &Vec<ContentBlock>) -> (v: Vec<OpenAIToolCall>)
    ensures
        call_views(v@) == call_views_of(block_views(blocks@)),
{
    let ghost bs = block_views(blocks@);
    let mut v: Vec<OpenAIToolCall> = Vec::new();
    let mut i: usize = 0;
    while i < blocks.len()
        invariant
            i <= blocks@.len(),
            bs == block_views(blocks@),
            call_views(v@) == call_views_of(bs.take(i as int)),
        decreases blocks.len() - i,
    {
        assert(bs.take(i + 1).drop_last() == bs.take(i as int));
        assert(bs.take(i + 1).last() == blocks@[i as int]@);
        let ghost before = v@;
        match &blocks[i] {
            ContentBlock::ToolUse { id, name, input } => {
                let c = OpenAIToolCall {
                    id: id.clone(),
                    call_type: "function".to_string(),
                    function: OpenAIFunctionCall {
                        name: name.clone(),
                        arguments: arguments_of(input.as_str()),
                    },
                };
                v.push(c);
                assert(call_views(v@) == call_views(before).push(c@));
            },
            _ => {},
        }
        i = i + 1;
    }
    assert(bs.take(blocks@.len() as int) == bs);
    v
}

/// Translates the conversation into OpenAI's message format: the system
/// prompt becomes a `system` message, an assistant's tool uses become its
/// `tool_calls`, and tool results become separate `tool` messages.
pub fn to_openai_messages(system: &str, messages: &[Message]) -> (r: Vec<OpenAIMessage>)
    ensures
        openai_views(r@) == openai_request(system@, message_views(messages@)),
{
    let mut result: Vec<OpenAIMessage> = Vec::new();
    if !system.is_empty() {
        result.push(plain_message("system", system.to_string()));
    }
    let ghost head = openai_views(result@);
    let ghost ms = message_views(messages@);
    assert(head == (if system@.len() > 0 {
        seq![plain_view("system"@, system@)]
    } else {
        seq![]
    }));
    let mut i: usize = 0;
    while i < messages.len()
        invariant
            i <= messages@.len(),
            ms == message_views(messages@),
            openai_views(result@) == head + openai_all(ms.take(i as int)),
        decreases messages.len() - i,
    {
        let msg = &messages[i];
        let ghost base = openai_views(result@);
        let ghost bs = block_views(msg.content@);
        assert(ms.take(i + 1).drop_last() == ms.take(i as int));
        assert(ms.take(i + 1).last() == (msg.role, bs));
        match msg.role {
            Role::User => {
                let text = joined_text_of(&msg.content);
                if !text.as_str().is_empty() {
                    result.push(plain_message("user", text));
                }
                let ghost mid = openai_views(result@);
                push_tool_results(&mut result, &msg.content);
                assert(openai_views(result@) == base + openai_for(msg.role, bs));
            },
            Role::Assistant => {
                let texts_v = collect_texts(&msg.content);
                let content = if texts_v.len() == 0 {
                    None
                } else {
                    Some(join_strings(texts_v.as_slice(), "\n"))
                };
                let calls = tool_calls_of(&msg.content);
                let tool_calls = if calls.len() == 0 {
                    None
                } else {
                    Some(calls)
                };
                let m = OpenAIMessage {
                    role: "assistant".to_string(),
                    content,
                    tool_calls,
                    tool_call_id: None,
                };
                result.push(m);
                assert(openai_views(result@) == base + openai_for(msg.role, bs));
            },
            Role::System => {
                let text = joined_text_of(&msg.content);
                result.push(plain_message("system", text));
                assert(openai_views(result@) == base + openai_for(msg.role, bs));
            },
        }
        i = i + 1;
    }
    assert(ms.take(messages@.len() as int) == ms);
    result
}


// ---------------------------------------------------------------------------
// Anthropic wire shapes
// ---------------------------------------------------------------------------

/// A content block of the Messages API; a tool input is JSON text.
#[derive(Debug, Clone)]
pub enum AnthropicContent {
    Text { text: String },
    ToolUse { id: String, name: String, input: String },
    ToolResult { tool_use_id: String, content: String, is_error: Option<bool> },
}

/// An Anthropic content block by its texts.
pub enum AnthropicBlockView {
    Text(Seq<char>),
    ToolUse(Seq<char>, Seq<char>, Seq<char>),
    ToolResult(Seq<char>, Seq<char>, Option<bool>),
}

impl View for AnthropicContent {
    type V = AnthropicBlockView;

    open spec fn view(&self) -> AnthropicBlockView {
        match self {
            AnthropicContent::Text { text } => AnthropicBlockView::Text(text@),
            AnthropicContent::ToolUse { id, name, input } => AnthropicBlockView::ToolUse(
                id@,
                name@,
                input@,
            ),
            AnthropicContent::ToolResult { tool_use_id, content, is_error } => AnthropicBlockView::ToolResult(
                tool_use_id@,
                content@,
                *is_error,
            ),
        }
    }
}

/// The views of a sequence of Anthropic blocks.
pub open spec fn anthropic_block_views(s: Seq<AnthropicContent>) -> Seq<AnthropicBlockView> {
    s.map_values(|b: AnthropicContent| b@)
}

/// A message of the Messages API.
#[derive(Debug, Clone)]
pub struct AnthropicMessage {
    pub role: String,
    pub content: Vec<AnthropicContent>,
}

impl View for AnthropicMessage {
    type V = (Seq<char>, Seq<AnthropicBlockView>);

    open spec fn view(&self) -> (Seq<char>, Seq<AnthropicBlockView>) {
        (self.role@, anthropic_block_views(self.content@))
    }
}

/// The views of a sequence of Anthropic messages.
pub open spec fn anthropic_views(s: Seq<AnthropicMessage>) -> Seq<(Seq<char>, Seq<AnthropicBlockView>)> {
    s.map_values(|m: AnthropicMessage| m@)
}

/// The Anthropic role of a conversation role: the system role is sent as
/// `user`, since the system prompt travels in its own field.
pub open spec fn anthropic_role(r: Role) -> Seq<char> {
    match r {
        Role::User => "user"@,
        Role::Assistant => "assistant"@,
        Role::System => "user"@,
    }
}

/// The Anthropic block for a conversation block; an error flag is sent
/// only when set.
pub open spec fn anthropic_block(b: BlockView) -> AnthropicBlockView {
    match b {
        BlockView::Text(t) => AnthropicBlockView::Text(t),
        BlockView::ToolUse(id, name, input) => AnthropicBlockView::ToolUse(id, name, input),
        BlockView::ToolResult(id, content, is_error) => AnthropicBlockView::ToolResult(
            id,
            content,
            if is_error {
                Some(true)
            } else {
                None
            },
        ),
    }
}

/// The Anthropic message for a conversation message.
pub open spec fn anthropic_message(m: (Role, Seq<BlockView>)) -> (Seq<char>, Seq<AnthropicBlockView>) {
    (anthropic_role(m.0), m.1.map_values(|b: BlockView| anthropic_block(b)))
}

/// The Anthropic block for a conversation block, computed.
fn anthropic_block_of(b: &ContentBlock) -> (a: AnthropicContent)
    ensures
        a@ == anthropic_block(b@),
{
    match b {
        ContentBlock::Text { text } => AnthropicContent::Text { text: text.clone() },
        ContentBlock::ToolUse { id, name, input } => AnthropicContent::ToolUse {
            id: id.clone(),
            name: name.clone(),
            input: input.clone(),
        },
        ContentBlock::ToolResult { tool_use_id, content, is_error } => AnthropicContent::ToolResult {
            tool_use_id: tool_use_id.clone(),
            content: content.clone(),
            is_error: if *is_error {
                Some(true)
            } else {
                None
            },
        },
    }
}

/// Translates the conversation into Anthropic's message format.
pub fn to_anthropic_messages(messages: &[Message]) -> (r: Vec<AnthropicMessage>)
    ensures
        anthropic_views(r@) == message_views(messages@).map_values(
            |m: (Role, Seq<BlockView>)| anthropic_message(m),
        ),
{
    let ghost ms = message_views(messages@);
    let mut out: Vec<AnthropicMessage> = Vec::new();
    let mut i: usize = 0;
    while i < messages.len()
        invariant
            i <= messages@.len(),
            ms == message_views(messages@),
            anthropic_views(out@) == ms.take(i as int).map_values(
                |m: (Role, Seq<BlockView>)| anthropic_message(m),
            ),
        decreases messages.len() - i,
    {
        let msg = &messages[i];
        let role = match msg.role {
            Role::User => "user",
            Role::Assistant => "assistant",
            Role::System => "user",
        };
        let ghost bs = block_views(msg.content@);
        let mut content: Vec<AnthropicContent> = Vec::new();
        let mut j: usize = 0;
        while j < msg.content.len()
            invariant
                j <= msg.content@.len(),
                bs == block_views(msg.content@),
                anthropic_block_views(content@) == bs.take(j as int).map_values(
                    |b: BlockView| anthropic_block(b),
                ),
            decreases msg.content.len() - j,
        {
            let a = anthropic_block_of(&msg.content[j]);
            let ghost before = content@;
            content.push(a);
            assert(anthropic_block_views(content@) == anthropic_block_views(before).push(a@));
            assert(bs.take(j + 1).map_values(|b: BlockView| anthropic_block(b)) == bs.take(
                j as int,
            ).map_values(|b: BlockView| anthropic_block(b)).push(anthropic_block(bs[j as int])));
            j = j + 1;
        }
        assert(bs.take(msg.content@.len() as int) == bs);
        let m = AnthropicMessage { role: role.to_string(), content };
        let ghost before = out@;
        out.push(m);
        assert(anthropic_views(out@) == anthropic_views(before).push(m@));
        assert(ms.take(i + 1).map_values(|m: (Role, Seq<BlockView>)| anthropic_message(m)) == ms.take(
            i as int,
        ).map_values(|m: (Role, Seq<BlockView>)| anthropic_message(m)).push(anthropic_message(ms[i as int])));
        i = i + 1;
    }
    assert(ms.take(messages@.len() as int) == ms);
    out
}

// ---------------------------------------------------------------------------
// Tool definitions
// ---------------------------------------------------------------------------

/// A tool the model can call; `parameters` is its JSON schema as text.
#[derive(Debug, Clone)]
pub struct ToolDefinition {
    pub name: String,
    pub description: String,
    pub parameters: String,
}

/// An Anthropic tool: the schema goes under `input_schema`.
#[derive(Debug, Clone)]
pub struct AnthropicTool {
    pub name: String,
    pub description: String,
    pub input_schema: String,
}

/// The function half of an OpenAI tool definition.
#[derive(Debug, Clone)]
pub struct OpenAIFunctionDef {
    pub name: String,
    pub description: String,
    pub parameters: String,
}

/// An OpenAI tool definition, of type `function`.
#[derive(Debug, Clone)]
pub struct OpenAIToolDef {
    pub tool_type: String,
    pub function: OpenAIFunctionDef,
}

/// Translates tool definitions for Anthropic, one for one.
pub fn to_anthropic_tools(tools: &[ToolDefinition]) -> (r: Vec<AnthropicTool>)
    ensures
        r@.len() == tools@.len(),
        forall|i: int|
            0 <= i < r@.len() ==> (#[trigger] r@[i]).name@ == tools@[i].name@ && r@[i].description@
                == tools@[i].description@ && r@[i].input_schema@ == tools@[i].parameters@,
{
    let mut out: Vec<AnthropicTool> = Vec::new();
    let mut i: usize = 0;
    while i < tools.len()
        invariant
            i <= tools@.len(),
            out@.len() == i,
            forall|k: int|
                0 <= k < i ==> (#[trigger] out@[k]).name@ == tools@[k].name@ && out@[k].description@
                    == tools@[k].description@ && out@[k].input_schema@ == tools@[k].parameters@,
        decreases tools.len() - i,
    {
        let t = &tools[i];
        out.push(
            AnthropicTool {
                name: t.name.clone(),
                description: t.description.clone(),
                input_schema: t.parameters.clone(),
            },
        );
        i = i + 1;
    }
    out
}

/// Translates tool definitions for OpenAI, one for one, each of type
/// `function`.
pub fn to_openai_tools(tools: &[ToolDefinition]) -> (r: Vec<OpenAIToolDef>)
    ensures
        r@.len() == tools@.len(),
        forall|i: int|
            0 <= i < r@.len() ==> (#[trigger] r@[i]).tool_type@ == "function"@ && r@[i].function.name@
                == tools@[i].name@ && r@[i].function.description@ == tools@[i].description@
                && r@[i].function.parameters@ == tools@[i].parameters@,
{
    let mut out: Vec<OpenAIToolDef> = Vec::new();
    let mut i: usize = 0;
    while i < tools.len()
        invariant
            i <= tools@.len(),
            out@.len() == i,
            forall|k: int|
                0 <= k < i ==> (#[trigger] out@[k]).tool_type@ == "function"@ && out@[k].function.name@
                    == tools@[k].name@ && out@[k].function.description@ == tools@[k].description@
                    && out@[k].function.parameters@ == tools@[k].parameters@,
        decreases tools.len() - i,
    {
        let t = &tools[i];
        out.push(
            OpenAIToolDef {
                tool_type: "function".to_string(),
                function: OpenAIFunctionDef {
                    name: t.name.clone(),
                    description: t.description.clone(),
                    parameters: t.parameters.clone(),
                },
            },
        );
        i = i + 1;
    }
    out
}


// ---------------------------------------------------------------------------
// Responses
// ---------------------------------------------------------------------------

/// Token usage for a single request.
#[derive(Debug, Clone, Copy, PartialEq, Eq, Structural)]
pub struct TokenUsage {
    pub input_tokens: u32,
    pub output_tokens: u32,
}

/// Why the model stopped generating.
#[derive(Debug, Clone, PartialEq)]
pub enum StopReason {
    EndTurn,
    ToolUse,
    MaxTokens,
    Unknown(String),
}

/// A stop reason by its text.
pub enum StopView {
    EndTurn,
    ToolUse,
    MaxTokens,
    Unknown(Seq<char>),
}

impl View for StopReason {
    type V = StopView;

    open spec fn view(&self) -> StopView {
        match self {
            StopReason::EndTurn => StopView::EndTurn,
            StopReason::ToolUse => StopView::ToolUse,
            StopReason::MaxTokens => StopView::MaxTokens,
            StopReason::Unknown(s) => StopView::Unknown(s@),
        }
    }
}

/// The stop reason for a reported reason, given the words the provider
/// uses for the end of a turn, a tool call and the token limit; a missing
/// reason is `Unknown("none")`.
pub open spec fn stop_from(
    reason: Option<Seq<char>>,
    end_turn: Seq<char>,
    tool_use: Seq<char>,
    max_tokens: Seq<char>,
) -> StopView {
    match reason {
        Some(r) => if r == end_turn {
            StopView::EndTurn
        } else if r == tool_use {
            StopView::ToolUse
        } else if r == max_tokens {
            StopView::MaxTokens
        } else {
            StopView::Unknown(r)
        },
        None => StopView::Unknown("none"@),
    }
}

/// The stop reason for a reported reason, computed.
fn stop_reason_of(reason: &Option<String>, end_turn: &str, tool_use: &str, max_tokens: &str) -> (s:
    StopReason)
    ensures
        s@ == stop_from(opt_text(*reason), end_turn@, tool_use@, max_tokens@),
{
    match reason {
        Some(r) => {
            if str_eq(r.as_str(), end_turn) {
                StopReason::EndTurn
            } else if str_eq(r.as_str(), tool_use) {
                StopReason::ToolUse
            } else if str_eq(r.as_str(), max_tokens) {
                StopReason::MaxTokens
            } else {
                StopReason::Unknown(r.clone())
            }
        },
        None => StopReason::Unknown("none".to_string()),
    }
}

/// The normalised response of any provider.
#[derive(Debug, Clone)]
pub struct ProviderResponse {
    pub content: Vec<ContentBlock>,
    pub usage: TokenUsage,
    pub model: String,
    pub stop_reason: StopReason,
}

/// Token usage as the Messages API reports it.
#[derive(Debug, Clone, Copy)]
pub struct AnthropicUsage {
    pub input_tokens: u32,
    pub output_tokens: u32,
}

/// A Messages API response.
#[derive(Debug, Clone)]
pub struct AnthropicResponse {
    pub content: Vec<AnthropicContent>,
    pub model: String,
    pub stop_reason: Option<String>,
    pub usage: AnthropicUsage,
}

/// The conversation block for an Anthropic block; a missing error flag
/// means no error.
pub open spec fn block_from_anthropic(a: AnthropicBlockView) -> BlockView {
    match a {
        AnthropicBlockView::Text(t) => BlockView::Text(t),
        AnthropicBlockView::ToolUse(id, name, input) => BlockView::ToolUse(id, name, input),
        AnthropicBlockView::ToolResult(id, content, is_error) => BlockView::ToolResult(
            id,
            content,
            match is_error {
                Some(b) => b,
                None => false,
            },
        ),
    }
}

/// Normalises a Messages API response: the same blocks, the same usage and
/// model, and the stop reason from `end_turn`, `tool_use` and
/// `max_tokens`.
pub fn parse_anthropic_response(resp: AnthropicResponse) -> (r: ProviderResponse)
    ensures
        block_views(r.content@) == anthropic_block_views(resp.content@).map_values(
            |a: AnthropicBlockView| block_from_anthropic(a),
        ),
        r.usage == (TokenUsage {
            input_tokens: resp.usage.input_tokens,
            output_tokens: resp.usage.output_tokens,
        }),
        r.model@ == resp.model@,
        r.stop_reason@ == stop_from(
            opt_text(resp.stop_reason),
            "end_turn"@,
            "tool_use"@,
            "max_tokens"@,
        ),
{
    let ghost avs = anthropic_block_views(resp.content@);
    let mut content: Vec<ContentBlock> = Vec::new();
    let mut i: usize = 0;
    while i < resp.content.len()
        invariant
            i <= resp.content@.len(),
            avs == anthropic_block_views(resp.content@),
            block_views(content@) == avs.take(i as int).map_values(
                |a: AnthropicBlockView| block_from_anthropic(a),
            ),
        decreases resp.content.len() - i,
    {
        let b = match &resp.content[i] {
            AnthropicContent::Text { text } => ContentBlock::Text { text: text.clone() },
            AnthropicContent::ToolUse { id, name, input } => ContentBlock::ToolUse {
                id: id.clone(),
                name: name.clone(),
                input: input.clone(),
            },
            AnthropicContent::ToolResult { tool_use_id, content, is_error } => ContentBlock::ToolResult {
                tool_use_id: tool_use_id.clone(),
                content: content.clone(),
                is_error: match is_error {
                    Some(e) => *e,
                    None => false,
                },
            },
        };
        assert(b@ == block_from_anthropic(avs[i as int]));
        let ghost before = content@;
        content.push(b);
        assert(block_views(content@) == block_views(before).push(b@));
        assert(avs.take(i + 1).map_values(|a: AnthropicBlockView| block_from_anthropic(a))
            == avs.take(i as int).map_values(|a: AnthropicBlockView| block_from_anthropic(a)).push(
            block_from_anthropic(avs[i as int]),
        ));
        i = i + 1;
    }
    assert(avs.take(resp.content@.len() as int) == avs);
    let stop_reason = stop_reason_of(&resp.stop_reason, "end_turn", "tool_use", "max_tokens");
    ProviderResponse {
        content,
        usage: TokenUsage {
            input_tokens: resp.usage.input_tokens,
            output_tokens: resp.usage.output_tokens,
        },
        model: resp.model,
        stop_reason,
    }
}

/// Token usage as the Chat Completions API reports it.
#[derive(Debug, Clone, Copy)]
pub struct OpenAIUsage {
    pub prompt_tokens: u32,
    pub completion_tokens: u32,
    pub total_tokens: u32,
}

/// The message of a Chat Completions choice.
#[derive(Debug, Clone)]
pub struct OpenAIChoiceMessage {
    pub content: Option<String>,
    pub tool_calls: Option<Vec<OpenAIToolCall>>,
}

/// A Chat Completions choice.
#[derive(Debug, Clone)]
pub struct OpenAIChoice {
    pub message: OpenAIChoiceMessage,
    pub finish_reason: Option<String>,
}

/// A Chat Completions response.
#[derive(Debug, Clone)]
pub struct OpenAIResponse {
    pub choices: Vec<OpenAIChoice>,
    pub model: String,
    pub usage: Option<OpenAIUsage>,
}

/// The tool input for OpenAI call arguments: the arguments re-rendered by
/// `serde_json`, or an empty object where they are not JSON.
pub open spec fn input_from_arguments(arguments: Seq<char>) -> Seq<char> {
    match json_reparse(arguments) {
        Ok(t) => t,
        Err(_) => "{}"@,
    }
}

/// The tool-use blocks for OpenAI tool calls, in order.
pub open spec fn uses_from_calls(calls: Seq<CallView>) -> Seq<BlockView> {
    calls.map_values(|c: CallView| BlockView::ToolUse(c.0, c.2, input_from_arguments(c.3)))
}

/// The blocks of the first choice: its text when not empty, then one
/// tool use per tool call.
pub open spec fn openai_blocks(content: Option<Seq<char>>, calls: Option<Seq<CallView>>) -> Seq<
    BlockView,
> {
    (match content {
        Some(t) => if t.len() > 0 {
            seq![BlockView::Text(t)]
        } else {
            seq![]
        },
        None => seq![],
    }) + match calls {
        Some(cs) => uses_from_calls(cs),
        None => seq![],
    }
}

/// The tool input for OpenAI call arguments, computed.
fn input_of(arguments: &str) -> (s: String)
    ensures
        s@ == input_from_arguments(arguments@),
{
    match reparse_json(arguments) {
        Ok(t) => t,
        Err(_) => "{}".to_string(),
    }
}

/// Normalises a Chat Completions response from its first choice: the
/// text (when not empty) and the tool calls become blocks, `stop`,
/// `tool_calls` and `length` become stop reasons, and missing usage
/// counts as zero.
pub fn parse_openai_response(resp: OpenAIResponse) -> (r: ProviderResponse)
    requires
        resp.choices@.len() > 0,
    ensures
        block_views(r.content@) == openai_blocks(
            opt_text(resp.choices@[0].message.content),
            match resp.choices@[0].message.tool_calls {
                Some(v) => Some(call_views(v@)),
                None => None,
            },
        ),
        r.usage == match resp.usage {
            Some(u) => TokenUsage { input_tokens: u.prompt_tokens, output_tokens: u.completion_tokens },
            None => TokenUsage { input_tokens: 0, output_tokens: 0 },
        },
        r.model@ == resp.model@,
        r.stop_reason@ == stop_from(
            opt_text(resp.choices@[0].finish_reason),
            "stop"@,
            "tool_calls"@,
            "length"@,
        ),
{
    let choice = &resp.choices[0];
    let mut content: Vec<ContentBlock> = Vec::new();
    match &choice.message.content {
        Some(text) => {
            if !text.as_str().is_empty() {
                content.push(ContentBlock::Text { text: text.clone() });
            }
        },
        None => {},
    }
    let ghost head = block_views(content@);
    match &choice.message.tool_calls {
        Some(calls) => {
            let ghost cvs = call_views(calls@);
            let mut i: usize = 0;
            while i < calls.len()
                invariant
                    i <= calls@.len(),
                    cvs == call_views(calls@),
                    block_views(content@) == head + uses_from_calls(cvs.take(i as int)),
                decreases calls.len() - i,
            {
                let tc = &calls[i];
                let b = ContentBlock::ToolUse {
                    id: tc.id.clone(),
                    name: tc.function.name.clone(),
                    input: input_of(tc.function.arguments.as_str()),
                };
                let ghost before = content@;
                content.push(b);
                assert(block_views(content@) == block_views(before).push(b@));
                assert(uses_from_calls(cvs.take(i + 1)) == uses_from_calls(cvs.take(i as int)).push(
                    b@,
                ));
                i = i + 1;
            }
            assert(cvs.take(calls@.len() as int) == cvs);
        },
        None => {
            assert(block_views(content@) == head + Seq::<BlockView>::empty());
        },
    }
    let stop_reason = stop_reason_of(&choice.finish_reason, "stop", "tool_calls", "length");
    let usage = match &resp.usage {
        Some(u) => TokenUsage { input_tokens: u.prompt_tokens, output_tokens: u.completion_tokens },
        None => TokenUsage { input_tokens: 0, output_tokens: 0 },
    };
    ProviderResponse { content, usage, model: resp.model, stop_reason }
}


// ---------------------------------------------------------------------------
// Errors
// ---------------------------------------------------------------------------

/// Errors of provider operations. A transport failure is held by the text
/// of the client's error.
#[derive(Debug, Clone, PartialEq)]
pub enum ProviderError {
    Http(String),
    Api { status: u16, message: String, retryable: bool },
    RateLimited { retry_after_ms: Option<u64> },
    Auth(String),
    Serialization(String),
}

/// `Some(n)` or `None`, as `{:?}` writes an optional number.
pub open spec fn debug_opt_u64(o: Option<u64>) -> Seq<char> {
    match o {
        Some(v) => "Some("@ + decimal(v as nat) + ")"@,
        None => "None"@,
    }
}

/// The message of an error.
pub open spec fn error_message(e: ProviderError) -> Seq<char> {
    match e {
        ProviderError::Http(t) => "HTTP error: "@ + t@,
        ProviderError::Api { status, message, .. } => "API error (status "@ + decimal(status as nat)
            + "): "@ + message@,
        ProviderError::RateLimited { retry_after_ms } => "Rate limited, retry after "@
            + debug_opt_u64(retry_after_ms) + "ms"@,
        ProviderError::Auth(m) => "Auth error: "@ + m@,
        ProviderError::Serialization(m) => "Serialization error: "@ + m@,
    }
}

impl ProviderError {
    /// Whether the error is transient, so that the request could succeed
    /// on retry: transport failures, rate limits and retryable API errors.
    pub fn is_retryable(&self) -> (b: bool)
        ensures
            b == match self {
                ProviderError::Http(_) => true,
                ProviderError::RateLimited { .. } => true,
                ProviderError::Api { retryable, .. } => *retryable,
                _ => false,
            },
    {
        match self {
            ProviderError::Http(_) => true,
            ProviderError::RateLimited { .. } => true,
            ProviderError::Api { retryable, .. } => *retryable,
            _ => false,
        }
    }

    /// Whether the error suggests trying another provider: rate limits,
    /// authentication failures and server errors (status 500 to 599).
    pub fn should_fallback(&self) -> (b: bool)
        ensures
            b == match self {
                ProviderError::RateLimited { .. } => true,
                ProviderError::Auth(_) => true,
                ProviderError::Api { status, .. } => 500 <= *status <= 599,
                _ => false,
            },
    {
        match self {
            ProviderError::RateLimited { .. } => true,
            ProviderError::Auth(_) => true,
            ProviderError::Api { status, .. } => 500 <= *status && *status <= 599,
            _ => false,
        }
    }

    /// The message of the error, as it is shown to the user.
    pub fn message(&self) -> (s: String)
        ensures
            s@ == error_message(*self),
    {
        let mut s = String::new();
        match self {
            ProviderError::Http(t) => {
                push_str(&mut s, "HTTP error: ");
                push_str(&mut s, t.as_str());
            },
            ProviderError::Api { status, message, .. } => {
                push_str(&mut s, "API error (status ");
                push_decimal(&mut s, *status as u64);
                push_str(&mut s, "): ");
                push_str(&mut s, message.as_str());
            },
            ProviderError::RateLimited { retry_after_ms } => {
                push_str(&mut s, "Rate limited, retry after ");
                match retry_after_ms {
                    Some(v) => {
                        push_str(&mut s, "Some(");
                        push_decimal(&mut s, *v);
                        push_str(&mut s, ")");
                    },
                    None => push_str(&mut s, "None"),
                }
                push_str(&mut s, "ms");
            },
            ProviderError::Auth(m) => {
                push_str(&mut s, "Auth error: ");
                push_str(&mut s, m.as_str());
            },
            ProviderError::Serialization(m) => {
                push_str(&mut s, "Serialization error: ");
                push_str(&mut s, m.as_str());
            },
        }
        s
    }
}

/// The supported providers.
#[derive(Debug, Clone, Copy, PartialEq, Eq, Structural)]
pub enum ProviderKind {
    Anthropic,
    OpenAI,
}

/// What a response status means before its body is read.
#[derive(Debug, Clone, PartialEq)]
pub enum StatusVerdict {
    /// A success status: read the body as a response.
    Success,
    /// A failure known from the status alone.
    Fail(ProviderError),
    /// Another failure: read the body for the API error's message.
    ReadBodyForError,
}

/// The retry delay in milliseconds for a `retry-after` header in seconds.
pub open spec fn retry_after_ms(header: Option<Seq<char>>) -> Option<u64> {
    match header {
        Some(h) => match parsed_u64(h) {
            Some(secs) => Some((secs * 1000) as u64),
            None => None,
        },
        None => None,
    }
}

/// Whether a `retry-after` header's delay in milliseconds fits in 64 bits.
pub open spec fn retry_after_fits(header: Option<Seq<char>>) -> bool {
    match header {
        Some(h) => match parsed_u64(h) {
            Some(secs) => secs * 1000 <= u64::MAX,
            None => true,
        },
        None => true,
    }
}

/// The message for a rejected API key.
pub open spec fn auth_message(kind: ProviderKind) -> Seq<char> {
    match kind {
        ProviderKind::Anthropic => "Invalid Anthropic API key"@,
        ProviderKind::OpenAI => "Invalid OpenAI API key"@,
    }
}

/// The view of an optional string slice.
pub open spec fn opt_str(o: Option<&str>) -> Option<Seq<char>> {
    match o {
        Some(s) => Some(s@),
        None => None,
    }
}

/// Judges a response status: 429 is a rate limit (with the
/// `retry-after` header's seconds as milliseconds), 401 a rejected key,
/// any other status outside 200 to 299 an API error whose message is the
/// body, and the rest success.
pub fn judge_status(kind: ProviderKind, status: u16, retry_after: Option<&str>) -> (v:
    StatusVerdict)
    requires
        status == 429 ==> retry_after_fits(opt_str(retry_after)),
    ensures
        status == 429 ==> v == StatusVerdict::Fail(
            ProviderError::RateLimited { retry_after_ms: retry_after_ms(opt_str(retry_after)) },
        ),
        status == 401 ==> (match v {
            StatusVerdict::Fail(ProviderError::Auth(m)) => m@ == auth_message(kind),
            _ => false,
        }),
        status != 429 && status != 401 && (status < 200 || status > 299) ==> v
            == StatusVerdict::ReadBodyForError,
        200 <= status <= 299 ==> v == StatusVerdict::Success,
{
    if status == 429 {
        let ms = match retry_after {
            Some(h) => match parse_u64(h) {
                Some(secs) => Some(secs * 1000),
                None => None,
            },
            None => None,
        };
        StatusVerdict::Fail(ProviderError::RateLimited { retry_after_ms: ms })
    } else if status == 401 {
        let m = match kind {
            ProviderKind::Anthropic => "Invalid Anthropic API key",
            ProviderKind::OpenAI => "Invalid OpenAI API key",
        };
        StatusVerdict::Fail(ProviderError::Auth(m.to_string()))
    } else if status < 200 || status > 299 {
        StatusVerdict::ReadBodyForError
    } else {
        StatusVerdict::Success
    }
}

/// The API error for a failed status and its body: retryable for server
/// errors (500 and up).
pub fn api_error(status: u16, body: String) -> (e: ProviderError)
    ensures
        e == (ProviderError::Api { status, message: body, retryable: status >= 500 }),
{
    ProviderError::Api { status, message: body, retryable: status >= 500 }
}

// ---------------------------------------------------------------------------
// Provider configuration
// ---------------------------------------------------------------------------

/// The value after the first occurrence of `flag` at or after position
/// `i` that has a value after it.
pub open spec fn flag_from(args: Seq<Seq<char>>, flag: Seq<char>, i: int) -> Option<Seq<char>>
    decreases args.len() - i,
{
    if i < 0 || i + 1 >= args.len() {
        None
    } else if args[i] == flag {
        Some(args[i + 1])
    } else {
        flag_from(args, flag, i + 1)
    }
}

/// The value given to `flag` on the command line, if any.
pub open spec fn flag_value(args: Seq<Seq<char>>, flag: Seq<char>) -> Option<Seq<char>> {
    flag_from(args, flag, 0)
}

/// Extracts the value following `flag` in the argument list.
pub fn parse_flag(args: &[String], flag: &str) -> (r: Option<String>)
    ensures
        opt_text(r) == flag_value(string_views(args@), flag@),
{
    let ghost a = string_views(args@);
    let mut i: usize = 0;
    while i < args.len() && i + 1 < args.len()
        invariant
            i <= args@.len(),
            a == string_views(args@),
            flag_value(a, flag@) == flag_from(a, flag@, i as int),
        decreases args.len() - i,
    {
        if str_eq(args[i].as_str(), flag) {
            return Some(args[i + 1].clone());
        }
        i = i + 1;
    }
    None
}

/// The provider's settings: name, model, API key and an optional base URL.
#[derive(Debug, Clone)]
pub struct ProviderConfig {
    pub provider_name: String,
    pub model: String,
    pub api_key: String,
    pub base_url: Option<String>,
}

/// A configuration by its texts.
pub type ConfigView = (Seq<char>, Seq<char>, Seq<char>, Option<Seq<char>>);

impl View for ProviderConfig {
    type V = ConfigView;

    open spec fn view(&self) -> ConfigView {
        (self.provider_name@, self.model@, self.api_key@, opt_text(self.base_url))
    }
}

/// The provider chosen: the `--provider` flag, else the `AGENT_PROVIDER`
/// value, else `anthropic`.
pub open spec fn chosen_provider(args: Seq<Seq<char>>, env_provider: Option<Seq<char>>) -> Seq<
    char,
> {
    match flag_value(args, "--provider"@) {
        Some(p) => p,
        None => match env_provider {
            Some(e) => e,
            None => "anthropic"@,
        },
    }
}

/// The configuration for the arguments and environment values: the key
/// of the chosen provider is required, its default model applies unless
/// `--model` overrides it, and `--base-url` is passed on.
pub open spec fn config_for(
    args: Seq<Seq<char>>,
    env_provider: Option<Seq<char>>,
    anthropic_key: Option<Seq<char>>,
    openai_key: Option<Seq<char>>,
    anthropic_model: Seq<char>,
) -> Result<ConfigView, Seq<char>> {
    let name = chosen_provider(args, env_provider);
    let model = |default: Seq<char>|
        match flag_value(args, "--model"@) {
            Some(m) => m,
            None => default,
        };
    let base = flag_value(args, "--base-url"@);
    if name == "anthropic"@ {
        match anthropic_key {
            Some(k) => Ok((name, model(anthropic_model), k, base)),
            None => Err("ANTHROPIC_API_KEY not set"@),
        }
    } else if name == "openai"@ {
        match openai_key {
            Some(k) => Ok((name, model("gpt-4o"@), k, base)),
            None => Err("OPENAI_API_KEY not set"@),
        }
    } else {
        Err("Unknown provider: "@ + name)
    }
}

/// The view of a configuration result.
pub open spec fn config_result_view(r: Result<ProviderConfig, String>) -> Result<ConfigView, Seq<char>> {
    match r {
        Ok(c) => Ok(c@),
        Err(e) => Err(e@),
    }
}

/// A provider ready to be built: its kind, key, model and base URL.
#[derive(Debug, Clone)]
pub struct ProviderSetup {
    pub kind: ProviderKind,
    pub api_key: String,
    pub model: String,
    pub base_url: String,
}

impl ProviderConfig {
    /// Resolves the configuration from the command-line arguments and the
    /// values of `AGENT_PROVIDER`, `ANTHROPIC_API_KEY` and `OPENAI_API_KEY`
    /// (`None` where unset); `anthropic_model` is Anthropic's default model
    /// (OpenAI's is `gpt-4o`). Precedence: the `--provider` flag, then
    /// `AGENT_PROVIDER`, then `anthropic`.
    pub fn from_cli_and_env(
        args: &[String],
        env_provider: Option<String>,
        anthropic_key: Option<String>,
        openai_key: Option<String>,
        anthropic_model: &str,
    ) -> (r: Result<ProviderConfig, String>)
        ensures
            config_result_view(r) == config_for(
                string_views(args@),
                opt_text(env_provider),
                opt_text(anthropic_key),
                opt_text(openai_key),
                anthropic_model@,
            ),
    {
        let provider_name = match parse_flag(args, "--provider") {
            Some(p) => p,
            None => match env_provider {
                Some(e) => e,
                None => "anthropic".to_string(),
            },
        };
        let model_override = parse_flag(args, "--model");
        let base_url = parse_flag(args, "--base-url");
        let (api_key, default_model) = if str_eq(provider_name.as_str(), "anthropic") {
            match anthropic_key {
                Some(k) => (k, anthropic_model.to_string()),
                None => {
                    return Err("ANTHROPIC_API_KEY not set".to_string());
                },
            }
        } else if str_eq(provider_name.as_str(), "openai") {
            match openai_key {
                Some(k) => (k, "gpt-4o".to_string()),
                None => {
                    return Err("OPENAI_API_KEY not set".to_string());
                },
            }
        } else {
            let mut m = "Unknown provider: ".to_string();
            push_str(&mut m, provider_name.as_str());
            return Err(m);
        };
        let model = match model_override {
            Some(m) => m,
            None => default_model,
        };
        Ok(ProviderConfig { provider_name, model, api_key, base_url })
    }

    /// The provider this configuration selects, with the provider's own
    /// base URL unless one was given.
    pub fn build_provider(self) -> (r: Result<ProviderSetup, String>)
        ensures
            match r {
                Ok(s) => {
                    &&& (self.provider_name@ == "anthropic"@ ==> s.kind == ProviderKind::Anthropic)
                    &&& (self.provider_name@ == "openai"@ ==> s.kind == ProviderKind::OpenAI)
                    &&& (self.provider_name@ == "anthropic"@ || self.provider_name@ == "openai"@)
                    &&& s.api_key@ == self.api_key@
                    &&& s.model@ == self.model@
                    &&& s.base_url@ == match self.base_url {
                        Some(u) => u@,
                        None => if self.provider_name@ == "anthropic"@ {
                            "https://api.anthropic.com"@
                        } else {
                            "https://api.openai.com"@
                        },
                    }
                },
                Err(e) => {
                    &&& self.provider_name@ != "anthropic"@
                    &&& self.provider_name@ != "openai"@
                    &&& e@ == "Unknown provider: "@ + self.provider_name@
                },
            },
    {
        proof {
            reveal_strlit("anthropic");
            reveal_strlit("openai");
            assert("anthropic"@.len() != "openai"@.len());
        }
        let kind = if str_eq(self.provider_name.as_str(), "anthropic") {
            ProviderKind::Anthropic
        } else if str_eq(self.provider_name.as_str(), "openai") {
            ProviderKind::OpenAI
        } else {
            let mut m = "Unknown provider: ".to_string();
            push_str(&mut m, self.provider_name.as_str());
            return Err(m);
        };
        let base_url = match self.base_url {
            Some(u) => u,
            None => match kind {
                ProviderKind::Anthropic => "https://api.anthropic.com".to_string(),
                ProviderKind::OpenAI => "https://api.openai.com".to_string(),
            },
        };
        Ok(ProviderSetup { kind, api_key: self.api_key, model: self.model, base_url })
    }
}

impl ProviderKind {
    /// The provider's name.
    pub fn name(&self) -> (s: &'static str)
        ensures
            s@ == match self {
                ProviderKind::Anthropic => "anthropic"@,
                ProviderKind::OpenAI => "openai"@,
            },
    {
        match self {
            ProviderKind::Anthropic => "anthropic",
            ProviderKind::OpenAI => "openai",
        }
    }
}


// ---------------------------------------------------------------------------
// Showing a response
// ---------------------------------------------------------------------------

/// What `{:?}` writes for a string: the text in double quotes, with
/// quotes, backslashes and control characters escaped.
pub uninterp spec fn std_debug_str(s: Seq<char>) -> Seq<char>;

/// Renders a string with `{:?}`; the contract names the result.
#[verifier::external_body]
fn debug_str(s: &str) -> (r: String)
    ensures
        r@ == std_debug_str(s@),
{
    format!("{:?}", s)
}

/// A stop reason as `{:?}` writes it.
pub open spec fn stop_debug(s: StopView) -> Seq<char> {
    match s {
        StopView::EndTurn => "EndTurn"@,
        StopView::ToolUse => "ToolUse"@,
        StopView::MaxTokens => "MaxTokens"@,
        StopView::Unknown(r) => "Unknown("@ + std_debug_str(r) + ")"@,
    }
}

/// The lines shown for one content block.
pub open spec fn block_lines(b: BlockView) -> Seq<Seq<char>> {
    match b {
        BlockView::Text(t) => seq![t],
        BlockView::ToolUse(id, name, input) => seq![
            "[tool_use] "@ + name + " (id="@ + id + ")"@,
            "  input: "@ + input,
        ],
        BlockView::ToolResult(id, content, is_error) => seq![
            "[tool_result "@ + (if is_error {
                "ERROR"@
            } else {
                "OK"@
            }) + "] (id="@ + id + ")"@,
            "  "@ + content,
        ],
    }
}

/// The lines shown for a sequence of blocks.
pub open spec fn blocks_lines(bs: Seq<BlockView>) -> Seq<Seq<char>>
    decreases bs.len(),
{
    if bs.len() == 0 {
        seq![]
    } else {
        blocks_lines(bs.drop_last()) + block_lines(bs.last())
    }
}

/// The closing line: model, token usage and stop reason, after a blank
/// line.
pub open spec fn footer_line(model: Seq<char>, usage: TokenUsage, stop: StopView) -> Seq<char> {
    "\n--- "@ + model + " | tokens: "@ + decimal(usage.input_tokens as nat) + " in / "@ + decimal(
        usage.output_tokens as nat,
    ) + " out | stop: "@ + stop_debug(stop) + " ---"@
}

/// A stop reason as `{:?}` writes it, computed.
fn push_stop_debug(s: &mut String, r: &StopReason)
    ensures
        final(s)@ == old(s)@ + stop_debug(r@),
{
    match r {
        StopReason::EndTurn => push_str(s, "EndTurn"),
        StopReason::ToolUse => push_str(s, "ToolUse"),
        StopReason::MaxTokens => push_str(s, "MaxTokens"),
        StopReason::Unknown(t) => {
            push_str(s, "Unknown(");
            let d = debug_str(t.as_str());
            push_str(s, d.as_str());
            push_str(s, ")");
            assert(old(s)@ + "Unknown("@ + d@ + ")"@ == old(s)@ + ("Unknown("@ + d@ + ")"@));
        },
    }
}

/// The lines that show a response: each block's lines, then the footer.
pub fn response_lines(response: &ProviderResponse) -> (lines: Vec<String>)
    ensures
        string_views(lines@) == blocks_lines(block_views(response.content@)).push(
            footer_line(response.model@, response.usage, response.stop_reason@),
        ),
{
    let ghost bs = block_views(response.content@);
    let mut lines: Vec<String> = Vec::new();
    let mut i: usize = 0;
    while i < response.content.len()
        invariant
            i <= response.content@.len(),
            bs == block_views(response.content@),
            string_views(lines@) == blocks_lines(bs.take(i as int)),
        decreases response.content.len() - i,
    {
        assert(bs.take(i + 1).drop_last() == bs.take(i as int));
        assert(bs.take(i + 1).last() == response.content@[i as int]@);
        let ghost before = string_views(lines@);
        match &response.content[i] {
            ContentBlock::Text { text } => {
                lines.push(text.clone());
            },
            ContentBlock::ToolUse { id, name, input } => {
                let mut a = "[tool_use] ".to_string();
                push_str(&mut a, name.as_str());
                push_str(&mut a, " (id=");
                push_str(&mut a, id.as_str());
                push_str(&mut a, ")");
                let mut b = "  input: ".to_string();
                push_str(&mut b, input.as_str());
                lines.push(a);
                lines.push(b);
            },
            ContentBlock::ToolResult { tool_use_id, content, is_error } => {
                let mut a = "[tool_result ".to_string();
                push_str(&mut a, if *is_error { "ERROR" } else { "OK" });
                push_str(&mut a, "] (id=");
                push_str(&mut a, tool_use_id.as_str());
                push_str(&mut a, ")");
                let mut b = "  ".to_string();
                push_str(&mut b, content.as_str());
                lines.push(a);
                lines.push(b);
            },
        }
        assert(string_views(lines@) == before + block_lines(bs[i as int]));
        i = i + 1;
    }
    assert(bs.take(response.content@.len() as int) == bs);
    let mut f = "\n--- ".to_string();
    push_str(&mut f, response.model.as_str());
    push_str(&mut f, " | tokens: ");
    push_decimal(&mut f, response.usage.input_tokens as u64);
    push_str(&mut f, " in / ");
    push_decimal(&mut f, response.usage.output_tokens as u64);
    push_str(&mut f, " out | stop: ");
    push_stop_debug(&mut f, &response.stop_reason);
    push_str(&mut f, " ---");
    let ghost before = string_views(lines@);
    lines.push(f);
    assert(string_views(lines@) == before.push(f@));
    lines
}


// ---------------------------------------------------------------------------
// Laws
// ---------------------------------------------------------------------------

/// Translating a block into Anthropic's format and normalising it back
/// gives the block unchanged.
pub proof fn law_anthropic_block_round_trip(b: BlockView)
    ensures
        block_from_anthropic(anthropic_block(b)) == b,
{
}

/// The `--provider` flag takes precedence over `AGENT_PROVIDER`, which
/// takes precedence over the default.
pub proof fn law_provider_precedence(args: Seq<Seq<char>>, env_provider: Option<Seq<char>>)
    ensures
        flag_value(args, "--provider"@) is Some ==> chosen_provider(args, env_provider)
            == flag_value(args, "--provider"@)->0,
        flag_value(args, "--provider"@) is None && env_provider is Some ==> chosen_provider(
            args,
            env_provider,
        ) == env_provider->0,
        flag_value(args, "--provider"@) is None && env_provider is None ==> chosen_provider(
            args,
            env_provider,
        ) == "anthropic"@,
{
}

/// Every tool result of a user message reaches OpenAI as its own `tool`
/// message carrying the result's id and content, in order.
pub proof fn law_tool_results_become_tool_messages(bs: Seq<BlockView>)
    ensures
        tool_result_views(bs).len() <= bs.len(),
        forall|i: int|
            0 <= i < tool_result_views(bs).len() ==> (#[trigger] tool_result_views(bs)[i]).role
                == "tool"@ && tool_result_views(bs)[i].tool_call_id is Some,
    decreases bs.len(),
{
    if bs.len() > 0 {
        law_tool_results_become_tool_messages(bs.drop_last());
        let p = tool_result_views(bs.drop_last());
        let q = tool_result_views(bs);
        assert forall|i: int| 0 <= i < q.len() implies (#[trigger] q[i]).role == "tool"@
            && q[i].tool_call_id is Some by {
            if i < p.len() {
                assert(q[i] == p[i]);
            }
        }
    }
}


/// Whether a block is a tool use.
pub open spec fn is_tool_use(b: BlockView) -> bool {
    b is ToolUse
}

proof fn lemma_calls_follow_tool_uses(bs: Seq<BlockView>)
    ensures
        call_views_of(bs).len() == bs.filter(|b: BlockView| is_tool_use(b)).len(),
        forall|k: int|
            0 <= k < call_views_of(bs).len() ==> match bs.filter(|b: BlockView| is_tool_use(b))[k] {
                BlockView::ToolUse(id, name, input) => #[trigger] call_views_of(bs)[k] == (
                    id,
                    "function"@,
                    name,
                    openai_arguments(input),
                ),
                _ => false,
            },
    decreases bs.len(),
{
    let f = |b: BlockView| is_tool_use(b);
    if bs.len() == 0 {
        reveal(Seq::filter);
        assert(bs.filter(f) =~= Seq::<BlockView>::empty());
    } else {
        lemma_calls_follow_tool_uses(bs.drop_last());
        assert(bs == bs.drop_last().push(bs.last()));
        bs.drop_last().lemma_filter_push(bs.last(), f);
    }
}

/// An assistant message becomes one OpenAI message whose tool calls are
/// its tool uses, every one of them, in order: the k-th call carries the
/// id, name and arguments of the k-th tool use; a message without tool
/// uses has no tool calls.
pub proof fn law_every_tool_use_becomes_a_call(bs: Seq<BlockView>)
    ensures
        openai_for(Role::Assistant, bs).len() == 1,
        ({
            let uses = bs.filter(|b: BlockView| is_tool_use(b));
            let m = openai_for(Role::Assistant, bs)[0];
            &&& m.role == "assistant"@
            &&& (uses.len() == 0 <==> m.tool_calls is None)
            &&& uses.len() > 0 ==> m.tool_calls->0.len() == uses.len()
            &&& forall|k: int|
                0 <= k < uses.len() && m.tool_calls is Some ==> match uses[k] {
                    BlockView::ToolUse(id, name, input) => #[trigger] m.tool_calls->0[k] == (
                        id,
                        "function"@,
                        name,
                        openai_arguments(input),
                    ),
                    _ => false,
                }
        }),
{
    lemma_calls_follow_tool_uses(bs);
}
} // verus!
