//! The streaming pipeline for server-sent events: HTTP chunks are split
//! into lines, lines are grouped into events, events update the state of
//! the streamed message, and partial tool-call JSON is assembled into
//! complete tool calls.
//!
//! Reading the HTTP body and decoding each event's JSON payload into a
//! [`StreamEvent`] happen outside the library.
use vstd::prelude::*;
use std::collections::HashMap;
use crate::agent_loop::{json_string_field, string_field};
use crate::provider::{anthropic_block_views, AnthropicBlockView, AnthropicContent, AnthropicMessage};
use crate::text::{
    char_index, find_char, sub_vec,
    chars_of, join, join_strings, lemma_split_on_append, lemma_split_on_facts, push_chars,
    push_decimal, push_str, split_chars, split_on, starts_with_chars, str_eq, string_of,
    string_views, strip_cr, strip_cr_chars, views,
};

verus! {

// ---------------------------------------------------------------------------
// UTF-8 decoding of chunks
// ---------------------------------------------------------------------------

/// The text that lossy UTF-8 decoding makes of `bytes`.
pub uninterp spec fn std_utf8_lossy(bytes: Seq<u8>) -> Seq<char>;

/// `String::from_utf8_lossy`: decodes the bytes, replacing each invalid
/// sequence with U+FFFD. The contract names the result, and states what the
/// documentation promises of valid input: it decodes to the same text as
/// strict decoding.
#[verifier::external_body]
pub(crate) fn decode_lossy(bytes: &[u8]) -> (r: String)
    ensures
        r@ == std_utf8_lossy(bytes@),
        vstd::utf8::valid_utf8(bytes@) ==> r@ == vstd::utf8::decode_utf8(bytes@),
{
    String::from_utf8_lossy(bytes).into_owned()
}

// ---------------------------------------------------------------------------
// LineSplitter
// ---------------------------------------------------------------------------

/// The lines that a buffer holding `buffer` completes when `text` arrives:
/// every piece of `buffer + text` before the last `'\n'`, each without a
/// trailing carriage return.
pub open spec fn completed_lines(buffer: Seq<char>, text: Seq<char>) -> Seq<Seq<char>> {
    split_on(buffer + text, '\n').drop_last().map_values(|l: Seq<char>| strip_cr(l))
}

/// What stays buffered after `text` arrives: the text after the last `'\n'`.
pub open spec fn remaining_buffer(buffer: Seq<char>, text: Seq<char>) -> Seq<char> {
    split_on(buffer + text, '\n').last()
}

/// Buffers HTTP chunks into complete lines for the event parser.
pub struct LineSplitter {
    buffer: String,
}

impl LineSplitter {
    /// The incomplete trailing text held back so far.
    pub closed spec fn buffer_view(&self) -> Seq<char> {
        self.buffer@
    }

    /// The buffer never holds a complete line.
    pub open spec fn wf(&self) -> bool {
        !self.buffer_view().contains('\n')
    }

    /// An empty splitter.
    pub fn new() -> (s: Self)
        ensures
            s.wf(),
            s.buffer_view() == Seq::<char>::empty(),
    {
        Self { buffer: String::new() }
    }

    /// Feed a chunk of bytes (decoded as UTF-8, invalid sequences replaced).
    /// Returns all complete lines extracted so far; incomplete trailing data
    /// stays buffered until the next chunk.
    pub fn feed(&mut self, chunk: &[u8]) -> (lines: Vec<String>)
        requires
            old(self).wf(),
        ensures
            final(self).wf(),
            string_views(lines@) == completed_lines(old(self).buffer_view(), std_utf8_lossy(chunk@)),
            final(self).buffer_view() == remaining_buffer(
                old(self).buffer_view(),
                std_utf8_lossy(chunk@),
            ),
            vstd::utf8::valid_utf8(chunk@) ==> string_views(lines@) == completed_lines(
                old(self).buffer_view(),
                vstd::utf8::decode_utf8(chunk@),
            ) && final(self).buffer_view() == remaining_buffer(
                old(self).buffer_view(),
                vstd::utf8::decode_utf8(chunk@),
            ),
    {
        let text = decode_lossy(chunk);
        self.feed_text(text.as_str())
    }

    /// Feed decoded text. Returns the lines that it completes; the text after
    /// the last line break stays buffered.
    pub fn feed_text(&mut self, text: &str) -> (lines: Vec<String>)
        requires
            old(self).wf(),
        ensures
            final(self).wf(),
            string_views(lines@) == completed_lines(old(self).buffer_view(), text@),
            final(self).buffer_view() == remaining_buffer(old(self).buffer_view(), text@),
    {
        let mut combined = chars_of(self.buffer.as_str());
        let more = chars_of(text);
        let mut i: usize = 0;
        let ghost start = combined@;
        while i < more.len()
            invariant
                0 <= i <= more@.len(),
                combined@ == start + more@.take(i as int),
            decreases more.len() - i,
        {
            combined.push(more[i]);
            i = i + 1;
            assert(more@.take(i as int) == more@.take((i - 1) as int).push(more@[i - 1]));
        }
        assert(more@.take(more@.len() as int) == more@);
        let parts = split_chars(combined.as_slice(), '\n');
        proof {
            lemma_split_on_facts(combined@, '\n');
        }
        let n = parts.len();
        let mut lines: Vec<String> = Vec::new();
        let mut k: usize = 0;
        let ghost pieces = views(parts@);
        while k < n - 1
            invariant
                0 <= k <= n - 1,
                n == parts@.len(),
                pieces == views(parts@),
                string_views(lines@) == pieces.take(k as int).map_values(
                    |l: Seq<char>| strip_cr(l),
                ),
            decreases n - 1 - k,
        {
            let line = strip_cr_chars(parts[k].as_slice());
            let s = string_of(line.as_slice());
            let ghost before = string_views(lines@);
            lines.push(s);
            assert(string_views(lines@) == before.push(s@));
            assert(pieces[k as int] == parts@[k as int]@);
            k = k + 1;
            assert(pieces.take(k as int) == pieces.take((k - 1) as int).push(pieces[k - 1]));
        }
        assert(pieces.take((n - 1) as int) == pieces.drop_last());
        self.buffer = string_of(parts[n - 1].as_slice());
        proof {
            assert(self.buffer_view() == pieces.last());
            if self.buffer_view().contains('\n') {
                let j = choose|j: int|
                    0 <= j < self.buffer_view().len() && self.buffer_view()[j] == '\n';
                assert(pieces[pieces.len() - 1][j] == '\n');
            }
        }
        lines
    }
}

/// Chunk boundaries do not matter: feeding `a` and then `b` completes the
/// same lines, in the same order, and leaves the same buffer as feeding
/// `a + b` at once.
pub proof fn law_split_independent_of_chunking(buffer: Seq<char>, a: Seq<char>, b: Seq<char>)
    ensures
        completed_lines(buffer, a) + completed_lines(remaining_buffer(buffer, a), b)
            == completed_lines(buffer, a + b),
        remaining_buffer(remaining_buffer(buffer, a), b) == remaining_buffer(buffer, a + b),
{
    let x = buffer + a;
    lemma_split_on_append(x, b, '\n');
    assert(buffer + (a + b) == x + b);
    let p = split_on(x, '\n');
    let q = split_on(p.last() + b, '\n');
    lemma_split_on_facts(x, '\n');
    lemma_split_on_facts(p.last() + b, '\n');
    assert((p.drop_last() + q).drop_last() == p.drop_last() + q.drop_last());
    assert((p.drop_last() + q).last() == q.last());
    let f = |l: Seq<char>| strip_cr(l);
    assert((p.drop_last() + q.drop_last()).map_values(f) == p.drop_last().map_values(f)
        + q.drop_last().map_values(f));
}

/// Two valid UTF-8 byte sequences decode to the text of their
/// concatenation, which is valid too.
proof fn lemma_decode_concat(a: Seq<u8>, b: Seq<u8>)
    requires
        vstd::utf8::valid_utf8(a),
        vstd::utf8::valid_utf8(b),
    ensures
        vstd::utf8::valid_utf8(a + b),
        vstd::utf8::decode_utf8(a + b) == vstd::utf8::decode_utf8(a) + vstd::utf8::decode_utf8(b),
    decreases a.len(),
{
    broadcast use vstd::utf8::valid_utf8_concat;
    if a.len() == 0 {
        assert(a + b =~= b);
        assert(vstd::utf8::decode_utf8(a) =~= Seq::<char>::empty());
    } else {
        let rest = vstd::utf8::pop_first_scalar(a);
        assert(rest.len() < a.len());
        lemma_decode_concat(rest, b);
        assert(vstd::utf8::pop_first_scalar(a + b) =~= rest + b);
        assert(vstd::utf8::decode_first_scalar(a + b) == vstd::utf8::decode_first_scalar(a));
        assert(vstd::utf8::decode_utf8(a + b) =~= vstd::utf8::decode_utf8(a) + vstd::utf8::decode_utf8(b));
    }
}

/// Chunk boundaries in the bytes do not matter either: when both chunks
/// are valid UTF-8, feeding `a` and then `b` completes the same lines, in
/// the same order, and leaves the same buffer as feeding `a + b` at once.
pub proof fn law_byte_split_independent_of_chunking(buffer: Seq<char>, a: Seq<u8>, b: Seq<u8>)
    requires
        vstd::utf8::valid_utf8(a),
        vstd::utf8::valid_utf8(b),
    ensures
        vstd::utf8::valid_utf8(a + b),
        completed_lines(buffer, vstd::utf8::decode_utf8(a)) + completed_lines(
            remaining_buffer(buffer, vstd::utf8::decode_utf8(a)),
            vstd::utf8::decode_utf8(b),
        ) == completed_lines(buffer, vstd::utf8::decode_utf8(a + b)),
        remaining_buffer(
            remaining_buffer(buffer, vstd::utf8::decode_utf8(a)),
            vstd::utf8::decode_utf8(b),
        ) == remaining_buffer(buffer, vstd::utf8::decode_utf8(a + b)),
{
    lemma_decode_concat(a, b);
    law_split_independent_of_chunking(buffer, vstd::utf8::decode_utf8(a), vstd::utf8::decode_utf8(b));
}

/// No completed line holds a line break, and neither does the buffer.
pub proof fn law_lines_hold_no_line_break(buffer: Seq<char>, text: Seq<char>)
    ensures
        forall|k: int, j: int|
            0 <= k < completed_lines(buffer, text).len() && 0 <= j < completed_lines(
                buffer,
                text,
            )[k].len() ==> completed_lines(buffer, text)[k][j] != '\n',
        !remaining_buffer(buffer, text).contains('\n'),
{
    let p = split_on(buffer + text, '\n');
    lemma_split_on_facts(buffer + text, '\n');
    assert forall|k: int, j: int|
        0 <= k < completed_lines(buffer, text).len() && 0 <= j < completed_lines(
            buffer,
            text,
        )[k].len() implies completed_lines(buffer, text)[k][j] != '\n' by {
        assert(completed_lines(buffer, text)[k] == strip_cr(p[k]));
        assert(strip_cr(p[k])[j] == p[k][j]);
    }
    if remaining_buffer(buffer, text).contains('\n') {
        let j = choose|j: int|
            0 <= j < remaining_buffer(buffer, text).len() && remaining_buffer(buffer, text)[j]
                == '\n';
        assert(p[p.len() - 1][j] == '\n');
    }
}

// ---------------------------------------------------------------------------
// SseParser
// ---------------------------------------------------------------------------

/// A single parsed server-sent event: its type and its data payload.
#[derive(Debug, Clone)]
pub struct SseEvent {
    pub event_type: String,
    pub data: String,
}

/// The field name and value of a non-comment line: split at the first `:`,
/// with one space after it dropped; a line without `:` is a field with an
/// empty value.
pub open spec fn field_and_value(line: Seq<char>) -> (Seq<char>, Seq<char>) {
    let p = char_index(line, ':');
    if p < line.len() {
        let v = line.subrange(p + 1, line.len() as int);
        (line.take(p), if v.len() > 0 && v[0] == ' ' {
            v.drop_first()
        } else {
            v
        })
    } else {
        (line, Seq::<char>::empty())
    }
}

/// The parser's state: the pending event type and the pending data lines.
pub type SseState = (Option<Seq<char>>, Seq<Seq<char>>);

/// Dispatching the pending event: nothing when nothing is pending, else
/// the event (type `message` when none was given, data lines joined with
/// `'\n'`) and an empty state.
pub open spec fn sse_dispatch(st: SseState) -> (SseState, Option<(Seq<char>, Seq<char>)>) {
    if st.1.len() == 0 && st.0 is None {
        (st, None)
    } else {
        (
            (None, Seq::<Seq<char>>::empty()),
            Some(
                (
                    match st.0 {
                        Some(t) => t,
                        None => "message"@,
                    },
                    join(st.1, "\n"@),
                ),
            ),
        )
    }
}

/// One line through the parser: a blank line dispatches, a `:` line is a
/// comment, `event` sets the type, `data` adds a data line, and other
/// fields are ignored.
pub open spec fn sse_feed(st: SseState, line: Seq<char>) -> (SseState, Option<
    (Seq<char>, Seq<char>),
>) {
    if line.len() == 0 {
        sse_dispatch(st)
    } else if line[0] == ':' {
        (st, None)
    } else {
        let (f, v) = field_and_value(line);
        if f == "event"@ {
            ((Some(v), st.1), None)
        } else if f == "data"@ {
            ((st.0, st.1.push(v)), None)
        } else {
            (st, None)
        }
    }
}

/// The event by its views.
pub open spec fn event_view(e: Option<SseEvent>) -> Option<(Seq<char>, Seq<char>)> {
    match e {
        Some(ev) => Some((ev.event_type@, ev.data@)),
        None => None,
    }
}

/// Converts lines into events (event type + data).
pub struct SseParser {
    event_type: Option<String>,
    data_lines: Vec<String>,
}

impl SseParser {
    /// The pending event type and data lines.
    pub closed spec fn state(&self) -> SseState {
        (
            match self.event_type {
                Some(t) => Some(t@),
                None => None,
            },
            string_views(self.data_lines@),
        )
    }

    /// A parser with nothing pending.
    pub fn new() -> (p: Self)
        ensures
            p.state() == (None::<Seq<char>>, Seq::<Seq<char>>::empty()),
    {
        let p = Self { event_type: None, data_lines: Vec::new() };
        assert(p.state().1 == Seq::<Seq<char>>::empty());
        p
    }

    /// Feed one line. Returns the event when a blank line completes one;
    /// after an event the parser holds nothing.
    pub fn feed_line(&mut self, line: &str) -> (e: Option<SseEvent>)
        ensures
            (final(self).state(), event_view(e)) == sse_feed(old(self).state(), line@),
            e is Some ==> final(self).state() == (None::<Seq<char>>, Seq::<Seq<char>>::empty()),
    {
        let cs = chars_of(line);
        if cs.len() == 0 {
            return self.dispatch();
        }
        if cs[0] == ':' {
            return None;
        }
        let p = find_char(cs.as_slice(), ':');
        let (field, value) = if p < cs.len() {
            let f = sub_vec(cs.as_slice(), 0, p);
            let v = if p + 1 < cs.len() && cs[p + 1] == ' ' {
                sub_vec(cs.as_slice(), p + 2, cs.len())
            } else {
                sub_vec(cs.as_slice(), p + 1, cs.len())
            };
            proof {
                let vv = cs@.subrange(p + 1, cs@.len() as int);
                if vv.len() > 0 && vv[0] == ' ' {
                    assert(vv.drop_first() == cs@.subrange(p + 2, cs@.len() as int));
                }
                assert(f@ == cs@.take(p as int));
            }
            (f, v)
        } else {
            (cs, Vec::new())
        };
        assert((field@, value@) == field_and_value(line@));
        let fs = string_of(field.as_slice());
        let vs = string_of(value.as_slice());
        if str_eq(fs.as_str(), "event") {
            self.event_type = Some(vs);
        } else if str_eq(fs.as_str(), "data") {
            let ghost before = string_views(self.data_lines@);
            self.data_lines.push(vs);
            assert(string_views(self.data_lines@) == before.push(vs@));
        }
        None
    }

    /// Emit the pending event, if there is one, and clear the state.
    pub fn dispatch(&mut self) -> (e: Option<SseEvent>)
        ensures
            (final(self).state(), event_view(e)) == sse_dispatch(old(self).state()),
    {
        if self.data_lines.len() == 0 && self.event_type.is_none() {
            return None;
        }
        let event_type = match self.event_type.take() {
            Some(t) => t,
            None => "message".to_owned(),
        };
        let data = join_strings(self.data_lines.as_slice(), "\n");
        self.data_lines = Vec::new();
        assert(string_views(self.data_lines@) == Seq::<Seq<char>>::empty());
        Some(SseEvent { event_type, data })
    }
}

// ---------------------------------------------------------------------------
// JSON reading of assembled arguments
// ---------------------------------------------------------------------------

/// What `serde_json` makes of a text: its compact rendering when the text
/// is one valid JSON value, else the parser's error message.
pub uninterp spec fn json_reparse(text: Seq<char>) -> Result<Seq<char>, Seq<char>>;

/// Parses `text` as a JSON value with `serde_json::from_str` and renders
/// the value compactly (`Value::to_string`), or gives the parser's error
/// message. The contract names the result.
#[verifier::external_body]
pub(crate) fn reparse_json(text: &str) -> (r: Result<String, String>)
    ensures
        match r {
            Ok(s) => json_reparse(text@) == Ok::<Seq<char>, Seq<char>>(s@),
            Err(e) => json_reparse(text@) == Err::<Seq<char>, Seq<char>>(e@),
        },
{
    match serde_json::from_str::<serde_json::Value>(text) {
        Ok(v) => Ok(v.to_string()),
        Err(e) => Err(e.to_string()),
    }
}

// ---------------------------------------------------------------------------
// ToolCallAccumulator
// ---------------------------------------------------------------------------

/// A fully assembled, ready-to-execute tool call; `arguments` is the
/// compact JSON text of the arguments.
#[derive(Debug)]
pub struct ToolCall {
    pub id: String,
    pub name: String,
    pub arguments: String,
}

/// A tool call by its texts: id, name and arguments.
pub open spec fn call_view(c: ToolCall) -> (Seq<char>, Seq<char>, Seq<char>) {
    (c.id@, c.name@, c.arguments@)
}

impl ToolCall {
    /// An equal copy of this call.
    pub fn duplicate(&self) -> (c: ToolCall)
        ensures
            call_view(c) == call_view(*self),
    {
        ToolCall { id: self.id.clone(), name: self.name.clone(), arguments: self.arguments.clone() }
    }
}

/// A tool call still receiving JSON fragments.
struct PartialToolCall {
    id: String,
    name: String,
    json_buffer: String,
}

/// The error text for arguments that do not parse.
pub open spec fn invalid_json_message(name: Seq<char>, error: Seq<char>, received: Seq<char>) -> Seq<
    char,
> {
    "Invalid JSON for tool '"@ + name + "': "@ + error + " (received: '"@ + received + "')"@
}

/// Buffers partial JSON fragments for `tool_use` blocks, keyed by content
/// block index.
pub struct ToolCallAccumulator {
    active: HashMap<usize, PartialToolCall>,
    completed: Vec<ToolCall>,
}

impl ToolCallAccumulator {
    /// The calls in progress, by block index: id, name and the JSON text
    /// received so far.
    pub closed spec fn pending(&self) -> Map<usize, (Seq<char>, Seq<char>, Seq<char>)> {
        self.active@.map_values(|p: PartialToolCall| (p.id@, p.name@, p.json_buffer@))
    }

    /// The completed calls, in the order they completed.
    pub closed spec fn completed_view(&self) -> Seq<(Seq<char>, Seq<char>, Seq<char>)> {
        self.completed@.map_values(|c: ToolCall| call_view(c))
    }

    /// An accumulator with nothing in progress and nothing completed.
    pub fn new() -> (a: Self)
        ensures
            a.pending() == Map::<usize, (Seq<char>, Seq<char>, Seq<char>)>::empty(),
            a.completed_view() == Seq::<(Seq<char>, Seq<char>, Seq<char>)>::empty(),
    {
        let a = Self { active: HashMap::new(), completed: Vec::new() };
        assert(a.pending() =~= Map::<usize, (Seq<char>, Seq<char>, Seq<char>)>::empty());
        assert(a.completed_view() =~= Seq::<(Seq<char>, Seq<char>, Seq<char>)>::empty());
        a
    }

    /// Begin tracking a new `tool_use` content block (replacing any call
    /// in progress at the same index).
    pub fn start_tool_call(&mut self, index: usize, id: String, name: String)
        ensures
            final(self).pending() == old(self).pending().insert(
                index,
                (id@, name@, Seq::<char>::empty()),
            ),
            final(self).completed_view() == old(self).completed_view(),
    {
        broadcast use vstd::std_specs::hash::group_hash_axioms;

        let ghost id_v = id@;
        let ghost name_v = name@;
        let p = PartialToolCall { id, name, json_buffer: String::new() };
        self.active.insert(index, p);
        assert(self.pending() =~= old(self).pending().insert(
            index,
            (id_v, name_v, Seq::<char>::empty()),
        ));
    }

    /// Append a JSON fragment for the given content block index; fragments
    /// for an index with no call in progress are dropped.
    pub fn append_json(&mut self, index: usize, partial_json: &str)
        ensures
            final(self).pending() == (if old(self).pending().contains_key(index) {
                let p = old(self).pending()[index];
                old(self).pending().insert(index, (p.0, p.1, p.2 + partial_json@))
            } else {
                old(self).pending()
            }),
            final(self).completed_view() == old(self).completed_view(),
    {
        broadcast use vstd::std_specs::hash::group_hash_axioms;

        if let Some(mut partial) = self.active.remove(&index) {
            push_str(&mut partial.json_buffer, partial_json);
            let ghost pv = (partial.id@, partial.name@, partial.json_buffer@);
            self.active.insert(index, partial);
            assert(self.pending() =~= old(self).pending().insert(index, pv));
        }
    }

    /// Finalize the tool call when `content_block_stop` arrives: parse the
    /// accumulated JSON and move the call to the completed list. A block
    /// with no call in progress is not a tool call (`Ok(None)`).
    pub fn finish_block(&mut self, index: usize) -> (r: Result<Option<ToolCall>, String>)
        ensures
            !old(self).pending().contains_key(index) ==> {
                &&& r matches Ok(None)
                &&& final(self).pending() == old(self).pending()
                &&& final(self).completed_view() == old(self).completed_view()
            },
            old(self).pending().contains_key(index) ==> {
                let p = old(self).pending()[index];
                &&& final(self).pending() == old(self).pending().remove(index)
                &&& match json_reparse(p.2) {
                    Ok(args) => r matches Ok(Some(c)) && call_view(c) == (p.0, p.1, args)
                        && final(self).completed_view() == old(self).completed_view().push(
                        (p.0, p.1, args),
                    ),
                    Err(e) => {
                        &&& r matches Err(m) && m@ == invalid_json_message(p.1, e, p.2)
                        &&& final(self).completed_view() == old(self).completed_view()
                    },
                }
            },
    {
        broadcast use vstd::std_specs::hash::group_hash_axioms;

        let partial = match self.active.remove(&index) {
            Some(p) => p,
            None => {
                return Ok(None);
            },
        };
        assert(self.pending() =~= old(self).pending().remove(index));
        match reparse_json(partial.json_buffer.as_str()) {
            Ok(arguments) => {
                let tool_call = ToolCall { id: partial.id, name: partial.name, arguments };
                let ghost before = self.completed_view();
                self.completed.push(tool_call.duplicate());
                assert(self.completed_view() == before.push(call_view(tool_call)));
                Ok(Some(tool_call))
            },
            Err(e) => {
                let mut m = "Invalid JSON for tool '".to_owned();
                push_str(&mut m, partial.name.as_str());
                push_str(&mut m, "': ");
                push_str(&mut m, e.as_str());
                push_str(&mut m, " (received: '");
                push_str(&mut m, partial.json_buffer.as_str());
                push_str(&mut m, "')");
                Err(m)
            },
        }
    }

    /// Drain and return all completed tool calls.
    pub fn take_completed(&mut self) -> (calls: Vec<ToolCall>)
        ensures
            calls@.map_values(|c: ToolCall| call_view(c)) == old(self).completed_view(),
            final(self).completed_view() == Seq::<(Seq<char>, Seq<char>, Seq<char>)>::empty(),
            final(self).pending() == old(self).pending(),
    {
        let mut calls: Vec<ToolCall> = Vec::new();
        std::mem::swap(&mut calls, &mut self.completed);
        assert(self.completed_view() =~= Seq::<(Seq<char>, Seq<char>, Seq<char>)>::empty());
        calls
    }
}

// ---------------------------------------------------------------------------
// Streamed message state
// ---------------------------------------------------------------------------

/// How a content block starts.
#[derive(Debug, Clone)]
pub enum BlockStart {
    Text { text: String },
    ToolUse { id: String, name: String },
}

/// An increment of a content block.
#[derive(Debug, Clone)]
pub enum Delta {
    TextDelta { text: String },
    InputJsonDelta { partial_json: String },
}

/// The streaming events of the Messages API, decoded from event payloads.
#[derive(Debug, Clone)]
pub enum StreamEvent {
    MessageStart { id: String, model: String, input_tokens: u32 },
    ContentBlockStart { index: usize, content_block: BlockStart },
    ContentBlockDelta { index: usize, delta: Delta },
    ContentBlockStop { index: usize },
    MessageDelta { stop_reason: Option<String>, output_tokens: u32 },
    MessageStop,
    Ping,
    Error { error_type: String, message: String },
}

/// What to show the user after an event: text for standard output (shown
/// at once), a line break for standard output, a note for standard error,
/// or a failure that ends the stream with an error.
#[derive(Debug, PartialEq, Eq)]
pub enum StreamAction {
    Nothing,
    Print(String),
    PrintLine,
    Log(String),
    Fail { log: String, error: String },
}

/// A stream action by its texts.
pub enum ActionView {
    Nothing,
    Print(Seq<char>),
    PrintLine,
    Log(Seq<char>),
    Fail(Seq<char>, Seq<char>),
}

impl View for StreamAction {
    type V = ActionView;

    open spec fn view(&self) -> ActionView {
        match self {
            StreamAction::Nothing => ActionView::Nothing,
            StreamAction::Print(t) => ActionView::Print(t@),
            StreamAction::PrintLine => ActionView::PrintLine,
            StreamAction::Log(t) => ActionView::Log(t@),
            StreamAction::Fail { log, error } => ActionView::Fail(log@, error@),
        }
    }
}

/// The accumulated result after the full stream completes.
#[derive(Debug)]
pub struct StreamOutput {
    pub text: String,
    pub tool_calls: Vec<ToolCall>,
    pub stop_reason: Option<String>,
    pub input_tokens: u32,
    pub output_tokens: u32,
}

/// Whether an event is a keepalive that the stream skips.
pub fn is_keepalive(event: &SseEvent) -> (b: bool)
    ensures
        b == (event.event_type@ == "ping"@),
{
    str_eq(event.event_type.as_str(), "ping")
}

/// The state of a message being streamed: its text so far, the tool calls
/// being assembled, the stop reason and the token counts.
pub struct StreamState {
    tool_acc: ToolCallAccumulator,
    full_text: String,
    stop_reason: Option<String>,
    input_tokens: u32,
    output_tokens: u32,
}

/// An optional text by its view.
pub open spec fn opt_string_view(o: Option<String>) -> Option<Seq<char>> {
    match o {
        Some(s) => Some(s@),
        None => None,
    }
}

impl StreamState {
    /// The text received so far.
    pub closed spec fn text_view(&self) -> Seq<char> {
        self.full_text@
    }

    /// The stop reason, once reported.
    pub closed spec fn stop_reason_view(&self) -> Option<Seq<char>> {
        opt_string_view(self.stop_reason)
    }

    /// The input token count reported.
    pub closed spec fn input_tokens_view(&self) -> u32 {
        self.input_tokens
    }

    /// The output token count reported.
    pub closed spec fn output_tokens_view(&self) -> u32 {
        self.output_tokens
    }

    /// The tool calls being assembled and completed.
    pub closed spec fn calls(&self) -> ToolCallAccumulator {
        self.tool_acc
    }

    /// The state before any event.
    pub fn new() -> (s: Self)
        ensures
            s.text_view() == Seq::<char>::empty(),
            s.stop_reason_view() is None,
            s.input_tokens_view() == 0,
            s.output_tokens_view() == 0,
            s.calls().pending() == Map::<usize, (Seq<char>, Seq<char>, Seq<char>)>::empty(),
            s.calls().completed_view() == Seq::<(Seq<char>, Seq<char>, Seq<char>)>::empty(),
    {
        Self {
            tool_acc: ToolCallAccumulator::new(),
            full_text: String::new(),
            stop_reason: None,
            input_tokens: 0,
            output_tokens: 0,
        }
    }

    /// Apply one event: record metadata and usage, accumulate text (and
    /// show it at once), track tool-call blocks and assemble their JSON,
    /// and turn an API error event into a failure.
    pub fn apply(&mut self, event: StreamEvent) -> (a: StreamAction)
        ensures
            match event {
                StreamEvent::MessageStart { id, model, input_tokens } => {
                    &&& final(self).input_tokens_view() == input_tokens
                    &&& a@ == ActionView::Log(
                        "[model: "@ + model@ + ", id: "@ + id@ + ", input_tokens: "@
                            + crate::text::decimal(input_tokens as nat) + "]"@,
                    )
                    &&& final(self).calls() == old(self).calls()
                    &&& final(self).text_view() == old(self).text_view()
                    &&& final(self).stop_reason_view() == old(self).stop_reason_view()
                    &&& final(self).output_tokens_view() == old(self).output_tokens_view()
                },
                StreamEvent::ContentBlockStart { index, content_block } => {
                    &&& final(self).text_view() == old(self).text_view()
                    &&& final(self).stop_reason_view() == old(self).stop_reason_view()
                    &&& final(self).input_tokens_view() == old(self).input_tokens_view()
                    &&& final(self).output_tokens_view() == old(self).output_tokens_view()
                    &&& final(self).calls().completed_view() == old(self).calls().completed_view()
                    &&& match content_block {
                        BlockStart::Text { .. } => a@ == ActionView::Nothing && final(self).calls().pending() == old(self).calls().pending(),
                        BlockStart::ToolUse { id, name } => a@ == ActionView::Log(
                            "\n[Tool call starting: "@ + name@ + "]"@,
                        ) && final(self).calls().pending() == old(self).calls().pending().insert(
                            index,
                            (id@, name@, Seq::<char>::empty()),
                        ),
                    }
                },
                StreamEvent::ContentBlockDelta { index, delta } => {
                    &&& final(self).stop_reason_view() == old(self).stop_reason_view()
                    &&& final(self).input_tokens_view() == old(self).input_tokens_view()
                    &&& final(self).output_tokens_view() == old(self).output_tokens_view()
                    &&& final(self).calls().completed_view() == old(self).calls().completed_view()
                    &&& match delta {
                        Delta::TextDelta { text } => {
                            &&& a@ == ActionView::Print(text@)
                            &&& final(self).text_view() == old(self).text_view() + text@
                            &&& final(self).calls().pending() == old(self).calls().pending()
                        },
                        Delta::InputJsonDelta { partial_json } => {
                            &&& a@ == ActionView::Nothing
                            &&& final(self).text_view() == old(self).text_view()
                            &&& final(self).calls().pending() == (if old(self).calls().pending().contains_key(index) {
                                let p = old(self).calls().pending()[index];
                                old(self).calls().pending().insert(
                                    index,
                                    (p.0, p.1, p.2 + partial_json@),
                                )
                            } else {
                                old(self).calls().pending()
                            })
                        },
                    }
                },
                StreamEvent::ContentBlockStop { index } => {
                    &&& final(self).text_view() == old(self).text_view()
                    &&& final(self).stop_reason_view() == old(self).stop_reason_view()
                    &&& final(self).input_tokens_view() == old(self).input_tokens_view()
                    &&& final(self).output_tokens_view() == old(self).output_tokens_view()
                    &&& if old(self).calls().pending().contains_key(index) {
                        let p = old(self).calls().pending()[index];
                        &&& final(self).calls().pending() == old(self).calls().pending().remove(
                            index,
                        )
                        &&& match json_reparse(p.2) {
                            Ok(args) => a@ == ActionView::Log(
                                "\n[Tool call complete: "@ + p.1 + "("@ + args + ")]"@,
                            ) && final(self).calls().completed_view() == old(self).calls().completed_view().push((p.0, p.1, args)),
                            Err(e) => a@ == ActionView::Log(
                                "\n[Tool call assembly error: "@ + invalid_json_message(
                                    p.1,
                                    e,
                                    p.2,
                                ) + "]"@,
                            ) && final(self).calls().completed_view() == old(self).calls().completed_view(),
                        }
                    } else {
                        &&& a@ == ActionView::Nothing
                        &&& final(self).calls().pending() == old(self).calls().pending()
                        &&& final(self).calls().completed_view() == old(self).calls().completed_view()
                    }
                },
                StreamEvent::MessageDelta { stop_reason, output_tokens } => {
                    &&& a@ == ActionView::Nothing
                    &&& final(self).stop_reason_view() == opt_string_view(stop_reason)
                    &&& final(self).output_tokens_view() == output_tokens
                    &&& final(self).text_view() == old(self).text_view()
                    &&& final(self).input_tokens_view() == old(self).input_tokens_view()
                    &&& final(self).calls() == old(self).calls()
                },
                StreamEvent::MessageStop => {
                    &&& a@ == ActionView::PrintLine
                    &&& *final(self) == *old(self)
                },
                StreamEvent::Ping => {
                    &&& a@ == ActionView::Nothing
                    &&& *final(self) == *old(self)
                },
                StreamEvent::Error { error_type, message } => {
                    &&& a@ == ActionView::Fail(
                        "\n[API error: "@ + error_type@ + " \u{2014} "@ + message@ + "]"@,
                        "API error ("@ + error_type@ + "): "@ + message@,
                    )
                    &&& *final(self) == *old(self)
                },
            },
    {
        match event {
            StreamEvent::MessageStart { id, model, input_tokens } => {
                self.input_tokens = input_tokens;
                let mut m = "[model: ".to_owned();
                push_str(&mut m, model.as_str());
                push_str(&mut m, ", id: ");
                push_str(&mut m, id.as_str());
                push_str(&mut m, ", input_tokens: ");
                push_decimal(&mut m, input_tokens as u64);
                push_str(&mut m, "]");
                assert(m@ == "[model: "@ + model@ + ", id: "@ + id@ + ", input_tokens: "@
                    + crate::text::decimal(input_tokens as nat) + "]"@);
                assert(self.calls() == old(self).calls());
                assert(self.text_view() == old(self).text_view());
                assert(self.stop_reason_view() == old(self).stop_reason_view());
                assert(self.output_tokens_view() == old(self).output_tokens_view());
                assert(self.input_tokens_view() == input_tokens);
                StreamAction::Log(m)
            },
            StreamEvent::ContentBlockStart { index, content_block } => match content_block {
                BlockStart::Text { .. } => StreamAction::Nothing,
                BlockStart::ToolUse { id, name } => {
                    let mut m = "\n[Tool call starting: ".to_owned();
                    push_str(&mut m, name.as_str());
                    push_str(&mut m, "]");
                    self.tool_acc.start_tool_call(index, id, name);
                    StreamAction::Log(m)
                },
            },
            StreamEvent::ContentBlockDelta { index, delta } => match delta {
                Delta::TextDelta { text } => {
                    push_str(&mut self.full_text, text.as_str());
                    StreamAction::Print(text)
                },
                Delta::InputJsonDelta { partial_json } => {
                    self.tool_acc.append_json(index, partial_json.as_str());
                    StreamAction::Nothing
                },
            },
            StreamEvent::ContentBlockStop { index } => match self.tool_acc.finish_block(index) {
                Ok(Some(tool_call)) => {
                    let mut m = "\n[Tool call complete: ".to_owned();
                    push_str(&mut m, tool_call.name.as_str());
                    push_str(&mut m, "(");
                    push_str(&mut m, tool_call.arguments.as_str());
                    push_str(&mut m, ")]");
                    StreamAction::Log(m)
                },
                Ok(None) => StreamAction::Nothing,
                Err(e) => {
                    let mut m = "\n[Tool call assembly error: ".to_owned();
                    push_str(&mut m, e.as_str());
                    push_str(&mut m, "]");
                    StreamAction::Log(m)
                },
            },
            StreamEvent::MessageDelta { stop_reason, output_tokens } => {
                self.stop_reason = stop_reason;
                self.output_tokens = output_tokens;
                StreamAction::Nothing
            },
            StreamEvent::MessageStop => StreamAction::PrintLine,
            StreamEvent::Ping => StreamAction::Nothing,
            StreamEvent::Error { error_type, message } => {
                let mut log = "\n[API error: ".to_owned();
                push_str(&mut log, error_type.as_str());
                push_str(&mut log, " \u{2014} ");
                push_str(&mut log, message.as_str());
                push_str(&mut log, "]");
                let mut error = "API error (".to_owned();
                push_str(&mut error, error_type.as_str());
                push_str(&mut error, "): ");
                push_str(&mut error, message.as_str());
                StreamAction::Fail { log, error }
            },
        }
    }

    /// The result of the stream once it ended: the text, the completed tool
    /// calls, the stop reason and the token counts.
    pub fn finish(self) -> (o: StreamOutput)
        ensures
            o.text@ == self.text_view(),
            o.tool_calls@.map_values(|c: ToolCall| call_view(c)) == self.calls().completed_view(),
            opt_string_view(o.stop_reason) == self.stop_reason_view(),
            o.input_tokens == self.input_tokens_view(),
            o.output_tokens == self.output_tokens_view(),
    {
        let mut acc = self.tool_acc;
        let tool_calls = acc.take_completed();
        StreamOutput {
            text: self.full_text,
            tool_calls,
            stop_reason: self.stop_reason,
            input_tokens: self.input_tokens,
            output_tokens: self.output_tokens,
        }
    }
}


// ---------------------------------------------------------------------------
// The demonstration tool
// ---------------------------------------------------------------------------

/// The result of the demonstration tools: `get_weather` reports fixed
/// weather for the call's `location` (`unknown` where missing); any other
/// tool reports its name and arguments.
pub open spec fn demo_tool_result(name: Seq<char>, arguments: Seq<char>) -> Seq<char> {
    if name == "get_weather"@ {
        "Weather in "@ + match json_string_field(arguments, "location"@) {
            Some(l) => l,
            None => "unknown"@,
        } + ": 72°F, sunny"@
    } else {
        "Tool '"@ + name + "' executed with args: "@ + arguments
    }
}

/// Runs a streamed tool call with the demonstration tools.
pub fn execute_tool(call: &ToolCall) -> (r: String)
    ensures
        r@ == demo_tool_result(call.name@, call.arguments@),
{
    if str_eq(call.name.as_str(), "get_weather") {
        let mut r = "Weather in ".to_string();
        match string_field(call.arguments.as_str(), "location") {
            Some(l) => push_str(&mut r, l.as_str()),
            None => push_str(&mut r, "unknown"),
        }
        push_str(&mut r, ": 72°F, sunny");
        r
    } else {
        let mut r = "Tool '".to_string();
        push_str(&mut r, call.name.as_str());
        push_str(&mut r, "' executed with args: ");
        push_str(&mut r, call.arguments.as_str());
        r
    }
}

// ---------------------------------------------------------------------------
// Conversation messages from a streamed response
// ---------------------------------------------------------------------------

/// The blocks of the assistant message that a streamed response makes: its
/// text, where there is any, then one tool use per completed call.
pub open spec fn streamed_blocks(text: Seq<char>, calls: Seq<(Seq<char>, Seq<char>, Seq<char>)>) -> Seq<
    AnthropicBlockView,
> {
    (if text.len() == 0 {
        Seq::<AnthropicBlockView>::empty()
    } else {
        seq![AnthropicBlockView::Text(text)]
    }) + calls.map_values(|c: (Seq<char>, Seq<char>, Seq<char>)| AnthropicBlockView::ToolUse(c.0, c.1, c.2))
}

/// The assistant message for the conversation history that records a
/// streamed response.
pub fn assistant_message_from_output(output: &StreamOutput) -> (m: AnthropicMessage)
    ensures
        m@ == ("assistant"@, streamed_blocks(
            output.text@,
            output.tool_calls@.map_values(|c: ToolCall| call_view(c)),
        )),
{
    let mut content: Vec<AnthropicContent> = Vec::new();
    if !output.text.as_str().is_empty() {
        content.push(AnthropicContent::Text { text: output.text.clone() });
    }
    let ghost head = anthropic_block_views(content@);
    let ghost calls = output.tool_calls@.map_values(|c: ToolCall| call_view(c));
    let mut i: usize = 0;
    while i < output.tool_calls.len()
        invariant
            i <= output.tool_calls@.len(),
            calls == output.tool_calls@.map_values(|c: ToolCall| call_view(c)),
            anthropic_block_views(content@) == head + calls.take(i as int).map_values(
                |c: (Seq<char>, Seq<char>, Seq<char>)| AnthropicBlockView::ToolUse(c.0, c.1, c.2),
            ),
        decreases output.tool_calls.len() - i,
    {
        let c = &output.tool_calls[i];
        let ghost before = content@;
        content.push(
            AnthropicContent::ToolUse { id: c.id.clone(), name: c.name.clone(), input: c.arguments.clone() },
        );
        proof {
            let f = |c: (Seq<char>, Seq<char>, Seq<char>)| AnthropicBlockView::ToolUse(c.0, c.1, c.2);
            assert(calls.take(i + 1) =~= calls.take(i as int).push(calls[i as int]));
            assert(calls.take(i + 1).map_values(f) =~= calls.take(i as int).map_values(f).push(f(calls[i as int])));
            assert(anthropic_block_views(content@) =~= anthropic_block_views(before).push(content@[i as int + head.len()]@));
        }
        i = i + 1;
    }
    assert(calls.take(calls.len() as int) == calls);
    AnthropicMessage { role: "assistant".to_string(), content }
}

/// The user message that hands one tool's result back to the model.
pub fn tool_result_message(tool_call_id: &str, result: &str) -> (m: AnthropicMessage)
    ensures
        m@ == ("user"@, seq![AnthropicBlockView::ToolResult(tool_call_id@, result@, None)]),
{
    let content = vec![
        AnthropicContent::ToolResult {
            tool_use_id: tool_call_id.to_string(),
            content: result.to_string(),
            is_error: None,
        },
    ];
    assert(anthropic_block_views(content@) =~= seq![AnthropicBlockView::ToolResult(tool_call_id@, result@, None)]);
    AnthropicMessage { role: "user".to_string(), content }
}

} // verus!
