//! The terminal interface's state and key handling: the input line, the
//! conversation pane's lines and scroll offset, slash commands, and the
//! context bookkeeping behind each submitted message. Drawing is left to
//! the caller; percentages are formatted by a caller-supplied function.
use vstd::prelude::*;
use crate::context::{
    estimate, estimate_tokens, message_estimate, message_is, role_priority, settled, status_label,
    status_of, tokens_of, BudgetStatus, ContextManager, Message, Priority, lemma_estimate_bound,
    report, SUMMARY_TOKEN_BOUND,
};
use crate::text::{lemma_trim_len, chars_of, decimal, push_decimal, push_str, str_eq, string_of, string_views, trim, trimmed_chars};

verus! {

/// The colours of the conversation pane's lines.
#[derive(Debug, Clone, Copy, PartialEq, Eq, Structural)]
pub enum LineColor {
    White,
    Cyan,
    Yellow,
    Green,
    Red,
    Magenta,
    DarkGray,
    LightRed,
}

/// A key press, as far as the interface tells keys apart.
#[derive(Debug, Clone, Copy, PartialEq, Eq, Structural)]
pub enum Key {
    Char(char),
    Backspace,
    Enter,
    Up,
    Down,
    Other,
}

/// The starting system prompt.
pub open spec fn system_prompt_text() -> Seq<char> {
    "You are a helpful coding assistant. Answer concisely and use code examples when appropriate."@
}

/// The line shown at start.
pub open spec fn intro_text() -> Seq<char> {
    "Context Management — type a message, /context to inspect, /help for commands, Ctrl-C to quit."@
}

/// The pane's lines by their texts and colours.
pub open spec fn display_view(d: Seq<(String, LineColor)>) -> Seq<(Seq<char>, LineColor)> {
    d.map_values(|p: (String, LineColor)| (p.0@, p.1))
}

/// The help lines.
pub open spec fn help_lines() -> Seq<(Seq<char>, LineColor)> {
    seq![
        ("/context  — show context window usage"@, LineColor::Green),
        ("/tokens   — alias for /context"@, LineColor::Green),
        ("/clear    — reset the conversation"@, LineColor::Green),
        ("/help     — show this help"@, LineColor::Green),
        ("Ctrl-C    — quit"@, LineColor::Green),
        ("Up/Down   — scroll conversation"@, LineColor::Green),
    ]
}

/// The application state.
pub struct App {
    pub should_quit: bool,
    pub input: String,
    /// The conversation pane's lines, with their colours.
    pub display_lines: Vec<(String, LineColor)>,
    /// Scroll offset of the conversation pane.
    pub scroll: u16,
    /// The context manager that owns the conversation.
    pub ctx: ContextManager,
}

/// Whether `c` is a fresh context of `limit` holding just the starting
/// system prompt.
pub open spec fn fresh_context(c: ContextManager, limit: usize) -> bool {
    &&& c.model_limit == limit
    &&& c.response_reserve == 8000
    &&& c.tool_definition_tokens == 3000
    &&& c.safety_margin == 200
    &&& c.messages@.len() == 1
    &&& message_is(c.messages@[0], "system"@, system_prompt_text(), Priority::Pinned, false)
}

/// A fresh context of `limit` with the starting system prompt.
fn fresh_ctx(limit: usize) -> (c: ContextManager)
    ensures
        fresh_context(c, limit),
        c.committed() <= usize::MAX,
{
    let mut c = ContextManager::new(limit);
    assert(c.messages@ == Seq::<Message>::empty());
    proof {
        reveal_strlit("You are a helpful coding assistant. Answer concisely and use code examples when appropriate.");
        lemma_estimate_bound(system_prompt_text());
        lemma_estimate_bound("system"@);
        reveal_strlit("system");
    }
    c.set_system_prompt("You are a helpful coding assistant. Answer concisely and use code examples when appropriate.");
    assert(Seq::<Message>::empty().filter(crate::context::not_plain_system()) == Seq::<
        Message,
    >::empty()) by {
        reveal(Seq::filter);
    }
    assert(c.messages@.len() == 1);
    assert(tokens_of(c.messages@) == c.messages@[0].token_count) by {
        assert(c.messages@.drop_last() == Seq::<Message>::empty());
        assert(c.messages@.last() == c.messages@[0]);
        assert(tokens_of(Seq::<Message>::empty()) == 0);
    }
    c
}

/// Appends a line to the pane.
fn push_line(d: &mut Vec<(String, LineColor)>, text: String, color: LineColor)
    ensures
        display_view(final(d)@) == display_view(old(d)@).push((text@, color)),
{
    d.push((text, color));
    assert(display_view(d@) =~= display_view(old(d)@).push((text@, color)));
}

impl App {
    /// The interface at start: a context of 200 000 tokens with the
    /// starting system prompt, and the introduction line.
    pub fn new() -> (a: App)
        ensures
            !a.should_quit,
            a.input@.len() == 0,
            a.scroll == 0,
            display_view(a.display_lines@) == seq![(intro_text(), LineColor::DarkGray)],
            fresh_context(a.ctx, 200_000),
    {
        let ctx = fresh_ctx(200_000);
        let mut display_lines: Vec<(String, LineColor)> = Vec::new();
        push_line(
            &mut display_lines,
            "Context Management — type a message, /context to inspect, /help for commands, Ctrl-C to quit.".to_string(),
            LineColor::DarkGray,
        );
        App { should_quit: false, input: String::new(), display_lines, scroll: 0, ctx }
    }
}

/// The reply to a message, with the estimate of its tokens and the
/// context percentage (one decimal).
pub open spec fn reply_text(tokens: nat, percent: Seq<char>) -> Seq<char> {
    "(simulated) I received your message ("@ + decimal(tokens) + " tokens est). Context is at "@
        + percent + "%."@
}

/// The status hint, with the context percentage (no decimals).
pub open spec fn hint_text(percent: Seq<char>, s: BudgetStatus) -> Seq<char> {
    "[context "@ + percent + "% — status: "@ + status_label(s) + "]"@
}

/// Whether `after` is what sending the message `t` makes of `before`'s
/// pane and context: the user's line; the message added to the context;
/// at warning or critical status a hint with the percentage `p0`
/// (formatted without decimals); the reply, with the percentage `p1` (one
/// decimal); and the reply added to the context. Both percentages are
/// what `percent` made of the tokens committed after the message.
pub open spec fn chat_effect<P: Fn(usize, usize, usize) -> String>(
    before: App,
    after: App,
    t: Seq<char>,
    percent: P,
    p0: String,
    p1: String,
) -> bool {
    let limit = before.ctx.model_limit;
    let c1 = before.ctx.committed() + message_estimate("user"@, t);
    let reply = reply_text(estimate(t), p1@);
    exists|m1: Message, mid: Seq<Message>, m2: Message|
        {
            let cm: nat = tokens_of(mid) + before.ctx.response_reserve as nat
                + before.ctx.tool_definition_tokens as nat + before.ctx.safety_margin as nat;
            let st = status_of(cm, limit as nat);
            &&& message_is(m1, "user"@, t, role_priority("user"@), false)
            &&& settled(#[trigger] before.ctx.messages@.push(m1), mid, c1, limit as nat)
            &&& message_is(m2, "assistant"@, reply, role_priority("assistant"@), false)
            &&& settled(
                #[trigger] mid.push(m2),
                after.ctx.messages@,
                cm + message_estimate("assistant"@, reply),
                limit as nat,
            )
            &&& call_ensures(percent, (cm as usize, limit, 1usize), p1)
            &&& (st == BudgetStatus::Warning || st == BudgetStatus::Critical) ==> call_ensures(
                percent,
                (cm as usize, limit, 0usize),
                p0,
            )
            &&& display_view(after.display_lines@) == display_view(before.display_lines@).push(
                ("You: "@ + t, LineColor::White),
            ) + (if st == BudgetStatus::Warning || st == BudgetStatus::Critical {
                seq![(hint_text(p0@, st), LineColor::Yellow)]
            } else {
                seq![]
            }) + seq![("Assistant: "@ + reply, LineColor::Magenta)]
        }
}

/// Whether a percentage formatter may be called with any arguments and
/// never writes more than 64 characters.
pub open spec fn formatter_ok<P: Fn(usize, usize, usize) -> String>(percent: P) -> bool {
    &&& forall|c: usize, l: usize, d: usize| call_requires(percent, (c, l, d))
    &&& forall|c: usize, l: usize, d: usize, s: String|
        call_ensures(percent, (c, l, d), s) ==> s@.len() <= 64
}

/// Whether `after` is what submitting the input line makes of `before`:
/// the line is cleared; a blank line changes nothing else; `/context` and
/// `/tokens` show the usage report (with the percentage `percent` formats
/// with one decimal), `/clear` starts a fresh conversation, `/help` lists
/// the commands, another `/` command is reported unknown; anything else is
/// a message (see `chat_effect`).
pub open spec fn submitted<P: Fn(usize, usize, usize) -> String>(before: App, after: App, percent: P) -> bool {
    &&& after.input@.len() == 0
    &&& after.should_quit == before.should_quit
    &&& after.scroll == before.scroll
    &&& {
        let t = trim(before.input@);
        let c = before.ctx;
        let d = display_view(before.display_lines@);
        let d2 = display_view(after.display_lines@);
        if t.len() == 0 {
                    d2 == d && after.ctx == c
                } else if t[0] == '/' {
                    if t == "/context"@ || t == "/tokens"@ {
                        after.ctx == c && exists|p: String|
                            call_ensures(percent, (c.committed() as usize, c.model_limit, 1usize), p)
                                && d2 == d + report(c, p@).map_values(
                                |l: Seq<char>| (l, LineColor::Cyan),
                            )
                    } else if t == "/clear"@ {
                        fresh_context(after.ctx, c.model_limit) && d2 == seq![
                            ("Conversation cleared."@, LineColor::Yellow),
                        ]
                    } else if t == "/help"@ {
                        after.ctx == c && d2 == d + help_lines()
                    } else {
                        after.ctx == c && d2 == d.push(
                            ("Unknown command: "@ + t + ". Type /help for options."@, LineColor::Red),
                        )
                    }
                } else {
                    after.ctx.model_limit == c.model_limit
                        && after.ctx.response_reserve == c.response_reserve
                        && after.ctx.tool_definition_tokens == c.tool_definition_tokens
                        && after.ctx.safety_margin == c.safety_margin
                        && exists|p0: String, p1: String|
                        chat_effect(before, after, t, percent, p0, p1)
                }
    }
}

impl App {
    /// Submits the input line: a blank line does nothing; `/context` and
    /// `/tokens` show the usage report, `/clear` resets the conversation,
    /// `/help` lists the commands, and any other `/` command is reported
    /// unknown; anything else is a message, added to the context with a
    /// simulated reply. `percent(committed, limit, decimals)` formats the
    /// committed share of the limit, in percent, with `decimals` decimals.
    pub fn submit<P: Fn(usize, usize, usize) -> String>(&mut self, percent: &P)
        requires
            formatter_ok(*percent),
            old(self).ctx.committed() + old(self).input@.len() + 1024 <= usize::MAX,
        ensures
            submitted(*old(self), *final(self), *percent),
    {
        let t = trimmed_chars(self.input.as_str());
        self.input = String::new();
        if t.len() == 0 {
            return;
        }
        let text = string_of(t.as_slice());
        if t[0] == '/' {
            if str_eq(text.as_str(), "/context") || str_eq(text.as_str(), "/tokens") {
                let c = self.ctx.total_committed();
                let p = percent(c, self.ctx.model_limit, 1);
                let report_lines = self.ctx.usage_report(p.as_str());
                let ghost d0 = display_view(self.display_lines@);
                let ghost rv = string_views(report_lines@);
                let mut i: usize = 0;
                while i < report_lines.len()
                    invariant
                        i <= report_lines@.len(),
                        rv == string_views(report_lines@),
                        self.input@.len() == 0,
                        self.should_quit == old(self).should_quit,
                        self.scroll == old(self).scroll,
                        self.ctx == old(self).ctx,
                        display_view(self.display_lines@) == d0 + rv.take(i as int).map_values(
                            |l: Seq<char>| (l, LineColor::Cyan),
                        ),
                    decreases report_lines.len() - i,
                {
                    let l = report_lines[i].clone();
                    push_line(&mut self.display_lines, l, LineColor::Cyan);
                    assert(rv.take(i + 1).map_values(|l: Seq<char>| (l, LineColor::Cyan)) == rv.take(
                        i as int,
                    ).map_values(|l: Seq<char>| (l, LineColor::Cyan)).push((rv[i as int], LineColor::Cyan)));
                    i = i + 1;
                }
                assert(rv.take(report_lines@.len() as int) == rv);
                assert(display_view(self.display_lines@) =~= d0 + report(old(self).ctx, p@).map_values(
                    |l: Seq<char>| (l, LineColor::Cyan),
                ));
                return;
            } else if str_eq(text.as_str(), "/clear") {
                self.display_lines = Vec::new();
                self.ctx = fresh_ctx(self.ctx.model_limit);
                push_line(&mut self.display_lines, "Conversation cleared.".to_string(), LineColor::Yellow);
                assert(display_view(self.display_lines@) =~= seq![
                    ("Conversation cleared."@, LineColor::Yellow),
                ]);
                return;
            } else if str_eq(text.as_str(), "/help") {
                let ghost d0 = display_view(self.display_lines@);
                push_line(&mut self.display_lines, "/context  — show context window usage".to_string(), LineColor::Green);
                push_line(&mut self.display_lines, "/tokens   — alias for /context".to_string(), LineColor::Green);
                push_line(&mut self.display_lines, "/clear    — reset the conversation".to_string(), LineColor::Green);
                push_line(&mut self.display_lines, "/help     — show this help".to_string(), LineColor::Green);
                push_line(&mut self.display_lines, "Ctrl-C    — quit".to_string(), LineColor::Green);
                push_line(&mut self.display_lines, "Up/Down   — scroll conversation".to_string(), LineColor::Green);
                assert(display_view(self.display_lines@) =~= d0 + help_lines());
                return;
            } else {
                let mut m = "Unknown command: ".to_string();
                push_str(&mut m, text.as_str());
                push_str(&mut m, ". Type /help for options.");
                push_line(&mut self.display_lines, m, LineColor::Red);
                return;
            }
        }
        let ghost d_start = display_view(self.display_lines@);
        let ghost ctx0 = self.ctx;
        let mut you = "You: ".to_string();
        push_str(&mut you, text.as_str());
        push_line(&mut self.display_lines, you, LineColor::White);
        proof {
            lemma_estimate_bound(text@);
            lemma_estimate_bound("user"@);
            reveal_strlit("user");
            crate::text::lemma_trim_len(old(self).input@);
            assert(text@ == trim(old(self).input@));
        }
        self.ctx.add_message("user", text.as_str());
        let ghost mid = self.ctx.messages@;
        let ghost c1 = ctx0.committed() + message_estimate("user"@, text@);
        let ghost m1 = choose|msg: Message|
            message_is(msg, "user"@, text@, role_priority("user"@), false) && settled(
                #[trigger] ctx0.messages@.push(msg),
                mid,
                c1,
                ctx0.model_limit as nat,
            );
        let status = self.ctx.budget_status();
        let committed = self.ctx.total_committed();
        let ghost mid_display = display_view(self.display_lines@);
        let mut p0 = String::new();
        if status == BudgetStatus::Warning || status == BudgetStatus::Critical {
            p0 = percent(committed, self.ctx.model_limit, 0);
            let mut hint = "[context ".to_string();
            push_str(&mut hint, p0.as_str());
            push_str(&mut hint, "% — status: ");
            push_str(&mut hint, status.label());
            push_str(&mut hint, "]");
            push_line(&mut self.display_lines, hint, LineColor::Yellow);
        }
        let p1 = percent(committed, self.ctx.model_limit, 1);
        let est = estimate_tokens(text.as_str());
        let mut reply = "(simulated) I received your message (".to_string();
        push_decimal(&mut reply, est as u64);
        push_str(&mut reply, " tokens est). Context is at ");
        push_str(&mut reply, p1.as_str());
        push_str(&mut reply, "%.");
        let mut said = "Assistant: ".to_string();
        push_str(&mut said, reply.as_str());
        push_line(&mut self.display_lines, said, LineColor::Magenta);
        proof {
            lemma_estimate_bound(reply@);
            lemma_estimate_bound("assistant"@);
            reveal_strlit("assistant");
            crate::text::lemma_decimal_len_u64(est as nat);
            reveal_strlit("(simulated) I received your message (");
            reveal_strlit(" tokens est). Context is at ");
            reveal_strlit("%.");
        }
        let ghost cm = self.ctx.committed();
        let ghost limit = self.ctx.model_limit;
        self.ctx.add_message("assistant", reply.as_str());
        proof {
            let m2 = choose|msg: Message|
                message_is(msg, "assistant"@, reply@, role_priority("assistant"@), false) && settled(
                    #[trigger] mid.push(msg),
                    self.ctx.messages@,
                    cm + message_estimate("assistant"@, reply@),
                    limit as nat,
                );
            assert(reply@ == reply_text(estimate(text@), p1@));
            let st = status_of(cm, limit as nat);
            assert(st == status);
            assert(cm == tokens_of(mid) + ctx0.response_reserve as nat
                + ctx0.tool_definition_tokens as nat + ctx0.safety_margin as nat);
            assert(display_view(self.display_lines@) == d_start.push(("You: "@ + text@, LineColor::White))
                + (if st == BudgetStatus::Warning || st == BudgetStatus::Critical {
                seq![(hint_text(p0@, st), LineColor::Yellow)]
            } else {
                seq![]
            }) + seq![("Assistant: "@ + reply_text(estimate(text@), p1@), LineColor::Magenta)]);
            assert(committed == cm as usize);
            assert(old(self).ctx == ctx0);
            assert(call_ensures(*percent, (cm as usize, limit, 1usize), p1));
            assert(message_is(m1, "user"@, text@, role_priority("user"@), false));
            assert(settled(ctx0.messages@.push(m1), mid, c1, ctx0.model_limit as nat));
            assert(message_is(m2, "assistant"@, reply_text(estimate(text@), p1@), role_priority("assistant"@), false));
            assert(chat_effect(*old(self), *self, trim(old(self).input@), *percent, p0, p1));
        }
    }
}


impl App {
    /// Handles a key press: Ctrl-C quits, a character is typed, Backspace
    /// deletes the last character, Enter submits the line, Up and Down
    /// scroll the conversation; other keys do nothing.
    pub fn handle_key<P: Fn(usize, usize, usize) -> String>(&mut self, key: Key, control: bool, percent: &P)
        requires
            key == Key::Enter ==> formatter_ok(*percent) && old(self).ctx.committed()
                + old(self).input@.len() + 1024 <= usize::MAX,
        ensures
            match key {
                Key::Char(c) => if c == 'c' && control {
                    final(self).should_quit && final(self).input == old(self).input
                        && final(self).display_lines == old(self).display_lines
                        && final(self).scroll == old(self).scroll && final(self).ctx == old(self).ctx
                } else {
                    final(self).input@ == old(self).input@.push(c) && final(self).should_quit
                        == old(self).should_quit && final(self).display_lines == old(self).display_lines
                        && final(self).scroll == old(self).scroll && final(self).ctx == old(self).ctx
                },
                Key::Backspace => final(self).input@ == (if old(self).input@.len() > 0 {
                    old(self).input@.drop_last()
                } else {
                    old(self).input@
                }) && final(self).should_quit == old(self).should_quit && final(self).display_lines
                    == old(self).display_lines && final(self).scroll == old(self).scroll
                    && final(self).ctx == old(self).ctx,
                Key::Enter => submitted(*old(self), *final(self), *percent),
                Key::Up => final(self).scroll == if old(self).scroll == u16::MAX {
                    u16::MAX
                } else {
                    (old(self).scroll + 1) as u16
                } && final(self).input == old(self).input && final(self).should_quit
                    == old(self).should_quit && final(self).display_lines == old(self).display_lines
                    && final(self).ctx == old(self).ctx,
                Key::Down => final(self).scroll == if old(self).scroll == 0 {
                    0
                } else {
                    (old(self).scroll - 1) as u16
                } && final(self).input == old(self).input && final(self).should_quit
                    == old(self).should_quit && final(self).display_lines == old(self).display_lines
                    && final(self).ctx == old(self).ctx,
                Key::Other => *final(self) == *old(self),
            },
    {
        match key {
            Key::Char(c) => {
                if c == 'c' && control {
                    self.should_quit = true;
                } else {
                    crate::text::push_char(&mut self.input, c);
                }
            },
            Key::Backspace => {
                let cs = chars_of(self.input.as_str());
                if cs.len() > 0 {
                    let s = string_of(crate::text::sub_vec(cs.as_slice(), 0, cs.len() - 1).as_slice());
                    assert(cs@.subrange(0, cs@.len() - 1) == self.input@.drop_last());
                    self.input = s;
                }
            },
            Key::Enter => self.submit(percent),
            Key::Up => {
                self.scroll = self.scroll.saturating_add(1);
            },
            Key::Down => {
                self.scroll = self.scroll.saturating_sub(1);
            },
            Key::Other => {},
        }
    }
}

/// The first terminal interface: it only knows how to quit.
#[derive(Debug, Clone, Copy)]
pub struct MinimalApp {
    pub should_quit: bool,
}

impl MinimalApp {
    /// A running interface.
    pub fn new() -> (a: MinimalApp)
        ensures
            !a.should_quit,
    {
        MinimalApp { should_quit: false }
    }

    /// `q` quits; other keys do nothing.
    pub fn handle_key(&mut self, key: Key)
        ensures
            final(self).should_quit == (old(self).should_quit || key == Key::Char('q')),
    {
        if key == Key::Char('q') {
            self.should_quit = true;
        }
    }

    /// The text shown.
    pub fn text(&self) -> (s: &'static str)
        ensures
            s@ == "Terminal UI — Press 'q' to quit"@,
    {
        "Terminal UI — Press 'q' to quit"
    }
}

} // verus!
