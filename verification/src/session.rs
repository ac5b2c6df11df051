//! Conversation sessions and the decisions of the agent's main loop: the
//! single-prompt reply, the interactive loop's turns, and where the
//! session is saved on exit. Times are whole seconds since the Unix epoch.
use vstd::prelude::*;
use crate::paths::{path_join, std_path_join};
use crate::settings::AgentConfig;
use crate::text::{decimal, push_decimal, push_str, str_eq, trim, trimmed_chars, chars_eq};

verus! {

/// The compact UTC stamp `%Y%m%d-%H%M%S` of a time, as chrono formats it.
pub uninterp spec fn chrono_stamp(secs: i64) -> Seq<char>;

/// Whether a time lies well inside the range of dates chrono represents
/// (about 250 000 years either side of 1970).
pub open spec fn time_in_range(secs: i64) -> bool {
    -8_000_000_000_000 <= secs <= 8_000_000_000_000
}

/// Formats a time with chrono as `%Y%m%d-%H%M%S` in UTC; the contract
/// names the result.
#[verifier::external_body]
fn stamp(secs: i64) -> (s: String)
    requires
        time_in_range(secs),
    ensures
        s@ == chrono_stamp(secs),
{
    match chrono::DateTime::from_timestamp(secs, 0) {
        Some(t) => t.format("%Y%m%d-%H%M%S").to_string(),
        None => String::new(),
    }
}

/// One message of the conversation history, with the time it was added.
#[derive(Debug, Clone)]
pub struct SessionMessage {
    pub role: String,
    pub content: String,
    pub timestamp: i64,
}

/// A persisted session.
#[derive(Debug, Clone)]
pub struct Session {
    /// Identifier: the creation time's stamp.
    pub id: String,
    pub created_at: i64,
    pub provider: String,
    pub model: String,
    pub messages: Vec<SessionMessage>,
}

/// A session message by its values.
pub open spec fn message_view(m: SessionMessage) -> (Seq<char>, Seq<char>, i64) {
    (m.role@, m.content@, m.timestamp)
}

impl Session {
    /// A fresh session created at `now`.
    pub fn new(provider: &str, model: &str, now: i64) -> (s: Session)
        requires
            time_in_range(now),
        ensures
            s.id@ == chrono_stamp(now),
            s.created_at == now,
            s.provider@ == provider@,
            s.model@ == model@,
            s.messages@.len() == 0,
    {
        Session {
            id: stamp(now),
            created_at: now,
            provider: provider.to_string(),
            model: model.to_string(),
            messages: Vec::new(),
        }
    }

    /// Appends a message added at `now`.
    pub fn add_message(&mut self, role: &str, content: &str, now: i64)
        ensures
            final(self).id == old(self).id,
            final(self).created_at == old(self).created_at,
            final(self).provider == old(self).provider,
            final(self).model == old(self).model,
            final(self).messages@.len() == old(self).messages@.len() + 1,
            final(self).messages@.drop_last() == old(self).messages@,
            message_view(final(self).messages@.last()) == (role@, content@, now),
    {
        self.messages.push(SessionMessage { role: role.to_string(), content: content.to_string(), timestamp: now });
    }

    /// The default save path inside `sessions_dir`: `session-<stamp>.json`.
    pub fn default_path(sessions_dir: &str, now: i64) -> (p: String)
        requires
            time_in_range(now),
        ensures
            p@ == std_path_join(sessions_dir@, "session-"@ + chrono_stamp(now) + ".json"@),
    {
        let mut name = "session-".to_string();
        let st = stamp(now);
        push_str(&mut name, st.as_str());
        push_str(&mut name, ".json");
        path_join(sessions_dir, name.as_str())
    }
}

// ---------------------------------------------------------------------------
// The main loop's decisions
// ---------------------------------------------------------------------------

/// The reply to a single prompt.
pub open spec fn prompt_reply(provider: Seq<char>, model: Seq<char>, prompt: Seq<char>) -> Seq<char> {
    "[agent would call "@ + provider + " / "@ + model + " with: "@ + prompt + "]"@
}

/// Single-prompt mode: records the prompt and the reply, and returns the
/// reply to print.
pub fn run_single_prompt(session: &mut Session, config: &AgentConfig, prompt: &str, now: i64) -> (reply:
    String)
    ensures
        reply@ == prompt_reply(config.provider.name@, config.provider.model@, prompt@),
        final(session).id == old(session).id,
        final(session).messages@.len() == old(session).messages@.len() + 2,
        final(session).messages@.take(old(session).messages@.len() as int) == old(session).messages@,
        message_view(final(session).messages@[old(session).messages@.len() as int]) == (
            "user"@,
            prompt@,
            now,
        ),
        message_view(final(session).messages@.last()) == ("assistant"@, reply@, now),
{
    session.add_message("user", prompt, now);
    let mut reply = "[agent would call ".to_string();
    push_str(&mut reply, config.provider.name.as_str());
    push_str(&mut reply, " / ");
    push_str(&mut reply, config.provider.model.as_str());
    push_str(&mut reply, " with: ");
    push_str(&mut reply, prompt);
    push_str(&mut reply, "]");
    let ghost mid = session.messages@;
    session.add_message("assistant", reply.as_str(), now);
    assert(session.messages@.take(old(session).messages@.len() as int) == old(session).messages@);
    assert(session.messages@[old(session).messages@.len() as int] == mid.last());
    reply
}

/// What the interactive loop read.
#[derive(Debug, Clone)]
pub enum ReplInput {
    /// A line of input.
    Line(String),
    /// End of input.
    Eof,
    /// Reading failed.
    Failed,
}

/// What the interactive loop does with an input.
#[derive(Debug, Clone, PartialEq)]
pub enum ReplOutcome {
    /// Leave the loop.
    Stop,
    /// Nothing to do: read again.
    Skip,
    /// Print this reply (followed by a blank line) and read again.
    Reply(String),
}

/// The interactive loop's state: the turns taken and the limit.
#[derive(Debug, Clone, Copy)]
pub struct Repl {
    pub turn: u32,
    pub max_turns: u32,
}

/// The reply at a turn (counted from one).
pub open spec fn turn_reply(turn: nat, provider: Seq<char>, model: Seq<char>) -> Seq<char> {
    "[turn "@ + decimal(turn) + ": agent would respond via "@ + provider + " / "@ + model + "]"@
}

/// The notice once the turn limit is reached.
pub open spec fn limit_notice(max_turns: nat) -> Seq<char> {
    "Reached maximum of "@ + decimal(max_turns) + " turns."@
}

impl Repl {
    /// A loop that may take `max_turns` turns.
    pub fn new(max_turns: u32) -> (r: Repl)
        ensures
            r.turn == 0,
            r.max_turns == max_turns,
    {
        Repl { turn: 0, max_turns }
    }

    /// Before reading: the notice to print and stop with once the limit is
    /// reached, or `None` to read on.
    pub fn limit_reached(&self) -> (notice: Option<String>)
        ensures
            self.turn >= self.max_turns <==> notice is Some,
            match notice {
                Some(n) => n@ == limit_notice(self.max_turns as nat),
                None => true,
            },
    {
        if self.turn >= self.max_turns {
            let mut n = "Reached maximum of ".to_string();
            push_decimal(&mut n, self.max_turns as u64);
            push_str(&mut n, " turns.");
            Some(n)
        } else {
            None
        }
    }

    /// Handles one input below the turn limit: end of input or a failed
    /// read stops, a blank line is skipped, `exit` or `quit` stops, and any
    /// other line is recorded (trimmed) with its reply, taking a turn.
    pub fn on_input(&mut self, session: &mut Session, config: &AgentConfig, input: ReplInput, now: i64) -> (o: ReplOutcome)
        requires
            old(self).turn < old(self).max_turns,
        ensures
            final(self).max_turns == old(self).max_turns,
            final(session).id == old(session).id,
            match input {
                ReplInput::Line(l) => {
                    let t = trim(l@);
                    if t.len() == 0 {
                        o == ReplOutcome::Skip && *final(self) == *old(self) && final(session).messages@
                            == old(session).messages@
                    } else if t == "exit"@ || t == "quit"@ {
                        o == ReplOutcome::Stop && *final(self) == *old(self) && final(session).messages@
                            == old(session).messages@
                    } else {
                        &&& final(self).turn == old(self).turn + 1
                        &&& final(session).messages@.len() == old(session).messages@.len() + 2
                        &&& final(session).messages@.take(old(session).messages@.len() as int)
                            == old(session).messages@
                        &&& message_view(final(session).messages@[old(session).messages@.len() as int])
                            == ("user"@, t, now)
                        &&& match o {
                            ReplOutcome::Reply(r) => {
                                &&& r@ == turn_reply(
                                    (old(self).turn + 1) as nat,
                                    config.provider.name@,
                                    config.provider.model@,
                                )
                                &&& message_view(final(session).messages@.last()) == (
                                    "assistant"@,
                                    r@,
                                    now,
                                )
                            },
                            _ => false,
                        }
                    }
                },
                _ => o == ReplOutcome::Stop && *final(self) == *old(self) && final(session).messages@
                    == old(session).messages@,
            },
    {
        match input {
            ReplInput::Line(line) => {
                let t = trimmed_chars(line.as_str());
                if t.len() == 0 {
                    return ReplOutcome::Skip;
                }
                let exit_chars = crate::text::chars_of("exit");
                let quit_chars = crate::text::chars_of("quit");
                if chars_eq(t.as_slice(), exit_chars.as_slice()) || chars_eq(
                    t.as_slice(),
                    quit_chars.as_slice(),
                ) {
                    return ReplOutcome::Stop;
                }
                let text = crate::text::string_of(t.as_slice());
                session.add_message("user", text.as_str(), now);
                let ghost mid = session.messages@;
                let mut reply = "[turn ".to_string();
                push_decimal(&mut reply, (self.turn + 1) as u64);
                push_str(&mut reply, ": agent would respond via ");
                push_str(&mut reply, config.provider.name.as_str());
                push_str(&mut reply, " / ");
                push_str(&mut reply, config.provider.model.as_str());
                push_str(&mut reply, "]");
                session.add_message("assistant", reply.as_str(), now);
                assert(session.messages@.take(old(session).messages@.len() as int)
                    == old(session).messages@);
                assert(session.messages@[old(session).messages@.len() as int] == mid.last());
                self.turn = self.turn + 1;
                ReplOutcome::Reply(reply)
            },
            _ => ReplOutcome::Stop,
        }
    }
}

/// Where the session is saved on exit: the explicit path if one was
/// given; otherwise, with auto-save, a stamped file in the configured
/// directory or in `cli-agent/sessions` under the data directory (or
/// `.`); otherwise nowhere.
pub open spec fn save_path_for(
    explicit: Option<Seq<char>>,
    auto_save: bool,
    directory: Option<Seq<char>>,
    data_dir: Option<Seq<char>>,
    now: i64,
) -> Option<Seq<char>> {
    match explicit {
        Some(p) => Some(p),
        None => if auto_save {
            let dir = match directory {
                Some(d) => d,
                None => std_path_join(
                    std_path_join(
                        match data_dir {
                            Some(d) => d,
                            None => "."@,
                        },
                        "cli-agent"@,
                    ),
                    "sessions"@,
                ),
            };
            Some(std_path_join(dir, "session-"@ + chrono_stamp(now) + ".json"@))
        } else {
            None
        },
    }
}

/// The view of an optional string.
pub open spec fn opt_seq(o: Option<String>) -> Option<Seq<char>> {
    match o {
        Some(s) => Some(s@),
        None => None,
    }
}

/// Where to save the session on exit, given the explicit save path, the
/// configuration and the platform's data directory.
pub fn save_path(explicit: Option<String>, config: &AgentConfig, data_dir: Option<String>, now: i64) -> (p:
    Option<String>)
    requires
        time_in_range(now),
    ensures
        opt_seq(p) == save_path_for(
            opt_seq(explicit),
            config.session.auto_save,
            opt_seq(config.session.directory),
            opt_seq(data_dir),
            now,
        ),
{
    match explicit {
        Some(p) => Some(p),
        None => {
            if config.session.auto_save {
                let dir = match &config.session.directory {
                    Some(d) => d.clone(),
                    None => {
                        let base = match data_dir {
                            Some(d) => d,
                            None => ".".to_string(),
                        };
                        let app = path_join(base.as_str(), "cli-agent");
                        path_join(app.as_str(), "sessions")
                    },
                };
                Some(Session::default_path(dir.as_str(), now))
            } else {
                None
            }
        },
    }
}

} // verus!
