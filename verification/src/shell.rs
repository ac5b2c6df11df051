//! Shell execution: the structured result of a command, the command
//! builder, middle-truncation of long output, dangerous-command detection,
//! and the `shell_execute` tool's configuration and request checks.
//!
//! Spawning the process and waiting on it happen outside the library; the
//! library decides what to run and how to report what came back.
use vstd::prelude::*;
use crate::text::{
    chars_of, contains, contains_chars, decimal, join, lines, lines_of, push_chars, push_decimal,
    push_joined, push_signed_decimal, push_str, signed_decimal, std_to_lowercase, str_eq,
    to_lowercase, views,
};

use crate::streaming::{decode_lossy, std_utf8_lossy};

verus! {

// ---------------------------------------------------------------------------
// ShellOutput
// ---------------------------------------------------------------------------

/// Structured result from executing a shell command.
#[derive(Debug, Clone)]
pub struct ShellOutput {
    /// The command's exit code; -1 if killed by a signal or timed out.
    pub exit_code: i32,
    /// Captured standard output.
    pub stdout: String,
    /// Captured standard error.
    pub stderr: String,
    /// Whether the command completed successfully (exit code 0).
    pub success: bool,
    /// Whether the command was killed because it exceeded the timeout.
    pub timed_out: bool,
}

/// The text of a shell result as handed to the model: standard output, then
/// standard error under a `[stderr]` header, then a note on a timeout or a
/// failing exit code; `[no output]` when all of that is empty.
pub open spec fn tool_result_text(
    stdout: Seq<char>,
    stderr: Seq<char>,
    exit_code: int,
    success: bool,
    timed_out: bool,
) -> Seq<char> {
    let r1 = stdout;
    let r2 = if stderr.len() > 0 {
        r1 + (if r1.len() > 0 {
            "\n"@
        } else {
            Seq::<char>::empty()
        }) + "[stderr]\n"@ + stderr
    } else {
        r1
    };
    let r3 = if timed_out {
        r2 + "\n[command timed out]"@
    } else if !success {
        r2 + "\n[exit code: "@ + signed_decimal(exit_code) + "]"@
    } else {
        r2
    };
    if r3.len() == 0 {
        "[no output]"@
    } else {
        r3
    }
}

/// Keep the first and last lines of a long output, dropping the middle.
pub open spec fn truncated(output: Seq<char>, max_lines: nat) -> Seq<char> {
    let ls = lines(output);
    if ls.len() <= max_lines {
        output
    } else {
        let head = max_lines / 2;
        let tail = max_lines - head;
        let omitted = ls.len() - head - tail;
        join(ls.subrange(0, head as int), "\n"@) + "\n\n[... "@ + decimal(omitted as nat)
            + " lines omitted ...]\n\n"@ + join(
            ls.subrange(ls.len() - tail, ls.len() as int),
            "\n"@,
        )
    }
}

impl ShellOutput {
    /// Format the output for inclusion in an LLM tool-result message.
    pub fn to_tool_result(&self) -> (r: String)
        ensures
            r@ == tool_result_text(
                self.stdout@,
                self.stderr@,
                self.exit_code as int,
                self.success,
                self.timed_out,
            ),
    {
        let mut result = String::new();
        if !self.stdout.as_str().is_empty() {
            push_str(&mut result, self.stdout.as_str());
        }
        assert(result@ == self.stdout@);
        if !self.stderr.as_str().is_empty() {
            if !result.as_str().is_empty() {
                push_str(&mut result, "\n");
            }
            push_str(&mut result, "[stderr]\n");
            push_str(&mut result, self.stderr.as_str());
        }
        if self.timed_out {
            push_str(&mut result, "\n[command timed out]");
        } else if !self.success {
            push_str(&mut result, "\n[exit code: ");
            push_signed_decimal(&mut result, self.exit_code as i64);
            push_str(&mut result, "]");
        }
        if result.as_str().is_empty() {
            push_str(&mut result, "[no output]");
        }
        result
    }

    /// The result of a command that finished, from its raw output: both
    /// streams decoded as UTF-8 (invalid sequences replaced), standard output
    /// truncated to `max_lines` lines, standard error kept whole, exit code
    /// -1 when the process reported none (killed by a signal).
    pub fn completed(
        stdout_bytes: &[u8],
        stderr_bytes: &[u8],
        code: Option<i32>,
        success: bool,
        max_lines: usize,
    ) -> (o: ShellOutput)
        ensures
            o.stdout@ == truncated(std_utf8_lossy(stdout_bytes@), max_lines as nat),
            o.stderr@ == std_utf8_lossy(stderr_bytes@),
            o.exit_code == match code {
                Some(c) => c,
                None => -1i32,
            },
            o.success == success,
            !o.timed_out,
    {
        ShellOutput {
            exit_code: match code {
                Some(c) => c,
                None => -1,
            },
            stdout: truncate_middle(decode_lossy(stdout_bytes).as_str(), max_lines),
            stderr: decode_lossy(stderr_bytes),
            success,
            timed_out: false,
        }
    }

    /// The result of a command killed after `timeout_secs` seconds.
    pub fn timed_out_after(display: &str, timeout_secs: u64) -> (o: ShellOutput)
        ensures
            o.exit_code == -1,
            o.stdout@ == Seq::<char>::empty(),
            o.stderr@ == "Command '"@ + display@ + "' timed out after "@ + decimal(
                timeout_secs as nat,
            ) + "s"@,
            !o.success,
            o.timed_out,
    {
        let mut stderr = String::new();
        push_str(&mut stderr, "Command '");
        push_str(&mut stderr, display);
        push_str(&mut stderr, "' timed out after ");
        push_decimal(&mut stderr, timeout_secs);
        push_str(&mut stderr, "s");
        ShellOutput { exit_code: -1, stdout: String::new(), stderr, success: false, timed_out: true }
    }
}

/// Keep the first and last portions of output, dropping the middle: at most
/// `max_lines` lines survive, half from the head and the rest from the tail,
/// with a note of how many were omitted between them.
pub fn truncate_middle(output: &str, max_lines: usize) -> (r: String)
    ensures
        r@ == truncated(output@, max_lines as nat),
{
    let ls = lines_of(output);
    if ls.len() <= max_lines {
        return output.to_owned();
    }
    let head = max_lines / 2;
    let tail = max_lines - head;
    let omitted = ls.len() - head - tail;
    let mut r = String::new();
    push_joined(&mut r, ls.as_slice(), 0, head, "\n");
    push_str(&mut r, "\n\n[... ");
    push_decimal(&mut r, omitted as u64);
    push_str(&mut r, " lines omitted ...]\n\n");
    push_joined(&mut r, ls.as_slice(), ls.len() - tail, ls.len(), "\n");
    assert(views(ls@).len() == ls@.len());
    r
}

// ---------------------------------------------------------------------------
// ShellCommand
// ---------------------------------------------------------------------------

/// `pairs` with `key` set to `value`: the pair for `key` replaced in place,
/// or appended when there is none (map insertion).
pub open spec fn set_pair(
    pairs: Seq<(Seq<char>, Seq<char>)>,
    key: Seq<char>,
    value: Seq<char>,
) -> Seq<(Seq<char>, Seq<char>)> {
    if exists|i: int| 0 <= i < pairs.len() && #[trigger] pairs[i].0 == key {
        let i = choose|i: int| 0 <= i < pairs.len() && #[trigger] pairs[i].0 == key;
        pairs.update(i, (key, value))
    } else {
        pairs.push((key, value))
    }
}

/// A time limit: whole seconds and the nanoseconds past them (as
/// `std::time::Duration` holds one).
#[derive(Debug, Clone, Copy)]
pub struct TimeLimit {
    secs: u64,
    nanos: u32,
}

/// Nanoseconds in a second.
pub const NANOS_PER_SEC: u32 = 1_000_000_000;

impl TimeLimit {
    #[verifier::type_invariant]
    spec fn below_a_second(self) -> bool {
        self.nanos < NANOS_PER_SEC
    }

    /// The limit in nanoseconds.
    pub closed spec fn nanos_view(self) -> nat {
        self.secs as nat * 1_000_000_000 + self.nanos as nat
    }

    /// A limit of whole seconds (`Duration::from_secs`).
    pub fn from_secs(secs: u64) -> (t: TimeLimit)
        ensures
            t.nanos_view() == secs as nat * 1_000_000_000,
    {
        TimeLimit { secs, nanos: 0 }
    }

    /// A limit of `secs` seconds and `nanos` nanoseconds, the nanoseconds
    /// carried into whole seconds where they make one (`Duration::new`).
    pub fn new(secs: u64, nanos: u32) -> (t: TimeLimit)
        requires
            secs + nanos / NANOS_PER_SEC <= u64::MAX,
        ensures
            t.nanos_view() == secs as nat * 1_000_000_000 + nanos as nat,
    {
        let carry = nanos / NANOS_PER_SEC;
        TimeLimit { secs: secs + carry as u64, nanos: nanos % NANOS_PER_SEC }
    }

    /// The whole seconds of the limit (`Duration::as_secs`).
    pub fn as_secs(&self) -> (s: u64)
        ensures
            s as nat == self.nanos_view() / 1_000_000_000,
    {
        proof {
            use_type_invariant(self);
        }
        self.secs
    }

    /// The nanoseconds past the whole seconds (`Duration::subsec_nanos`).
    pub fn subsec_nanos(&self) -> (n: u32)
        ensures
            n as nat == self.nanos_view() % 1_000_000_000,
    {
        proof {
            use_type_invariant(self);
        }
        self.nanos
    }
}

/// A builder for configuring a shell command before execution.
#[derive(Debug, Clone)]
pub struct ShellCommand {
    command: String,
    working_dir: Option<String>,
    /// The extra variables, each name once; setting a name again replaces its value.
    env_vars: Vec<(String, String)>,
    timeout: TimeLimit,
    max_output_lines: usize,
}

impl ShellCommand {
    /// The command text (run through `sh -c`).
    pub closed spec fn command_view(&self) -> Seq<char> {
        self.command@
    }

    /// The working directory, if one was set.
    pub closed spec fn working_dir_view(&self) -> Option<Seq<char>> {
        match self.working_dir {
            Some(d) => Some(d@),
            None => None,
        }
    }

    /// The extra environment variables, each key once.
    pub closed spec fn env_view(&self) -> Seq<(Seq<char>, Seq<char>)> {
        self.env_vars@.map_values(|p: (String, String)| (p.0@, p.1@))
    }

    /// The time limit, in nanoseconds.
    pub closed spec fn timeout_view(&self) -> nat {
        self.timeout.nanos_view()
    }

    /// The number of output lines kept.
    pub closed spec fn max_lines_view(&self) -> nat {
        self.max_output_lines as nat
    }

    /// Each variable name occurs once among the extra variables.
    pub closed spec fn wf(&self) -> bool {
        forall|i: int, j: int|
            0 <= i < j < self.env_view().len() ==> self.env_view()[i].0 != self.env_view()[j].0
    }

    /// A command run through `sh -c`, with no working directory, no extra
    /// variables, a 30 second limit and at most 500 output lines.
    pub fn new(command: &str) -> (c: Self)
        ensures
            c.wf(),
            c.command_view() == command@,
            c.working_dir_view() is None,
            c.env_view() == Seq::<(Seq<char>, Seq<char>)>::empty(),
            c.timeout_view() == 30 * 1_000_000_000,
            c.max_lines_view() == 500,
    {
        let c = Self {
            command: command.to_owned(),
            working_dir: None,
            env_vars: Vec::new(),
            timeout: TimeLimit::from_secs(30),
            max_output_lines: 500,
        };
        assert(c.env_view() == Seq::<(Seq<char>, Seq<char>)>::empty());
        c
    }

    /// Set the working directory for the command.
    pub fn working_dir(self, path: &str) -> (c: Self)
        requires
            self.wf(),
        ensures
            c.wf(),
            c.working_dir_view() == Some(path@),
            c.command_view() == self.command_view(),
            c.env_view() == self.env_view(),
            c.timeout_view() == self.timeout_view(),
            c.max_lines_view() == self.max_lines_view(),
    {
        let mut c = self;
        c.working_dir = Some(path.to_owned());
        assert(c.env_view() == self.env_view());
        c
    }

    /// Add an environment variable to the child process; a later value for
    /// the same name replaces the earlier one.
    pub fn env(self, key: &str, value: &str) -> (c: Self)
        requires
            self.wf(),
        ensures
            c.wf(),
            c.env_view() == set_pair(self.env_view(), key@, value@),
            c.command_view() == self.command_view(),
            c.working_dir_view() == self.working_dir_view(),
            c.timeout_view() == self.timeout_view(),
            c.max_lines_view() == self.max_lines_view(),
    {
        let mut c = self;
        let mut i: usize = 0;
        while i < c.env_vars.len()
            invariant
                0 <= i <= c.env_vars@.len(),
                c == self,
                self.wf(),
                c.env_view().len() == c.env_vars@.len(),
                forall|k: int| 0 <= k < i ==> c.env_view()[k].0 != key@,
            decreases c.env_vars.len() - i,
        {
            if str_eq(c.env_vars[i].0.as_str(), key) {
                let ghost old_view = c.env_view();
                assert(old_view[i as int].0 == key@);
                c.env_vars.set(i, (key.to_owned(), value.to_owned()));
                proof {
                    let j = choose|j: int| 0 <= j < old_view.len() && #[trigger] old_view[j].0 == key@;
                    assert(j == i) by {
                        if j != i as int {
                            assert(self.wf());
                            if j < i {
                                assert(old_view[j].0 != key@);
                            } else {
                                assert(old_view[i as int].0 != old_view[j].0);
                            }
                        }
                    }
                    assert(c.env_view() == old_view.update(i as int, (key@, value@)));
                }
                return c;
            }
            i = i + 1;
        }
        let ghost old_view = c.env_view();
        c.env_vars.push((key.to_owned(), value.to_owned()));
        assert(c.env_view() == old_view.push((key@, value@)));
        c
    }

    /// Set the maximum execution time.
    pub fn timeout(self, limit: TimeLimit) -> (c: Self)
        requires
            self.wf(),
        ensures
            c.wf(),
            c.timeout_view() == limit.nanos_view(),
            c.command_view() == self.command_view(),
            c.working_dir_view() == self.working_dir_view(),
            c.env_view() == self.env_view(),
            c.max_lines_view() == self.max_lines_view(),
    {
        let mut c = self;
        c.timeout = limit;
        assert(c.env_view() == self.env_view());
        c
    }

    /// Set the maximum number of output lines (for truncation).
    pub fn max_output_lines(self, lines: usize) -> (c: Self)
        requires
            self.wf(),
        ensures
            c.wf(),
            c.max_lines_view() == lines,
            c.command_view() == self.command_view(),
            c.working_dir_view() == self.working_dir_view(),
            c.env_view() == self.env_view(),
            c.timeout_view() == self.timeout_view(),
    {
        let mut c = self;
        c.max_output_lines = lines;
        assert(c.env_view() == self.env_view());
        c
    }

    /// Get the command string for display/logging.
    pub fn display_command(&self) -> (s: &str)
        ensures
            s@ == self.command_view(),
    {
        self.command.as_str()
    }

    /// The working directory, if one was set.
    pub fn working_directory(&self) -> (d: Option<&str>)
        ensures
            match d {
                Some(s) => self.working_dir_view() == Some(s@),
                None => self.working_dir_view() is None,
            },
    {
        match &self.working_dir {
            Some(s) => Some(s.as_str()),
            None => None,
        }
    }

    /// The extra environment variables.
    pub fn env_vars(&self) -> (v: &[(String, String)])
        ensures
            v@.map_values(|p: (String, String)| (p.0@, p.1@)) == self.env_view(),
    {
        self.env_vars.as_slice()
    }

    /// The time limit.
    pub fn time_limit(&self) -> (t: TimeLimit)
        ensures
            t.nanos_view() == self.timeout_view(),
    {
        self.timeout
    }

    /// The time limit in whole seconds.
    pub fn timeout_secs(&self) -> (t: u64)
        ensures
            t == self.timeout_view() / 1_000_000_000,
    {
        self.timeout.as_secs()
    }

    /// The number of output lines kept.
    pub fn output_line_limit(&self) -> (n: usize)
        ensures
            n == self.max_lines_view(),
    {
        self.max_output_lines
    }
}

// ---------------------------------------------------------------------------
// Dangerous command detection
// ---------------------------------------------------------------------------

/// Patterns that block a command outright, with their reasons.
pub open spec fn critical_patterns() -> Seq<(Seq<char>, Seq<char>)> {
    seq![
        ("rm -rf /"@, "Recursive force-delete from root"@),
        ("rm -fr /"@, "Recursive force-delete from root"@),
        ("rm -rf /*"@, "Recursive force-delete from root wildcard"@),
        ("mkfs."@, "Formatting a filesystem"@),
        ("dd if="@, "Raw disk write via dd"@),
        (":(){"@, "Fork bomb"@),
    ]
}

/// Patterns that only draw a warning, with their reasons.
pub open spec fn warning_patterns() -> Seq<(Seq<char>, Seq<char>)> {
    seq![
        ("sudo "@, "Elevated privileges via sudo"@),
        ("curl "@, "Network request via curl"@),
        ("wget "@, "Network request via wget"@),
        ("chmod -r 777"@, "Recursive world-writable permissions"@),
        ("| sh"@, "Piping into a shell interpreter"@),
        ("| bash"@, "Piping into a shell interpreter"@),
        ("> /dev/"@, "Redirecting to a device file"@),
    ]
}

/// The first pattern of `ps` that occurs in `text`.
pub open spec fn first_match(ps: Seq<(Seq<char>, Seq<char>)>, text: Seq<char>) -> Option<
    (Seq<char>, Seq<char>),
>
    decreases ps.len(),
{
    if ps.len() == 0 {
        None
    } else if contains(text, ps[0].0) {
        Some(ps[0])
    } else {
        first_match(ps.drop_first(), text)
    }
}

/// The warning lines for the patterns of `ps` that occur in `text`, in
/// order.
pub open spec fn warnings_for(
    ps: Seq<(Seq<char>, Seq<char>)>,
    text: Seq<char>,
    command: Seq<char>,
) -> Seq<Seq<char>>
    decreases ps.len(),
{
    if ps.len() == 0 {
        Seq::<Seq<char>>::empty()
    } else {
        let rest = warnings_for(ps.drop_last(), text, command);
        if contains(text, ps.last().0) {
            rest.push("[safety-warning] "@ + ps.last().1 + ": "@ + command)
        } else {
            rest
        }
    }
}

/// The outcome of the safety check on a command: blocked with a message
/// when its lowercase text holds a critical pattern, else the warnings to
/// show for the risky patterns it holds.
pub open spec fn danger_check(command: Seq<char>) -> Result<Seq<Seq<char>>, Seq<char>> {
    let cmd = std_to_lowercase(command);
    match first_match(critical_patterns(), cmd) {
        Some(p) => Err(
            "BLOCKED \u{2014} dangerous command detected: "@ + p.1 + ". Pattern: '"@ + p.0 + "'"@,
        ),
        None => Ok(warnings_for(warning_patterns(), cmd, command)),
    }
}

/// A pattern and its reason, held as text.
struct Pattern {
    pattern: &'static str,
    reason: &'static str,
}

fn critical_list() -> (v: Vec<Pattern>)
    ensures
        v@.map_values(|p: Pattern| (p.pattern@, p.reason@)) == critical_patterns(),
{
    let v = vec![
        Pattern { pattern: "rm -rf /", reason: "Recursive force-delete from root" },
        Pattern { pattern: "rm -fr /", reason: "Recursive force-delete from root" },
        Pattern { pattern: "rm -rf /*", reason: "Recursive force-delete from root wildcard" },
        Pattern { pattern: "mkfs.", reason: "Formatting a filesystem" },
        Pattern { pattern: "dd if=", reason: "Raw disk write via dd" },
        Pattern { pattern: ":(){", reason: "Fork bomb" },
    ];
    assert(v@.map_values(|p: Pattern| (p.pattern@, p.reason@)) == critical_patterns());
    v
}

fn warning_list() -> (v: Vec<Pattern>)
    ensures
        v@.map_values(|p: Pattern| (p.pattern@, p.reason@)) == warning_patterns(),
{
    let v = vec![
        Pattern { pattern: "sudo ", reason: "Elevated privileges via sudo" },
        Pattern { pattern: "curl ", reason: "Network request via curl" },
        Pattern { pattern: "wget ", reason: "Network request via wget" },
        Pattern { pattern: "chmod -r 777", reason: "Recursive world-writable permissions" },
        Pattern { pattern: "| sh", reason: "Piping into a shell interpreter" },
        Pattern { pattern: "| bash", reason: "Piping into a shell interpreter" },
        Pattern { pattern: "> /dev/", reason: "Redirecting to a device file" },
    ];
    assert(v@.map_values(|p: Pattern| (p.pattern@, p.reason@)) == warning_patterns());
    v
}

/// Check whether a command matches any known dangerous pattern (compared
/// in lowercase). Returns `Err` with the reason if the command must be
/// blocked, or `Ok` with the warning lines to print for risky patterns.
pub fn check_dangerous(command: &str) -> (r: Result<Vec<String>, String>)
    ensures
        match r {
            Ok(w) => danger_check(command@) == Ok::<Seq<Seq<char>>, Seq<char>>(
                w@.map_values(|s: String| s@),
            ),
            Err(m) => danger_check(command@) == Err::<Seq<Seq<char>>, Seq<char>>(m@),
        },
{
    let lower = to_lowercase(command);
    let cmd = chars_of(lower.as_str());
    let crit = critical_list();
    let ghost cv = crit@.map_values(|p: Pattern| (p.pattern@, p.reason@));
    let mut i: usize = 0;
    assert(cv.skip(0) == cv);
    while i < crit.len()
        invariant
            0 <= i <= crit@.len(),
            cv == crit@.map_values(|p: Pattern| (p.pattern@, p.reason@)),
            cv == critical_patterns(),
            cmd@ == std_to_lowercase(command@),
            first_match(cv, cmd@) == first_match(cv.skip(i as int), cmd@),
        decreases crit.len() - i,
    {
        let ghost rest = cv.skip(i as int);
        assert(rest[0] == (crit@[i as int].pattern@, crit@[i as int].reason@));
        let p = chars_of(crit[i].pattern);
        if contains_chars(cmd.as_slice(), p.as_slice()) {
            assert(first_match(rest, cmd@) == Some(rest[0]));
            let mut m = String::new();
            push_str(&mut m, "BLOCKED \u{2014} dangerous command detected: ");
            push_str(&mut m, crit[i].reason);
            push_str(&mut m, ". Pattern: '");
            push_str(&mut m, crit[i].pattern);
            push_str(&mut m, "'");
            assert(m@ == "BLOCKED \u{2014} dangerous command detected: "@ + rest[0].1
                + ". Pattern: '"@ + rest[0].0 + "'"@);
            return Err(m);
        }
        assert(rest.drop_first() == cv.skip(i + 1));
        i = i + 1;
    }
    assert(cv.skip(i as int).len() == 0);
    let warn = warning_list();
    let ghost wv = warn@.map_values(|p: Pattern| (p.pattern@, p.reason@));
    let mut out: Vec<String> = Vec::new();
    let mut k: usize = 0;
    assert(wv.take(0) == Seq::<(Seq<char>, Seq<char>)>::empty());
    while k < warn.len()
        invariant
            0 <= k <= warn@.len(),
            wv == warn@.map_values(|p: Pattern| (p.pattern@, p.reason@)),
            wv == warning_patterns(),
            cmd@ == std_to_lowercase(command@),
            out@.map_values(|s: String| s@) == warnings_for(wv.take(k as int), cmd@, command@),
        decreases warn.len() - k,
    {
        let ghost pre = wv.take(k as int);
        let ghost now = wv.take(k + 1);
        assert(now.drop_last() == pre);
        assert(now.last() == (warn@[k as int].pattern@, warn@[k as int].reason@));
        let p = chars_of(warn[k].pattern);
        if contains_chars(cmd.as_slice(), p.as_slice()) {
            let mut line = String::new();
            push_str(&mut line, "[safety-warning] ");
            push_str(&mut line, warn[k].reason);
            push_str(&mut line, ": ");
            push_str(&mut line, command);
            let ghost before = out@.map_values(|s: String| s@);
            out.push(line);
            assert(out@.map_values(|s: String| s@) == before.push(line@));
        }
        k = k + 1;
    }
    assert(wv.take(warn@.len() as int) == wv);
    Ok(out)
}

// ---------------------------------------------------------------------------
// ShellExecuteTool
// ---------------------------------------------------------------------------

/// Configuration for the `shell_execute` tool.
pub struct ShellExecuteTool {
    default_working_dir: String,
    default_timeout: TimeLimit,
    max_output_lines: usize,
}

/// Why a `shell_execute` request cannot run, or how it will run.
pub open spec fn plan_error(
    command: Option<Seq<char>>,
    working_dir: Option<Seq<char>>,
    working_dir_is_dir: bool,
) -> Option<Seq<char>> {
    if command is None {
        Some("Missing required parameter: command"@)
    } else if working_dir is Some && !working_dir_is_dir {
        Some("Working directory does not exist: "@ + working_dir->0)
    } else {
        match danger_check(command->0) {
            Err(m) => Some(m),
            Ok(_) => None,
        }
    }
}

impl ShellExecuteTool {
    /// The directory commands run in when the request names none.
    pub closed spec fn working_dir_view(&self) -> Seq<char> {
        self.default_working_dir@
    }

    /// The time limit used when the request gives none, in nanoseconds.
    pub closed spec fn timeout_view(&self) -> nat {
        self.default_timeout.nanos_view()
    }

    /// The number of output lines kept.
    pub closed spec fn max_lines_view(&self) -> nat {
        self.max_output_lines as nat
    }

    /// A tool running in `working_dir` with a 30 second limit and at most
    /// 500 output lines.
    pub fn new(working_dir: &str) -> (t: Self)
        ensures
            t.working_dir_view() == working_dir@,
            t.timeout_view() == 30 * 1_000_000_000,
            t.max_lines_view() == 500,
    {
        Self {
            default_working_dir: working_dir.to_owned(),
            default_timeout: TimeLimit::from_secs(30),
            max_output_lines: 500,
        }
    }

    /// Set the default time limit.
    pub fn with_timeout(self, limit: TimeLimit) -> (t: Self)
        ensures
            t.timeout_view() == limit.nanos_view(),
            t.working_dir_view() == self.working_dir_view(),
            t.max_lines_view() == self.max_lines_view(),
    {
        let mut t = self;
        t.default_timeout = limit;
        t
    }

    /// Set the number of output lines kept.
    pub fn with_max_output_lines(self, lines: usize) -> (t: Self)
        ensures
            t.max_lines_view() == lines,
            t.working_dir_view() == self.working_dir_view(),
            t.timeout_view() == self.timeout_view(),
    {
        let mut t = self;
        t.max_output_lines = lines;
        t
    }

    /// Tool name used in function-calling.
    pub fn name(&self) -> (s: &'static str)
        ensures
            s@ == "shell_execute"@,
    {
        "shell_execute"
    }

    /// Short description for the model.
    pub fn description(&self) -> (s: &'static str)
        ensures
            s@
                == "Execute a shell command and return its output. The command runs through `sh -c` so pipes, redirects, and shell features work."@,
    {
        "Execute a shell command and return its output. The command runs through `sh -c` so pipes, redirects, and shell features work."
    }

    /// Check a request and build the command it asks for: the command text
    /// is required, a given working directory must exist
    /// (`working_dir_is_dir`), and the command must pass the danger check.
    /// On success, the command runs in the given or default directory with
    /// the given or default time limit, and the danger check's warnings come
    /// with it.
    pub fn prepare(
        &self,
        command: Option<&str>,
        working_dir: Option<&str>,
        working_dir_is_dir: bool,
        timeout_secs: Option<u64>,
    ) -> (r: Result<(ShellCommand, Vec<String>), String>)
        ensures
            match r {
                Err(m) => plan_error(
                    crate::permissions::opt_view(command),
                    crate::permissions::opt_view(working_dir),
                    working_dir_is_dir,
                ) == Some(m@),
                Ok((c, w)) => {
                    &&& plan_error(
                        crate::permissions::opt_view(command),
                        crate::permissions::opt_view(working_dir),
                        working_dir_is_dir,
                    ) is None
                    &&& c.wf()
                    &&& c.command_view() == command->0@
                    &&& c.working_dir_view() == Some(
                        match working_dir {
                            Some(d) => d@,
                            None => self.working_dir_view(),
                        },
                    )
                    &&& c.env_view() == Seq::<(Seq<char>, Seq<char>)>::empty()
                    &&& c.timeout_view() == match timeout_secs {
                        Some(t) => t as nat * 1_000_000_000,
                        None => self.timeout_view(),
                    }
                    &&& c.max_lines_view() == self.max_lines_view()
                    &&& danger_check(command->0@) == Ok::<Seq<Seq<char>>, Seq<char>>(
                        w@.map_values(|s: String| s@),
                    )
                },
            },
    {
        let command = match command {
            Some(c) => c,
            None => {
                return Err("Missing required parameter: command".to_owned());
            },
        };
        let dir: &str = match working_dir {
            Some(d) => {
                if !working_dir_is_dir {
                    let mut m = "Working directory does not exist: ".to_owned();
                    push_str(&mut m, d);
                    return Err(m);
                }
                d
            },
            None => self.default_working_dir.as_str(),
        };
        let limit = match timeout_secs {
            Some(t) => TimeLimit::from_secs(t),
            None => self.default_timeout,
        };
        let warnings = match check_dangerous(command) {
            Ok(w) => w,
            Err(m) => {
                return Err(m);
            },
        };
        let c = ShellCommand::new(command).working_dir(dir).timeout(limit).max_output_lines(
            self.max_output_lines,
        );
        Ok((c, warnings))
    }
}


// ---------------------------------------------------------------------------
// Laws
// ---------------------------------------------------------------------------

/// Truncation keeps output of at most `max_lines` lines as it is. Longer
/// output keeps exactly `max_lines` of its lines, whatever its length: it
/// starts with the first `max_lines / 2` lines and the count of omitted
/// lines, and ends with that count's note and the last
/// `max_lines - max_lines / 2` lines.
pub proof fn law_truncation_keeps_head_and_tail(output: Seq<char>, max_lines: nat)
    ensures
        lines(output).len() <= max_lines ==> truncated(output, max_lines) == output,
        lines(output).len() > max_lines ==> {
            let ls = lines(output);
            let head = ls.take((max_lines / 2) as int);
            let tail = ls.skip(ls.len() - (max_lines - max_lines / 2));
            let note = "\n\n[... "@ + decimal((ls.len() - max_lines) as nat) + " lines omitted ...]\n\n"@;
            &&& head.len() + tail.len() == max_lines
            &&& crate::text::starts_with(truncated(output, max_lines), join(head, "\n"@) + note)
            &&& crate::text::ends_with(truncated(output, max_lines), note + join(tail, "\n"@))
        },
{
    let ls = lines(output);
    if ls.len() > max_lines {
        let h = max_lines / 2;
        let t = max_lines - h;
        let head = ls.take(h as int);
        let tail = ls.skip(ls.len() - t);
        assert(ls.subrange(0, h as int) == head);
        assert(ls.subrange(ls.len() - t, ls.len() as int) == tail);
        let note = "\n\n[... "@ + decimal((ls.len() - max_lines) as nat) + " lines omitted ...]\n\n"@;
        let a = join(head, "\n"@);
        let b = join(tail, "\n"@);
        let r = truncated(output, max_lines);
        assert(r == a + "\n\n[... "@ + decimal((ls.len() - h - t) as nat) + " lines omitted ...]\n\n"@ + b);
        assert(r =~= (a + note) + b);
        assert(r =~= a + (note + b));
        assert(r.subrange(0, (a + note).len() as int) =~= a + note);
        assert(r.subrange(r.len() - (note + b).len(), r.len() as int) =~= note + b);
    }
}
} // verus!
