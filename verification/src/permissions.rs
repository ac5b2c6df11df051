//! Layered safety checks: permission levels, operation classes, the
//! tool-name registry, the three-way permission decision, command and path
//! filters, and the manager that combines them.
use vstd::prelude::*;
use crate::text::{
    chars_of, contains, contains_chars, ends_with, ends_with_chars, first_token, first_token_of,
    push_chars, push_str, std_to_lowercase, str_eq, sub_vec, to_lowercase, trim, trimmed_chars,
};
use crate::paths::{file_name, path_starts_with, std_file_name, std_path_starts_with};

verus! {

// ---------------------------------------------------------------------------
// Permission levels
// ---------------------------------------------------------------------------

/// Three-tier permission level, ordered `ReadOnly < Standard < FullAuto`.
#[derive(Debug, Clone, Copy, PartialEq, Eq, PartialOrd, Ord, Hash, Structural)]
pub enum PermissionLevel {
    /// Can only observe: file reads, searches, git status.
    ReadOnly,
    /// Can read and write; destructive actions still need approval.
    Standard,
    /// Everything is allowed without prompts.
    FullAuto,
}

/// The position of a level in the order `ReadOnly < Standard < FullAuto`.
pub open spec fn rank(l: PermissionLevel) -> nat {
    match l {
        PermissionLevel::ReadOnly => 0,
        PermissionLevel::Standard => 1,
        PermissionLevel::FullAuto => 2,
    }
}

/// The display text of a level.
pub open spec fn level_label(l: PermissionLevel) -> Seq<char> {
    match l {
        PermissionLevel::ReadOnly => "read-only"@,
        PermissionLevel::Standard => "standard"@,
        PermissionLevel::FullAuto => "full-auto"@,
    }
}

impl PermissionLevel {
    /// The position of this level in the order of levels.
    pub fn rank(&self) -> (r: u8)
        ensures
            r == rank(*self),
    {
        match self {
            PermissionLevel::ReadOnly => 0,
            PermissionLevel::Standard => 1,
            PermissionLevel::FullAuto => 2,
        }
    }

    /// The display text of this level (`read-only`, `standard`, `full-auto`).
    pub fn label(&self) -> (s: &'static str)
        ensures
            s@ == level_label(*self),
    {
        match self {
            PermissionLevel::ReadOnly => "read-only",
            PermissionLevel::Standard => "standard",
            PermissionLevel::FullAuto => "full-auto",
        }
    }
}

// ---------------------------------------------------------------------------
// Operation classes
// ---------------------------------------------------------------------------

/// Risk tier for a single tool call.
#[derive(Debug, Clone, Copy, PartialEq, Eq, Structural)]
pub enum OperationClass {
    /// Pure reads: never modifies state.
    Read,
    /// Creates or modifies files inside the project.
    Write,
    /// Shell command classified as safe.
    SafeExec,
    /// Shell command with potential side effects.
    UnsafeExec,
    /// Irreversible operation (force-push, `rm -rf`, and the like).
    Destructive,
}

/// Minimum level that can attempt operations of class `c`.
pub open spec fn required_level(c: OperationClass) -> PermissionLevel {
    match c {
        OperationClass::Read => PermissionLevel::ReadOnly,
        OperationClass::Write | OperationClass::SafeExec => PermissionLevel::Standard,
        OperationClass::UnsafeExec => PermissionLevel::Standard,
        OperationClass::Destructive => PermissionLevel::FullAuto,
    }
}

/// Whether class `c` needs interactive confirmation at level `l`.
pub open spec fn needs_approval(c: OperationClass, l: PermissionLevel) -> bool {
    match c {
        OperationClass::Read | OperationClass::SafeExec => false,
        OperationClass::Write => l == PermissionLevel::Standard,
        OperationClass::UnsafeExec | OperationClass::Destructive => l != PermissionLevel::FullAuto,
    }
}

/// The name of a class as its `Debug` rendering writes it.
pub open spec fn class_name(c: OperationClass) -> Seq<char> {
    match c {
        OperationClass::Read => "Read"@,
        OperationClass::Write => "Write"@,
        OperationClass::SafeExec => "SafeExec"@,
        OperationClass::UnsafeExec => "UnsafeExec"@,
        OperationClass::Destructive => "Destructive"@,
    }
}

impl OperationClass {
    /// Minimum permission level that can even attempt this class.
    pub fn required_permission(&self) -> (l: PermissionLevel)
        ensures
            l == required_level(*self),
    {
        match self {
            Self::Read => PermissionLevel::ReadOnly,
            Self::Write | Self::SafeExec => PermissionLevel::Standard,
            Self::UnsafeExec => PermissionLevel::Standard,
            Self::Destructive => PermissionLevel::FullAuto,
        }
    }

    /// Whether the user must confirm interactively, even when the level is
    /// high enough.
    pub fn requires_approval(&self, current: PermissionLevel) -> (b: bool)
        ensures
            b == needs_approval(*self, current),
    {
        match self {
            Self::Read | Self::SafeExec => false,
            Self::Write => current == PermissionLevel::Standard,
            Self::UnsafeExec | Self::Destructive => current != PermissionLevel::FullAuto,
        }
    }

    /// The class name as `Debug` writes it.
    pub fn name(&self) -> (s: &'static str)
        ensures
            s@ == class_name(*self),
    {
        match self {
            Self::Read => "Read",
            Self::Write => "Write",
            Self::SafeExec => "SafeExec",
            Self::UnsafeExec => "UnsafeExec",
            Self::Destructive => "Destructive",
        }
    }
}

// ---------------------------------------------------------------------------
// Registry: tool names to classes
// ---------------------------------------------------------------------------

/// The class that the first rule with key `key` gives, if any.
pub open spec fn lookup(rules: Seq<(Seq<char>, OperationClass)>, key: Seq<char>) -> Option<
    OperationClass,
>
    decreases rules.len(),
{
    if rules.len() == 0 {
        None
    } else if rules[0].0 == key {
        Some(rules[0].1)
    } else {
        lookup(rules.drop_first(), key)
    }
}

/// The rules that a fresh registry holds.
pub open spec fn default_rules() -> Seq<(Seq<char>, OperationClass)> {
    seq![
        ("read_file"@, OperationClass::Read),
        ("list_directory"@, OperationClass::Read),
        ("search_files"@, OperationClass::Read),
        ("grep"@, OperationClass::Read),
        ("glob"@, OperationClass::Read),
        ("write_file"@, OperationClass::Write),
        ("edit_file"@, OperationClass::Write),
        ("git:status"@, OperationClass::Read),
        ("git:diff"@, OperationClass::Read),
        ("git:log"@, OperationClass::Read),
        ("git:add"@, OperationClass::Write),
        ("git:commit"@, OperationClass::Write),
        ("git:push"@, OperationClass::UnsafeExec),
        ("git:push --force"@, OperationClass::Destructive),
        ("git:reset --hard"@, OperationClass::Destructive),
        ("shell:safe"@, OperationClass::SafeExec),
        ("shell:unsafe"@, OperationClass::UnsafeExec),
    ]
}

/// The label under which a call is looked up: `tool:sub`, or `tool`.
pub open spec fn call_label(tool: Seq<char>, sub: Option<Seq<char>>) -> Seq<char> {
    match sub {
        Some(s) => tool + ":"@ + s,
        None => tool,
    }
}

/// The class of a call: the rule for `tool:sub` if there is one, else the
/// rule for `tool`, else the default class.
pub open spec fn classify_spec(
    rules: Seq<(Seq<char>, OperationClass)>,
    default_class: OperationClass,
    tool: Seq<char>,
    sub: Option<Seq<char>>,
) -> OperationClass {
    match sub {
        Some(s) if lookup(rules, tool + ":"@ + s) is Some => lookup(rules, tool + ":"@ + s)->0,
        _ => match lookup(rules, tool) {
            Some(c) => c,
            None => default_class,
        },
    }
}

/// Maps tool names (optionally with `:subcommand`) to operation classes.
pub struct PermissionRegistry {
    /// The rules, looked up by key: the first rule with the key applies.
    rules: Vec<(String, OperationClass)>,
    default_class: OperationClass,
}

impl PermissionRegistry {
    /// The rules, in order, by their views.
    pub closed spec fn rules_view(&self) -> Seq<(Seq<char>, OperationClass)> {
        self.rules@.map_values(|r: (String, OperationClass)| (r.0@, r.1))
    }

    /// The class of tools that no rule names.
    pub closed spec fn default_class(&self) -> OperationClass {
        self.default_class
    }

    /// The class that this registry gives a call.
    pub open spec fn class_of(&self, tool: Seq<char>, sub: Option<Seq<char>>) -> OperationClass {
        classify_spec(self.rules_view(), self.default_class(), tool, sub)
    }

    /// A registry with the built-in rules; unknown tools are `UnsafeExec`.
    pub fn new() -> (r: Self)
        ensures
            r.rules_view() == default_rules(),
            r.default_class() == OperationClass::UnsafeExec,
    {
        let mut rules: Vec<(String, OperationClass)> = Vec::new();
        rules.push(("read_file".to_owned(), OperationClass::Read));
        rules.push(("list_directory".to_owned(), OperationClass::Read));
        rules.push(("search_files".to_owned(), OperationClass::Read));
        rules.push(("grep".to_owned(), OperationClass::Read));
        rules.push(("glob".to_owned(), OperationClass::Read));
        rules.push(("write_file".to_owned(), OperationClass::Write));
        rules.push(("edit_file".to_owned(), OperationClass::Write));
        rules.push(("git:status".to_owned(), OperationClass::Read));
        rules.push(("git:diff".to_owned(), OperationClass::Read));
        rules.push(("git:log".to_owned(), OperationClass::Read));
        rules.push(("git:add".to_owned(), OperationClass::Write));
        rules.push(("git:commit".to_owned(), OperationClass::Write));
        rules.push(("git:push".to_owned(), OperationClass::UnsafeExec));
        rules.push(("git:push --force".to_owned(), OperationClass::Destructive));
        rules.push(("git:reset --hard".to_owned(), OperationClass::Destructive));
        rules.push(("shell:safe".to_owned(), OperationClass::SafeExec));
        rules.push(("shell:unsafe".to_owned(), OperationClass::UnsafeExec));
        let r = Self { rules, default_class: OperationClass::UnsafeExec };
        assert(r.rules_view() == default_rules());
        r
    }

    /// The class of the first rule with the given key, if any.
    fn find(&self, key: &str) -> (r: Option<OperationClass>)
        ensures
            r == lookup(self.rules_view(), key@),
    {
        let mut i: usize = 0;
        assert(self.rules_view().skip(0) == self.rules_view());
        while i < self.rules.len()
            invariant
                0 <= i <= self.rules@.len(),
                self.rules_view().len() == self.rules@.len(),
                lookup(self.rules_view(), key@) == lookup(self.rules_view().skip(i as int), key@),
            decreases self.rules.len() - i,
        {
            let ghost rest = self.rules_view().skip(i as int);
            assert(rest[0] == (self.rules@[i as int].0@, self.rules@[i as int].1));
            if str_eq(self.rules[i].0.as_str(), key) {
                return Some(self.rules[i].1);
            }
            assert(rest.drop_first() == self.rules_view().skip(i + 1));
            i = i + 1;
        }
        assert(self.rules_view().skip(i as int).len() == 0);
        None
    }

    /// Look up the class for `tool` (optionally with `:subcommand`).
    pub fn classify(&self, tool: &str, subcommand: Option<&str>) -> (c: OperationClass)
        ensures
            c == self.class_of(
                tool@,
                match subcommand {
                    Some(s) => Some(s@),
                    None => None,
                },
            ),
    {
        if let Some(sub) = subcommand {
            let mut key = tool.to_owned();
            push_str(&mut key, ":");
            push_str(&mut key, sub);
            if let Some(cls) = self.find(key.as_str()) {
                return cls;
            }
        }
        match self.find(tool) {
            Some(c) => c,
            None => self.default_class,
        }
    }
}

// ---------------------------------------------------------------------------
// Level-based permission decisions
// ---------------------------------------------------------------------------

/// Three-way outcome of a permission check.
#[derive(Debug, Clone, PartialEq, Eq)]
pub enum PermissionDecision {
    Allowed,
    NeedsApproval { reason: String },
    Denied { reason: String },
}

/// A permission decision by its reason text.
pub enum DecisionView {
    Allowed,
    NeedsApproval(Seq<char>),
    Denied(Seq<char>),
}

impl View for PermissionDecision {
    type V = DecisionView;

    open spec fn view(&self) -> DecisionView {
        match self {
            PermissionDecision::Allowed => DecisionView::Allowed,
            PermissionDecision::NeedsApproval { reason } => DecisionView::NeedsApproval(reason@),
            PermissionDecision::Denied { reason } => DecisionView::Denied(reason@),
        }
    }
}

/// The level-based decision for a call of class `c` at level `l`.
pub open spec fn gate_decision(
    l: PermissionLevel,
    c: OperationClass,
    tool: Seq<char>,
    sub: Option<Seq<char>>,
) -> DecisionView {
    if rank(l) < rank(required_level(c)) {
        DecisionView::Denied(
            "Requires "@ + level_label(required_level(c)) + " permission, current level is "@
                + level_label(l),
        )
    } else if needs_approval(c, l) {
        DecisionView::NeedsApproval(
            "'"@ + call_label(tool, sub) + "' classified as "@ + class_name(c)
                + " \u{2014} requires approval"@,
        )
    } else {
        DecisionView::Allowed
    }
}

/// The optional subcommand by its view.
pub open spec fn opt_view(o: Option<&str>) -> Option<Seq<char>> {
    match o {
        Some(s) => Some(s@),
        None => None,
    }
}

/// Decides, from the current level and the registry, whether a call may run.
pub struct PermissionGate {
    level: PermissionLevel,
    registry: PermissionRegistry,
}

impl PermissionGate {
    /// The current level.
    pub closed spec fn level_spec(&self) -> PermissionLevel {
        self.level
    }

    /// The registry that classifies calls.
    pub closed spec fn registry_spec(&self) -> PermissionRegistry {
        self.registry
    }

    /// The decision that this checker gives a call.
    pub open spec fn decision(&self, tool: Seq<char>, sub: Option<Seq<char>>) -> DecisionView {
        gate_decision(self.level_spec(), self.registry_spec().class_of(tool, sub), tool, sub)
    }

    /// A checker at `level` with the built-in registry.
    pub fn new(level: PermissionLevel) -> (g: Self)
        ensures
            g.level_spec() == level,
            g.registry_spec().rules_view() == default_rules(),
            g.registry_spec().default_class() == OperationClass::UnsafeExec,
    {
        Self { level, registry: PermissionRegistry::new() }
    }

    /// Check a call: denied when the level is below what its class
    /// requires, in need of approval when the class asks for it at this
    /// level, allowed otherwise.
    pub fn check(&self, tool: &str, subcommand: Option<&str>) -> (d: PermissionDecision)
        ensures
            d@ == self.decision(tool@, opt_view(subcommand)),
    {
        let cls = self.registry.classify(tool, subcommand);
        let required = cls.required_permission();
        if self.level.rank() < required.rank() {
            let mut reason = String::new();
            push_str(&mut reason, "Requires ");
            push_str(&mut reason, required.label());
            push_str(&mut reason, " permission, current level is ");
            push_str(&mut reason, self.level.label());
            assert(reason@ == "Requires "@ + level_label(required) + " permission, current level is "@
                + level_label(self.level));
            return PermissionDecision::Denied { reason };
        }
        if cls.requires_approval(self.level) {
            let mut reason = String::new();
            push_str(&mut reason, "'");
            push_str(&mut reason, tool);
            if let Some(s) = subcommand {
                push_str(&mut reason, ":");
                push_str(&mut reason, s);
            }
            push_str(&mut reason, "' classified as ");
            push_str(&mut reason, cls.name());
            push_str(&mut reason, " \u{2014} requires approval");
            assert(reason@ == "'"@ + call_label(tool@, opt_view(subcommand)) + "' classified as "@
                + class_name(cls) + " \u{2014} requires approval"@);
            return PermissionDecision::NeedsApproval { reason };
        }
        PermissionDecision::Allowed
    }

    /// Change the current level.
    pub fn set_level(&mut self, level: PermissionLevel)
        ensures
            final(self).level_spec() == level,
            final(self).registry_spec() == old(self).registry_spec(),
    {
        self.level = level;
    }

    /// The current level.
    pub fn level(&self) -> (l: PermissionLevel)
        ensures
            l == self.level_spec(),
    {
        self.level
    }
}

// ---------------------------------------------------------------------------
// Command filter
// ---------------------------------------------------------------------------

/// Outcome of a filter check.
#[derive(Debug, Clone, PartialEq, Eq)]
pub enum FilterVerdict {
    Allowed,
    Blocked(String),
}

/// A filter verdict by its reason text.
pub enum VerdictView {
    Allowed,
    Blocked(Seq<char>),
}

impl View for FilterVerdict {
    type V = VerdictView;

    open spec fn view(&self) -> VerdictView {
        match self {
            FilterVerdict::Allowed => VerdictView::Allowed,
            FilterVerdict::Blocked(r) => VerdictView::Blocked(r@),
        }
    }
}

/// A text pattern with the reason for refusing what matches it.
struct DenyPattern {
    pattern: String,
    reason: String,
}

/// The first deny rule whose pattern occurs in `t`.
pub open spec fn first_hit(denied: Seq<(Seq<char>, Seq<char>)>, t: Seq<char>) -> Option<
    (Seq<char>, Seq<char>),
>
    decreases denied.len(),
{
    if denied.len() == 0 {
        None
    } else if contains(t, denied[0].0) {
        Some(denied[0])
    } else {
        first_hit(denied.drop_first(), t)
    }
}

/// The verdict on a shell command: its executable (first word of the
/// trimmed command) must be on a non-empty allowlist, then no deny pattern
/// may occur in the trimmed command.
pub open spec fn command_verdict(
    allowed: Seq<Seq<char>>,
    denied: Seq<(Seq<char>, Seq<char>)>,
    command: Seq<char>,
) -> VerdictView {
    let t = trim(command);
    let exe = first_token(t);
    if allowed.len() > 0 && !allowed.contains(exe) {
        VerdictView::Blocked("Executable '"@ + exe + "' is not on the allowlist"@)
    } else {
        match first_hit(denied, t) {
            Some(d) => VerdictView::Blocked("Matches blocked pattern '"@ + d.0 + "': "@ + d.1),
            None => VerdictView::Allowed,
        }
    }
}

/// The executables that the default filter allows.
pub open spec fn default_allowed() -> Seq<Seq<char>> {
    seq![
        "cargo"@, "rustc"@, "npm"@, "node"@, "python"@, "python3"@, "pip"@, "pip3"@,
        "make"@, "ls"@, "cat"@, "head"@, "tail"@, "wc"@, "grep"@, "rg"@, "find"@,
        "sort"@, "uniq"@, "diff"@, "echo"@, "pwd"@, "which"@, "tree"@, "git"@,
    ]
}

/// The deny patterns of the default filter, with their reasons.
pub open spec fn default_denied() -> Seq<(Seq<char>, Seq<char>)> {
    seq![
        ("rm -rf /"@, "Recursive delete from root"@),
        ("rm -rf ~"@, "Recursive delete from home"@),
        ("rm -rf ."@, "Recursive delete of current directory"@),
        ("> /dev/sda"@, "Direct write to block device"@),
        ("mkfs."@, "Filesystem format command"@),
        ("dd if="@, "Raw disk operation"@),
        (":(){ :|:& };:"@, "Fork bomb"@),
        ("chmod 777"@, "Overly permissive file permissions"@),
        ("chmod -R 777"@, "Recursive overly permissive permissions"@),
    ]
}

/// Allowlist of executables and denylist of patterns for shell commands.
pub struct CommandFilter {
    /// The allowed executables.
    allowed_executables: Vec<String>,
    denied_patterns: Vec<DenyPattern>,
}

impl CommandFilter {
    /// The allowed executables, by their views.
    pub closed spec fn allowed_view(&self) -> Seq<Seq<char>> {
        self.allowed_executables@.map_values(|s: String| s@)
    }

    /// The deny patterns and their reasons, by their views.
    pub closed spec fn denied_view(&self) -> Seq<(Seq<char>, Seq<char>)> {
        self.denied_patterns@.map_values(|d: DenyPattern| (d.pattern@, d.reason@))
    }

    /// The verdict of this filter on a command.
    pub open spec fn verdict(&self, command: Seq<char>) -> VerdictView {
        command_verdict(self.allowed_view(), self.denied_view(), command)
    }

    /// Sensible defaults for a coding-agent context.
    pub fn with_defaults() -> (f: Self)
        ensures
            f.allowed_view() == default_allowed(),
            f.denied_view() == default_denied(),
    {
        let mut allowed: Vec<String> = Vec::new();
        allowed.push("cargo".to_owned());
        allowed.push("rustc".to_owned());
        allowed.push("npm".to_owned());
        allowed.push("node".to_owned());
        allowed.push("python".to_owned());
        allowed.push("python3".to_owned());
        allowed.push("pip".to_owned());
        allowed.push("pip3".to_owned());
        allowed.push("make".to_owned());
        allowed.push("ls".to_owned());
        allowed.push("cat".to_owned());
        allowed.push("head".to_owned());
        allowed.push("tail".to_owned());
        allowed.push("wc".to_owned());
        allowed.push("grep".to_owned());
        allowed.push("rg".to_owned());
        allowed.push("find".to_owned());
        allowed.push("sort".to_owned());
        allowed.push("uniq".to_owned());
        allowed.push("diff".to_owned());
        allowed.push("echo".to_owned());
        allowed.push("pwd".to_owned());
        allowed.push("which".to_owned());
        allowed.push("tree".to_owned());
        allowed.push("git".to_owned());
        let mut denied: Vec<DenyPattern> = Vec::new();
        denied.push(DenyPattern { pattern: "rm -rf /".to_owned(), reason: "Recursive delete from root".to_owned() });
        denied.push(DenyPattern { pattern: "rm -rf ~".to_owned(), reason: "Recursive delete from home".to_owned() });
        denied.push(DenyPattern { pattern: "rm -rf .".to_owned(), reason: "Recursive delete of current directory".to_owned() });
        denied.push(DenyPattern { pattern: "> /dev/sda".to_owned(), reason: "Direct write to block device".to_owned() });
        denied.push(DenyPattern { pattern: "mkfs.".to_owned(), reason: "Filesystem format command".to_owned() });
        denied.push(DenyPattern { pattern: "dd if=".to_owned(), reason: "Raw disk operation".to_owned() });
        denied.push(DenyPattern { pattern: ":(){ :|:& };:".to_owned(), reason: "Fork bomb".to_owned() });
        denied.push(DenyPattern { pattern: "chmod 777".to_owned(), reason: "Overly permissive file permissions".to_owned() });
        denied.push(DenyPattern { pattern: "chmod -R 777".to_owned(), reason: "Recursive overly permissive permissions".to_owned() });
        let f = Self { allowed_executables: allowed, denied_patterns: denied };
        assert(f.allowed_view() == default_allowed());
        assert(f.denied_view() == default_denied());
        f
    }

    /// Whether `exe` is on the allowlist.
    fn allows(&self, exe: &[char]) -> (b: bool)
        ensures
            b == self.allowed_view().contains(exe@),
    {
        let mut i: usize = 0;
        while i < self.allowed_executables.len()
            invariant
                0 <= i <= self.allowed_executables@.len(),
                self.allowed_view().len() == self.allowed_executables@.len(),
                forall|k: int| 0 <= k < i ==> self.allowed_view()[k] != exe@,
            decreases self.allowed_executables.len() - i,
        {
            let name = chars_of(self.allowed_executables[i].as_str());
            if crate::text::chars_eq(name.as_slice(), exe) {
                assert(self.allowed_view()[i as int] == exe@);
                return true;
            }
            i = i + 1;
        }
        false
    }

    /// Check a shell command against the allowlist, then the denylist.
    pub fn check_command(&self, command: &str) -> (v: FilterVerdict)
        ensures
            v@ == self.verdict(command@),
    {
        let trimmed = trimmed_chars(command);
        let n = first_token_of(trimmed.as_slice());
        let exe = sub_vec(trimmed.as_slice(), 0, n);
        assert(exe@ == trimmed@.take(n as int));
        assert(self.allowed_view().len() == self.allowed_executables@.len());
        if self.allowed_executables.len() > 0 && !self.allows(exe.as_slice()) {
            let mut reason = String::new();
            push_str(&mut reason, "Executable '");
            push_chars(&mut reason, exe.as_slice(), 0, exe.len());
            push_str(&mut reason, "' is not on the allowlist");
            assert(exe@.subrange(0, exe@.len() as int) == exe@);
            return FilterVerdict::Blocked(reason);
        }
        let mut i: usize = 0;
        assert(self.denied_view().skip(0) == self.denied_view());
        while i < self.denied_patterns.len()
            invariant
                0 <= i <= self.denied_patterns@.len(),
                self.denied_view().len() == self.denied_patterns@.len(),
                trimmed@ == trim(command@),
                !(self.allowed_view().len() > 0 && !self.allowed_view().contains(
                    first_token(trimmed@),
                )),
                first_hit(self.denied_view(), trimmed@) == first_hit(
                    self.denied_view().skip(i as int),
                    trimmed@,
                ),
            decreases self.denied_patterns.len() - i,
        {
            let ghost rest = self.denied_view().skip(i as int);
            assert(rest[0] == (self.denied_patterns@[i as int].pattern@, self.denied_patterns@[i as int].reason@));
            let pattern = chars_of(self.denied_patterns[i].pattern.as_str());
            if contains_chars(trimmed.as_slice(), pattern.as_slice()) {
                assert(first_hit(rest, trimmed@) == Some(rest[0]));
                let mut reason = String::new();
                push_str(&mut reason, "Matches blocked pattern '");
                push_str(&mut reason, self.denied_patterns[i].pattern.as_str());
                push_str(&mut reason, "': ");
                push_str(&mut reason, self.denied_patterns[i].reason.as_str());
                assert(reason@ == "Matches blocked pattern '"@ + rest[0].0 + "': "@ + rest[0].1);
                return FilterVerdict::Blocked(reason);
            }
            assert(rest.drop_first() == self.denied_view().skip(i + 1));
            i = i + 1;
        }
        assert(self.denied_view().skip(i as int).len() == 0);
        FilterVerdict::Allowed
    }
}

// ---------------------------------------------------------------------------
// Path filter
// ---------------------------------------------------------------------------

/// A path pattern with the reason for refusing what matches it.
struct PathPattern {
    pattern: String,
    reason: String,
}

/// The first path rule whose pattern is the file name or ends the path.
pub open spec fn first_path_hit(
    denied: Seq<(Seq<char>, Seq<char>)>,
    name: Seq<char>,
    path: Seq<char>,
) -> Option<(Seq<char>, Seq<char>)>
    decreases denied.len(),
{
    if denied.len() == 0 {
        None
    } else if name == denied[0].0 || ends_with(path, denied[0].0) {
        Some(denied[0])
    } else {
        first_path_hit(denied.drop_first(), name, path)
    }
}

/// The verdict on a path: no sensitive pattern may name it, and it must
/// lie under one of the allowed roots when there are any.
pub open spec fn path_verdict(
    denied: Seq<(Seq<char>, Seq<char>)>,
    roots: Seq<Seq<char>>,
    path: Seq<char>,
) -> VerdictView {
    let name = match std_file_name(path) {
        Some(n) => n,
        None => Seq::<char>::empty(),
    };
    match first_path_hit(denied, name, path) {
        Some(d) => VerdictView::Blocked("Path '"@ + d.0 + "' is denied: "@ + d.1),
        None => if roots.len() > 0 && !(exists|i: int|
            0 <= i < roots.len() && std_path_starts_with(path, #[trigger] roots[i])) {
            VerdictView::Blocked(
                "Path "@ + path + " is outside allowed project directories"@,
            )
        } else {
            VerdictView::Allowed
        },
    }
}

/// The sensitive path patterns of the default filter, with their reasons.
pub open spec fn default_denied_paths() -> Seq<(Seq<char>, Seq<char>)> {
    seq![
        (".env"@, "May contain secrets"@),
        (".env.local"@, "May contain secrets"@),
        ("id_rsa"@, "SSH private key"@),
        ("id_ed25519"@, "SSH private key"@),
        (".aws/credentials"@, "AWS credentials"@),
        ("credentials.json"@, "Credentials file"@),
        (".npmrc"@, "npm auth tokens"@),
    ]
}

/// Workspace boundary and sensitive-file denylist for file paths.
pub struct PathFilter {
    denied_paths: Vec<PathPattern>,
    allowed_roots: Vec<String>,
}

impl PathFilter {
    /// The sensitive patterns and their reasons, by their views.
    pub closed spec fn denied_view(&self) -> Seq<(Seq<char>, Seq<char>)> {
        self.denied_paths@.map_values(|d: PathPattern| (d.pattern@, d.reason@))
    }

    /// The allowed roots, by their views.
    pub closed spec fn roots_view(&self) -> Seq<Seq<char>> {
        self.allowed_roots@.map_values(|s: String| s@)
    }

    /// The verdict of this filter on a path.
    pub open spec fn verdict(&self, path: Seq<char>) -> VerdictView {
        path_verdict(self.denied_view(), self.roots_view(), path)
    }

    /// The default sensitive patterns, with `project_root` as the only root.
    pub fn with_defaults(project_root: &str) -> (f: Self)
        ensures
            f.denied_view() == default_denied_paths(),
            f.roots_view() == seq![project_root@],
    {
        let mut denied: Vec<PathPattern> = Vec::new();
        denied.push(PathPattern { pattern: ".env".to_owned(), reason: "May contain secrets".to_owned() });
        denied.push(PathPattern { pattern: ".env.local".to_owned(), reason: "May contain secrets".to_owned() });
        denied.push(PathPattern { pattern: "id_rsa".to_owned(), reason: "SSH private key".to_owned() });
        denied.push(PathPattern { pattern: "id_ed25519".to_owned(), reason: "SSH private key".to_owned() });
        denied.push(PathPattern { pattern: ".aws/credentials".to_owned(), reason: "AWS credentials".to_owned() });
        denied.push(PathPattern { pattern: "credentials.json".to_owned(), reason: "Credentials file".to_owned() });
        denied.push(PathPattern { pattern: ".npmrc".to_owned(), reason: "npm auth tokens".to_owned() });
        let mut roots: Vec<String> = Vec::new();
        roots.push(project_root.to_owned());
        let f = Self { denied_paths: denied, allowed_roots: roots };
        assert(f.denied_view() == default_denied_paths());
        assert(f.roots_view() == seq![project_root@]);
        f
    }

    /// Whether `path` lies under one of the allowed roots.
    fn under_some_root(&self, path: &str) -> (b: bool)
        ensures
            b == exists|i: int|
                0 <= i < self.roots_view().len() && std_path_starts_with(
                    path@,
                    #[trigger] self.roots_view()[i],
                ),
    {
        let mut k: usize = 0;
        while k < self.allowed_roots.len()
            invariant
                0 <= k <= self.allowed_roots@.len(),
                self.roots_view().len() == self.allowed_roots@.len(),
                forall|j: int|
                    0 <= j < k ==> !std_path_starts_with(path@, #[trigger] self.roots_view()[j]),
            decreases self.allowed_roots.len() - k,
        {
            if path_starts_with(path, self.allowed_roots[k].as_str()) {
                assert(std_path_starts_with(path@, self.roots_view()[k as int]));
                return true;
            }
            k = k + 1;
        }
        false
    }

    /// Check a path against the sensitive patterns, then the roots.
    pub fn check_path(&self, path: &str) -> (v: FilterVerdict)
        ensures
            v@ == self.verdict(path@),
    {
        let name = match file_name(path) {
            Some(n) => n,
            None => String::new(),
        };
        let ghost name_v = match std_file_name(path@) {
            Some(n) => n,
            None => Seq::<char>::empty(),
        };
        assert(name@ == name_v);
        let path_chars = chars_of(path);
        let mut i: usize = 0;
        assert(self.denied_view().skip(0) == self.denied_view());
        while i < self.denied_paths.len()
            invariant
                0 <= i <= self.denied_paths@.len(),
                self.denied_view().len() == self.denied_paths@.len(),
                name@ == name_v,
                name_v == match std_file_name(path@) {
                    Some(n) => n,
                    None => Seq::<char>::empty(),
                },
                path_chars@ == path@,
                first_path_hit(self.denied_view(), name_v, path@) == first_path_hit(
                    self.denied_view().skip(i as int),
                    name_v,
                    path@,
                ),
            decreases self.denied_paths.len() - i,
        {
            let ghost rest = self.denied_view().skip(i as int);
            assert(rest[0] == (self.denied_paths@[i as int].pattern@, self.denied_paths@[i as int].reason@));
            let pattern = chars_of(self.denied_paths[i].pattern.as_str());
            if str_eq(name.as_str(), self.denied_paths[i].pattern.as_str())
                || ends_with_chars(path_chars.as_slice(), pattern.as_slice()) {
                assert(first_path_hit(rest, name_v, path@) == Some(rest[0]));
                let mut reason = String::new();
                push_str(&mut reason, "Path '");
                push_str(&mut reason, self.denied_paths[i].pattern.as_str());
                push_str(&mut reason, "' is denied: ");
                push_str(&mut reason, self.denied_paths[i].reason.as_str());
                assert(reason@ == "Path '"@ + rest[0].0 + "' is denied: "@ + rest[0].1);
                return FilterVerdict::Blocked(reason);
            }
            assert(rest.drop_first() == self.denied_view().skip(i + 1));
            i = i + 1;
        }
        assert(self.denied_view().skip(i as int).len() == 0);
        assert(self.roots_view().len() == self.allowed_roots@.len());
        if self.allowed_roots.len() > 0 && !self.under_some_root(path) {
            let mut reason = String::new();
            push_str(&mut reason, "Path ");
            push_str(&mut reason, path);
            push_str(&mut reason, " is outside allowed project directories");
            return FilterVerdict::Blocked(reason);
        }
        FilterVerdict::Allowed
    }
}

// ---------------------------------------------------------------------------
// Permission manager
// ---------------------------------------------------------------------------

/// Owns every safety layer and the tools that the user approved for good.
pub struct PermissionManager {
    pub gate: PermissionGate,
    pub command_filter: CommandFilter,
    pub path_filter: PathFilter,
    /// The tools approved for good, each once.
    always_approved_tools: Vec<String>,
}

/// The decision for a shell command whose filter verdict is `v`, when the
/// level-based decision for `shell:unsafe` is `d`.
pub open spec fn shell_decision(v: VerdictView, d: DecisionView) -> DecisionView {
    match v {
        VerdictView::Blocked(reason) => DecisionView::Denied(reason),
        VerdictView::Allowed => d,
    }
}

impl PermissionManager {
    /// The level-based checker.
    pub closed spec fn gate_view(&self) -> PermissionGate {
        self.gate
    }

    /// The command filter.
    pub closed spec fn command_filter_view(&self) -> CommandFilter {
        self.command_filter
    }

    /// The path filter.
    pub closed spec fn path_filter_view(&self) -> PathFilter {
        self.path_filter
    }

    /// The tools approved for the rest of the session, by their views.
    pub closed spec fn approved(&self) -> Seq<Seq<char>> {
        self.always_approved_tools@.map_values(|s: String| s@)
    }

    /// The decision for a tool call, taking standing approvals into account.
    pub open spec fn tool_decision(&self, tool: Seq<char>, sub: Option<Seq<char>>) -> DecisionView {
        if self.approved().contains(tool) {
            DecisionView::Allowed
        } else {
            self.gate_view().decision(tool, sub)
        }
    }

    /// The decision for a shell command.
    pub open spec fn shell_command_decision(&self, command: Seq<char>) -> DecisionView {
        shell_decision(
            self.command_filter_view().verdict(command),
            self.gate_view().decision("shell"@, Some("unsafe"@)),
        )
    }

    /// A manager at `level` with the default filters rooted at
    /// `project_root`, and no standing approvals.
    pub fn new(level: PermissionLevel, project_root: &str) -> (m: Self)
        ensures
            m.gate_view().level_spec() == level,
            m.gate_view().registry_spec().rules_view() == default_rules(),
            m.gate_view().registry_spec().default_class() == OperationClass::UnsafeExec,
            m.command_filter_view().allowed_view() == default_allowed(),
            m.command_filter_view().denied_view() == default_denied(),
            m.path_filter_view().denied_view() == default_denied_paths(),
            m.path_filter_view().roots_view() == seq![project_root@],
            m.approved() == Seq::<Seq<char>>::empty(),
    {
        let m = Self {
            gate: PermissionGate::new(level),
            command_filter: CommandFilter::with_defaults(),
            path_filter: PathFilter::with_defaults(project_root),
            always_approved_tools: Vec::new(),
        };
        assert(m.approved() == Seq::<Seq<char>>::empty());
        m
    }

    /// Whether `tool` has a standing approval.
    fn is_approved(&self, tool: &str) -> (b: bool)
        ensures
            b == self.approved().contains(tool@),
    {
        let mut i: usize = 0;
        while i < self.always_approved_tools.len()
            invariant
                0 <= i <= self.always_approved_tools@.len(),
                self.approved().len() == self.always_approved_tools@.len(),
                forall|k: int| 0 <= k < i ==> self.approved()[k] != tool@,
            decreases self.always_approved_tools.len() - i,
        {
            if str_eq(self.always_approved_tools[i].as_str(), tool) {
                assert(self.approved()[i as int] == tool@);
                return true;
            }
            i = i + 1;
        }
        false
    }

    /// Check a tool call (not a shell command): allowed outright when the
    /// user approved the tool for good, else the level-based check decides.
    pub fn check_tool(&self, tool: &str, subcommand: Option<&str>) -> (d: PermissionDecision)
        ensures
            d@ == self.tool_decision(tool@, opt_view(subcommand)),
    {
        if self.is_approved(tool) {
            return PermissionDecision::Allowed;
        }
        self.gate.check(tool, subcommand)
    }

    /// Check a shell command against the command filter first, then the
    /// level-based check as `shell:unsafe`.
    pub fn check_shell_command(&self, command: &str) -> (d: PermissionDecision)
        ensures
            d@ == self.shell_command_decision(command@),
    {
        match self.command_filter.check_command(command) {
            FilterVerdict::Blocked(reason) => {
                return PermissionDecision::Denied { reason };
            },
            FilterVerdict::Allowed => {},
        }
        self.gate.check("shell", Some("unsafe"))
    }

    /// Check a file path for read/write access.
    pub fn check_path(&self, path: &str) -> (v: FilterVerdict)
        ensures
            v@ == self.path_filter_view().verdict(path@),
    {
        self.path_filter.check_path(path)
    }

    /// Mark a tool as always-approved for this session.
    pub fn approve_always(&mut self, tool: &str)
        ensures
            final(self).approved() == (if old(self).approved().contains(tool@) {
                old(self).approved()
            } else {
                old(self).approved().push(tool@)
            }),
            final(self).gate_view() == old(self).gate_view(),
            final(self).command_filter_view() == old(self).command_filter_view(),
            final(self).path_filter_view() == old(self).path_filter_view(),
    {
        if !self.is_approved(tool) {
            self.always_approved_tools.push(tool.to_owned());
            assert(self.approved() == old(self).approved().push(tool@));
        }
    }
}

// ---------------------------------------------------------------------------
// Approval answers and guarded execution
// ---------------------------------------------------------------------------

/// The user's answer to an approval prompt.
#[derive(Debug, Clone, Copy, PartialEq, Eq, Structural)]
pub enum ApprovalResponse {
    ApproveOnce,
    ApproveAlways,
    Deny,
    AbortSession,
}

/// The answer that a normalized (trimmed, lowercased) reply stands for.
pub open spec fn answer_of(reply: Seq<char>) -> Option<ApprovalResponse> {
    if reply == "y"@ || reply == "yes"@ {
        Some(ApprovalResponse::ApproveOnce)
    } else if reply == "a"@ || reply == "always"@ {
        Some(ApprovalResponse::ApproveAlways)
    } else if reply == "n"@ || reply == "no"@ {
        Some(ApprovalResponse::Deny)
    } else if reply == "q"@ || reply == "quit"@ || reply == "abort"@ {
        Some(ApprovalResponse::AbortSession)
    } else {
        None
    }
}

/// Interpret one line typed at the approval prompt: trimmed and lowercased,
/// `y`/`yes`, `a`/`always`, `n`/`no` and `q`/`quit`/`abort` are answers;
/// anything else asks again (`None`).
pub fn parse_approval(input: &str) -> (r: Option<ApprovalResponse>)
    ensures
        r == answer_of(std_to_lowercase(trim(input@))),
{
    let t = trimmed_chars(input);
    let ts = crate::text::string_of(t.as_slice());
    let lower = to_lowercase(ts.as_str());
    let l = lower.as_str();
    if str_eq(l, "y") || str_eq(l, "yes") {
        Some(ApprovalResponse::ApproveOnce)
    } else if str_eq(l, "a") || str_eq(l, "always") {
        Some(ApprovalResponse::ApproveAlways)
    } else if str_eq(l, "n") || str_eq(l, "no") {
        Some(ApprovalResponse::Deny)
    } else if str_eq(l, "q") || str_eq(l, "quit") || str_eq(l, "abort") {
        Some(ApprovalResponse::AbortSession)
    } else {
        None
    }
}

/// Outcome of a guarded tool or shell execution.
#[derive(Debug)]
pub enum ToolResult {
    Success(String),
    Denied(String),
    SessionAborted,
}

/// A tool result by its text.
pub enum ToolResultView {
    Success(Seq<char>),
    Denied(Seq<char>),
    SessionAborted,
}

impl View for ToolResult {
    type V = ToolResultView;

    open spec fn view(&self) -> ToolResultView {
        match self {
            ToolResult::Success(s) => ToolResultView::Success(s@),
            ToolResult::Denied(s) => ToolResultView::Denied(s@),
            ToolResult::SessionAborted => ToolResultView::SessionAborted,
        }
    }
}

/// The result reported for a tool run that returned `out`.
pub open spec fn run_result(out: Result<String, String>) -> ToolResultView {
    match out {
        Ok(s) => ToolResultView::Success(s@),
        Err(e) => ToolResultView::Denied("Execution error: "@ + e@),
    }
}

fn report_run(out: Result<String, String>) -> (r: ToolResult)
    ensures
        r@ == run_result(out),
{
    match out {
        Ok(s) => ToolResult::Success(s),
        Err(e) => {
            let mut m = "Execution error: ".to_owned();
            push_str(&mut m, e.as_str());
            ToolResult::Denied(m)
        },
    }
}

/// The prompt shown when a call needs approval.
pub open spec fn approval_prompt(description: Seq<char>, reason: Seq<char>) -> Seq<char> {
    description + "\n  Reason: "@ + reason
}

/// Execute a tool call with the full safety pipeline: the manager's
/// decision, then (when it asks for it) the user's answer from `approve`,
/// then `execute`. An "always" answer gives the tool a standing approval.
pub fn execute_tool<A, E>(
    mgr: &mut PermissionManager,
    tool: &str,
    subcommand: Option<&str>,
    description: &str,
    approve: A,
    execute: E,
) -> (r: ToolResult) where
    A: FnOnce(String) -> Result<ApprovalResponse, String>,
    E: FnOnce() -> Result<String, String>,

    requires
        forall|p: String| call_requires(approve, (p,)),
        call_requires(execute, ()),
    ensures
        match old(mgr).tool_decision(tool@, opt_view(subcommand)) {
            DecisionView::Denied(reason) => r@ == ToolResultView::Denied(reason) && *final(mgr)
                == *old(mgr),
            DecisionView::Allowed => *final(mgr) == *old(mgr) && exists|out|
                call_ensures(execute, (), out) && r@ == run_result(out),
            DecisionView::NeedsApproval(reason) => exists|p: String, answer|
                p@ == approval_prompt(description@, reason) && call_ensures(
                    approve,
                    (p,),
                    answer,
                ) && match answer {
                    Ok(ApprovalResponse::ApproveOnce) => *final(mgr) == *old(mgr) && exists|out|
                        call_ensures(execute, (), out) && r@ == run_result(out),
                    Ok(ApprovalResponse::ApproveAlways) => final(mgr).approved() == (if old(
                        mgr,
                    ).approved().contains(tool@) {
                        old(mgr).approved()
                    } else {
                        old(mgr).approved().push(tool@)
                    }) && final(mgr).gate_view() == old(mgr).gate_view() && final(mgr).command_filter_view() == old(
                        mgr,
                    ).command_filter_view() && final(mgr).path_filter_view() == old(mgr).path_filter_view() && exists|
                        out,
                    | call_ensures(execute, (), out) && r@ == run_result(out),
                    Ok(ApprovalResponse::Deny) => *final(mgr) == *old(mgr) && r@
                        == ToolResultView::Denied("User denied the operation"@),
                    Ok(ApprovalResponse::AbortSession) => *final(mgr) == *old(mgr) && r@
                        == ToolResultView::SessionAborted,
                    Err(e) => *final(mgr) == *old(mgr) && r@ == ToolResultView::Denied(
                        "Approval I/O error: "@ + e@,
                    ),
                },
        },
{
    let decision = mgr.check_tool(tool, subcommand);
    match decision {
        PermissionDecision::Allowed => {
            let out = execute();
            report_run(out)
        },
        PermissionDecision::NeedsApproval { reason } => {
            let mut prompt = description.to_owned();
            push_str(&mut prompt, "\n  Reason: ");
            push_str(&mut prompt, reason.as_str());
            let ghost p = prompt;
            let answer = approve(prompt);
            match answer {
                Ok(ApprovalResponse::ApproveOnce) => {
                    let out = execute();
                    report_run(out)
                },
                Ok(ApprovalResponse::ApproveAlways) => {
                    mgr.approve_always(tool);
                    let out = execute();
                    report_run(out)
                },
                Ok(ApprovalResponse::Deny) => ToolResult::Denied(
                    "User denied the operation".to_owned(),
                ),
                Ok(ApprovalResponse::AbortSession) => ToolResult::SessionAborted,
                Err(e) => {
                    let mut m = "Approval I/O error: ".to_owned();
                    push_str(&mut m, e.as_str());
                    ToolResult::Denied(m)
                },
            }
        },
        PermissionDecision::Denied { reason } => ToolResult::Denied(reason),
    }
}

/// What running a shell command gave: whether it exited successfully with
/// its standard output and standard error, or why it could not start.
pub type ShellRun = Result<(bool, String, String), String>;

/// The result reported for a shell run.
pub open spec fn shell_result(run: ShellRun) -> ToolResultView {
    match run {
        Ok((true, stdout, _)) => ToolResultView::Success(stdout@),
        Ok((false, _, stderr)) => ToolResultView::Denied(stderr@),
        Err(e) => ToolResultView::Denied("Failed to spawn shell: "@ + e@),
    }
}

fn report_shell(run: ShellRun) -> (r: ToolResult)
    ensures
        r@ == shell_result(run),
{
    match run {
        Ok((true, stdout, _)) => ToolResult::Success(stdout),
        Ok((false, _, stderr)) => ToolResult::Denied(stderr),
        Err(e) => {
            let mut m = "Failed to spawn shell: ".to_owned();
            push_str(&mut m, e.as_str());
            ToolResult::Denied(m)
        },
    }
}

/// Execute a shell command with the full safety pipeline: command filter
/// and level check, then (when asked for) the user's answer from `approve`, then
/// `run`. Any approving answer runs the command once.
pub fn execute_shell<A, R>(mgr: &mut PermissionManager, command: &str, approve: A, run: R) -> (r:
    ToolResult) where
    A: FnOnce(String) -> Result<ApprovalResponse, String>,
    R: FnOnce() -> ShellRun,

    requires
        forall|p: String| call_requires(approve, (p,)),
        call_requires(run, ()),
    ensures
        *final(mgr) == *old(mgr),
        match old(mgr).shell_command_decision(command@) {
            DecisionView::Denied(reason) => r@ == ToolResultView::Denied(reason),
            DecisionView::Allowed => exists|out| call_ensures(run, (), out) && r@ == shell_result(out),
            DecisionView::NeedsApproval(reason) => exists|p: String, answer|
                p@ == approval_prompt("Execute: "@ + command@, reason) && call_ensures(
                    approve,
                    (p,),
                    answer,
                ) && match answer {
                    Ok(ApprovalResponse::ApproveOnce) | Ok(ApprovalResponse::ApproveAlways) => exists|
                        out,
                    | call_ensures(run, (), out) && r@ == shell_result(out),
                    Ok(ApprovalResponse::Deny) => r@ == ToolResultView::Denied(
                        "User denied the command"@,
                    ),
                    Ok(ApprovalResponse::AbortSession) => r@ == ToolResultView::SessionAborted,
                    Err(e) => r@ == ToolResultView::Denied("Approval I/O error: "@ + e@),
                },
        },
{
    let decision = mgr.check_shell_command(command);
    match decision {
        PermissionDecision::Denied { reason } => ToolResult::Denied(reason),
        PermissionDecision::Allowed => {
            let out = run();
            report_shell(out)
        },
        PermissionDecision::NeedsApproval { reason } => {
            let mut prompt = "Execute: ".to_owned();
            push_str(&mut prompt, command);
            push_str(&mut prompt, "\n  Reason: ");
            push_str(&mut prompt, reason.as_str());
            let answer = approve(prompt);
            match answer {
                Ok(ApprovalResponse::ApproveOnce) | Ok(ApprovalResponse::ApproveAlways) => {
                    let out = run();
                    report_shell(out)
                },
                Ok(ApprovalResponse::Deny) => ToolResult::Denied(
                    "User denied the command".to_owned(),
                ),
                Ok(ApprovalResponse::AbortSession) => ToolResult::SessionAborted,
                Err(e) => {
                    let mut m = "Approval I/O error: ".to_owned();
                    push_str(&mut m, e.as_str());
                    ToolResult::Denied(m)
                },
            }
        },
    }
}

// ---------------------------------------------------------------------------
// Laws
// ---------------------------------------------------------------------------

/// A higher level never takes a permission away: whatever is not denied
/// at a level is not denied at any higher level, and whatever is allowed
/// stays allowed.
pub proof fn law_higher_level_never_restricts(
    lo: PermissionLevel,
    hi: PermissionLevel,
    c: OperationClass,
    tool: Seq<char>,
    sub: Option<Seq<char>>,
)
    requires
        rank(lo) <= rank(hi),
    ensures
        !(gate_decision(lo, c, tool, sub) is Denied) ==> !(gate_decision(hi, c, tool, sub) is Denied),
        gate_decision(lo, c, tool, sub) is Allowed ==> gate_decision(hi, c, tool, sub) is Allowed,
{
}

/// A call is denied exactly when the level is below the one its class
/// requires.
pub proof fn law_denied_iff_below_required(
    l: PermissionLevel,
    c: OperationClass,
    tool: Seq<char>,
    sub: Option<Seq<char>>,
)
    ensures
        (gate_decision(l, c, tool, sub) is Denied) <==> rank(l) < rank(required_level(c)),
{
}

/// Reads are allowed at every level, and at `FullAuto` every class is
/// allowed.
pub proof fn law_reads_and_full_auto_allowed(
    l: PermissionLevel,
    c: OperationClass,
    tool: Seq<char>,
    sub: Option<Seq<char>>,
)
    ensures
        gate_decision(l, OperationClass::Read, tool, sub) is Allowed,
        gate_decision(PermissionLevel::FullAuto, c, tool, sub) is Allowed,
{
}

/// If some deny rule's pattern occurs in the text, a rule is hit.
pub proof fn lemma_first_hit_found(denied: Seq<(Seq<char>, Seq<char>)>, t: Seq<char>, k: int)
    requires
        0 <= k < denied.len(),
        contains(t, denied[k].0),
    ensures
        first_hit(denied, t) is Some,
    decreases k,
{
    if k > 0 && !contains(t, denied[0].0) {
        assert(denied.drop_first()[k - 1] == denied[k]);
        lemma_first_hit_found(denied.drop_first(), t, k - 1);
    }
}

/// A command whose trimmed text holds any deny pattern is blocked by the
/// filter, and a blocked command is denied by the manager at every level.
pub proof fn law_deny_patterns_block_at_every_level(m: PermissionManager, command: Seq<char>, k: int)
    requires
        0 <= k < m.command_filter_view().denied_view().len(),
        contains(trim(command), m.command_filter_view().denied_view()[k].0),
    ensures
        m.command_filter_view().verdict(command) is Blocked,
        m.shell_command_decision(command) is Denied,
{
    lemma_first_hit_found(m.command_filter_view().denied_view(), trim(command), k);
}

/// If a path rule's pattern is the file name or ends the path, a rule is
/// hit.
pub proof fn lemma_first_path_hit_found(
    denied: Seq<(Seq<char>, Seq<char>)>,
    name: Seq<char>,
    path: Seq<char>,
    k: int,
)
    requires
        0 <= k < denied.len(),
        name == denied[k].0 || ends_with(path, denied[k].0),
    ensures
        first_path_hit(denied, name, path) is Some,
    decreases k,
{
    if k > 0 && !(name == denied[0].0 || ends_with(path, denied[0].0)) {
        assert(denied.drop_first()[k - 1] == denied[k]);
        lemma_first_path_hit_found(denied.drop_first(), name, path, k - 1);
    }
}

/// A sensitive path (its text ends with a rule's pattern) is blocked
/// whether or not it lies inside the project.
pub proof fn law_sensitive_paths_blocked(f: PathFilter, path: Seq<char>, k: int)
    requires
        0 <= k < f.denied_view().len(),
        ends_with(path, f.denied_view()[k].0),
    ensures
        f.verdict(path) is Blocked,
{
    let name = match std_file_name(path) {
        Some(n) => n,
        None => Seq::<char>::empty(),
    };
    lemma_first_path_hit_found(f.denied_view(), name, path, k);
}

/// Approving a tool for good allows every later call of it, with any
/// subcommand, and leaves the decisions for all other tools unchanged.
pub proof fn law_approve_always(m: PermissionManager, m2: PermissionManager, tool: Seq<char>)
    requires
        m2.approved() == (if m.approved().contains(tool) {
            m.approved()
        } else {
            m.approved().push(tool)
        }),
        m2.gate_view() == m.gate_view(),
    ensures
        forall|sub: Option<Seq<char>>| #[trigger] m2.tool_decision(tool, sub) is Allowed,
        forall|other: Seq<char>, sub: Option<Seq<char>>|
            other != tool ==> #[trigger] m2.tool_decision(other, sub) == m.tool_decision(other, sub),
{
    if !m.approved().contains(tool) {
        assert(m2.approved()[m2.approved().len() - 1] == tool);
        assert forall|other: Seq<char>, sub: Option<Seq<char>>|
            other != tool implies #[trigger] m2.tool_decision(other, sub) == m.tool_decision(
                other,
                sub,
            ) by {
            if m2.approved().contains(other) {
                let k = choose|k: int| 0 <= k < m2.approved().len() && m2.approved()[k] == other;
                assert(m.approved()[k] == other);
            }
            if m.approved().contains(other) {
                let k = choose|k: int| 0 <= k < m.approved().len() && m.approved()[k] == other;
                assert(m2.approved()[k] == other);
            }
        }
    }
}


/// Every documented answer is understood, whatever the spacing and case it
/// is typed in: `y` or `yes` approves once, `a` or `always` approves for
/// good, `n` or `no` denies, `q`, `quit` or `abort` ends the session; any
/// other reply asks again.
pub proof fn law_documented_answers_understood(input: Seq<char>)
    ensures
        ({
            let t = std_to_lowercase(trim(input));
            let r = answer_of(t);
            &&& (t == "y"@ || t == "yes"@) ==> r == Some(ApprovalResponse::ApproveOnce)
            &&& (t == "a"@ || t == "always"@) ==> r == Some(ApprovalResponse::ApproveAlways)
            &&& (t == "n"@ || t == "no"@) ==> r == Some(ApprovalResponse::Deny)
            &&& (t == "q"@ || t == "quit"@ || t == "abort"@) ==> r == Some(ApprovalResponse::AbortSession)
            &&& !(t == "y"@ || t == "yes"@ || t == "a"@ || t == "always"@ || t == "n"@ || t == "no"@
                || t == "q"@ || t == "quit"@ || t == "abort"@) ==> r is None
        }),
{
    reveal_strlit("y");
    reveal_strlit("yes");
    reveal_strlit("a");
    reveal_strlit("always");
    reveal_strlit("n");
    reveal_strlit("no");
    reveal_strlit("q");
    reveal_strlit("quit");
    reveal_strlit("abort");
    let t = std_to_lowercase(trim(input));
    let words = seq!["y"@, "yes"@, "a"@, "always"@, "n"@, "no"@, "q"@, "quit"@, "abort"@];
    assert forall|i: int, j: int| 0 <= i < j < 9 implies words[i] != words[j] by {
        if words[i].len() == words[j].len() {
            assert(words[i][0] != words[j][0]);
        }
    }
    assert(words[0] == "y"@ && words[1] == "yes"@ && words[2] == "a"@ && words[3] == "always"@);
    assert(words[4] == "n"@ && words[5] == "no"@ && words[6] == "q"@ && words[7] == "quit"@);
    assert(words[8] == "abort"@);
}
} // verus!
