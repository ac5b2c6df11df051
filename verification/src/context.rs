//! Conversation context management: token estimation, per-message token
//! bookkeeping, the context budget, and pruning of low-priority messages
//! when the budget runs short.
//!
//! Budget ratios are whole percentages: the status thresholds are 80 % and
//! 95 % of the model limit, and automatic pruning brings usage down to 70 %.
use vstd::prelude::*;
use crate::text::{
    chars_of, decimal, is_whitespace, is_ws, lemma_decimal_len_u64, pad_left, pad_right, push_char,
    push_decimal, push_padded_decimal, push_padded_left, push_padded_right, push_str, str_eq,
    string_views,
};

verus! {

// ---------------------------------------------------------------------------
// Token estimation
// ---------------------------------------------------------------------------

/// The number of whitespace-separated words of `s` (what
/// `split_whitespace().count()` counts).
pub open spec fn word_count(s: Seq<char>) -> nat
    decreases s.len(),
{
    if s.len() == 0 {
        0
    } else {
        word_count(s.drop_last()) + if !is_ws(s.last()) && (s.len() == 1 || is_ws(
            s[s.len() - 2],
        )) {
            1nat
        } else {
            0nat
        }
    }
}

/// Characters that count as code punctuation.
pub open spec fn is_code_char(c: char) -> bool {
    c == '{' || c == '}' || c == '(' || c == ')' || c == ';' || c == '<' || c == '>' || c == '='
        || c == ':' || c == '"'
}

/// The number of code-punctuation characters of `s`.
pub open spec fn code_count(s: Seq<char>) -> nat
    decreases s.len(),
{
    if s.len() == 0 {
        0
    } else {
        code_count(s.drop_last()) + if is_code_char(s.last()) {
            1nat
        } else {
            0nat
        }
    }
}

/// Estimated tokens of a text: none for an empty text; otherwise about 1.3
/// tokens per word (rounded up), plus one per three code-punctuation
/// characters, and at least one.
pub open spec fn estimate(s: Seq<char>) -> nat {
    if s.len() == 0 {
        0
    } else {
        let base = (13 * word_count(s) + 9) / 10;
        let total = base + code_count(s) / 3;
        if total < 1 {
            1
        } else {
            total
        }
    }
}

/// Estimated tokens of a message: role, content and four tokens of framing.
pub open spec fn message_estimate(role: Seq<char>, content: Seq<char>) -> nat {
    estimate(role) + estimate(content) + 4
}

/// Estimate token count for a string using a word-based approximation:
/// English text averages roughly 1.3 tokens per word, and code runs higher
/// because punctuation and operators each become separate tokens.
pub fn estimate_tokens(text: &str) -> (n: usize)
    ensures
        n == estimate(text@),
{
    let cs = chars_of(text);
    if cs.len() == 0 {
        return 0;
    }
    let mut words: usize = 0;
    let mut code: usize = 0;
    let mut i: usize = 0;
    assert(cs@.take(0) == Seq::<char>::empty());
    while i < cs.len()
        invariant
            0 <= i <= cs@.len(),
            words == word_count(cs@.take(i as int)),
            code == code_count(cs@.take(i as int)),
            code <= i,
            2 * words <= i + (if i > 0 && !is_ws(cs@[i - 1]) {
                1int
            } else {
                0int
            }),
        decreases cs.len() - i,
    {
        let c = cs[i];
        let ghost pre = cs@.take(i as int);
        let ghost now = cs@.take(i + 1);
        assert(now.drop_last() == pre);
        assert(now.last() == c);
        if !is_whitespace(c) && (i == 0 || is_whitespace(cs[i - 1])) {
            words = words + 1;
        }
        if c == '{' || c == '}' || c == '(' || c == ')' || c == ';' || c == '<' || c == '>' || c
            == '=' || c == ':' || c == '"' {
            code = code + 1;
        }
        proof {
            if i > 0 {
                assert(now[now.len() - 2] == cs@[i - 1]);
            }
        }
        i = i + 1;
    }
    assert(cs@.take(cs@.len() as int) == cs@);
    let n = cs.len();
    let w = words as u128;
    let base = (13 * w + 9) / 10;
    let total = base + (code / 3) as u128;
    assert(total <= n + 2) by (nonlinear_arith)
        requires
            2 * w <= n + 1,
            code <= n,
            base == (13 * w + 9) / 10,
            total == base + code / 3,
            n >= 1,
    ;
    let r: u128 = if total < 1 {
        1
    } else {
        total
    };
    if r > usize::MAX as u128 {
        // Unreachable: a text this long cannot be held in memory.
        assert(n + 2 > usize::MAX);
        assert(false) by (nonlinear_arith)
            requires
                2 * w <= n + 1,
                code <= n,
                base == (13 * w + 9) / 10,
                total == base + code / 3,
                r == total,
                r > usize::MAX,
                n <= usize::MAX,
                n >= 1,
        ;
    }
    r as usize
}

/// Estimate tokens for a full API message (role + content + framing
/// overhead).
pub fn estimate_message_tokens(role: &str, content: &str) -> (n: usize)
    requires
        message_estimate(role@, content@) <= usize::MAX,
    ensures
        n == message_estimate(role@, content@),
{
    let overhead: usize = 4;
    estimate_tokens(role) + estimate_tokens(content) + overhead
}


/// Estimated tokens of a text never exceed its length plus two.
pub proof fn lemma_estimate_bound(s: Seq<char>)
    ensures
        estimate(s) <= s.len() + 2,
{
    if s.len() > 0 {
        lemma_word_count_bound(s);
        lemma_code_count_bound(s);
        let w = word_count(s);
        let c = code_count(s);
        let n = s.len();
        assert((13 * w + 9) / 10 + c / 3 <= n + 2) by (nonlinear_arith)
            requires
                2 * w <= n + 1,
                c <= n,
        ;
    }
}

/// Only the empty text is estimated at no tokens: any other text costs at
/// least one.
pub proof fn law_only_empty_text_is_free(s: Seq<char>)
    ensures
        (estimate(s) == 0) <==> (s.len() == 0),
        s.len() > 0 ==> estimate(s) >= 1,
{
}

proof fn lemma_word_count_bound(s: Seq<char>)
    ensures
        2 * word_count(s) <= s.len() + (if s.len() > 0 && !is_ws(s.last()) {
            1int
        } else {
            0int
        }),
    decreases s.len(),
{
    if s.len() > 0 {
        let p = s.drop_last();
        lemma_word_count_bound(p);
        if p.len() > 0 {
            assert(s[s.len() - 2] == p.last());
        }
    }
}

proof fn lemma_code_count_bound(s: Seq<char>)
    ensures
        code_count(s) <= s.len(),
    decreases s.len(),
{
    if s.len() > 0 {
        lemma_code_count_bound(s.drop_last());
    }
}

// ---------------------------------------------------------------------------
// Messages
// ---------------------------------------------------------------------------

/// Priority level for compaction decisions; a higher level is harder to
/// remove.
#[derive(Debug, Clone, Copy, PartialEq, Eq, PartialOrd, Ord, Hash, Structural)]
pub enum Priority {
    /// Verbose tool output: first to be pruned.
    Low,
    /// Normal assistant responses.
    Normal,
    /// User messages and key decisions.
    High,
    /// The system prompt: never removed.
    Pinned,
}

impl Priority {
    /// The level as a number: `Low` 0 up to `Pinned` 3.
    pub open spec fn level(self) -> nat {
        match self {
            Priority::Low => 0,
            Priority::Normal => 1,
            Priority::High => 2,
            Priority::Pinned => 3,
        }
    }

    /// The level as a number.
    pub fn rank(&self) -> (r: u8)
        ensures
            r == self.level(),
    {
        match self {
            Priority::Low => 0,
            Priority::Normal => 1,
            Priority::High => 2,
            Priority::Pinned => 3,
        }
    }
}

/// The priority that a new message of the given role gets.
pub open spec fn role_priority(role: Seq<char>) -> Priority {
    if role == "system"@ {
        Priority::Pinned
    } else if role == "user"@ {
        Priority::High
    } else if role == "assistant"@ {
        Priority::Normal
    } else if role == "tool"@ {
        Priority::Low
    } else {
        Priority::Normal
    }
}

/// A single message stored with its estimated token cost.
#[derive(Debug)]
pub struct Message {
    pub role: String,
    pub content: String,
    /// Estimated token count, including the message-framing overhead.
    pub token_count: usize,
    /// Compaction priority.
    pub priority: Priority,
    /// Whether this message is a compaction summary.
    pub is_summary: bool,
}

/// Whether `m` is a message of `role` with `content`, costed by
/// `message_estimate`, with the given priority and summary flag.
pub open spec fn message_is(
    m: Message,
    role: Seq<char>,
    content: Seq<char>,
    priority: Priority,
    is_summary: bool,
) -> bool {
    &&& m.role@ == role
    &&& m.content@ == content
    &&& m.token_count == message_estimate(role, content)
    &&& m.priority == priority
    &&& m.is_summary == is_summary
}

/// Whether `m` is the pinned system prompt.
pub open spec fn is_pinned_system(m: Message) -> bool {
    m.role@ == "system"@ && m.priority == Priority::Pinned
}

impl Message {
    /// A message of the given role; its priority follows from the role.
    pub fn new(role: &str, content: &str) -> (m: Message)
        requires
            message_estimate(role@, content@) <= usize::MAX,
        ensures
            message_is(m, role@, content@, role_priority(role@), false),
    {
        let token_count = estimate_message_tokens(role, content);
        let priority = if str_eq(role, "system") {
            Priority::Pinned
        } else if str_eq(role, "user") {
            Priority::High
        } else if str_eq(role, "assistant") {
            Priority::Normal
        } else if str_eq(role, "tool") {
            Priority::Low
        } else {
            Priority::Normal
        };
        Message {
            role: role.to_string(),
            content: content.to_string(),
            token_count,
            priority,
            is_summary: false,
        }
    }

    /// A compaction summary that stands for pruned messages.
    pub fn summary(content: &str) -> (m: Message)
        requires
            message_estimate("system"@, content@) <= usize::MAX,
        ensures
            message_is(m, "system"@, content@, Priority::Normal, true),
    {
        let token_count = estimate_message_tokens("system", content);
        Message {
            role: "system".to_string(),
            content: content.to_string(),
            token_count,
            priority: Priority::Normal,
            is_summary: true,
        }
    }
}

// ---------------------------------------------------------------------------
// Budget status
// ---------------------------------------------------------------------------

/// How close the context window is to its limit.
#[derive(Debug, Clone, Copy, PartialEq, Eq, Structural)]
pub enum BudgetStatus {
    /// Plenty of room.
    Healthy,
    /// Over 80 % used.
    Warning,
    /// Over 95 % used: compact now.
    Critical,
    /// Over budget: compact before the next request.
    Exceeded,
}

/// The status of `committed` tokens against a model limit.
pub open spec fn status_of(committed: nat, limit: nat) -> BudgetStatus {
    if committed > limit {
        BudgetStatus::Exceeded
    } else if committed * 100 > limit * 95 {
        BudgetStatus::Critical
    } else if committed * 100 > limit * 80 {
        BudgetStatus::Warning
    } else {
        BudgetStatus::Healthy
    }
}

/// The label of a status, as reports show it.
pub open spec fn status_label(s: BudgetStatus) -> Seq<char> {
    match s {
        BudgetStatus::Healthy => "Healthy"@,
        BudgetStatus::Warning => "Warning"@,
        BudgetStatus::Critical => "CRITICAL"@,
        BudgetStatus::Exceeded => "EXCEEDED"@,
    }
}

impl BudgetStatus {
    /// The label of this status.
    pub fn label(&self) -> (s: &'static str)
        ensures
            s@ == status_label(*self),
    {
        match self {
            BudgetStatus::Healthy => "Healthy",
            BudgetStatus::Warning => "Warning",
            BudgetStatus::Critical => "CRITICAL",
            BudgetStatus::Exceeded => "EXCEEDED",
        }
    }
}

// ---------------------------------------------------------------------------
// Context manager
// ---------------------------------------------------------------------------

/// The total estimated tokens of a sequence of messages.
pub open spec fn tokens_of(m: Seq<Message>) -> nat
    decreases m.len(),
{
    if m.len() == 0 {
        0
    } else {
        tokens_of(m.drop_last()) + m.last().token_count as nat
    }
}

/// The token count of the first pinned system message at or after `i`, or
/// 0 where there is none.
pub open spec fn system_tokens_from(m: Seq<Message>, i: int) -> nat
    decreases m.len() - i,
{
    if i < 0 || i >= m.len() {
        0
    } else if is_pinned_system(m[i]) {
        m[i].token_count as nat
    } else {
        system_tokens_from(m, i + 1)
    }
}

/// Manages the conversation context window: token counting, budget
/// tracking, and pruning when the window runs short.
#[derive(Debug)]
pub struct ContextManager {
    pub messages: Vec<Message>,
    /// Hard model token limit.
    pub model_limit: usize,
    /// Tokens reserved for the model's response.
    pub response_reserve: usize,
    /// Tokens taken by tool definitions (constant per session).
    pub tool_definition_tokens: usize,
    /// Safety margin against edge-case overflows.
    pub safety_margin: usize,
}

impl ContextManager {
    /// Tokens committed: messages, response reserve, tools and margin.
    pub open spec fn committed(&self) -> nat {
        tokens_of(self.messages@) + self.response_reserve as nat
            + self.tool_definition_tokens as nat + self.safety_margin as nat
    }

    /// Whether the committed total can be counted in a `usize`.
    pub open spec fn fits(&self) -> bool {
        self.committed() <= usize::MAX
    }

    /// An empty context for a model with the given limit: 8 000 tokens
    /// reserved for the response, 3 000 for tool definitions and a margin
    /// of 200.
    pub fn new(model_limit: usize) -> (c: Self)
        ensures
            c.messages@.len() == 0,
            c.model_limit == model_limit,
            c.response_reserve == 8000,
            c.tool_definition_tokens == 3000,
            c.safety_margin == 200,
    {
        ContextManager {
            messages: Vec::new(),
            model_limit,
            response_reserve: 8_000,
            tool_definition_tokens: 3_000,
            safety_margin: 200,
        }
    }

    /// Sum of estimated tokens across all stored messages.
    pub fn message_tokens(&self) -> (n: usize)
        requires
            self.fits(),
        ensures
            n == tokens_of(self.messages@),
    {
        let mut sum: usize = 0;
        let mut i: usize = 0;
        while i < self.messages.len()
            invariant
                i <= self.messages@.len(),
                self.fits(),
                sum == tokens_of(self.messages@.take(i as int)),
            decreases self.messages.len() - i,
        {
            proof {
                lemma_tokens_prefix(self.messages@, i + 1);
                assert(self.messages@.take(i + 1).drop_last() == self.messages@.take(i as int));
            }
            sum = sum + self.messages[i].token_count;
            i = i + 1;
        }
        assert(self.messages@.take(i as int) == self.messages@);
        sum
    }

    /// Tokens of the system prompt alone: the first pinned system message.
    pub fn system_prompt_tokens(&self) -> (n: usize)
        ensures
            n == system_tokens_from(self.messages@, 0),
    {
        let mut i: usize = 0;
        while i < self.messages.len()
            invariant
                i <= self.messages@.len(),
                system_tokens_from(self.messages@, 0) == system_tokens_from(self.messages@, i as int),
            decreases self.messages.len() - i,
        {
            let m = &self.messages[i];
            if str_eq(m.role.as_str(), "system") && m.priority == Priority::Pinned {
                return m.token_count;
            }
            i = i + 1;
        }
        0
    }

    /// Total tokens committed.
    pub fn total_committed(&self) -> (n: usize)
        requires
            self.fits(),
        ensures
            n == self.committed(),
    {
        self.message_tokens() + self.response_reserve + self.tool_definition_tokens
            + self.safety_margin
    }

    /// Tokens still available for new messages (0 once over the limit).
    pub fn available(&self) -> (n: usize)
        requires
            self.fits(),
        ensures
            n == if self.committed() >= self.model_limit {
                0
            } else {
                self.model_limit - self.committed()
            },
    {
        self.model_limit.saturating_sub(self.total_committed())
    }

    /// The budget status: exceeded above the limit, critical above 95 %,
    /// warning above 80 %, healthy otherwise.
    pub fn budget_status(&self) -> (s: BudgetStatus)
        requires
            self.fits(),
        ensures
            s == status_of(self.committed(), self.model_limit as nat),
    {
        let c = self.total_committed() as u128;
        let l = self.model_limit as u128;
        if c > l {
            BudgetStatus::Exceeded
        } else if c * 100 > l * 95 {
            BudgetStatus::Critical
        } else if c * 100 > l * 80 {
            BudgetStatus::Warning
        } else {
            BudgetStatus::Healthy
        }
    }
}

/// The tokens of a prefix never exceed those of the whole.
pub proof fn lemma_tokens_prefix(m: Seq<Message>, i: int)
    requires
        0 <= i <= m.len(),
    ensures
        tokens_of(m.take(i)) <= tokens_of(m),
    decreases m.len() - i,
{
    if i < m.len() {
        lemma_tokens_prefix(m, i + 1);
        assert(m.take(i + 1).drop_last() == m.take(i));
    } else {
        assert(m.take(i) == m);
    }
}


// ---------------------------------------------------------------------------
// Pruning
// ---------------------------------------------------------------------------

/// The indices below `n` of the messages at priority level `r`, in order.
pub open spec fn ranked(m: Seq<Message>, r: nat, n: int) -> Seq<usize>
    decreases n,
{
    if n <= 0 {
        seq![]
    } else {
        let p = ranked(m, r, n - 1);
        if m[n - 1].priority.level() == r {
            p.push((n - 1) as usize)
        } else {
            p
        }
    }
}

/// The indices of the messages below priority level `r`: lowest level
/// first, oldest first within a level.
pub open spec fn ranked_below(m: Seq<Message>, r: int) -> Seq<usize>
    decreases r,
{
    if r <= 0 {
        seq![]
    } else {
        ranked_below(m, r - 1) + ranked(m, (r - 1) as nat, m.len() as int)
    }
}

/// The order in which messages are pruned: every message but the pinned
/// ones, lowest priority first, then oldest first.
pub open spec fn prune_order(m: Seq<Message>) -> Seq<usize> {
    ranked_below(m, 3)
}

/// The tokens of the messages at the indices `ord`.
pub open spec fn tokens_at(m: Seq<Message>, ord: Seq<usize>) -> nat
    decreases ord.len(),
{
    if ord.len() == 0 {
        0
    } else {
        tokens_at(m, ord.drop_last()) + m[ord.last() as int].token_count as nat
    }
}

/// How many candidates of `ord` are removed when removal starts at
/// position `j` with `freed` tokens already freed: candidates are taken
/// in order until at least `need` tokens are freed or none are left.
pub open spec fn cut_from(m: Seq<Message>, ord: Seq<usize>, need: int, j: nat, freed: int) -> nat
    decreases ord.len() - j,
{
    if j >= ord.len() || freed >= need {
        j
    } else {
        cut_from(m, ord, need, j + 1, freed + m[ord[j as int] as int].token_count)
    }
}

/// The messages of `m` from index `i` on whose indices are not in `gone`,
/// in order.
pub open spec fn survivors_from(m: Seq<Message>, gone: Set<usize>, i: int) -> Seq<Message>
    decreases m.len() - i,
{
    if i < 0 || i >= m.len() {
        seq![]
    } else if gone.contains(i as usize) {
        survivors_from(m, gone, i + 1)
    } else {
        seq![m[i]] + survivors_from(m, gone, i + 1)
    }
}

/// The text of the summary that stands for `count` pruned messages.
pub open spec fn summary_text(count: nat, freed: nat) -> Seq<char> {
    "[Context compacted: "@ + decimal(count) + " older messages pruned to free ~"@ + decimal(freed)
        + " tokens]"@
}

/// Where the summary goes: right after a leading pinned system prompt.
pub open spec fn summary_position(kept: Seq<Message>) -> int {
    if kept.len() > 0 && is_pinned_system(kept[0]) {
        1
    } else {
        0
    }
}

/// Whether `after` is what pruning leaves of `before` when `need` tokens
/// are to be freed: the first candidates of `prune_order` are removed
/// until at least `need` tokens are freed, and one summary message saying
/// how many went and what they freed takes their place after the system
/// prompt. With no candidate at all, nothing changes.
pub open spec fn pruned(before: Seq<Message>, after: Seq<Message>, need: int) -> bool {
    let ord = prune_order(before);
    let k = cut_from(before, ord, need, 0, 0);
    let kept = survivors_from(before, ord.take(k as int).to_set(), 0);
    let pos = summary_position(kept);
    if k == 0 {
        after == before
    } else {
        &&& after.len() == kept.len() + 1
        &&& after.remove(pos) == kept
        &&& message_is(
            after[pos],
            "system"@,
            summary_text(k, tokens_at(before, ord.take(k as int))),
            Priority::Normal,
            true,
        )
    }
}

/// The indices marked in `marks`.
pub open spec fn marked(marks: Seq<bool>) -> Set<usize> {
    Set::new(|i: usize| i < marks.len() && marks[i as int])
}

/// The tokens of the marked messages.
pub open spec fn marked_tokens(m: Seq<Message>, marks: Seq<bool>) -> nat
    decreases marks.len(),
{
    if marks.len() == 0 || m.len() == 0 {
        0
    } else {
        marked_tokens(m.drop_last(), marks.drop_last()) + if marks.last() {
            m.last().token_count as nat
        } else {
            0
        }
    }
}

proof fn lemma_marked_tokens_bound(m: Seq<Message>, marks: Seq<bool>)
    requires
        m.len() == marks.len(),
    ensures
        marked_tokens(m, marks) <= tokens_of(m),
    decreases marks.len(),
{
    if marks.len() > 0 {
        lemma_marked_tokens_bound(m.drop_last(), marks.drop_last());
    }
}

proof fn lemma_marked_tokens_mark(m: Seq<Message>, marks: Seq<bool>, i: int)
    requires
        m.len() == marks.len(),
        0 <= i < marks.len(),
        !marks[i],
    ensures
        marked_tokens(m, marks.update(i, true)) == marked_tokens(m, marks) + m[i].token_count,
    decreases marks.len(),
{
    let u = marks.update(i, true);
    if i == marks.len() - 1 {
        assert(u.drop_last() == marks.drop_last());
    } else {
        assert(u.drop_last() == marks.drop_last().update(i, true));
        lemma_marked_tokens_mark(m.drop_last(), marks.drop_last(), i);
    }
}

proof fn lemma_ranked(m: Seq<Message>, r: nat, n: int)
    requires
        n <= m.len() <= usize::MAX,
    ensures
        forall|j: int|
            0 <= j < ranked(m, r, n).len() ==> #[trigger] ranked(m, r, n)[j] < n && m[ranked(
                m,
                r,
                n,
            )[j] as int].priority.level() == r,
        forall|a: int, b: int|
            0 <= a < b < ranked(m, r, n).len() ==> #[trigger] ranked(m, r, n)[a] < #[trigger] ranked(
                m,
                r,
                n,
            )[b],
    decreases n,
{
    if n > 0 {
        lemma_ranked(m, r, n - 1);
        let p = ranked(m, r, n - 1);
        let q = ranked(m, r, n);
        if m[n - 1].priority.level() == r {
            assert(q == p.push((n - 1) as usize));
            assert forall|a: int, b: int| 0 <= a < b < q.len() implies #[trigger] q[a]
                < #[trigger] q[b] by {
                if b < p.len() {
                    assert(q[a] == p[a] && q[b] == p[b]);
                } else {
                    assert(q[a] == p[a]);
                    assert(q[b] == (n - 1) as usize);
                }
            }
            assert forall|j: int| 0 <= j < q.len() implies #[trigger] q[j] < n && m[q[
                j
            ] as int].priority.level() == r by {
                if j < p.len() {
                    assert(q[j] == p[j]);
                } else {
                    assert(q[j] == (n - 1) as usize);
                }
            }
        }
    }
}

/// Every index of `ranked_below(m, r)` is in range, below level `r`, and
/// occurs once.
proof fn lemma_ranked_below(m: Seq<Message>, r: int)
    requires
        m.len() <= usize::MAX,
    ensures
        forall|j: int|
            0 <= j < ranked_below(m, r).len() ==> #[trigger] ranked_below(m, r)[j] < m.len()
                && m[ranked_below(m, r)[j] as int].priority.level() < r,
        forall|a: int, b: int|
            0 <= a < b < ranked_below(m, r).len() ==> #[trigger] ranked_below(m, r)[a]
                != #[trigger] ranked_below(m, r)[b],
    decreases r,
{
    if r > 0 {
        lemma_ranked_below(m, r - 1);
        lemma_ranked(m, (r - 1) as nat, m.len() as int);
        let p = ranked_below(m, r - 1);
        let q = ranked(m, (r - 1) as nat, m.len() as int);
        let all = ranked_below(m, r);
        assert(all == p + q);
        assert forall|j: int| 0 <= j < all.len() implies #[trigger] all[j] < m.len()
            && m[all[j] as int].priority.level() < r by {
            if j >= p.len() {
                assert(all[j] == q[j - p.len()]);
            } else {
                assert(all[j] == p[j]);
            }
        }
        assert forall|a: int, b: int| 0 <= a < b < all.len() implies #[trigger] all[a]
            != #[trigger] all[b] by {
            if b < p.len() {
                assert(all[a] == p[a] && all[b] == p[b]);
            } else if a >= p.len() {
                assert(all[a] == q[a - p.len()] && all[b] == q[b - p.len()]);
            } else {
                assert(all[a] == p[a] && all[b] == q[b - p.len()]);
                assert(m[all[a] as int].priority.level() < r - 1);
                assert(m[all[b] as int].priority.level() == r - 1);
            }
        }
    }
}

/// The prune order of `m`, computed.
fn prune_order_of(m: &Vec<Message>) -> (ord: Vec<usize>)
    ensures
        ord@ == prune_order(m@),
{
    let mut ord: Vec<usize> = Vec::new();
    let mut r: u8 = 0;
    while r < 3
        invariant
            r <= 3,
            ord@ == ranked_below(m@, r as int),
        decreases 3 - r,
    {
        let mut i: usize = 0;
        while i < m.len()
            invariant
                i <= m@.len(),
                r < 3,
                ord@ == ranked_below(m@, r as int) + ranked(m@, r as nat, i as int),
            decreases m.len() - i,
        {
            let ghost before = ord@;
            if m[i].priority.rank() == r {
                ord.push(i);
                assert(ord@ == ranked_below(m@, r as int) + ranked(m@, r as nat, i + 1));
            } else {
                assert(ord@ == ranked_below(m@, r as int) + ranked(m@, r as nat, i + 1));
            }
            i = i + 1;
        }
        r = r + 1;
    }
    ord
}

/// Removes, from the back, the messages whose indices are marked.
fn remove_marked(v: &mut Vec<Message>, marks: &Vec<bool>)
    requires
        old(v)@.len() == marks@.len(),
    ensures
        final(v)@ == survivors_from(old(v)@, marked(marks@), 0),
{
    let ghost m = v@;
    let ghost gone = marked(marks@);
    let mut i: usize = v.len();
    assert(m.take(i as int) == m);
    assert(survivors_from(m, gone, i as int) == Seq::<Message>::empty());
    assert(v@ == m.take(i as int) + survivors_from(m, gone, i as int));
    while i > 0
        invariant
            i <= m.len(),
            m.len() == marks@.len(),
            gone == marked(marks@),
            v@ == m.take(i as int) + survivors_from(m, gone, i as int),
        decreases i,
    {
        i = i - 1;
        let ghost rest = survivors_from(m, gone, i + 1);
        assert(m.take(i + 1) == m.take(i as int).push(m[i as int]));
        if marks[i] {
            assert(gone.contains(i as usize));
            v.remove(i);
            assert(v@ == m.take(i as int) + rest);
        } else {
            assert(!gone.contains(i as usize));
            assert(m.take(i as int).push(m[i as int]) + rest == m.take(i as int) + (seq![m[i as int]]
                + rest));
        }
    }
    assert(m.take(0) + survivors_from(m, gone, 0) == survivors_from(m, gone, 0));
}

/// The text of a compaction summary, computed.
fn summary_text_of(count: usize, freed: usize) -> (s: String)
    ensures
        s@ == summary_text(count as nat, freed as nat),
{
    let mut s = String::new();
    push_str(&mut s, "[Context compacted: ");
    push_decimal(&mut s, count as u64);
    push_str(&mut s, " older messages pruned to free ~");
    push_decimal(&mut s, freed as u64);
    push_str(&mut s, " tokens]");
    s
}

impl ContextManager {
    /// Prunes low-priority messages until at most `target_percent` percent
    /// of the model limit is committed. Candidates are every message but
    /// the pinned ones, lowest priority first, then oldest first; they are
    /// removed until enough tokens are freed, and a one-line summary of
    /// what was dropped goes right after the system prompt.
    pub fn prune_to_target(&mut self, target_percent: usize)
        requires
            old(self).fits(),
        ensures
            final(self).model_limit == old(self).model_limit,
            final(self).response_reserve == old(self).response_reserve,
            final(self).tool_definition_tokens == old(self).tool_definition_tokens,
            final(self).safety_margin == old(self).safety_margin,
            old(self).committed() <= old(self).model_limit * target_percent / 100
                ==> final(self).messages@ == old(self).messages@,
            old(self).committed() > old(self).model_limit * target_percent / 100 ==> pruned(
                old(self).messages@,
                final(self).messages@,
                old(self).committed() - old(self).model_limit * target_percent / 100,
            ),
            tokens_of(final(self).messages@) <= tokens_of(old(self).messages@) + SUMMARY_TOKEN_BOUND,
    {
        let committed = self.total_committed();
        let limit = self.model_limit;
        assert(limit * target_percent <= u128::MAX) by (nonlinear_arith)
            requires
                limit <= usize::MAX,
                target_percent <= usize::MAX,
                usize::MAX <= u64::MAX,
        ;
        let product: u128 = (limit as u128) * (target_percent as u128);
        let target: u128 = product / 100;
        if committed as u128 <= target {
            return;
        }
        let need: usize = committed - target as usize;
        let ghost m = self.messages@;
        let ord = prune_order_of(&self.messages);
        proof {
            assert(m.len() == self.messages.len());
            lemma_ranked_below(m, 3);
        }
        let n = self.messages.len();
        let mut marks: Vec<bool> = Vec::new();
        let mut i: usize = 0;
        while i < n
            invariant
                i <= n,
                n == m.len(),
                marks@ == Seq::new(i as nat, |_j: int| false),
            decreases n - i,
        {
            marks.push(false);
            i = i + 1;
            assert(marks@ == Seq::new(i as nat, |_j: int| false));
        }
        proof {
            assert(marked_tokens(m, marks@) == 0) by {
                lemma_no_marks(m, marks@);
            }
        }
        let mut freed: usize = 0;
        let mut j: usize = 0;
        assert(ord@.take(0) == Seq::<usize>::empty());
        while j < ord.len() && freed < need
            invariant
                self.messages@ == m,
                m.len() == n,
                marks@.len() == n,
                ord@ == prune_order(m),
                j <= ord@.len(),
                forall|a: int| 0 <= a < ord@.len() ==> #[trigger] ord@[a] < n,
                forall|a: int, b: int|
                    0 <= a < b < ord@.len() ==> #[trigger] ord@[a] != #[trigger] ord@[b],
                forall|x: usize| x < n ==> (marks@[x as int] <==> ord@.take(j as int).contains(x)),
                freed == tokens_at(m, ord@.take(j as int)),
                freed == marked_tokens(m, marks@),
                marked_tokens(m, marks@) <= tokens_of(m),
                tokens_of(m) <= usize::MAX,
                cut_from(m, ord@, need as int, 0, 0) == cut_from(m, ord@, need as int, j as nat, freed as int),
            decreases ord.len() - j,
        {
            let idx = ord[j];
            proof {
                assert(!ord@.take(j as int).contains(idx)) by {
                    if ord@.take(j as int).contains(idx) {
                        let a = choose|a: int| 0 <= a < j && ord@.take(j as int)[a] == idx;
                        assert(ord@[a] == ord@[j as int]);
                    }
                }
                lemma_marked_tokens_mark(m, marks@, idx as int);
                lemma_marked_tokens_bound(m, marks@.update(idx as int, true));
                assert(ord@.take(j + 1).drop_last() == ord@.take(j as int));
            }
            marks.set(idx, true);
            freed = freed + self.messages[idx].token_count;
            j = j + 1;
            proof {
                let jp: int = j - 1;
                let now = ord@.take(j as int);
                let was = ord@.take(jp);
                assert forall|x: usize| x < n implies (marks@[x as int] <==> now.contains(x)) by {
                    if x == idx {
                        assert(now[jp] == idx);
                    } else if now.contains(x) {
                        let a = choose|a: int| 0 <= a < now.len() && now[a] == x;
                        assert(was[a] == x);
                    } else if was.contains(x) {
                        let a = choose|a: int| 0 <= a < was.len() && was[a] == x;
                        assert(now[a] == x);
                    }
                }
            }
        }
        if j == 0 {
            return;
        }
        proof {
            assert(marked(marks@) == ord@.take(j as int).to_set());
        }
        remove_marked(&mut self.messages, &marks);
        let text = summary_text_of(j, freed);
        proof {
            lemma_decimal_len_u64(j as nat);
            lemma_decimal_len_u64(freed as nat);
            lemma_estimate_bound(text@);
            lemma_estimate_bound("system"@);
            reveal_strlit("system");
            reveal_strlit("[Context compacted: ");
            reveal_strlit(" older messages pruned to free ~");
            reveal_strlit(" tokens]");
        }
        let summary = Message::summary(text.as_str());
        proof {
            lemma_estimate_bound("system"@);
            lemma_estimate_bound(text@);
            assert(summary.token_count <= SUMMARY_TOKEN_BOUND);
        }
        let pos: usize = if self.messages.len() > 0 && str_eq(self.messages[0].role.as_str(), "system")
            && self.messages[0].priority == Priority::Pinned {
            1
        } else {
            0
        };
        let ghost kept = self.messages@;
        self.messages.insert(pos, summary);
        assert(self.messages@.remove(pos as int) == kept);
        proof {
            lemma_survivors_tokens(m, marked(marks@), 0);
            assert(m.skip(0) == m);
            lemma_tokens_remove(self.messages@, pos as int);
        }
    }
}

/// The most tokens a compaction summary can cost.
pub const SUMMARY_TOKEN_BOUND: usize = 114;

proof fn lemma_tokens_prepend(x: Message, s: Seq<Message>)
    ensures
        tokens_of(seq![x] + s) == x.token_count + tokens_of(s),
    decreases s.len(),
{
    if s.len() == 0 {
        assert(seq![x] + s == seq![x]);
        assert(seq![x].drop_last() == Seq::<Message>::empty());
        assert(seq![x].last() == x);
        assert(tokens_of(Seq::<Message>::empty()) == 0);
        assert(tokens_of(seq![x]) == tokens_of(seq![x].drop_last()) + seq![x].last().token_count);
    } else {
        lemma_tokens_prepend(x, s.drop_last());
        assert((seq![x] + s).drop_last() == seq![x] + s.drop_last());
        assert((seq![x] + s).last() == s.last());
    }
}

proof fn lemma_tokens_append(a: Seq<Message>, b: Seq<Message>)
    ensures
        tokens_of(a + b) == tokens_of(a) + tokens_of(b),
    decreases b.len(),
{
    if b.len() == 0 {
        assert(a + b == a);
    } else {
        lemma_tokens_append(a, b.drop_last());
        assert((a + b).drop_last() == a + b.drop_last());
        assert((a + b).last() == b.last());
    }
}

proof fn lemma_survivors_tokens(m: Seq<Message>, gone: Set<usize>, i: int)
    requires
        0 <= i <= m.len(),
    ensures
        tokens_of(survivors_from(m, gone, i)) <= tokens_of(m.skip(i)),
    decreases m.len() - i,
{
    if i < m.len() {
        lemma_survivors_tokens(m, gone, i + 1);
        assert(m.skip(i) == seq![m[i]] + m.skip(i + 1));
        lemma_tokens_prepend(m[i], m.skip(i + 1));
        if !gone.contains(i as usize) {
            lemma_tokens_prepend(m[i], survivors_from(m, gone, i + 1));
        }
    } else {
        assert(m.skip(i) == Seq::<Message>::empty());
    }
}

proof fn lemma_tokens_remove(a: Seq<Message>, pos: int)
    requires
        0 <= pos < a.len(),
    ensures
        tokens_of(a) == tokens_of(a.remove(pos)) + a[pos].token_count,
{
    let l = a.take(pos);
    let r = a.skip(pos + 1);
    assert(a == l + (seq![a[pos]] + r));
    assert(a.remove(pos) == l + r);
    lemma_tokens_append(l, seq![a[pos]] + r);
    lemma_tokens_prepend(a[pos], r);
    lemma_tokens_append(l, r);
}

proof fn lemma_no_marks(m: Seq<Message>, marks: Seq<bool>)
    requires
        forall|i: int| 0 <= i < marks.len() ==> !marks[i],
    ensures
        marked_tokens(m, marks) == 0,
    decreases marks.len(),
{
    if marks.len() > 0 && m.len() > 0 {
        lemma_no_marks(m.drop_last(), marks.drop_last());
    }
}


// ---------------------------------------------------------------------------
// Adding messages
// ---------------------------------------------------------------------------

/// Whether `m` is a system message other than a compaction summary.
pub open spec fn is_plain_system(m: Message) -> bool {
    m.role@ == "system"@ && !m.is_summary
}

/// The messages that survive a new system prompt: all but the plain
/// system messages.
pub open spec fn not_plain_system() -> spec_fn(Message) -> bool {
    |m: Message| !is_plain_system(m)
}

/// Whether `after` is what adding to a context of limit `limit` leaves,
/// when `pushed` is the messages with the new one appended and
/// `committed` the tokens then committed: at critical or exceeded status
/// the messages are pruned to 70 % of the limit, otherwise they stay.
pub open spec fn settled(pushed: Seq<Message>, after: Seq<Message>, committed: nat, limit: nat) -> bool {
    let st = status_of(committed, limit);
    if st == BudgetStatus::Critical || st == BudgetStatus::Exceeded {
        pruned(pushed, after, committed - limit * 70 / 100)
    } else {
        after == pushed
    }
}

impl ContextManager {
    /// Installs `content` as the pinned system prompt at the front,
    /// removing any earlier system prompt (summaries stay).
    pub fn set_system_prompt(&mut self, content: &str)
        requires
            message_estimate("system"@, content@) <= usize::MAX,
        ensures
            final(self).model_limit == old(self).model_limit,
            final(self).response_reserve == old(self).response_reserve,
            final(self).tool_definition_tokens == old(self).tool_definition_tokens,
            final(self).safety_margin == old(self).safety_margin,
            final(self).messages@.len() >= 1,
            message_is(final(self).messages@[0], "system"@, content@, Priority::Pinned, false),
            final(self).messages@.drop_first() == old(self).messages@.filter(not_plain_system()),
    {
        let ghost m = self.messages@;
        let ghost keep = not_plain_system();
        let mut i: usize = self.messages.len();
        assert(m.take(i as int) == m);
        assert(m.skip(i as int).filter(keep) == Seq::<Message>::empty()) by {
            assert(m.skip(i as int) == Seq::<Message>::empty());
            reveal(Seq::filter);
        }
        while i > 0
            invariant
                i <= m.len(),
                keep == not_plain_system(),
                self.model_limit == old(self).model_limit,
                self.response_reserve == old(self).response_reserve,
                self.tool_definition_tokens == old(self).tool_definition_tokens,
                self.safety_margin == old(self).safety_margin,
                self.messages@ == m.take(i as int) + m.skip(i as int).filter(keep),
            decreases i,
        {
            i = i - 1;
            let ghost rest = m.skip(i + 1).filter(keep);
            proof {
                m.skip(i + 1).lemma_filter_prepend(m[i as int], keep);
                assert(m.skip(i as int) == seq![m[i as int]] + m.skip(i + 1));
                assert(m.take(i + 1) == m.take(i as int).push(m[i as int]));
            }
            let plain = str_eq(self.messages[i].role.as_str(), "system")
                && !self.messages[i].is_summary;
            if plain {
                self.messages.remove(i);
                assert(self.messages@ == m.take(i as int) + m.skip(i as int).filter(keep));
            } else {
                assert(m.take(i as int).push(m[i as int]) + rest == m.take(i as int) + (seq![
                    m[i as int],
                ] + rest));
            }
        }
        assert(m.take(0) + m.skip(0).filter(keep) == m.filter(keep)) by {
            assert(m.skip(0) == m);
        }
        let msg = Message::new("system", content);
        self.messages.insert(0, msg);
        assert(self.messages@.drop_first() == m.filter(keep));
    }

    /// Adds a message of `role` and prunes to 70 % of the limit when the
    /// budget becomes critical or exceeded.
    pub fn add_message(&mut self, role: &str, content: &str)
        requires
            old(self).committed() + message_estimate(role@, content@) <= usize::MAX,
        ensures
            final(self).model_limit == old(self).model_limit,
            final(self).response_reserve == old(self).response_reserve,
            final(self).tool_definition_tokens == old(self).tool_definition_tokens,
            final(self).safety_margin == old(self).safety_margin,
            exists|msg: Message|
                message_is(msg, role@, content@, role_priority(role@), false) && settled(
                    #[trigger] old(self).messages@.push(msg),
                    final(self).messages@,
                    old(self).committed() + message_estimate(role@, content@),
                    old(self).model_limit as nat,
                ),
            final(self).committed() <= old(self).committed() + message_estimate(role@, content@)
                + SUMMARY_TOKEN_BOUND,
    {
        let msg = Message::new(role, content);
        let ghost added = msg;
        let ghost c = self.committed() + message_estimate(role@, content@);
        self.messages.push(msg);
        assert(self.messages@.drop_last() == old(self).messages@);
        assert(self.committed() == c);
        let status = self.budget_status();
        let ghost pushed = self.messages@;
        if status == BudgetStatus::Critical || status == BudgetStatus::Exceeded {
            let limit = self.model_limit;
            assert(c > limit * 70 / 100) by (nonlinear_arith)
                requires
                    c > limit || c * 100 > limit * 95,
            ;
            self.prune_to_target(70);
        }
        assert(settled(pushed, self.messages@, c, self.model_limit as nat));
        assert(old(self).messages@.push(added) == pushed);
    }

    /// The messages, for building requests.
    pub fn get_messages(&self) -> (m: &[Message])
        ensures
            m@ == self.messages@,
    {
        self.messages.as_slice()
    }
}

// ---------------------------------------------------------------------------
// Usage report
// ---------------------------------------------------------------------------

/// A report line: a label and a count right-aligned in eight columns.
pub open spec fn count_line(label: Seq<char>, n: nat) -> Seq<char> {
    label + pad_left(decimal(n), 8) + " tokens"@
}

/// The first fifty characters of a message, with line breaks shown as
/// spaces.
pub open spec fn preview(content: Seq<char>) -> Seq<char> {
    let head = if content.len() <= 50 {
        content
    } else {
        content.take(50)
    };
    head.map_values(|c: char| if c == '\n' { ' ' } else { c })
}

/// The report line of the message at position `i`.
pub open spec fn message_line(i: nat, msg: Message) -> Seq<char> {
    "  "@ + pad_left(decimal(i + 1), 3) + ". "@ + pad_left(decimal(msg.token_count as nat), 6)
        + " tok  "@ + pad_right(
        if msg.is_summary {
            "[summary]"@
        } else {
            msg.role@
        },
        12,
    ) + " "@ + preview(msg.content@)
}

/// Tokens still available: the limit less what is committed, or 0.
pub open spec fn available_of(committed: nat, limit: nat) -> nat {
    if committed >= limit {
        0
    } else {
        (limit - committed) as nat
    }
}

/// The context usage report (what `/context` shows), with `utilization`
/// the percentage text to show.
pub open spec fn report(c: ContextManager, utilization: Seq<char>) -> Seq<Seq<char>> {
    let m = c.messages@;
    seq![
        "--- Context Budget ---"@,
        count_line("Model limit:         "@, c.model_limit as nat),
        count_line("System prompt:       "@, system_tokens_from(m, 0)),
        count_line("Tool definitions:    "@, c.tool_definition_tokens as nat),
        count_line("Conversation msgs:   "@, tokens_of(m)) + "  ("@ + decimal(m.len()) + " messages)"@,
        count_line("Response reserve:    "@, c.response_reserve as nat),
        count_line("Safety margin:       "@, c.safety_margin as nat),
        "------------------------------"@,
        count_line("Total committed:     "@, c.committed()),
        count_line("Available:           "@, available_of(c.committed(), c.model_limit as nat)),
        "Utilization:         "@ + pad_left(utilization, 7) + " %   ["@ + status_label(
            status_of(c.committed(), c.model_limit as nat),
        ) + "]"@,
        Seq::<char>::empty(),
        "Per-message breakdown:"@,
    ] + Seq::new(m.len(), |i: int| message_line(i as nat, m[i]))
}

/// A report line of a label and a count.
fn count_line_of(label: &str, n: usize) -> (s: String)
    ensures
        s@ == count_line(label@, n as nat),
{
    let mut s = String::new();
    push_str(&mut s, label);
    push_padded_decimal(&mut s, n as u64, 8);
    push_str(&mut s, " tokens");
    assert(Seq::<char>::empty() + label@ + pad_left(decimal(n as nat), 8) + " tokens"@ == count_line(
        label@,
        n as nat,
    ));
    s
}

/// Appends the preview of `content`.
fn push_preview(s: &mut String, content: &str)
    ensures
        final(s)@ == old(s)@ + preview(content@),
{
    let cs = chars_of(content);
    let n: usize = if cs.len() <= 50 {
        cs.len()
    } else {
        50
    };
    let ghost head = if content@.len() <= 50 {
        content@
    } else {
        content@.take(50)
    };
    let ghost f = |c: char| if c == '\n' { ' ' } else { c };
    assert(head.len() == n);
    let mut i: usize = 0;
    while i < n
        invariant
            i <= n,
            n == head.len(),
            n <= cs@.len(),
            cs@ == content@,
            head == if content@.len() <= 50 {
                content@
            } else {
                content@.take(50)
            },
            f == (|c: char| if c == '\n' { ' ' } else { c }),
            s@ == old(s)@ + head.take(i as int).map_values(f),
        decreases n - i,
    {
        let c = cs[i];
        assert(head[i as int] == c);
        if c == '\n' {
            push_char(s, ' ');
        } else {
            push_char(s, c);
        }
        assert(head.take(i + 1).map_values(f) == head.take(i as int).map_values(f).push(f(c)));
        i = i + 1;
    }
    assert(head.take(n as int) == head);
}

/// The report line of the message at position `i`, computed.
fn message_line_of(i: usize, msg: &Message) -> (s: String)
    requires
        i < usize::MAX,
    ensures
        s@ == message_line(i as nat, *msg),
{
    let mut s = String::new();
    push_str(&mut s, "  ");
    push_padded_decimal(&mut s, (i + 1) as u64, 3);
    push_str(&mut s, ". ");
    push_padded_decimal(&mut s, msg.token_count as u64, 6);
    push_str(&mut s, " tok  ");
    if msg.is_summary {
        push_padded_right(&mut s, "[summary]", 12);
    } else {
        push_padded_right(&mut s, msg.role.as_str(), 12);
    }
    push_str(&mut s, " ");
    push_preview(&mut s, msg.content.as_str());
    s
}

impl ContextManager {
    /// The multi-line context usage report; `utilization` is the text of
    /// the committed share of the limit, in percent.
    pub fn usage_report(&self, utilization: &str) -> (lines: Vec<String>)
        requires
            self.fits(),
        ensures
            string_views(lines@) == report(*self, utilization@),
    {
        let committed = self.total_committed();
        let mut lines: Vec<String> = Vec::new();
        lines.push("--- Context Budget ---".to_string());
        lines.push(count_line_of("Model limit:         ", self.model_limit));
        lines.push(count_line_of("System prompt:       ", self.system_prompt_tokens()));
        lines.push(count_line_of("Tool definitions:    ", self.tool_definition_tokens));
        let mut conv = count_line_of("Conversation msgs:   ", self.message_tokens());
        push_str(&mut conv, "  (");
        push_decimal(&mut conv, self.messages.len() as u64);
        push_str(&mut conv, " messages)");
        lines.push(conv);
        lines.push(count_line_of("Response reserve:    ", self.response_reserve));
        lines.push(count_line_of("Safety margin:       ", self.safety_margin));
        lines.push("------------------------------".to_string());
        lines.push(count_line_of("Total committed:     ", committed));
        lines.push(count_line_of("Available:           ", self.available()));
        let mut util = String::new();
        push_str(&mut util, "Utilization:         ");
        push_padded_left(&mut util, utilization, 7);
        push_str(&mut util, " %   [");
        push_str(&mut util, self.budget_status().label());
        push_str(&mut util, "]");
        lines.push(util);
        lines.push(String::new());
        lines.push("Per-message breakdown:".to_string());
        let ghost head = string_views(lines@);
        let ghost m = self.messages@;
        assert(head == report(*self, utilization@).take(13));
        let mut i: usize = 0;
        while i < self.messages.len()
            invariant
                i <= m.len(),
                m == self.messages@,
                head.len() == 13,
                head == report(*self, utilization@).take(13),
                string_views(lines@) == head + Seq::new(i as nat, |k: int| message_line(k as nat, m[k])),
            decreases self.messages.len() - i,
        {
            let line = message_line_of(i, &self.messages[i]);
            let ghost prev = lines@;
            let ghost lv = line@;
            lines.push(line);
            assert(string_views(lines@) == string_views(prev).push(lv));
            assert(Seq::new((i + 1) as nat, |k: int| message_line(k as nat, m[k])) == Seq::new(
                i as nat,
                |k: int| message_line(k as nat, m[k]),
            ).push(message_line(i as nat, m[i as int])));
            i = i + 1;
        }
        assert(report(*self, utilization@) == head + Seq::new(m.len(), |k: int| message_line(k as nat, m[k])));
        lines
    }
}


// ---------------------------------------------------------------------------
// Laws
// ---------------------------------------------------------------------------

/// The severity of a status: healthy 0 up to exceeded 3.
pub open spec fn severity(s: BudgetStatus) -> nat {
    match s {
        BudgetStatus::Healthy => 0,
        BudgetStatus::Warning => 1,
        BudgetStatus::Critical => 2,
        BudgetStatus::Exceeded => 3,
    }
}

/// Committing more tokens against the same limit never makes the status
/// less severe.
pub proof fn law_status_monotone(c1: nat, c2: nat, limit: nat)
    requires
        c1 <= c2,
    ensures
        severity(status_of(c1, limit)) <= severity(status_of(c2, limit)),
{
    assert(c1 * 100 <= c2 * 100);
}

proof fn lemma_survivor(m: Seq<Message>, gone: Set<usize>, i: int, j: int)
    requires
        m.len() <= usize::MAX,
        0 <= i <= j < m.len(),
        !gone.contains(j as usize),
    ensures
        survivors_from(m, gone, i).contains(m[j]),
    decreases j - i,
{
    let s = survivors_from(m, gone, i);
    if i == j {
        assert(s[0] == m[j]);
    } else {
        lemma_survivor(m, gone, i + 1, j);
        let rest = survivors_from(m, gone, i + 1);
        let t = choose|t: int| 0 <= t < rest.len() && rest[t] == m[j];
        if gone.contains(i as usize) {
            assert(s[t] == m[j]);
        } else {
            assert(s[t + 1] == m[j]);
        }
    }
}

/// Pruning never removes a pinned message: every pinned message before a
/// prune is still there after it.
pub proof fn law_prune_keeps_pinned(before: Seq<Message>, after: Seq<Message>, need: int)
    requires
        before.len() <= usize::MAX,
        pruned(before, after, need),
    ensures
        forall|i: int|
            0 <= i < before.len() && #[trigger] before[i].priority == Priority::Pinned
                ==> after.contains(before[i]),
{
    let ord = prune_order(before);
    let k = cut_from(before, ord, need, 0, 0);
    lemma_cut(before, ord, need, 0, 0);
    lemma_ranked_below(before, 3);
    let gone = ord.take(k as int).to_set();
    let kept = survivors_from(before, gone, 0);
    let pos = summary_position(kept);
    assert forall|i: int|
        0 <= i < before.len() && #[trigger] before[i].priority == Priority::Pinned implies after.contains(
        before[i],
    ) by {
        if k == 0 {
            assert(after[i] == before[i]);
        } else {
            assert(!gone.contains(i as usize)) by {
                if gone.contains(i as usize) {
                    let a = choose|a: int| 0 <= a < k && ord.take(k as int)[a] == i as usize;
                    assert(ord[a] == i as usize);
                }
            }
            lemma_survivor(before, gone, 0, i);
            let t = choose|t: int| 0 <= t < kept.len() && kept[t] == before[i];
            assert(after.remove(pos) == kept);
            if t < pos {
                assert(after[t] == before[i]);
            } else {
                assert(after[t + 1] == before[i]);
            }
        }
    }
}

proof fn lemma_cut(m: Seq<Message>, ord: Seq<usize>, need: int, j: nat, freed: int)
    requires
        j <= ord.len(),
        freed == tokens_at(m, ord.take(j as int)),
        forall|a: nat| a < j ==> #[trigger] tokens_at(m, ord.take(a as int)) < need,
    ensures
        j <= cut_from(m, ord, need, j, freed) <= ord.len(),
        forall|a: nat|
            a < cut_from(m, ord, need, j, freed) ==> #[trigger] tokens_at(m, ord.take(a as int))
                < need,
        cut_from(m, ord, need, j, freed) < ord.len() ==> tokens_at(
            m,
            ord.take(cut_from(m, ord, need, j, freed) as int),
        ) >= need,
    decreases ord.len() - j,
{
    if j < ord.len() && freed < need {
        assert(ord.take((j + 1) as int).drop_last() == ord.take(j as int));
        lemma_cut(m, ord, need, j + 1, freed + m[ord[j as int] as int].token_count);
    }
}

/// Pruning takes the shortest run of candidates, in prune order, that
/// frees the tokens needed: every shorter run frees less, and unless all
/// candidates go, the run taken frees at least what is needed.
pub proof fn law_prune_takes_shortest_run(m: Seq<Message>, need: int)
    ensures
        ({
            let ord = prune_order(m);
            let k = cut_from(m, ord, need, 0, 0);
            &&& k <= ord.len()
            &&& forall|a: nat| a < k ==> #[trigger] tokens_at(m, ord.take(a as int)) < need
            &&& k < ord.len() ==> tokens_at(m, ord.take(k as int)) >= need
        }),
{
    let ord = prune_order(m);
    assert(ord.take(0) == Seq::<usize>::empty());
    lemma_cut(m, ord, need, 0, 0);
}

} // verus!
