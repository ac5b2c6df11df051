use cli_agent::context::{
    estimate_message_tokens, estimate_tokens, BudgetStatus, ContextManager, Message, Priority,
};

fn utilization(ctx: &ContextManager) -> f64 {
    ctx.total_committed() as f64 / ctx.model_limit as f64
}

fn utilization_text(ctx: &ContextManager) -> String {
    format!("{:.1}", utilization(ctx) * 100.0)
}

#[test]
fn token_estimation_nonzero() {
    assert!(estimate_tokens("hello world") > 0);
    assert!(estimate_tokens("fn main() {}") > 0);
    assert!(estimate_tokens("") == 0);
}

#[test]
fn code_estimates_higher_than_prose() {
    let prose = "The quick brown fox jumps over the lazy dog";
    let code = "fn main() { let x: Vec<String> = vec![]; println!(\"{:?}\", x); }";
    let prose_tok = estimate_tokens(prose);
    let code_tok = estimate_tokens(code);
    assert!(code_tok >= prose_tok);
}

#[test]
fn budget_status_transitions() {
    let mut ctx = ContextManager::new(1_000);
    ctx.response_reserve = 0;
    ctx.tool_definition_tokens = 0;
    ctx.safety_margin = 0;
    assert_eq!(ctx.budget_status(), BudgetStatus::Healthy);

    ctx.messages.push(Message {
        role: "user".to_string(),
        content: String::new(),
        token_count: 850,
        priority: Priority::High,
        is_summary: false,
    });
    assert_eq!(ctx.budget_status(), BudgetStatus::Warning);
}

#[test]
fn prune_frees_tokens() {
    let mut ctx = ContextManager::new(1_000);
    ctx.response_reserve = 0;
    ctx.tool_definition_tokens = 0;
    ctx.safety_margin = 0;

    ctx.messages.push(Message {
        role: "system".to_string(),
        content: "system".to_string(),
        token_count: 10,
        priority: Priority::Pinned,
        is_summary: false,
    });
    for _ in 0..5 {
        ctx.messages.push(Message {
            role: "tool".to_string(),
            content: "tool output".to_string(),
            token_count: 200,
            priority: Priority::Low,
            is_summary: false,
        });
    }
    let before = ctx.message_tokens();
    assert!(before > 700);

    ctx.prune_to_target(50);
    let after = ctx.message_tokens();
    assert!(after < before, "pruning should reduce token count");
    assert!(ctx.messages.iter().any(|m| m.priority == Priority::Pinned));
}

#[test]
fn context_manager_auto_prunes_on_critical() {
    let mut ctx = ContextManager::new(500);
    ctx.response_reserve = 50;
    ctx.tool_definition_tokens = 50;
    ctx.safety_margin = 0;
    ctx.set_system_prompt("sys");

    for i in 0..30 {
        ctx.add_message("user", &format!("msg {i} with some padding text to fill tokens"));
    }
    assert!(
        utilization(&ctx) <= 1.0,
        "auto-prune should keep utilization at or below 100%"
    );
}

#[test]
fn usage_report_contains_key_fields() {
    let mut ctx = ContextManager::new(200_000);
    ctx.set_system_prompt("You are helpful.");
    ctx.add_message("user", "Hello");
    let report = ctx.usage_report(&utilization_text(&ctx));
    let joined = report.join("\n");
    assert!(joined.contains("Model limit"));
    assert!(joined.contains("System prompt"));
    assert!(joined.contains("Available"));
    assert!(joined.contains("Utilization"));
}

// -- Exact values --------------------------------------------------------

#[test]
fn estimate_rounds_words_up_and_counts_code_punctuation() {
    // Two words: ceil(2.6) = 3.
    assert_eq!(estimate_tokens("hello world"), 3);
    // Three words and four code characters: ceil(3.9) + 4 / 3.
    assert_eq!(estimate_tokens("fn main() {}"), 4 + 4 / 3);
    // Whitespace only: no words, but never below one.
    assert_eq!(estimate_tokens("   "), 1);
    // Ten words: exactly 13.
    assert_eq!(estimate_tokens("a b c d e f g h i j"), 13);
}

#[test]
fn message_estimate_adds_framing() {
    assert_eq!(estimate_message_tokens("user", "hello world"), 2 + 3 + 4);
    assert_eq!(estimate_message_tokens("", ""), 4);
}

#[test]
fn new_message_priority_follows_role() {
    assert_eq!(Message::new("system", "x").priority, Priority::Pinned);
    assert_eq!(Message::new("user", "x").priority, Priority::High);
    assert_eq!(Message::new("assistant", "x").priority, Priority::Normal);
    assert_eq!(Message::new("tool", "x").priority, Priority::Low);
    assert_eq!(Message::new("other", "x").priority, Priority::Normal);
    let s = Message::summary("done");
    assert!(s.is_summary);
    assert_eq!(s.role, "system");
    assert_eq!(s.priority, Priority::Normal);
    assert_eq!(s.token_count, 2 + 2 + 4);
}

#[test]
fn status_thresholds_and_labels() {
    let mut ctx = ContextManager::new(100);
    ctx.response_reserve = 0;
    ctx.tool_definition_tokens = 0;
    ctx.safety_margin = 80;
    assert_eq!(ctx.budget_status(), BudgetStatus::Healthy);
    ctx.safety_margin = 81;
    assert_eq!(ctx.budget_status(), BudgetStatus::Warning);
    ctx.safety_margin = 95;
    assert_eq!(ctx.budget_status(), BudgetStatus::Warning);
    ctx.safety_margin = 96;
    assert_eq!(ctx.budget_status(), BudgetStatus::Critical);
    ctx.safety_margin = 100;
    assert_eq!(ctx.budget_status(), BudgetStatus::Critical);
    ctx.safety_margin = 101;
    assert_eq!(ctx.budget_status(), BudgetStatus::Exceeded);
    assert_eq!(ctx.available(), 0);
    ctx.safety_margin = 40;
    assert_eq!(ctx.available(), 60);
    assert_eq!(BudgetStatus::Healthy.label(), "Healthy");
    assert_eq!(BudgetStatus::Warning.label(), "Warning");
    assert_eq!(BudgetStatus::Critical.label(), "CRITICAL");
    assert_eq!(BudgetStatus::Exceeded.label(), "EXCEEDED");
}

fn plain(role: &str, tokens: usize, priority: Priority) -> Message {
    Message {
        role: role.to_string(),
        content: format!("{role} {tokens}"),
        token_count: tokens,
        priority,
        is_summary: false,
    }
}

#[test]
fn prune_takes_lowest_priority_then_oldest_and_summarises() {
    let mut ctx = ContextManager::new(1_000);
    ctx.response_reserve = 0;
    ctx.tool_definition_tokens = 0;
    ctx.safety_margin = 0;
    ctx.messages.push(plain("system", 10, Priority::Pinned));
    ctx.messages.push(plain("user", 300, Priority::High));
    ctx.messages.push(plain("assistant", 300, Priority::Normal));
    ctx.messages.push(plain("tool", 100, Priority::Low));
    ctx.messages.push(plain("tool", 100, Priority::Low));
    // 810 committed; 50 % is 500, so 310 must go: both tool outputs (200)
    // and then the assistant reply (300).
    ctx.prune_to_target(50);
    let roles: Vec<&str> = ctx.messages.iter().map(|m| m.role.as_str()).collect();
    assert_eq!(roles, vec!["system", "system", "user"]);
    assert_eq!(ctx.messages[0].priority, Priority::Pinned);
    assert!(ctx.messages[1].is_summary);
    assert_eq!(
        ctx.messages[1].content,
        "[Context compacted: 3 older messages pruned to free ~500 tokens]"
    );
    assert_eq!(ctx.messages[2].token_count, 300);
}

#[test]
fn prune_below_target_changes_nothing() {
    let mut ctx = ContextManager::new(1_000);
    ctx.response_reserve = 0;
    ctx.tool_definition_tokens = 0;
    ctx.safety_margin = 0;
    ctx.messages.push(plain("tool", 100, Priority::Low));
    ctx.prune_to_target(50);
    assert_eq!(ctx.messages.len(), 1);
    assert!(!ctx.messages[0].is_summary);
}

#[test]
fn prune_without_candidates_changes_nothing() {
    let mut ctx = ContextManager::new(100);
    ctx.response_reserve = 0;
    ctx.tool_definition_tokens = 0;
    ctx.safety_margin = 0;
    ctx.messages.push(plain("system", 500, Priority::Pinned));
    ctx.prune_to_target(50);
    assert_eq!(ctx.messages.len(), 1);
}

#[test]
fn summary_goes_first_without_system_prompt() {
    let mut ctx = ContextManager::new(1_000);
    ctx.response_reserve = 0;
    ctx.tool_definition_tokens = 0;
    ctx.safety_margin = 0;
    ctx.messages.push(plain("tool", 600, Priority::Low));
    ctx.messages.push(plain("user", 100, Priority::High));
    ctx.prune_to_target(50);
    assert_eq!(ctx.messages.len(), 2);
    assert!(ctx.messages[0].is_summary);
    assert_eq!(ctx.messages[1].role, "user");
}

#[test]
fn system_prompt_replaces_earlier_prompt_and_keeps_summaries() {
    let mut ctx = ContextManager::new(200_000);
    ctx.set_system_prompt("first");
    ctx.messages.push(Message::summary("[Context compacted]"));
    ctx.add_message("user", "hi");
    ctx.set_system_prompt("second");
    assert_eq!(ctx.messages.len(), 3);
    assert_eq!(ctx.messages[0].content, "second");
    assert_eq!(ctx.messages[0].priority, Priority::Pinned);
    assert!(ctx.messages[1].is_summary);
    assert_eq!(ctx.messages[2].role, "user");
    assert_eq!(ctx.system_prompt_tokens(), ctx.messages[0].token_count);
}

#[test]
fn usage_report_lines_are_exact() {
    let mut ctx = ContextManager::new(200_000);
    ctx.set_system_prompt("You are helpful.");
    ctx.add_message("user", "Hello\nthere");
    let report = ctx.usage_report("5.6");
    assert_eq!(report.len(), 15);
    assert_eq!(report[0], "--- Context Budget ---");
    assert_eq!(report[1], format!("Model limit:         {:>8} tokens", 200_000));
    assert_eq!(report[2], format!("System prompt:       {:>8} tokens", ctx.messages[0].token_count));
    assert_eq!(report[3], format!("Tool definitions:    {:>8} tokens", 3_000));
    assert_eq!(
        report[4],
        format!("Conversation msgs:   {:>8} tokens  (2 messages)", ctx.message_tokens())
    );
    assert_eq!(report[7], "------------------------------");
    assert_eq!(report[10], format!("Utilization:         {:>7} %   [{}]", "5.6", "Healthy"));
    assert_eq!(report[11], "");
    assert_eq!(report[12], "Per-message breakdown:");
    assert_eq!(
        report[14],
        format!(
            "  {:>3}. {:>6} tok  {:<12} {}",
            2,
            ctx.messages[1].token_count,
            "user",
            "Hello there"
        )
    );
}

#[test]
fn auto_prune_keeps_system_prompt() {
    let mut ctx = ContextManager::new(500);
    ctx.response_reserve = 50;
    ctx.tool_definition_tokens = 50;
    ctx.safety_margin = 0;
    ctx.set_system_prompt("sys");
    for i in 0..30 {
        ctx.add_message("tool", &format!("output {i} with some padding text to fill tokens"));
    }
    assert_eq!(ctx.messages[0].content, "sys");
    assert_eq!(ctx.messages[0].priority, Priority::Pinned);
    assert!(ctx.messages.iter().any(|m| m.is_summary));
}
