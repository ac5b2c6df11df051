use cli_agent::context::{BudgetStatus, Priority};
use cli_agent::tui::{App, Key, LineColor, MinimalApp};

fn percent(committed: usize, limit: usize, decimals: usize) -> String {
    format!("{:.*}", decimals, committed as f64 / limit as f64 * 100.0)
}

fn type_line(app: &mut App, line: &str) {
    for c in line.chars() {
        app.handle_key(Key::Char(c), false, &percent);
    }
    app.handle_key(Key::Enter, false, &percent);
}

#[test]
fn starts_with_prompt_and_intro() {
    let app = App::new();
    assert!(!app.should_quit);
    assert_eq!(app.display_lines.len(), 1);
    assert_eq!(app.display_lines[0].1, LineColor::DarkGray);
    assert_eq!(app.ctx.messages.len(), 1);
    assert_eq!(app.ctx.messages[0].priority, Priority::Pinned);
    assert_eq!(app.ctx.model_limit, 200_000);
}

#[test]
fn keys_edit_scroll_and_quit() {
    let mut app = App::new();
    app.handle_key(Key::Char('h'), false, &percent);
    app.handle_key(Key::Char('i'), false, &percent);
    app.handle_key(Key::Backspace, false, &percent);
    assert_eq!(app.input, "h");
    app.handle_key(Key::Backspace, false, &percent);
    app.handle_key(Key::Backspace, false, &percent);
    assert_eq!(app.input, "");
    app.handle_key(Key::Down, false, &percent);
    assert_eq!(app.scroll, 0);
    app.handle_key(Key::Up, false, &percent);
    app.handle_key(Key::Up, false, &percent);
    app.handle_key(Key::Down, false, &percent);
    assert_eq!(app.scroll, 1);
    app.handle_key(Key::Char('c'), false, &percent);
    assert_eq!(app.input, "c");
    assert!(!app.should_quit);
    app.handle_key(Key::Char('c'), true, &percent);
    assert!(app.should_quit);
    let mut m = MinimalApp::new();
    m.handle_key(Key::Char('x'));
    assert!(!m.should_quit);
    m.handle_key(Key::Char('q'));
    assert!(m.should_quit);
}

#[test]
fn slash_commands() {
    let mut app = App::new();
    type_line(&mut app, "   ");
    assert_eq!(app.display_lines.len(), 1);
    type_line(&mut app, "/help");
    assert_eq!(app.display_lines.len(), 7);
    assert_eq!(app.display_lines[1].0, "/context  — show context window usage");
    assert_eq!(app.display_lines[6].1, LineColor::Green);
    type_line(&mut app, "/bogus");
    assert_eq!(app.display_lines[7], ("Unknown command: /bogus. Type /help for options.".to_string(), LineColor::Red));
    type_line(&mut app, " /context ");
    assert_eq!(app.display_lines.len(), 8 + 14);
    assert_eq!(app.display_lines[8].0, "--- Context Budget ---");
    assert_eq!(app.display_lines[8].1, LineColor::Cyan);
    type_line(&mut app, "/clear");
    assert_eq!(app.display_lines, vec![("Conversation cleared.".to_string(), LineColor::Yellow)]);
    assert_eq!(app.ctx.messages.len(), 1);
}

#[test]
fn messages_get_simulated_replies() {
    let mut app = App::new();
    type_line(&mut app, "hello world");
    assert_eq!(app.input, "");
    let n = app.display_lines.len();
    assert_eq!(app.display_lines[1], ("You: hello world".to_string(), LineColor::White));
    let committed = app.ctx.total_committed() - app.ctx.messages[2].token_count;
    let expected = format!(
        "Assistant: (simulated) I received your message (3 tokens est). Context is at {}%.",
        percent(committed, 200_000, 1)
    );
    assert_eq!(app.display_lines[n - 1], (expected, LineColor::Magenta));
    assert_eq!(app.ctx.messages.len(), 3);
    assert_eq!(app.ctx.messages[1].content, "hello world");
    assert_eq!(app.ctx.messages[2].role, "assistant");
}

#[test]
fn warning_hint_appears_near_the_limit() {
    let mut app = App::new();
    app.ctx.model_limit = 12_000;
    type_line(&mut app, "hi");
    assert_eq!(app.ctx.budget_status(), BudgetStatus::Warning);
    assert_eq!(app.display_lines.len(), 4);
    assert!(app.display_lines[2].0.starts_with("[context 9"));
    assert!(app.display_lines[2].0.ends_with("% — status: Warning]"));
    assert_eq!(app.display_lines[2].1, LineColor::Yellow);
}
