use cli_agent::files::FileEntry;
use cli_agent::search::{
    format_file_size, format_glob_results, format_grep_results, normalize_glob_pattern,
    select_glob_results, GlobSearch, GlobTool, GlobToolInput, GrepMatch, GrepSearch,
    GrepSetupError, GrepTool, GrepToolInput, DEFAULT_CONTEXT_LINES, DEFAULT_GLOB_LIMIT,
};

fn grep_input(pattern: &str) -> GrepToolInput {
    GrepToolInput {
        pattern: pattern.to_string(),
        path: None,
        name_glob: None,
        context_lines: DEFAULT_CONTEXT_LINES,
        case_insensitive: false,
    }
}

#[test]
fn grep_finds_lines_with_context() {
    let search = GrepSearch::new(&grep_input(r"fn \w+")).unwrap();
    assert_eq!(search.search_path(), ".");
    let content = "use x;\n\nfn main() {\n    go();\n}\nfn go() {}\n";
    let ms = search.matches_in("src/main.rs", content);
    assert_eq!(ms.len(), 2);
    assert_eq!(ms[0].line_number, 3);
    assert_eq!(ms[0].line_content, "fn main() {");
    assert_eq!(ms[0].context_before, vec!["use x;".to_string(), String::new()]);
    assert_eq!(ms[0].context_after, vec!["    go();".to_string(), "}".to_string()]);
    assert_eq!(ms[1].line_number, 6);
    assert_eq!(ms[1].context_before, vec!["    go();".to_string(), "}".to_string()]);
    assert!(ms[1].context_after.is_empty());
}

#[test]
fn grep_case_and_setup_errors() {
    let mut input = grep_input("HELLO");
    input.case_insensitive = true;
    let search = GrepSearch::new(&input).unwrap();
    assert_eq!(search.matches_in("f", "hello\nbye\n").len(), 1);
    match GrepSearch::new(&grep_input("(unclosed")) {
        Err(GrepSetupError::InvalidPattern(m)) => assert!(m.starts_with("Invalid regex pattern: ")),
        _ => panic!("expected a pattern error"),
    }
    let mut input = grep_input("x");
    input.name_glob = Some("[".to_string());
    match GrepSearch::new(&input) {
        Err(GrepSetupError::InvalidNameGlob { glob, .. }) => assert_eq!(glob, "["),
        _ => panic!("expected a glob error"),
    }
}

#[test]
fn grep_file_name_filter() {
    let mut input = grep_input("x");
    input.name_glob = Some("*.rs".to_string());
    input.path = Some("src".to_string());
    let search = GrepSearch::new(&input).unwrap();
    assert_eq!(search.search_path(), "src");
    assert!(search.wants_file(Some("main.rs")));
    assert!(!search.wants_file(Some("README.md")));
    assert!(!search.wants_file(None));
    let search = GrepSearch::new(&grep_input("x")).unwrap();
    assert!(search.wants_file(None));
}

fn grep_match(line: usize, before: &[&str], after: &[&str]) -> GrepMatch {
    GrepMatch {
        path: "src/a.rs".to_string(),
        line_number: line,
        line_content: format!("line {line}"),
        context_before: before.iter().map(|s| s.to_string()).collect(),
        context_after: after.iter().map(|s| s.to_string()).collect(),
    }
}

#[test]
fn grep_report_format() {
    assert_eq!(format_grep_results(&[], 50), "No matches found.");
    let ms = vec![grep_match(5, &["three", "four"], &["six"])];
    assert_eq!(
        format_grep_results(&ms, 50),
        "[grep] Found 1 result(s):\n\n  3: three\n  4: four\n> src/a.rs:5: line 5\n  6: six\n---\n"
    );
    let ms = vec![grep_match(1, &[], &[]), grep_match(2, &[], &[]), grep_match(3, &[], &[])];
    assert_eq!(
        format_grep_results(&ms, 2),
        "[grep] Showing 2 of 3 result(s):\n\n> src/a.rs:1: line 1\n---\n> src/a.rs:2: line 2\n---\n\n[1 more result(s) not shown. Narrow your search with a more specific pattern or add file filters.]\n"
    );
}

#[test]
fn glob_pattern_normalisation() {
    assert_eq!(normalize_glob_pattern("*.rs"), "**/*.rs");
    assert_eq!(normalize_glob_pattern("**.rs"), "**.rs");
    assert_eq!(normalize_glob_pattern("src/*.rs"), "src/*.rs");
    assert_eq!(normalize_glob_pattern("./src/*.rs"), "src/*.rs");
    assert_eq!(normalize_glob_pattern("**/*.toml"), "**/*.toml");
}

#[test]
fn glob_selects_relative_paths() {
    let search = GlobSearch::new(&GlobToolInput {
        pattern: "**/*.rs".to_string(),
        path: Some("/proj".to_string()),
        limit: DEFAULT_GLOB_LIMIT,
    })
    .unwrap();
    assert_eq!(search.search_path(), "/proj");
    assert!(search.selects("/proj/src/main.rs"));
    assert!(!search.selects("/proj/Cargo.toml"));
    assert!(!search.selects("/proj"));
    let err = GlobSearch::new(&GlobToolInput { pattern: "[".to_string(), path: None, limit: 1 });
    assert!(err.err().unwrap().starts_with("Invalid glob pattern '[': "));
}

#[test]
fn glob_results_sorted_and_cut() {
    let found: Vec<FileEntry> = (0..5u128)
        .map(|i| FileEntry { path: format!("f{i}"), modified: Some(i * 1_000_000_000), size: 10 })
        .collect();
    let kept = select_glob_results(&found, 3);
    let names: Vec<&str> = kept.iter().map(|e| e.path.as_str()).collect();
    assert_eq!(names, vec!["f4", "f3", "f2"]);
}

#[test]
fn file_sizes() {
    assert_eq!(format_file_size(0), "0B");
    assert_eq!(format_file_size(1023), "1023B");
    assert_eq!(format_file_size(1024), "1.0KB");
    assert_eq!(format_file_size(1536), "1.5KB");
    assert_eq!(format_file_size(1280), "1.2KB");
    assert_eq!(format_file_size(5 * 1024 * 1024), "5.0MB");
    // The rendering agrees with one-decimal float formatting.
    for bytes in (1024u64..300_000).step_by(7).chain((1_048_576u64..50_000_000).step_by(9973)) {
        let expected = if bytes < 1024 * 1024 {
            format!("{:.1}KB", bytes as f64 / 1024.0)
        } else {
            format!("{:.1}MB", bytes as f64 / (1024.0 * 1024.0))
        };
        assert_eq!(format_file_size(bytes), expected, "size {bytes}");
    }
}

#[test]
fn glob_report_format() {
    let now = 1_000_000u64;
    let es = vec![
        FileEntry { path: "a.rs".to_string(), modified: Some(now as u128 * 1_000_000_000), size: 100 },
        FileEntry { path: "b.rs".to_string(), modified: Some((now - 7200) as u128 * 1_000_000_000), size: 2048 },
        FileEntry { path: "c.rs".to_string(), modified: Some((now - 3 * 86400) as u128 * 1_000_000_000), size: 1 },
        FileEntry { path: "d.rs".to_string(), modified: None, size: 1 },
    ];
    assert_eq!(format_glob_results(&[], 100, now), "No files matched the pattern.");
    assert_eq!(
        format_glob_results(&es, 3, now),
        "[glob] Showing 3 of 4 file(s):\n\n  a.rs (100B, just now)\n  b.rs (2.0KB, 2h ago)\n  c.rs (1B, 3d ago)\n\n[1 more file(s) not shown. Use a more specific pattern or reduce the search scope.]\n"
    );
    assert_eq!(
        format_glob_results(&es[3..], 100, now),
        "[glob] Found 1 file(s):\n\n  d.rs (1B, unknown)\n"
    );
}

#[test]
fn search_tools_describe_themselves() {
    let g = GrepTool::new();
    assert_eq!(g.max_results, 50);
    assert_eq!(g.name(), "grep");
    assert!(g.description().starts_with("Search file contents"));
    let t = GlobTool::new();
    assert_eq!(t.max_results, 100);
    assert_eq!(t.name(), "glob");
    assert!(t.description().starts_with("Find files by name pattern"));
}

#[test]
fn grep_lines_split_as_str_lines() {
    let search = GrepSearch::new(&grep_input("b")).unwrap();
    let ms = search.matches_in("f", "a\r\nb\r");
    assert_eq!(ms.len(), 1);
    assert_eq!(ms[0].line_number, 2);
    assert_eq!(ms[0].line_content, "b\r");
    assert_eq!(ms[0].context_before, vec!["a".to_string()]);
}
