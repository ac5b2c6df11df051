use cli_agent::files::{
    check_within_base, format_result, is_in_ignored_dir, keep_listed, list_report,
    normalize_content, render_read, sort_newest_first, write_summary, FileEntry, ListDirectoryTool,
    ReadFileTool, WriteFileTool, LIST_LIMIT, find_tool,
};

fn entry(path: &str, modified: Option<u128>) -> FileEntry {
    FileEntry { path: path.to_string(), modified, size: 0 }
}

#[test]
fn read_whole_file_is_numbered() {
    let content = "fn a() {}\nfn b() {}\n";
    assert_eq!(render_read(content, None, None), "   1\tfn a() {}\n   2\tfn b() {}");
    assert_eq!(render_read("", None, None), "");
}

#[test]
fn read_range_has_header() {
    let content = "one\ntwo\nthree\nfour\n";
    assert_eq!(
        render_read(content, Some(2), Some(2)),
        "[Showing lines 2-3 of 4 total]\n   2\ttwo\n   3\tthree"
    );
    // An offset past the end shows nothing but the header.
    assert_eq!(render_read(content, Some(10), None), "[Showing lines 5-4 of 4 total]\n");
    // A limit alone also gets the header; offset 0 and 1 both start at the top.
    assert_eq!(render_read(content, Some(0), Some(1)), "[Showing lines 1-1 of 4 total]\n   1\tone");
    assert_eq!(render_read("a\r\nb", Some(1), None), "   1\ta\n   2\tb");
}

#[test]
fn write_normalises_line_endings() {
    assert_eq!(normalize_content("a\r\nb"), "a\nb\n");
    assert_eq!(normalize_content("a\n"), "a\n");
    assert_eq!(normalize_content(""), "");
    assert_eq!(normalize_content("\r\r\n"), "\r\n");
    assert_eq!(normalize_content("x\r"), "x\r\n");
}

#[test]
fn write_summary_counts_lines_and_bytes() {
    assert_eq!(write_summary(false, "/p/a.rs", "é\nb\n"), "Created /p/a.rs (2 lines, 5 bytes)");
    assert_eq!(write_summary(true, "/p/a.rs", ""), "Updated /p/a.rs (0 lines, 0 bytes)");
}

#[test]
fn ignored_directories() {
    assert!(is_in_ignored_dir("/p/target/debug/x"));
    assert!(is_in_ignored_dir("node_modules/a.js"));
    assert!(!is_in_ignored_dir("/p/src/targets.rs"));
    assert!(!is_in_ignored_dir("/p/src/main.rs"));
    assert!(keep_listed(false, "/p/src/a.rs", Some("/p/src/a.rs"), "/p"));
    assert!(!keep_listed(true, "/p/src", None, "/p"));
    assert!(!keep_listed(false, "/p/.git/config", None, "/p"));
    assert!(!keep_listed(false, "/p/link", Some("/etc/passwd"), "/p"));
    assert!(keep_listed(false, "/p/broken", None, "/p"));
}

#[test]
fn newest_first_is_stable() {
    let files = vec![
        entry("a", Some(5)),
        entry("b", None),
        entry("c", Some(9)),
        entry("d", Some(5)),
        entry("e", Some(0)),
    ];
    let sorted = sort_newest_first(&files);
    let names: Vec<&str> = sorted.iter().map(|e| e.path.as_str()).collect();
    assert_eq!(names, vec!["c", "a", "d", "b", "e"]);
}

#[test]
fn listing_report_shape() {
    let files = vec![entry("/base/src/a.rs", Some(1)), entry("/base/b.md", Some(2)), entry("/other/c", Some(0))];
    let (text, _) = list_report("**/*", "/base", &files);
    assert_eq!(text, "Found 3 file(s) matching '**/*':\nb.md\nsrc/a.rs\n/other/c");
    let (text, _) = list_report("*.zig", "/base", &[]);
    assert_eq!(text, "No files found matching pattern '*.zig'");
    let many: Vec<FileEntry> = (0..150).map(|i| entry(&format!("/base/f{i}"), Some(i))).collect();
    let (text, _) = list_report("*", "/base", &many);
    assert!(text.starts_with(&format!("Found {LIST_LIMIT} file(s) matching '*':\nf149\nf148\n")));
}

#[test]
fn boundary_and_results() {
    assert_eq!(check_within_base("a.txt", "/base/a.txt", "/base"), Ok(()));
    assert_eq!(
        check_within_base("../../etc/passwd", "/etc/passwd", "/base"),
        Err("Path '../../etc/passwd' resolves to '/etc/passwd' which is outside the allowed directory '/base'".to_string())
    );
    assert!(check_within_base("x", "/basement/x", "/base").is_err());
    assert_eq!(format_result(&Ok("fine".to_string())), "fine");
    assert_eq!(format_result(&Err("bad".to_string())), "[ERROR] bad");
}

#[test]
fn file_tools_names_and_base() {
    let r = ReadFileTool::new("/p");
    let w = WriteFileTool::new("/p");
    let l = ListDirectoryTool::new("/p");
    assert_eq!((r.name(), w.name(), l.name()), ("read_file", "write_file", "list_directory"));
    assert_eq!(r.base_dir, "/p");
    assert!(r.description().starts_with("Read the contents of a file at the given path."));
    assert!(w.description().ends_with("Overwrites the file if it already exists."));
    assert!(l.description().contains("sorted by modification time (most recent first)"));
}

#[test]
fn tools_are_found_by_name() {
    let names = ["read_file", "write_file", "list_directory", "write_file"];
    assert_eq!(find_tool(&names, "write_file"), Ok(1));
    assert_eq!(find_tool(&names, "list_directory"), Ok(2));
    assert_eq!(find_tool(&names, "grep"), Err("Unknown tool: grep".to_string()));
    assert_eq!(find_tool(&[], "x"), Err("Unknown tool: x".to_string()));
}

#[test]
fn normalizing_twice_is_normalizing_once() {
    let once = normalize_content("a\r\nb\r\nc");
    assert_eq!(once, "a\nb\nc\n");
    assert_eq!(normalize_content(&once), once);
    assert_eq!(normalize_content(""), "");
    // A lone CR before a CR LF pair survives one pass.
    assert_eq!(normalize_content("\r\r\n"), "\r\n");
    assert_eq!(normalize_content("\r\n"), "\n");
}

#[test]
fn read_keeps_a_final_bare_carriage_return() {
    assert_eq!(render_read("a\r\nb\r", None, None), "   1\ta\n   2\tb\r");
}
