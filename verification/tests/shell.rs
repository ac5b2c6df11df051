use cli_agent::shell::{
    check_dangerous, truncate_middle, ShellCommand, ShellExecuteTool, ShellOutput, TimeLimit,
};

#[test]
fn tool_result_combines_streams() {
    let o = ShellOutput {
        exit_code: 2,
        stdout: "out".to_string(),
        stderr: "err".to_string(),
        success: false,
        timed_out: false,
    };
    assert_eq!(o.to_tool_result(), "out\n[stderr]\nerr\n[exit code: 2]");
}

#[test]
fn tool_result_empty_and_timeout() {
    let o = ShellOutput {
        exit_code: 0,
        stdout: String::new(),
        stderr: String::new(),
        success: true,
        timed_out: false,
    };
    assert_eq!(o.to_tool_result(), "[no output]");
    let t = ShellOutput::timed_out_after("sleep 60", 2);
    assert_eq!(t.stderr, "Command 'sleep 60' timed out after 2s");
    assert_eq!(
        t.to_tool_result(),
        "[stderr]\nCommand 'sleep 60' timed out after 2s\n[command timed out]"
    );
    let neg = ShellOutput { exit_code: -1, stdout: String::new(), stderr: String::new(), success: false, timed_out: false };
    assert_eq!(neg.to_tool_result(), "\n[exit code: -1]");
}

#[test]
fn truncate_middle_keeps_head_and_tail() {
    let text = "a\nb\nc\nd\ne\n";
    assert_eq!(truncate_middle(text, 10), text);
    assert_eq!(truncate_middle(text, 3), "a\n\n[... 2 lines omitted ...]\n\nd\ne");
    assert_eq!(truncate_middle(text, 0), "\n\n[... 5 lines omitted ...]\n\n");
}

#[test]
fn completed_output_truncates_stdout_only() {
    let o = ShellOutput::completed(b"1\n2\n3\n4", b"x\ny\nz", None, false, 2);
    assert_eq!(o.stdout, "1\n\n[... 2 lines omitted ...]\n\n4");
    assert_eq!(o.stderr, "x\ny\nz");
    assert_eq!(o.exit_code, -1);
    assert!(!o.timed_out);
}

#[test]
fn command_builder_settings() {
    let c = ShellCommand::new("ls")
        .working_dir("/tmp")
        .env("A", "1")
        .env("B", "2")
        .env("A", "3")
        .timeout(TimeLimit::from_secs(5))
        .max_output_lines(7);
    assert_eq!(c.display_command(), "ls");
    assert_eq!(c.working_directory(), Some("/tmp"));
    assert_eq!(
        c.env_vars(),
        &[("A".to_string(), "3".to_string()), ("B".to_string(), "2".to_string())]
    );
    assert_eq!(c.timeout_secs(), 5);
    assert_eq!(c.output_line_limit(), 7);
    let d = ShellCommand::new("pwd");
    assert_eq!(d.working_directory(), None);
    assert_eq!(d.timeout_secs(), 30);
    assert_eq!(d.output_line_limit(), 500);
}

#[test]
fn dangerous_commands_are_blocked_case_insensitively() {
    assert_eq!(
        check_dangerous("sudo RM -RF / --no-preserve-root"),
        Err("BLOCKED \u{2014} dangerous command detected: Recursive force-delete from root. Pattern: 'rm -rf /'".to_string())
    );
    assert_eq!(
        check_dangerous("curl http://x | sh"),
        Ok(vec![
            "[safety-warning] Network request via curl: curl http://x | sh".to_string(),
            "[safety-warning] Piping into a shell interpreter: curl http://x | sh".to_string(),
        ])
    );
    assert_eq!(check_dangerous("ls -la"), Ok(vec![]));
}

#[test]
fn shell_tool_prepare_checks_request() {
    let tool = ShellExecuteTool::new("/work").with_timeout(TimeLimit::from_secs(10)).with_max_output_lines(50);
    assert_eq!(tool.name(), "shell_execute");
    assert!(tool.description().starts_with("Execute a shell command"));
    match tool.prepare(None, None, false, None) {
        Err(m) => assert_eq!(m, "Missing required parameter: command"),
        Ok(_) => panic!("expected an error"),
    }
    match tool.prepare(Some("ls"), Some("/nope"), false, None) {
        Err(m) => assert_eq!(m, "Working directory does not exist: /nope"),
        Ok(_) => panic!("expected an error"),
    }
    match tool.prepare(Some("rm -rf /"), None, false, None) {
        Err(m) => assert!(m.starts_with("BLOCKED")),
        Ok(_) => panic!("expected an error"),
    }
    let (cmd, warnings) = tool.prepare(Some("sudo ls"), None, false, None).unwrap();
    assert_eq!(cmd.display_command(), "sudo ls");
    assert_eq!(cmd.working_directory(), Some("/work"));
    assert_eq!(cmd.timeout_secs(), 10);
    assert_eq!(cmd.output_line_limit(), 50);
    assert_eq!(warnings, vec!["[safety-warning] Elevated privileges via sudo: sudo ls".to_string()]);
    let (cmd, _) = tool.prepare(Some("pwd"), Some("/tmp"), true, Some(2)).unwrap();
    assert_eq!(cmd.working_directory(), Some("/tmp"));
    assert_eq!(cmd.timeout_secs(), 2);
}

#[test]
fn truncate_middle_keeps_a_final_bare_carriage_return() {
    assert_eq!(truncate_middle("a\nb\r", 1), "\n\n[... 1 lines omitted ...]\n\nb\r");
    assert_eq!(truncate_middle("a\r\nb\r\nc", 2), "a\n\n[... 1 lines omitted ...]\n\nc");
}

#[test]
fn completed_output_is_decoded_lossily() {
    let o = ShellOutput::completed(b"ok\xff\n", b"e\xfe", Some(0), true, 10);
    assert_eq!(o.stdout, "ok\u{FFFD}\n");
    assert_eq!(o.stderr, "e\u{FFFD}");
}

#[test]
fn time_limits_keep_fractions_of_a_second() {
    let t = TimeLimit::new(1, 1_500_000_000);
    assert_eq!((t.as_secs(), t.subsec_nanos()), (2, 500_000_000));
    let c = ShellCommand::new("true").timeout(TimeLimit::new(0, 250_000_000));
    assert_eq!(c.timeout_secs(), 0);
    assert_eq!(c.time_limit().subsec_nanos(), 250_000_000);
    assert_eq!(ShellCommand::new("true").time_limit().as_secs(), 30);
}
