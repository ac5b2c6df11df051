use cli_agent::permissions::{
    execute_shell, execute_tool, parse_approval, ApprovalResponse, CommandFilter, FilterVerdict,
    OperationClass, PathFilter, PermissionDecision, PermissionGate, PermissionLevel,
    PermissionManager, PermissionRegistry, ToolResult,
};

// -- PermissionLevel ordering ------------------------------------------

#[test]
fn permission_level_ordering() {
    assert!(PermissionLevel::ReadOnly < PermissionLevel::Standard);
    assert!(PermissionLevel::Standard < PermissionLevel::FullAuto);
}

// -- PermissionGate decisions ------------------------------------------

#[test]
fn read_always_allowed() {
    let gate = PermissionGate::new(PermissionLevel::ReadOnly);
    assert_eq!(gate.check("read_file", None), PermissionDecision::Allowed);
    assert_eq!(gate.check("grep", None), PermissionDecision::Allowed);
}

#[test]
fn write_denied_in_readonly() {
    let gate = PermissionGate::new(PermissionLevel::ReadOnly);
    match gate.check("write_file", None) {
        PermissionDecision::Denied { .. } => {}
        other => panic!("expected Denied, got {other:?}"),
    }
}

#[test]
fn write_needs_approval_in_standard() {
    let gate = PermissionGate::new(PermissionLevel::Standard);
    match gate.check("write_file", None) {
        PermissionDecision::NeedsApproval { .. } => {}
        other => panic!("expected NeedsApproval, got {other:?}"),
    }
}

#[test]
fn destructive_denied_below_fullauto() {
    let gate = PermissionGate::new(PermissionLevel::Standard);
    match gate.check("git", Some("push --force")) {
        PermissionDecision::Denied { .. } => {}
        other => panic!("expected Denied, got {other:?}"),
    }
}

#[test]
fn everything_allowed_in_fullauto() {
    let gate = PermissionGate::new(PermissionLevel::FullAuto);
    assert_eq!(gate.check("write_file", None), PermissionDecision::Allowed);
    assert_eq!(
        gate.check("git", Some("push --force")),
        PermissionDecision::Allowed
    );
}

// -- CommandFilter ------------------------------------------------------

#[test]
fn safe_commands_allowed() {
    let f = CommandFilter::with_defaults();
    assert_eq!(f.check_command("cargo test"), FilterVerdict::Allowed);
    assert_eq!(f.check_command("ls -la"), FilterVerdict::Allowed);
    assert_eq!(f.check_command("git status"), FilterVerdict::Allowed);
}

#[test]
fn dangerous_commands_blocked() {
    let f = CommandFilter::with_defaults();
    match f.check_command("rm -rf /") {
        FilterVerdict::Blocked(_) => {}
        other => panic!("expected Blocked, got {other:?}"),
    }
    match f.check_command("dd if=/dev/zero of=/dev/sda") {
        FilterVerdict::Blocked(_) => {}
        other => panic!("expected Blocked, got {other:?}"),
    }
}

#[test]
fn unknown_executable_blocked() {
    let f = CommandFilter::with_defaults();
    match f.check_command("docker run ubuntu") {
        FilterVerdict::Blocked(reason) => {
            assert!(reason.contains("not on the allowlist"));
        }
        other => panic!("expected Blocked, got {other:?}"),
    }
}

// -- PathFilter ---------------------------------------------------------

#[test]
fn project_paths_allowed() {
    let root = "/home/user/project";
    let f = PathFilter::with_defaults(root);
    assert_eq!(
        f.check_path("/home/user/project/src/lib.rs"),
        FilterVerdict::Allowed
    );
}

#[test]
fn sensitive_files_blocked() {
    let root = "/home/user/project";
    let f = PathFilter::with_defaults(root);
    match f.check_path("/home/user/project/.env") {
        FilterVerdict::Blocked(_) => {}
        other => panic!("expected Blocked, got {other:?}"),
    }
    match f.check_path("/home/user/.ssh/id_rsa") {
        FilterVerdict::Blocked(_) => {}
        other => panic!("expected Blocked, got {other:?}"),
    }
}

#[test]
fn paths_outside_project_blocked() {
    let root = "/home/user/project";
    let f = PathFilter::with_defaults(root);
    match f.check_path("/etc/passwd") {
        FilterVerdict::Blocked(reason) => {
            assert!(reason.contains("outside"));
        }
        other => panic!("expected Blocked, got {other:?}"),
    }
}

// -- PermissionManager (integration) ------------------------------------

#[test]
fn manager_blocks_denylist_commands() {
    let mgr = PermissionManager::new(PermissionLevel::FullAuto, "/tmp/project");
    match mgr.check_shell_command("rm -rf /") {
        PermissionDecision::Denied { .. } => {}
        other => panic!("expected Denied, got {other:?}"),
    }
}

#[test]
fn manager_always_approved_skips_prompt() {
    let mut mgr = PermissionManager::new(PermissionLevel::Standard, "/tmp/project");
    // Before approval, write_file needs approval
    match mgr.check_tool("write_file", None) {
        PermissionDecision::NeedsApproval { .. } => {}
        other => panic!("expected NeedsApproval, got {other:?}"),
    }
    // After always-approve, it should be Allowed
    mgr.approve_always("write_file");
    assert_eq!(
        mgr.check_tool("write_file", None),
        PermissionDecision::Allowed
    );
}

// -- Further cases -------------------------------------------------------

#[test]
fn denied_reason_names_levels() {
    let gate = PermissionGate::new(PermissionLevel::ReadOnly);
    assert_eq!(
        gate.check("write_file", None),
        PermissionDecision::Denied {
            reason: "Requires standard permission, current level is read-only".to_string()
        }
    );
}

#[test]
fn approval_reason_names_label_and_class() {
    let gate = PermissionGate::new(PermissionLevel::Standard);
    assert_eq!(
        gate.check("git", Some("push")),
        PermissionDecision::NeedsApproval {
            reason: "'git:push' classified as UnsafeExec \u{2014} requires approval".to_string()
        }
    );
}

#[test]
fn unknown_tool_defaults_to_unsafe_exec() {
    let reg = PermissionRegistry::new();
    assert_eq!(reg.classify("docker", None), OperationClass::UnsafeExec);
    assert_eq!(reg.classify("git", Some("status")), OperationClass::Read);
    // An unknown subcommand falls back to the tool's own rule.
    assert_eq!(reg.classify("grep", Some("zzz")), OperationClass::Read);
}

#[test]
fn operation_class_requirements() {
    assert_eq!(
        OperationClass::Destructive.required_permission(),
        PermissionLevel::FullAuto
    );
    assert!(OperationClass::Write.requires_approval(PermissionLevel::Standard));
    assert!(!OperationClass::Write.requires_approval(PermissionLevel::FullAuto));
    assert!(!OperationClass::SafeExec.requires_approval(PermissionLevel::ReadOnly));
}

#[test]
fn set_level_changes_decisions() {
    let mut gate = PermissionGate::new(PermissionLevel::ReadOnly);
    gate.set_level(PermissionLevel::FullAuto);
    assert_eq!(gate.level(), PermissionLevel::FullAuto);
    assert_eq!(gate.check("write_file", None), PermissionDecision::Allowed);
}

#[test]
fn blocked_pattern_reason_text() {
    let f = CommandFilter::with_defaults();
    assert_eq!(
        f.check_command("  ls && chmod 777 /var/www  "),
        FilterVerdict::Blocked(
            "Matches blocked pattern 'chmod 777': Overly permissive file permissions".to_string()
        )
    );
    assert_eq!(
        f.check_command("docker run ubuntu"),
        FilterVerdict::Blocked("Executable 'docker' is not on the allowlist".to_string())
    );
    assert_eq!(
        f.check_command(""),
        FilterVerdict::Blocked("Executable '' is not on the allowlist".to_string())
    );
}

#[test]
fn path_filter_component_prefix() {
    let f = PathFilter::with_defaults("/home/user/project");
    match f.check_path("/home/user/project2/src/lib.rs") {
        FilterVerdict::Blocked(r) => assert_eq!(
            r,
            "Path /home/user/project2/src/lib.rs is outside allowed project directories"
        ),
        other => panic!("expected Blocked, got {other:?}"),
    }
    assert_eq!(
        f.check_path("/home/user/project/.env"),
        FilterVerdict::Blocked("Path '.env' is denied: May contain secrets".to_string())
    );
}

#[test]
fn approval_answers_parse() {
    assert_eq!(parse_approval("  YES \n"), Some(ApprovalResponse::ApproveOnce));
    assert_eq!(parse_approval("a"), Some(ApprovalResponse::ApproveAlways));
    assert_eq!(parse_approval("No"), Some(ApprovalResponse::Deny));
    assert_eq!(parse_approval("abort"), Some(ApprovalResponse::AbortSession));
    assert_eq!(parse_approval("maybe"), None);
}

#[test]
fn execute_tool_runs_after_approve_always() {
    let mut mgr = PermissionManager::new(PermissionLevel::Standard, "/tmp/project");
    let mut seen = String::new();
    let r = execute_tool(
        &mut mgr,
        "write_file",
        None,
        "Write file: a.txt",
        |p| {
            seen = p;
            Ok(ApprovalResponse::ApproveAlways)
        },
        || Ok("done".to_string()),
    );
    assert!(matches!(r, ToolResult::Success(ref s) if s == "done"));
    assert_eq!(
        seen,
        "Write file: a.txt\n  Reason: 'write_file' classified as Write \u{2014} requires approval"
    );
    assert_eq!(mgr.check_tool("write_file", None), PermissionDecision::Allowed);
    let r = execute_tool(
        &mut mgr,
        "write_file",
        None,
        "again",
        |_| Err("no prompt expected".to_string()),
        || Err("disk full".to_string()),
    );
    assert!(matches!(r, ToolResult::Denied(ref s) if s == "Execution error: disk full"));
}

#[test]
fn execute_tool_denied_and_aborted() {
    let mut mgr = PermissionManager::new(PermissionLevel::ReadOnly, "/tmp/project");
    let r = execute_tool(&mut mgr, "write_file", None, "w", |_| Ok(ApprovalResponse::ApproveOnce), || Ok(String::new()));
    assert!(matches!(r, ToolResult::Denied(ref s) if s == "Requires standard permission, current level is read-only"));
    let mut mgr = PermissionManager::new(PermissionLevel::Standard, "/tmp/project");
    let r = execute_tool(&mut mgr, "git", Some("push"), "push", |_| Ok(ApprovalResponse::AbortSession), || Ok(String::new()));
    assert!(matches!(r, ToolResult::SessionAborted));
    let r = execute_tool(&mut mgr, "git", Some("push"), "push", |_| Ok(ApprovalResponse::Deny), || Ok(String::new()));
    assert!(matches!(r, ToolResult::Denied(ref s) if s == "User denied the operation"));
    let r = execute_tool(&mut mgr, "git", Some("push"), "push", |_| Err("eof".to_string()), || Ok(String::new()));
    assert!(matches!(r, ToolResult::Denied(ref s) if s == "Approval I/O error: eof"));
}

#[test]
fn execute_shell_pipeline() {
    let mut mgr = PermissionManager::new(PermissionLevel::Standard, "/tmp/project");
    let r = execute_shell(&mut mgr, "ls -la; rm -rf /", |_| Ok(ApprovalResponse::ApproveOnce), || Ok((true, "x".to_string(), String::new())));
    assert!(matches!(r, ToolResult::Denied(ref s) if s == "Matches blocked pattern 'rm -rf /': Recursive delete from root"));
    let mut prompt = String::new();
    let r = execute_shell(
        &mut mgr,
        "ls",
        |p| {
            prompt = p;
            Ok(ApprovalResponse::ApproveOnce)
        },
        || Ok((false, String::new(), "boom".to_string())),
    );
    assert!(matches!(r, ToolResult::Denied(ref s) if s == "boom"));
    assert_eq!(prompt, "Execute: ls\n  Reason: 'shell:unsafe' classified as UnsafeExec \u{2014} requires approval");
    let mut mgr = PermissionManager::new(PermissionLevel::FullAuto, "/tmp/project");
    let r = execute_shell(&mut mgr, "echo hi", |_| Ok(ApprovalResponse::Deny), || Ok((true, "hi\n".to_string(), String::new())));
    assert!(matches!(r, ToolResult::Success(ref s) if s == "hi\n"));
    let r = execute_shell(&mut mgr, "echo hi", |_| Ok(ApprovalResponse::Deny), || Err("no sh".to_string()));
    assert!(matches!(r, ToolResult::Denied(ref s) if s == "Failed to spawn shell: no sh"));
}
