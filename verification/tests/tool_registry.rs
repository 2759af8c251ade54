use self_smart::tools::{
    cancelled_result, confirmation_accepted, path_not_found_result, PermissionLevel, ToolAccess,
    ToolInfo, ToolMetrics, ToolRegistry, ToolResult,
};

#[test]
fn metrics_count_runs_and_average_duration() {
    let mut m = ToolMetrics::new();
    assert_eq!(m.avg_duration_ms(), 0);
    m.record(true, 10);
    m.record(false, 21);
    assert_eq!(m.executions, 2);
    assert_eq!(m.successes, 1);
    assert_eq!(m.failures, 1);
    assert_eq!(m.total_duration_ms, 31);
    assert_eq!(m.avg_duration_ms(), 15);
    assert_eq!(m.executions, m.successes + m.failures);
    let d = ToolMetrics::default();
    assert_eq!(d.executions, 0);
}

#[test]
fn result_constructors() {
    let ok = ToolResult::success("out");
    assert!(ok.success && ok.output == "out" && ok.error.is_none() && ok.duration_ms.is_none());
    let timed = ToolResult::success_with_duration("out", 12);
    assert_eq!(timed.duration_ms, Some(12));
    let err = ToolResult::error("bad");
    assert!(!err.success && err.output.is_empty());
    assert_eq!(err.error.as_deref(), Some("bad"));
    assert_eq!(path_not_found_result("x/y").error.as_deref(), Some("Path not found: x/y"));
    assert_eq!(cancelled_result().error.as_deref(), Some("Execution cancelled by user"));
}

#[test]
fn metadata_later_value_wins() {
    let r = ToolResult::success("o").with_metadata("k", "1").with_metadata("j", "2").with_metadata("k", "3");
    assert_eq!(r.metadata.len(), 2);
    assert_eq!(r.metadata[0], ("k".to_string(), "3".to_string()));
    assert_eq!(r.metadata[1], ("j".to_string(), "2".to_string()));
    assert_eq!(r.output, "o");
}

#[test]
fn formatted_output_exact() {
    assert_eq!(ToolResult::success("done").formatted_output(), "✓ Success\ndone");
    assert_eq!(ToolResult::error("boom").formatted_output(), "✗ Error\nboom");
    assert_eq!(ToolResult::success_with_duration("x", 42).formatted_output(), "✓ Success\nx\n(42ms)");
}

#[test]
fn truncation_cuts_bytes_and_notes_the_total() {
    let r = ToolResult::success("abcdefghij");
    assert_eq!(r.truncated(20).output, "abcdefghij");
    assert_eq!(r.truncated(4).output, "abcd...\n[Output truncated - 10 chars total]");
    let m = ToolResult::success("héllo");
    assert_eq!(m.truncated(3).output, "hé...\n[Output truncated - 6 chars total]");
}

#[test]
fn tool_info_listing_line() {
    let free = ToolInfo::new("analyze", "Analyze code", PermissionLevel::Free, "");
    assert_eq!(free.to_display_string(), "analyze - Analyze code");
    let c = ToolInfo::new("rm", "Remove", PermissionLevel::RequiresConfirmation, "rm <path>");
    assert_eq!(c.to_display_string(), "rm - Remove\n  Usage: rm <path> [requires confirmation]");
    let d = ToolInfo::new("x", "y", PermissionLevel::Disabled, "");
    assert_eq!(d.to_display_string(), "x - y [disabled]");
}

fn registry() -> ToolRegistry {
    let mut r = ToolRegistry::new();
    r.register(ToolInfo::new("analyze", "Analyze", PermissionLevel::Free, ""));
    r.register(ToolInfo::new("rm", "Remove", PermissionLevel::RequiresConfirmation, ""));
    r.register(ToolInfo::new("off", "Off", PermissionLevel::Disabled, ""));
    r
}

#[test]
fn registering_makes_a_tool_known_with_zero_counters() {
    let mut r = registry();
    assert_eq!(r.tool_count(), 3);
    assert!(r.has_tool("rm"));
    assert!(!r.has_tool("nope"));
    assert_eq!(r.get_metrics("rm").unwrap().executions, 0);
    assert!(r.get_metrics("nope").is_none());
    // registering the same name again replaces it
    r.register(ToolInfo::new("rm", "Remove again", PermissionLevel::Free, ""));
    assert_eq!(r.tool_count(), 3);
    let infos = r.list_tools();
    assert_eq!(infos.len(), 3);
    let rm = infos.iter().find(|t| t.name == "rm").unwrap();
    assert_eq!(rm.description, "Remove again");
    assert_eq!(r.all_metrics().len(), 3);
}

#[test]
fn access_decisions() {
    let r = registry();
    match r.check_execution("nope") {
        ToolAccess::Denied(res) => assert_eq!(res.error.as_deref(), Some("Unknown tool: nope")),
        _ => panic!("unknown tool must be denied"),
    }
    match r.check_execution("off") {
        ToolAccess::Denied(res) => assert_eq!(res.error.as_deref(), Some("Tool 'off' is disabled")),
        _ => panic!("disabled tool must be denied"),
    }
    assert!(matches!(r.check_execution("rm"), ToolAccess::NeedsConfirmation));
    assert!(matches!(r.check_execution("analyze"), ToolAccess::Allowed));
    let auto = registry().with_auto_confirm(true);
    assert!(matches!(auto.check_execution("rm"), ToolAccess::Allowed));
}

#[test]
fn confirmation_answers() {
    assert!(confirmation_accepted("y\n"));
    assert!(confirmation_accepted("  Y "));
    assert!(!confirmation_accepted("yes"));
    assert!(!confirmation_accepted("n"));
    assert!(!confirmation_accepted(""));
}

#[test]
fn finishing_a_run_records_it() {
    let mut r = registry();
    let out = r.finish_execution("analyze", Ok(ToolResult::success("fine")), 5);
    assert_eq!(out.output, "fine");
    let out = r.finish_execution("analyze", Err("disk gone".to_string()), 7);
    assert_eq!(out.error.as_deref(), Some("Tool execution failed: disk gone"));
    let m = r.get_metrics("analyze").unwrap();
    assert_eq!((m.executions, m.successes, m.failures, m.total_duration_ms), (2, 1, 1, 12));
    let out = r.finish_execution("ghost", Ok(ToolResult::error("x")), 1);
    assert!(!out.success);
    assert!(!r.has_tool("ghost"));
    r.reset_metrics();
    assert_eq!(r.get_metrics("analyze").unwrap().executions, 0);
}

#[test]
fn counters_stay_consistent_over_many_runs() {
    let mut m = ToolMetrics::new();
    for i in 0..50u64 {
        m.record(i % 3 != 0, i);
        assert_eq!(m.executions, m.successes + m.failures);
    }
    assert_eq!(m.executions, 50);
    assert_eq!(m.failures, 17);
}

#[test]
fn registered_names_are_the_known_tools_after_runs_and_resets() {
    let mut r = ToolRegistry::new();
    r.register(ToolInfo::new("a", "A", PermissionLevel::Free, ""));
    let _ = r.finish_execution("a", Ok(ToolResult::success("x")), 3);
    let _ = r.finish_execution("zz", Ok(ToolResult::success("x")), 3);
    r.register(ToolInfo::new("b", "B", PermissionLevel::Free, ""));
    r.reset_metrics();
    r.register(ToolInfo::new("a", "A2", PermissionLevel::Free, ""));
    assert_eq!(r.tool_count(), 2);
    for n in ["a", "b", "zz", "c"] {
        assert_eq!(r.has_tool(n), n == "a" || n == "b");
        assert_eq!(r.get_metrics(n).is_some(), r.has_tool(n));
    }
}
