use self_smart::agent::loop_engine::{LoopSchedule, LoopStep};
use self_smart::agent::react::{ReActState, StepDecision, StepProgress, StepResult};
use self_smart::agent::{
    build_system_prompt, commit_plan, history_preview, parse_command, parse_tool_calls,
    tool_feedback, AgentState, InteractiveCommand,
};
use self_smart::config::Config;
use self_smart::llm::Usage;
use self_smart::tools::{PermissionLevel, ToolInfo, ToolResult};

fn tools() -> Vec<ToolInfo> {
    vec![
        ToolInfo::new("analyze", "Analyze code", PermissionLevel::Free, ""),
        ToolInfo::new("test", "Run tests", PermissionLevel::Free, ""),
    ]
}

#[test]
fn tool_calls_in_a_reply() {
    let reply = "Let me look.\nTOOL: analyze\nARGS:  src/main.rs \nTOOL:TOOL: test\nthanks";
    let calls = parse_tool_calls(reply);
    assert_eq!(calls.len(), 2);
    assert_eq!((calls[0].tool_name.as_str(), calls[0].args.as_str()), ("analyze", "src/main.rs"));
    assert_eq!((calls[1].tool_name.as_str(), calls[1].args.as_str()), ("test", ""));
    assert!(parse_tool_calls("  TOOL: indented\n").is_empty());
}

#[test]
fn tool_feedback_texts() {
    assert_eq!(tool_feedback("t", &ToolResult::success("out")), "Tool t executed successfully:\nout");
    assert_eq!(tool_feedback("t", &ToolResult::error("no")), "Tool t failed: no");
}

#[test]
fn system_prompt_lists_tools() {
    let p = build_system_prompt(&tools());
    assert!(p.starts_with("You are Self-Smart, an AI coding agent powered by local LLM."));
    assert!(p.contains("Available tools:\n- analyze: Analyze code\n- test: Run tests\n\nWhen you want"));
    assert!(p.ends_with("Focus on solving the user's problem efficiently."));
}

#[test]
fn auto_commit_plan() {
    assert!(commit_plan(0, 5, "  \n").is_none());
    let c = commit_plan(2, 1234, " M src/lib.rs\n").unwrap();
    assert_eq!(c.message, "Iteration 3: Auto-commit");
    assert_eq!(c.tag_name, "v0.1.3");
    assert_eq!(c.tag_message, "Iteration 3 completed | Tokens: 1234");
}

#[test]
fn interactive_commands() {
    assert!(matches!(parse_command("  \n"), InteractiveCommand::Skip));
    assert!(matches!(parse_command("exit\n"), InteractiveCommand::Quit));
    assert!(matches!(parse_command("quit"), InteractiveCommand::Quit));
    assert!(matches!(parse_command(" history "), InteractiveCommand::History));
    assert!(matches!(parse_command("clear"), InteractiveCommand::Clear));
    match parse_command("  fix the bug \n") {
        InteractiveCommand::Prompt(p) => assert_eq!(p, "fix the bug"),
        _ => panic!(),
    }
    assert_eq!(history_preview("short"), "short");
    let long = "x".repeat(150);
    assert_eq!(history_preview(&long), format!("{}...", "x".repeat(100)));
}

#[test]
fn a_full_agent_turn() {
    let mut a = AgentState::new(&tools(), 128_000);
    let ms = a.begin_turn("analyze main").unwrap();
    assert_eq!(ms.len(), 2);
    assert_eq!(ms[0].role, "system");
    assert_eq!(Some(ms[0].content.as_str()), a.context.system_prompt.as_deref());
    assert_eq!(ms[1].content, "analyze main");
    assert_eq!(ms[1].role, "user");
    let calls = a.record_reply("TOOL: analyze\nARGS: src/main.rs", Some(Usage { prompt_tokens: 10, completion_tokens: 5, total_tokens: 15 }));
    assert_eq!(calls.len(), 1);
    assert_eq!(a.total_tokens_used, 15);
    a.record_tool_result("analyze", &ToolResult::success("Lines: 3"));
    assert_eq!(a.context.messages.last().unwrap().content, "Tool analyze executed successfully:\nLines: 3");
    assert_eq!(a.context.messages.last().unwrap().role, "assistant");
    assert_eq!(a.context.message_count(), 3);
    a.finish_turn();
    assert_eq!(a.iteration, 1);
    let (count, used, remaining) = a.context_counts();
    assert_eq!(count, 3);
    assert_eq!(used + remaining, 128_000);
    a.clear_context();
    assert_eq!(a.context.message_count(), 0);
}

#[test]
fn react_reads_replies() {
    let mut s = ReActState::new(&tools(), 2);
    s.start_task("count lines");
    assert_eq!(s.context.messages.len(), 1);
    assert_eq!(s.context.messages[0].role, "user");
    assert_eq!(s.context.messages[0].content, "Task: count lines\n\nThink step by step. Use tools when needed. When complete, respond with DONE followed by your final answer.");
    let sent = s.begin_step().unwrap();
    assert_eq!(sent.len(), 2);
    assert_eq!(sent[0].role, "system");
    assert_eq!(sent[1].content, s.context.messages[0].content);
    match s.react_to("  TOOL: analyze\n  ARGS: src \n") {
        StepDecision::RunTool { tool_name, args } => {
            assert_eq!(tool_name, "analyze");
            assert_eq!(args, "src");
            match s.record_tool_run(tool_name, args, ToolResult::error("x")) {
                StepResult::ToolExecuted { tool_name, .. } => assert_eq!(tool_name, "analyze"),
                _ => panic!(),
            }
            let n = s.context.messages.len();
            assert_eq!(s.context.messages[n - 2].content, "I will use the analyze tool on src.");
            assert_eq!(s.context.messages[n - 1].content, "Tool analyze failed: x");
            assert_eq!(s.context.messages[n - 2].role, "assistant");
            assert_eq!(s.context.messages[n - 1].role, "user");
        }
        _ => panic!(),
    }
    match s.react_to("thinking...") {
        StepDecision::Done(StepResult::Continue(r)) => assert_eq!(r, "thinking..."),
        _ => panic!(),
    }
    assert!(s.begin_step().is_some());
    assert!(s.begin_step().is_none());
    match s.react_to("All good.\nDONE\n  42 lines  ") {
        StepDecision::Done(StepResult::Complete(a)) => assert_eq!(a, "42 lines"),
        _ => panic!(),
    }
    assert_eq!(ReActState::max_iterations_answer(), "Max iterations reached. Task may be incomplete.");
    s.reset();
    assert_eq!(s.current_iteration, 0);
    assert_eq!(s.context.messages.len(), 0);
}

#[test]
fn multi_step_progress() {
    let mut p = StepProgress::new(vec!["a".into(), "b".into(), "c".into()]);
    p.mark_completed("a".into());
    assert_eq!(p.completed_count(), 1);
    assert_eq!(p.remaining_count(), 2);
    assert_eq!(p.steps().len(), 3);
}

#[test]
fn loop_schedules() {
    let mut once = LoopSchedule::for_run_loop(None);
    assert_eq!(once.next(), LoopStep::Run(1));
    assert_eq!(once.next(), LoopStep::Finished);
    let mut none = LoopSchedule::for_run_loop(Some(0));
    assert_eq!(none.next(), LoopStep::MaxReached(0));
    assert_eq!(none.next(), LoopStep::Finished);
    let mut ten = LoopSchedule::for_improvement();
    for i in 1..=10 {
        assert_eq!(ten.next(), LoopStep::Run(i));
    }
    assert_eq!(ten.next(), LoopStep::Finished);
}

#[test]
fn default_config() {
    let c = Config::default();
    assert_eq!(c.endpoint, "http://localhost:48000");
    assert_eq!(c.model, "Intel/Qwen3.5-9B-int4-AutoRound");
    assert_eq!(c.workdir, ".");
    assert!(!c.auto_commit);
}

#[test]
fn a_request_in_the_prompted_format_reads_back() {
    let calls = parse_tool_calls("TOOL: refactor\nARGS: {\"path\": \"a.rs\", \"operation\": \"analyze\"}");
    assert_eq!(calls.len(), 1);
    assert_eq!(calls[0].tool_name, "refactor");
    assert_eq!(calls[0].args, "{\"path\": \"a.rs\", \"operation\": \"analyze\"}");
}

#[test]
fn react_accounting_and_one_sided_tool_records() {
    let s = ReActState::new(&tools(), 3);
    let prompt = s.context.system_prompt.clone().unwrap();
    assert_eq!(s.context.budget.used_tokens as usize, prompt.len() / 4);
    // room for the announcement only: the observation is left out
    let mut t = ReActState::new(&tools(), 3);
    let used = t.context.budget.used_tokens;
    t.context.budget.max_tokens = used + 10; // "I will use the a tool on b." is 27 bytes: 6 tokens
    let _ = t.record_tool_run("a".to_string(), "b".to_string(), ToolResult::success(&"z".repeat(100)));
    assert_eq!(t.context.messages.len(), 1);
    assert_eq!(t.context.messages[0].content, "I will use the a tool on b.");
    assert_eq!(t.context.budget.used_tokens, used + 6);
}
