use firekeeper::agent::{resolve_tool, think_response, FunctionCall, TaskRun, TaskState, ToolCall};
use firekeeper::aggregate::{collect_entries, compute_exit_code, group_entries, Entry};
use firekeeper::gitbase::{should_include_diff, Base};
use firekeeper::schedule::Scheduler;
use firekeeper::types::Violation;
use firekeeper::worker::{build_user_message, prepare_resources, resolve_path, WorkerResult,
    WorkerStatus};

fn call(id: &str, name: &str, arguments: &str) -> ToolCall {
    ToolCall {
        id: id.to_string(),
        call_type: "function".to_string(),
        function: FunctionCall { name: name.to_string(), arguments: arguments.to_string() },
    }
}

fn violation(file: &str, detail: &str) -> Violation {
    Violation { file: file.to_string(), detail: detail.to_string(), start_line: 1, end_line: 2 }
}

#[test]
fn test_turn_with_unknown_and_report_call() {
    // one assistant turn carrying a call to an unknown tool and a report
    // call with a single violation
    let mut run = TaskRun::new("system text".to_string(), "user text".to_string());
    assert_eq!(run.state, TaskState::AwaitingModel);
    assert_eq!(run.messages.len(), 2);

    let calls = vec![call("c1", "consult_oracle", "{}"), call("c2", "report", "{...}")];
    run.on_assistant(None, Some(calls));
    assert_eq!(run.state, TaskState::ExecutingTools);

    run.unknown_tool("c1", "consult_oracle");
    run.apply_report("c2", vec![violation("a.rs", "bad")]);
    run.finish_turn();

    assert_eq!(run.state, TaskState::AwaitingModel);
    assert_eq!(run.violations.len(), 1);
    let n = run.messages.len();
    assert_eq!(
        run.messages[n - 2].content.as_deref(),
        Some("Unknown tool: consult_oracle")
    );
    assert_eq!(run.messages[n - 1].content.as_deref(), Some("OK"));
    assert_eq!(run.messages[n - 2].tool_call_id.as_deref(), Some("c1"));
    assert_eq!(run.messages[n - 1].tool_call_id.as_deref(), Some("c2"));
}

#[test]
fn test_report_with_empty_list_is_rejected() {
    let mut run = TaskRun::new("s".to_string(), "u".to_string());
    run.on_assistant(None, Some(vec![call("c1", "report", "{}")]));
    run.apply_report("c1", Vec::new());
    assert_eq!(run.violations.len(), 0);
    let n = run.messages.len();
    assert_eq!(
        run.messages[n - 1].content.as_deref(),
        Some("At least 1 violation is required")
    );
}

#[test]
fn test_turn_without_calls_and_content_ends_task() {
    let mut run = TaskRun::new("s".to_string(), "u".to_string());
    run.on_assistant(Some("all done".to_string()), None);
    assert_eq!(run.state, TaskState::Done);
    assert_eq!(run.output.as_deref(), Some("all done"));
}

#[test]
fn test_empty_turn_asks_the_model_again() {
    let mut run = TaskRun::new("s".to_string(), "u".to_string());
    run.on_assistant(Some(String::new()), None);
    assert_eq!(run.state, TaskState::AwaitingModel);
}

#[test]
fn test_cancel_keeps_partial_results() {
    let mut run = TaskRun::new("s".to_string(), "u".to_string());
    run.on_assistant(None, Some(vec![call("c1", "report", "{...}")]));
    run.apply_report("c1", vec![violation("a.rs", "bad")]);
    run.cancel();
    assert_eq!(run.state, TaskState::Cancelled);
    assert_eq!(run.violations.len(), 1);
}

#[test]
fn test_think_tool_acknowledges() {
    assert_eq!(think_response("brief thought"), "OK");
    let long = "x".repeat(1600);
    let noted = think_response(&long);
    assert_eq!(
        noted,
        "OK. Note: Overthinking detected (1 lines, 1600 chars). Keep reasoning concise and focused."
    );
}

#[test]
fn test_resolve_tool_by_name() {
    let catalog = vec!["diff".to_string(), "report".to_string(), "think".to_string()];
    assert_eq!(resolve_tool(&catalog, &"report".to_string()), Some(1));
    assert_eq!(resolve_tool(&catalog, &"fetch".to_string()), None);
}

#[test]
fn test_bounded_scheduler_never_exceeds_bound() {
    let mut s = Scheduler::new(10, Some(3));
    assert_eq!(s.start_next(), Some(0));
    assert_eq!(s.start_next(), Some(1));
    assert_eq!(s.start_next(), Some(2));
    assert_eq!(s.start_next(), None);
    assert_eq!(s.in_flight, 3);
    s.on_task_done();
    assert_eq!(s.start_next(), Some(3));
    assert_eq!(s.start_next(), None);
    assert_eq!(s.in_flight, 3);
}

#[test]
fn test_unbounded_scheduler_starts_everything() {
    let mut s = Scheduler::new(4, None);
    assert_eq!(s.start_next(), Some(0));
    assert_eq!(s.start_next(), Some(1));
    assert_eq!(s.start_next(), Some(2));
    assert_eq!(s.start_next(), Some(3));
    assert_eq!(s.start_next(), None);
    assert_eq!(s.in_flight, 4);
}

#[test]
fn test_shutdown_blocks_unstarted_tasks() {
    // three of four bounded slots in flight when shutdown fires: the
    // fourth never starts, the three settle and are counted, the one
    // never-started task is counted separately
    let mut s = Scheduler::new(4, Some(4));
    assert_eq!(s.start_next(), Some(0));
    assert_eq!(s.start_next(), Some(1));
    assert_eq!(s.start_next(), Some(2));
    s.request_shutdown();
    assert_eq!(s.start_next(), None);
    s.on_task_done();
    assert_eq!(s.start_next(), None);
    s.on_task_done();
    s.on_task_done();
    assert!(s.all_settled());
    assert_eq!(s.finished, 3);
    assert_eq!(s.never_started(), 1);
}

#[test]
fn test_aggregation_is_order_independent() {
    let make = |id: &str, rule: &str, file: &str, detail: &str| WorkerResult {
        worker_id: id.to_string(),
        rule_name: rule.to_string(),
        rule_instruction: "inst".to_string(),
        files: vec![file.to_string()],
        blocking: true,
        violations: vec![violation(file, detail)],
        messages: None,
        tools: None,
        tip: None,
        elapsed_centis: 0,
        status: WorkerStatus::Completed,
    };
    let one = vec![make("0", "R1", "a.rs", "x"), make("1", "R2", "a.rs", "y"),
        make("2", "R1", "b.rs", "z")];
    let two = vec![make("2", "R1", "b.rs", "z"), make("0", "R1", "a.rs", "x"),
        make("1", "R2", "a.rs", "y")];

    let g1 = group_entries(&collect_entries(&one));
    let g2 = group_entries(&collect_entries(&two));

    let flatten = |groups: &Vec<firekeeper::aggregate::FileViolations>| {
        let mut entries: Vec<(String, String, String)> = Vec::new();
        for fg in groups {
            for rg in &fg.rules {
                for v in &rg.violations {
                    entries.push((fg.file.clone(), rg.rule_name.clone(), v.detail.clone()));
                }
            }
        }
        entries.sort();
        entries
    };
    assert_eq!(flatten(&g1), flatten(&g2));
}

#[test]
fn test_group_entries_by_file_then_rule() {
    let entries = vec![
        Entry { rule_name: "R1".to_string(), violation: violation("a.rs", "x") },
        Entry { rule_name: "R2".to_string(), violation: violation("a.rs", "y") },
        Entry { rule_name: "R1".to_string(), violation: violation("a.rs", "z") },
    ];
    let groups = group_entries(&entries);
    assert_eq!(groups.len(), 1);
    assert_eq!(groups[0].file, "a.rs");
    assert_eq!(groups[0].rules.len(), 2);
    assert_eq!(groups[0].rules[0].rule_name, "R1");
    assert_eq!(groups[0].rules[0].violations.len(), 2);
    assert_eq!(groups[0].rules[1].rule_name, "R2");
    assert_eq!(groups[0].rules[1].violations.len(), 1);
}

#[test]
fn test_exit_code_policy() {
    assert_eq!(compute_exit_code(false, 0), 0);
    assert_eq!(compute_exit_code(true, 0), 1);
    assert_eq!(compute_exit_code(false, 2), 1);
    assert_eq!(compute_exit_code(true, 1), 1);
}

#[test]
fn test_base_parse_variants() {
    assert!(matches!(Base::parse("ROOT", false), Base::Root));
    match Base::parse("^", false) {
        Base::Commit(s) => assert_eq!(s, "HEAD^"),
        Base::Root => unreachable!(),
    }
    match Base::parse("~2", false) {
        Base::Commit(s) => assert_eq!(s, "HEAD~2"),
        Base::Root => unreachable!(),
    }
    match Base::parse("abc123", false) {
        Base::Commit(s) => assert_eq!(s, "abc123"),
        Base::Root => unreachable!(),
    }
    match Base::parse("", true) {
        Base::Commit(s) => assert_eq!(s, "HEAD"),
        Base::Root => unreachable!(),
    }
    match Base::parse("", false) {
        Base::Commit(s) => assert_eq!(s, "HEAD^"),
        Base::Root => unreachable!(),
    }
}

#[test]
fn test_base_diff_base_for_root_is_empty_tree() {
    let base = Base::parse("ROOT", false);
    assert_eq!(base.as_diff_base(), "4b825dc642cb6eb9a060e54bf8d69288fbee4904");
    assert!(base.as_commit_ref().is_none());
}

#[test]
fn test_should_include_diff_excludes_generated() {
    assert!(should_include_diff("src/main.rs"));
    assert!(!should_include_diff("Cargo.lock"));
    assert!(!should_include_diff("package-lock.json"));
    assert!(!should_include_diff("assets/app.min.js"));
    assert!(!should_include_diff("out/Generated/code.cs"));
    assert!(!should_include_diff("web/dist/bundle.js"));
    assert!(should_include_diff("src/distance.rs"));
}

#[test]
fn test_prepare_resources_sorted_and_deduplicated() {
    let global = vec!["sh://git ls-files".to_string(), "file://b.md".to_string()];
    let rule = vec!["file://a.md".to_string(), "file://b.md".to_string()];
    let merged = prepare_resources(&global, &rule);
    assert_eq!(merged, vec!["file://a.md", "file://b.md", "sh://git ls-files"]);
}

#[test]
fn test_resolve_path_kinds() {
    assert_eq!(
        resolve_path("~/notes/*.md", Some("/home/me")),
        ("/home/me".to_string(), "notes/*.md".to_string())
    );
    assert_eq!(
        resolve_path("/etc/conf/*.toml", None),
        ("/".to_string(), "etc/conf/*.toml".to_string())
    );
    assert_eq!(
        resolve_path("docs/*.md", None),
        (".".to_string(), "docs/*.md".to_string())
    );
}

#[test]
fn test_build_user_message_focus_subset() {
    let files = vec!["a.rs".to_string()];
    let all = vec!["a.rs".to_string(), "b.rs".to_string()];
    let msg = build_user_message("  check things  ", &files, &all, "subject line", false, "", "");
    assert!(msg.starts_with("Commit messages:\n\nsubject line\n\n"));
    assert!(msg.contains("All changed files:\n\n- a.rs\n- b.rs\n\n"));
    assert!(msg.contains("Focus on these files:\n\n- a.rs\n\n"));
    assert!(msg.contains("Rule:\n\n<rule>\n\ncheck things\n\n</rule>\n\n"));
}

#[test]
fn test_build_user_message_whole_change_set() {
    let files = vec!["a.rs".to_string(), "b.rs".to_string()];
    let all = files.clone();
    let msg = build_user_message("check", &files, &all, "", false, "", "");
    assert!(msg.starts_with("Changed files:\n\n- a.rs\n- b.rs\n\n"));
    assert!(!msg.contains("Focus on these files"));
}
