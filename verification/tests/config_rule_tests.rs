use firekeeper::aggregate::{dedup_strings, find_tip, RuleTip};
use firekeeper::config::{default_base_url, default_max_files_per_task, default_model,
    split_key_path, split_override, WorkerConfig};
use firekeeper::render::{format_trace_markdown, format_tools, TimedMessage, TraceEntry};
use firekeeper::rule::{default_lock_and_ignore_exclude, default_non_code_exclude, default_scope,
    RuleBody};

#[test]
fn test_default_config_values() {
    assert_eq!(default_base_url(), "https://openrouter.ai/api/v1");
    assert_eq!(default_model(), "google/gemini-3-flash-preview");
    assert_eq!(default_max_files_per_task(), 5);
    let wc = WorkerConfig::default();
    assert_eq!(wc.max_files_per_task, 5);
    assert!(wc.max_parallel_workers.is_none());
}

#[test]
fn test_default_rule_scopes_and_excludes() {
    assert_eq!(default_scope(), vec!["**/*"]);
    assert_eq!(default_non_code_exclude().len(), 11);
    assert_eq!(
        default_lock_and_ignore_exclude(),
        vec!["*.lock", "*lock.json", "*ignore"]
    );
}

#[test]
fn test_builtin_rules() {
    let config_rule = RuleBody::config_file_comments();
    assert_eq!(config_rule.name, "Firekeeper Config Comments");
    assert_eq!(config_rule.scope, vec!["firekeeper.toml"]);
    assert_eq!(config_rule.max_files_per_task, Some(1));
    assert!(config_rule.blocking);

    let magic = RuleBody::no_magic_numbers();
    assert_eq!(magic.name, "No Magic Numbers");
    assert_eq!(magic.max_files_per_task, Some(10));
    assert_eq!(magic.exclude, default_non_code_exclude());

    let creds = RuleBody::no_hardcoded_credentials();
    assert_eq!(creds.name, "No Hardcoded Credentials");
    assert_eq!(creds.exclude, default_lock_and_ignore_exclude());

    let dup = RuleBody::no_code_duplication();
    assert_eq!(dup.name, "No Code Duplication");
    assert_eq!(dup.max_files_per_task, Some(3));
    assert_eq!(dup.resources, vec!["sh://git ls-files"]);
}

#[test]
fn test_split_override_at_first_equals() {
    assert_eq!(
        split_override("llm.model=gpt-4"),
        Some(("llm.model".to_string(), "gpt-4".to_string()))
    );
    assert_eq!(
        split_override("a=b=c"),
        Some(("a".to_string(), "b=c".to_string()))
    );
    assert_eq!(split_override("no separator"), None);
}

#[test]
fn test_split_key_path_on_dots() {
    assert_eq!(split_key_path("llm.model"), vec!["llm", "model"]);
    assert_eq!(split_key_path("single"), vec!["single"]);
    assert_eq!(split_key_path("a.b.c"), vec!["a", "b", "c"]);
}

#[test]
fn test_dedup_strings_keeps_first() {
    let items = vec!["b".to_string(), "a".to_string(), "b".to_string(), "c".to_string()];
    assert_eq!(dedup_strings(&items), vec!["b", "a", "c"]);
}

#[test]
fn test_find_tip_latest_wins() {
    let tips = vec![
        RuleTip { rule_name: "R".to_string(), tip: "old".to_string() },
        RuleTip { rule_name: "S".to_string(), tip: "other".to_string() },
        RuleTip { rule_name: "R".to_string(), tip: "new".to_string() },
    ];
    assert_eq!(find_tip(&tips, &"R".to_string()).map(|t| t.as_str()), Some("new"));
    assert_eq!(find_tip(&tips, &"S".to_string()).map(|t| t.as_str()), Some("other"));
    assert!(find_tip(&tips, &"T".to_string()).is_none());
}

#[test]
fn test_format_tools_lists_catalog() {
    let tools = vec![firekeeper::agent::ToolInfo {
        name: "diff".to_string(),
        description: "Get git diff for files.".to_string(),
    }];
    let section = format_tools(&tools);
    assert!(section.contains("## Tools"));
    assert!(section.contains("- **diff**: Get git diff for files."));
}

#[test]
fn test_format_trace_markdown_one_entry() {
    let entry = TraceEntry {
        worker_id: "0".to_string(),
        rule: RuleBody {
            name: "R".to_string(),
            description: String::new(),
            instruction: "look closely".to_string(),
            scope: Vec::new(),
            exclude: Vec::new(),
            max_files_per_task: None,
            resources: Vec::new(),
            blocking: true,
            tip: None,
        },
        files: vec!["a.rs".to_string()],
        elapsed_centis: 250,
        tools: Vec::new(),
        messages: vec![TimedMessage {
            message: firekeeper::agent::Message {
                role: "assistant".to_string(),
                content: Some("found nothing".to_string()),
                tool_calls: None,
                tool_call_id: None,
            },
            timestamp: "2026-01-01 00:00:00".to_string(),
            elapsed_centis: 42,
        }],
    };
    let text = format_trace_markdown(&vec![entry]);
    assert!(text.starts_with("# Worker: 0 (Elapsed: 2.50s)\n\n"));
    assert!(text.contains("## Rule: R"));
    assert!(text.contains("> look closely"));
    assert!(text.contains("- a.rs"));
    assert!(text.contains("### 1. assistant @ 2026-01-01 00:00:00 (+0.42s)"));
    assert!(text.contains("> found nothing"));
}
