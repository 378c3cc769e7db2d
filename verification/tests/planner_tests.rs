use firekeeper::planner::{filter_files_by_scope, orchestrate, split_files};
use firekeeper::rule::RuleBody;

fn strings(items: &[&str]) -> Vec<String> {
    items.iter().map(|s| s.to_string()).collect()
}

fn numbered(n: usize) -> Vec<String> {
    (0..n).map(|i| i.to_string()).collect()
}

fn rule_with(scope: &[&str], exclude: &[&str]) -> RuleBody {
    RuleBody {
        name: "Test Rule".to_string(),
        description: "Test".to_string(),
        instruction: "Test".to_string(),
        scope: strings(scope),
        exclude: strings(exclude),
        max_files_per_task: None,
        blocking: true,
        tip: None,
        resources: Vec::new(),
    }
}

#[test]
fn test_split_files_empty() {
    let files: Vec<String> = vec![];
    let result = split_files(&files, 5);
    assert_eq!(result, Vec::<Vec<String>>::new());
}

#[test]
fn test_split_files_less_than_max() {
    let files: Vec<String> = strings(&["a", "b", "c"]);
    let result = split_files(&files, 5);
    assert_eq!(result.len(), 1);
    assert_eq!(result[0].len(), 3);
}

#[test]
fn test_split_files_exact_max() {
    let files: Vec<String> = strings(&["a", "b", "c", "d", "e"]);
    let result = split_files(&files, 5);
    assert_eq!(result.len(), 1);
    assert_eq!(result[0].len(), 5);
}

#[test]
fn test_split_files_balanced() {
    let files: Vec<String> = numbered(7);
    let result = split_files(&files, 5);
    assert_eq!(result.len(), 2);
    assert_eq!(result[0].len(), 4);
    assert_eq!(result[1].len(), 3);
}

#[test]
fn test_split_files_multiple_chunks() {
    let files: Vec<String> = numbered(13);
    let result = split_files(&files, 5);
    assert_eq!(result.len(), 3);
    assert_eq!(result[0].len(), 5);
    assert_eq!(result[1].len(), 4);
    assert_eq!(result[2].len(), 4);
}

#[test]
fn orchestrator_test_split_files_empty() {
    let files: Vec<String> = vec![];
    let result = split_files(&files, 5);
    assert_eq!(result, Vec::<Vec<String>>::new());
}

#[test]
fn orchestrator_test_split_files_less_than_max() {
    let files: Vec<String> = strings(&["a", "b", "c"]);
    let result = split_files(&files, 5);
    assert_eq!(result.len(), 1);
    assert_eq!(result[0].len(), 3);
}

#[test]
fn orchestrator_test_split_files_exact_max() {
    let files: Vec<String> = strings(&["a", "b", "c", "d", "e"]);
    let result = split_files(&files, 5);
    assert_eq!(result.len(), 1);
    assert_eq!(result[0].len(), 5);
}

#[test]
fn orchestrator_test_split_files_balanced() {
    let files: Vec<String> = numbered(7);
    let result = split_files(&files, 5);
    assert_eq!(result.len(), 2);
    assert_eq!(result[0].len(), 4);
    assert_eq!(result[1].len(), 3);
}

#[test]
fn orchestrator_test_split_files_multiple_chunks() {
    let files: Vec<String> = numbered(13);
    let result = split_files(&files, 5);
    assert_eq!(result.len(), 3);
    assert_eq!(result[0].len(), 5);
    assert_eq!(result[1].len(), 4);
    assert_eq!(result[2].len(), 4);
}

#[test]
fn test_split_files_chunks_partition_input() {
    let files: Vec<String> = numbered(13);
    let result = split_files(&files, 5);
    let flattened: Vec<String> = result.into_iter().flatten().collect();
    assert_eq!(flattened, files);
}

#[test]
fn test_filter_files_by_scope_with_exclude() {
    let rule = rule_with(&["src/**/*.rs"], &["**/tests/**", "**/*_test.rs"]);

    let files = strings(&[
        "src/main.rs",
        "src/lib.rs",
        "src/tests/helper.rs",
        "src/util_test.rs",
        "src/util.rs",
    ]);

    let result = filter_files_by_scope(&rule, &files);
    assert_eq!(result, vec!["src/main.rs", "src/lib.rs", "src/util.rs"]);
}

#[test]
fn test_filter_files_by_scope_is_idempotent() {
    let rule = rule_with(&["src/**/*.rs"], &["**/*_test.rs"]);
    let files = strings(&["src/main.rs", "src/util_test.rs", "docs/a.md", "src/lib.rs"]);

    let once = filter_files_by_scope(&rule, &files);
    let twice = filter_files_by_scope(&rule, &once);
    assert_eq!(once, twice);
}

#[test]
fn test_filter_files_invalid_pattern_is_skipped() {
    // an invalid glob never sinks the rule: the other patterns still match
    let rule = rule_with(&["[", "src/**/*.rs"], &[]);
    let files = strings(&["src/main.rs", "README.md"]);
    let result = filter_files_by_scope(&rule, &files);
    assert_eq!(result, vec!["src/main.rs"]);
}

#[test]
fn test_orchestrate_no_match_creates_no_tasks() {
    let rule = rule_with(&["**/*.xyz"], &[]);
    let rules = vec![rule];
    let files = strings(&["src/main.rs", "src/lib.rs"]);
    let tasks = orchestrate(&rules, &files, 5);
    assert_eq!(tasks.len(), 0);
}

#[test]
fn test_orchestrate_orders_rules_then_chunks() {
    let first = rule_with(&["**/*.rs"], &[]);
    let mut second = rule_with(&["**/*.md"], &[]);
    second.max_files_per_task = Some(1);
    let rules = vec![first, second];
    let files = strings(&["a.rs", "b.rs", "c.md", "d.md"]);
    let tasks = orchestrate(&rules, &files, 5);
    assert_eq!(tasks.len(), 3);
    assert_eq!(tasks[0].rule_index, 0);
    assert_eq!(tasks[0].files, vec!["a.rs", "b.rs"]);
    assert_eq!(tasks[1].rule_index, 1);
    assert_eq!(tasks[1].files, vec!["c.md"]);
    assert_eq!(tasks[2].rule_index, 1);
    assert_eq!(tasks[2].files, vec!["d.md"]);
}
