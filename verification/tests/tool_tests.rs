use firekeeper::tools::{Diff, DiffEntry, Report, Suggest};
use firekeeper::truncate::{process_file_content, truncate_single_line, truncate_text_by_chars,
    truncate_text_by_lines};
use firekeeper::types::Violation;
use firekeeper::webpage::process_html;

fn diff_store(entries: &[(&str, &str)]) -> Diff {
    Diff::new(
        entries
            .iter()
            .map(|(p, t)| DiffEntry { path: p.to_string(), text: t.to_string() })
            .collect(),
    )
}

#[test]
fn test_diff_one_existing_file() {
    let diff = diff_store(&[("file.rs", "diff content")]);
    let result = diff.diff_one("file.rs", None);
    assert_eq!(result, "diff content");
}

#[test]
fn test_diff_one_missing_file() {
    let diff = diff_store(&[]);
    let result = diff.diff_one("missing.rs", None);
    assert_eq!(result, "No diff available for file: missing.rs");
}

#[test]
fn test_diff_one_excluded_file() {
    let diff = diff_store(&[("package-lock.json", "diff")]);
    let result = diff.diff_one("package-lock.json", None);
    assert!(result.contains("Skipped"));
    assert!(result.contains("excluded"));
}

#[test]
fn test_diff_one_excluded_file_with_force() {
    let diff = diff_store(&[("package-lock.json", "diff")]);
    let result = diff.diff_one("package-lock.json", Some(true));
    assert_eq!(result, "diff");
}

#[test]
fn test_diff_many_files_banners() {
    let diff = diff_store(&[("a.rs", "da"), ("b.rs", "db")]);
    let result = diff.diff(vec!["a.rs".to_string(), "b.rs".to_string()], None);
    assert_eq!(result, "=== a.rs ===\nda\n\n=== b.rs ===\ndb");
}

#[test]
fn test_process_file_content_no_truncation() {
    let content = "line1\nline2\nline3".to_string();
    let result = process_file_content(content, 0, 100, 200);
    assert_eq!(result, "line1\nline2\nline3");
}

#[test]
fn test_process_file_content_with_line_truncation() {
    let content = "line1\nline2\nline3\nline4".to_string();
    let result = process_file_content(content, 0, 2, 200);
    assert!(result.contains("line1"));
    assert!(result.contains("line2"));
    assert!(result.contains("truncated [2/4 lines]"));
}

#[test]
fn test_process_file_content_with_start_line() {
    let content = "line1\nline2\nline3\nline4".to_string();
    let result = process_file_content(content, 2, 100, 200);
    assert_eq!(result, "line3\nline4");
}

#[test]
fn test_process_file_content_with_single_line_truncation() {
    let content = "short\nthis is a very long line that should be truncated".to_string();
    let result = process_file_content(content, 0, 100, 10);
    assert!(result.contains("short"));
    assert!(result.contains("this is a ... [truncated 10/"));
}

#[test]
fn test_truncate_text_by_chars_no_truncation() {
    let result = truncate_text_by_chars("hello".to_string(), 0, 5000);
    assert_eq!(result.content, "hello");
    assert!(!result.truncated);
}

#[test]
fn test_truncate_text_by_chars_with_truncation() {
    let content = "a".repeat(6000);
    let result = truncate_text_by_chars(content, 0, 5000);
    assert_eq!(
        result.content,
        format!("{}\n\n---\ntruncated [5000/6000 chars]", "a".repeat(5000))
    );
    assert!(result.truncated);
}

#[test]
fn test_truncate_text_by_chars_with_start() {
    let result = truncate_text_by_chars("0123456789".to_string(), 5, 5000);
    assert_eq!(result.content, "56789");
    assert!(!result.truncated);
}

#[test]
fn test_truncate_text_by_lines_no_truncation() {
    let result = truncate_text_by_lines("line1\nline2\nline3".to_string(), 0, 5);
    assert_eq!(result.content, "line1\nline2\nline3");
    assert!(!result.truncated);
}

#[test]
fn test_truncate_text_by_lines_with_truncation() {
    let result = truncate_text_by_lines("line1\nline2\nline3\nline4".to_string(), 0, 2);
    assert_eq!(result.content, "line1\nline2\n\n---\ntruncated [2/4 lines]");
    assert!(result.truncated);
}

#[test]
fn test_truncate_text_by_lines_with_start() {
    let result = truncate_text_by_lines("line1\nline2\nline3\nline4".to_string(), 2, 10);
    assert_eq!(result.content, "line3\nline4");
    assert!(!result.truncated);
}

#[test]
fn test_truncate_text_by_lines_overflow_start() {
    let result = truncate_text_by_lines("line1\nline2\nline3".to_string(), 80, 10);
    assert_eq!(result.content, "");
    assert!(!result.truncated);
}

#[test]
fn test_truncate_text_by_chars_overflow_start() {
    let result = truncate_text_by_chars("hello".to_string(), 100, 10);
    assert_eq!(result.content, "");
    assert!(!result.truncated);
}

#[test]
fn test_truncate_single_line_no_truncation() {
    let result = truncate_single_line("hello".to_string(), 10);
    assert_eq!(result.content, "hello");
    assert!(!result.truncated);
}

#[test]
fn test_truncate_single_line_with_truncation() {
    let result = truncate_single_line("hello world".to_string(), 5);
    assert_eq!(result.content, "hello... [truncated 5/11 chars]");
    assert!(result.truncated);
}

#[test]
fn test_process_html_basic() {
    let html = "<h1>Title</h1><p>Content</p>".to_string();
    let result = process_html(html, 0, 5000);
    assert!(result.contains("Title"));
    assert!(result.contains("Content"));
}

#[test]
fn test_process_html_with_truncation() {
    let html = "<p>Hello World</p>".to_string();
    let result = process_html(html, 0, 5);
    assert!(result.contains("truncated"));
}

#[test]
fn test_report_stores_violations() {
    let mut report = Report::new();
    let violations = vec![Violation {
        file: "test.rs".to_string(),
        detail: "test violation".to_string(),
        start_line: 1,
        end_line: 2,
    }];

    let ack = report.report(violations);
    assert_eq!(ack, "OK");
    assert_eq!(report.violations.len(), 1);
    assert_eq!(report.violations[0].file, "test.rs");
    assert_eq!(report.violations[0].detail, "test violation");
}

#[test]
fn test_report_empty_list_is_rejected() {
    let mut report = Report::new();
    let ack = report.report(Vec::new());
    assert_eq!(ack, "At least 1 violation is required");
    assert_eq!(report.violations.len(), 0);
}

#[test]
fn test_report_accumulates_violations() {
    let mut report = Report::new();

    report.report(vec![Violation {
        file: "a.rs".to_string(),
        detail: "first".to_string(),
        start_line: 1,
        end_line: 1,
    }]);
    report.report(vec![Violation {
        file: "b.rs".to_string(),
        detail: "second".to_string(),
        start_line: 2,
        end_line: 2,
    }]);

    assert_eq!(report.violations.len(), 2);
}

#[test]
fn test_suggest_accumulates_rules() {
    let mut suggest = Suggest::new();
    let rule = firekeeper::rule::RuleBody::no_magic_numbers();
    let other = firekeeper::rule::RuleBody::no_code_duplication();
    suggest.suggest(vec![rule]);
    suggest.suggest(vec![other]);
    assert_eq!(suggest.rules.len(), 2);
    assert_eq!(suggest.rules[0].name, "No Magic Numbers");
    assert_eq!(suggest.rules[1].name, "No Code Duplication");
}
