use firekeeper::aggregate::{FileViolations, RuleTip, RuleViolations};
use firekeeper::render::{format_elapsed, format_focused_files, format_message_content, format_rule,
    format_rule_violations, format_tip, format_trace_rule, format_violation, format_violations,
    get_fence_backticks, output_format, wrap_in_ref_block, OutputFormat};
use firekeeper::types::Violation;

#[test]
fn test_get_fence_backticks() {
    assert_eq!(get_fence_backticks("no backticks"), "```");
    assert_eq!(get_fence_backticks("has ` one"), "```");
    assert_eq!(get_fence_backticks("```"), "````");
    assert_eq!(get_fence_backticks("````"), "`````");
}

#[test]
fn test_format_violation() {
    let v = Violation {
        file: "test.rs".to_string(),
        start_line: 10,
        end_line: 15,
        detail: "test issue".to_string(),
    };
    assert_eq!(format_violation(&v), "- Lines 10-15: test issue\n");
}

#[test]
fn test_format_tip() {
    assert_eq!(format_tip("  tip  "), Some("\n**Tip:** tip\n".to_string()));
    assert_eq!(format_tip(""), None);
    assert_eq!(format_tip("   "), None);
}

#[test]
fn test_format_trace_rule() {
    let result = format_trace_rule("TestRule", "  instruction  ");
    assert!(result.contains("## Rule: TestRule"));
    assert!(result.contains("> instruction"));
}

#[test]
fn test_wrap_in_ref_block() {
    assert_eq!(wrap_in_ref_block("line1"), "> line1");
    assert_eq!(wrap_in_ref_block("line1\nline2"), "> line1\n> line2");
    assert_eq!(wrap_in_ref_block("  line1  "), "> line1");
}

#[test]
fn test_format_rule() {
    assert_eq!(format_rule("TestRule"), "## Rule: TestRule\n\n");
}

#[test]
fn test_format_rule_violations() {
    let violations = vec![
        Violation {
            file: "test.rs".to_string(),
            start_line: 1,
            end_line: 2,
            detail: "issue1".to_string(),
        },
        Violation {
            file: "test.rs".to_string(),
            start_line: 3,
            end_line: 4,
            detail: "issue2".to_string(),
        },
    ];
    let result = format_rule_violations("TestRule", &violations, Some("fix it"));
    assert!(result.contains("## Rule: TestRule"));
    assert!(result.contains("Lines 1-2: issue1"));
    assert!(result.contains("Lines 3-4: issue2"));
    assert!(result.contains("**Tip:** fix it"));
}

#[test]
fn test_format_violations_empty() {
    let violations: Vec<FileViolations> = Vec::new();
    let tips: Vec<RuleTip> = Vec::new();
    assert_eq!(format_violations(&violations, &tips), "No violations found");
}

#[test]
fn test_format_violations_grouped_output() {
    let groups = vec![FileViolations {
        file: "a.rs".to_string(),
        rules: vec![RuleViolations {
            rule_name: "R".to_string(),
            violations: vec![Violation {
                file: "a.rs".to_string(),
                start_line: 1,
                end_line: 1,
                detail: "bad".to_string(),
            }],
        }],
    }];
    let tips = vec![RuleTip { rule_name: "R".to_string(), tip: "fix\n".to_string() }];
    let report = format_violations(&groups, &tips);
    assert_eq!(
        report,
        "# Violations in a.rs\n\n## Rule: R\n\n- Lines 1-1: bad\n\n**Tip:** fix"
    );
}

#[test]
fn test_format_focused_files() {
    let files = vec!["file1.rs".to_string(), "file2.rs".to_string()];
    let result = format_focused_files(&files);
    assert!(result.contains("## Focused Files"));
    assert!(result.contains("- file1.rs"));
    assert!(result.contains("- file2.rs"));
}

#[test]
fn test_format_message_content() {
    assert!(format_message_content("tool", "content").starts_with("```"));
    assert!(format_message_content("system", "content").starts_with("> "));
    assert!(format_message_content("user", "content").starts_with("> "));
    assert_eq!(
        format_message_content("assistant", "content"),
        "> content\n\n"
    );
}

#[test]
fn test_format_elapsed_two_decimals() {
    assert_eq!(format_elapsed(105), "1.05");
    assert_eq!(format_elapsed(0), "0.00");
    assert_eq!(format_elapsed(1234), "12.34");
}

#[test]
fn test_output_format_by_extension() {
    assert_eq!(output_format("report.json"), Some(OutputFormat::Json));
    assert_eq!(output_format("report.md"), Some(OutputFormat::Markdown));
    assert_eq!(output_format("report.txt"), None);
}
