use ruby_linter::simple_lint_ruby;

#[test]
fn clean_class_reports_no_issues() {
    let report = simple_lint_ruby("class Foo\n  def initialize(bar)\n    @bar = bar\n  end\nend\n");
    assert!(report.errors.is_empty());
    assert!(report.warnings.is_empty());
    assert_eq!(report.summary, "No issues found!");
}

#[test]
fn excess_end_is_reported_on_its_line() {
    let report = simple_lint_ruby("def foo\nend\nend\n");
    assert_eq!(
        report.errors,
        vec!["Line 3: Unexpected 'end' - no matching block opening".to_string()]
    );
    assert!(report.warnings.is_empty());
    assert_eq!(report.summary, "Found 1 error(s) and 0 warning(s)");
}

#[test]
fn unmatched_openers_are_counted() {
    let report = simple_lint_ruby("class Foo\n  def bar\n");
    assert_eq!(report.errors, vec!["Missing 2 'end' statement(s)".to_string()]);
    assert!(report.warnings.is_empty());
    assert_eq!(report.summary, "Found 1 error(s) and 0 warning(s)");
}

#[test]
fn puts_with_newline_escape_warns() {
    let report = simple_lint_ruby("puts \"hello\\n\"\n");
    assert!(report.errors.is_empty());
    assert_eq!(
        report.warnings,
        vec!["Line 1: Consider using multiple puts statements instead of \\n".to_string()]
    );
    assert_eq!(report.summary, "Found 0 error(s) and 1 warning(s)");
}

#[test]
fn unterminated_string_is_reported() {
    let report = simple_lint_ruby("x = \"unterminated\n");
    assert_eq!(report.errors, vec!["Unclosed string literal (started with \")".to_string()]);
    assert!(report.warnings.is_empty());
    assert_eq!(report.summary, "Found 1 error(s) and 0 warning(s)");
}

#[test]
fn empty_input_reports_no_issues() {
    let report = simple_lint_ruby("");
    assert!(report.errors.is_empty());
    assert!(report.warnings.is_empty());
    assert_eq!(report.summary, "No issues found!");
}

#[test]
fn scanning_twice_yields_identical_reports() {
    let source = "class Foo\n  def bar\nend\nputs \"x\\n\"\nend\nend\n";
    let first = simple_lint_ruby(source);
    let second = simple_lint_ruby(source);
    assert_eq!(first.errors, second.errors);
    assert_eq!(first.warnings, second.warnings);
    assert_eq!(first.summary, second.summary);
}

#[test]
fn bare_word_call_warns_about_parentheses() {
    let report = simple_lint_ruby("foo bar\n");
    assert!(report.errors.is_empty());
    assert_eq!(
        report.warnings,
        vec!["Line 1: Consider using parentheses for method arguments".to_string()]
    );
    assert_eq!(report.summary, "Found 0 error(s) and 1 warning(s)");
}

#[test]
fn block_parameter_marker_opens_a_block() {
    let report = simple_lint_ruby("items.each do |x|\n  puts x\nend\n");
    assert!(report.errors.is_empty());
    assert_eq!(
        report.warnings,
        vec!["Line 1: Consider using parentheses for method arguments".to_string()]
    );
    assert_eq!(report.summary, "Found 0 error(s) and 1 warning(s)");
}

#[test]
fn carriage_return_line_endings_are_handled() {
    let report = simple_lint_ruby("class Foo\r\nend\r\n");
    assert!(report.errors.is_empty());
    assert!(report.warnings.is_empty());
    assert_eq!(report.summary, "No issues found!");
}

#[test]
fn begin_opens_a_block_without_a_space() {
    let report = simple_lint_ruby("begin\nend\n");
    assert!(report.errors.is_empty());
    assert!(report.warnings.is_empty());
    assert_eq!(report.summary, "No issues found!");
}

#[test]
fn string_literal_may_span_lines() {
    let report = simple_lint_ruby("x = \"abc\ndef\"\n");
    assert!(report.errors.is_empty());
    assert!(report.warnings.is_empty());
    assert_eq!(report.summary, "No issues found!");
}

#[test]
fn delimiter_before_backslash_does_not_close() {
    let report = simple_lint_ruby("x = \"abc\"\\ more\n");
    assert_eq!(report.errors, vec!["Unclosed string literal (started with \")".to_string()]);
    assert_eq!(report.summary, "Found 1 error(s) and 0 warning(s)");
}

#[test]
fn first_unexpected_end_on_line_one() {
    let report = simple_lint_ruby("end\n");
    assert_eq!(
        report.errors,
        vec!["Line 1: Unexpected 'end' - no matching block opening".to_string()]
    );
    assert_eq!(report.summary, "Found 1 error(s) and 0 warning(s)");
}

#[test]
fn one_line_may_draw_both_warnings_in_order() {
    let report = simple_lint_ruby("log puts \\n\n");
    assert!(report.errors.is_empty());
    assert_eq!(
        report.warnings,
        vec![
            "Line 1: Consider using multiple puts statements instead of \\n".to_string(),
            "Line 1: Consider using parentheses for method arguments".to_string(),
        ]
    );
    assert_eq!(report.summary, "Found 0 error(s) and 2 warning(s)");
}

#[test]
fn error_and_warning_counts_are_both_summarized() {
    let report = simple_lint_ruby("if x\n y z\n");
    assert_eq!(report.errors, vec!["Missing 1 'end' statement(s)".to_string()]);
    assert_eq!(
        report.warnings,
        vec!["Line 2: Consider using parentheses for method arguments".to_string()]
    );
    assert_eq!(report.summary, "Found 1 error(s) and 1 warning(s)");
}

#[test]
fn assignment_lines_draw_no_parenthesis_warning() {
    let report = simple_lint_ruby("total = a\n");
    assert!(report.errors.is_empty());
    assert!(report.warnings.is_empty());
    assert_eq!(report.summary, "No issues found!");
}

#[test]
fn block_rules_ignore_string_state() {
    let report = simple_lint_ruby("x = \"abc\nend\ndef\"\n");
    assert_eq!(
        report.errors,
        vec!["Line 2: Unexpected 'end' - no matching block opening".to_string()]
    );
    assert!(report.warnings.is_empty());
    assert_eq!(report.summary, "Found 1 error(s) and 0 warning(s)");
}

#[test]
fn missing_count_renders_two_digits() {
    let source = "if a\nif b\nif c\nif d\nif e\nif f\nif g\nif h\nif i\nif j\nif k\nif l\n";
    let report = simple_lint_ruby(source);
    assert_eq!(report.errors, vec!["Missing 12 'end' statement(s)".to_string()]);
    assert!(report.warnings.is_empty());
    assert_eq!(report.summary, "Found 1 error(s) and 0 warning(s)");
}
