use rlox::Runner;

#[test]
fn runner_prints_parsed_expression() {
    let mut runner = Runner::new();
    assert!(!runner.had_error());

    let result = runner.run("-123 * (45.67)".to_string());
    assert_eq!(result.output, Some("(* (- 123) (group 45.67))".to_string()));
    assert_eq!(result.diagnostics.len(), 0);
    assert!(!runner.had_error());
}

#[test]
fn runner_reports_syntax_error() {
    let mut runner = Runner::new();

    let result = runner.run("(1 + 2".to_string());
    assert_eq!(result.output, None);
    assert_eq!(
        result.diagnostics,
        vec!["[line 0] Error  at end: Expect ')' after expression.".to_string()]
    );
    assert!(runner.had_error());
}

#[test]
fn runner_reports_scanner_diagnostics() {
    let mut runner = Runner::new();

    let result = runner.run("1 @ + 2".to_string());
    // the stray character is reported and skipped; the rest still parses
    assert_eq!(result.output, Some("(+ 1 2)".to_string()));
    assert_eq!(result.diagnostics, vec!["[line 0] Error : Unexpected character".to_string()]);
    assert!(runner.had_error());
}

#[test]
fn runner_error_flag_stays_raised() {
    let mut runner = Runner::new();

    let first = runner.run("+".to_string());
    assert_eq!(first.output, None);
    assert!(runner.had_error());

    let second = runner.run("1".to_string());
    assert_eq!(second.output, Some("1".to_string()));
    assert!(runner.had_error());
}
