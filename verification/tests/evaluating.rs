use lox_front::driver::evaluate_output;
use lox_front::errors::ErrorKind;

fn eval_lines(src: &str) -> Vec<String> {
    let (lines, err) = evaluate_output(src.to_string()).expect("expected a successful parse");
    assert_eq!(err, None, "expected no evaluation failure");
    lines
}

fn eval_failure(src: &str) -> (Vec<String>, ErrorKind) {
    let (lines, err) = evaluate_output(src.to_string()).expect("expected a successful parse");
    (lines, err.expect("expected an evaluation failure"))
}

#[test]
fn string_number_equality_is_always_false() {
    assert_eq!(eval_lines("\"2\" == 2"), vec!["false".to_string()]);
    assert_eq!(eval_lines("2 == \"2\""), vec!["false".to_string()]);
}

#[test]
fn string_number_inequality_is_always_true() {
    assert_eq!(eval_lines("\"2\" != 2"), vec!["true".to_string()]);
    assert_eq!(eval_lines("2 != \"2\""), vec!["true".to_string()]);
}

#[test]
fn truthiness_of_bang() {
    assert_eq!(eval_lines("!0"), vec!["true".to_string()]);
    assert_eq!(eval_lines("!\"\""), vec!["true".to_string()]);
    assert_eq!(eval_lines("!\"x\""), vec!["false".to_string()]);
    assert_eq!(eval_lines("!1"), vec!["false".to_string()]);
    assert_eq!(eval_lines("!nil"), vec!["true".to_string()]);
    assert_eq!(eval_lines("!true"), vec!["false".to_string()]);
    assert_eq!(eval_lines("!false"), vec!["true".to_string()]);
}

#[test]
fn division_and_equality() {
    assert_eq!(eval_lines("10 / 2 == 5"), vec!["true".to_string()]);
}

#[test]
fn arithmetic_on_numbers() {
    assert_eq!(eval_lines("1 + 2"), vec!["3".to_string()]);
    assert_eq!(eval_lines("5 - 3"), vec!["2".to_string()]);
    assert_eq!(eval_lines("4 * 2.5"), vec!["10".to_string()]);
    assert_eq!(eval_lines("7 / 2"), vec!["3.5".to_string()]);
    assert_eq!(eval_lines("-3"), vec!["-3".to_string()]);
    assert_eq!(eval_lines("0.1 + 0.2"), vec!["0.30000000000000004".to_string()]);
}

#[test]
fn comparisons_on_numbers() {
    assert_eq!(eval_lines("1 < 2"), vec!["true".to_string()]);
    assert_eq!(eval_lines("2 < 1"), vec!["false".to_string()]);
    assert_eq!(eval_lines("3 > 2"), vec!["true".to_string()]);
    assert_eq!(eval_lines("2 <= 2"), vec!["true".to_string()]);
    assert_eq!(eval_lines("2 >= 3"), vec!["false".to_string()]);
    assert_eq!(eval_lines("2 == 2"), vec!["true".to_string()]);
    assert_eq!(eval_lines("2 != 2"), vec!["false".to_string()]);
}

#[test]
fn strings_concatenate_and_compare() {
    assert_eq!(eval_lines("\"ab\" + \"cd\""), vec!["abcd".to_string()]);
    assert_eq!(eval_lines("\"ab\" == \"ab\""), vec!["true".to_string()]);
    assert_eq!(eval_lines("\"ab\" == \"cd\""), vec!["false".to_string()]);
    assert_eq!(eval_lines("\"ab\" != \"cd\""), vec!["true".to_string()]);
}

#[test]
fn grouping_passes_its_value_through() {
    assert_eq!(eval_lines("(1 + 2) * 3"), vec!["9".to_string()]);
    assert_eq!(eval_lines("(\"x\")"), vec!["x".to_string()]);
    assert_eq!(eval_lines("((nil))"), vec!["nil".to_string()]);
}

#[test]
fn literals_evaluate_to_themselves() {
    assert_eq!(eval_lines("nil"), vec!["nil".to_string()]);
    assert_eq!(eval_lines("true"), vec!["true".to_string()]);
    assert_eq!(eval_lines("\"hi\""), vec!["hi".to_string()]);
    assert_eq!(eval_lines("42"), vec!["42".to_string()]);
}

#[test]
fn unary_minus_needs_a_number() {
    assert_eq!(eval_failure("-\"x\""), (vec![], ErrorKind::UnsupportedOperand));
    assert_eq!(eval_failure("-nil"), (vec![], ErrorKind::UnsupportedOperand));
}

#[test]
fn undefined_operator_combinations_fail() {
    assert_eq!(eval_failure("1 + \"x\"").1, ErrorKind::UnsupportedOperator);
    assert_eq!(eval_failure("\"x\" - 1").1, ErrorKind::UnsupportedOperator);
    assert_eq!(eval_failure("\"a\" * \"b\"").1, ErrorKind::UnsupportedOperator);
    assert_eq!(eval_failure("nil + nil").1, ErrorKind::UnsupportedOperand);
    assert_eq!(eval_failure("true == true").1, ErrorKind::UnsupportedOperand);
}

#[test]
fn lines_before_a_failure_are_kept() {
    let (lines, err) = eval_failure("1\n2 + nil\n5");
    assert_eq!(lines, vec!["1".to_string()]);
    assert_eq!(err, ErrorKind::UnsupportedOperand);
}

#[test]
fn division_by_zero_follows_ieee() {
    assert_eq!(eval_lines("1 / 0"), vec!["inf".to_string()]);
    assert_eq!(eval_lines("-1 / 0"), vec!["-inf".to_string()]);
}

#[test]
fn error_messages_are_fixed() {
    assert_eq!(ErrorKind::UnsupportedOperand.message(), "Unsupported operand.");
    assert_eq!(ErrorKind::UnmatchedParens.message(), "Unmatched parentheses.");
}

#[test]
fn evaluation_is_deterministic() {
    let a = evaluate_output("(1 + 2) * 3 - 4 / 8\n\"a\" + \"b\"\n!0".to_string());
    let b = evaluate_output("(1 + 2) * 3 - 4 / 8\n\"a\" + \"b\"\n!0".to_string());
    assert_eq!(a, b);
}
