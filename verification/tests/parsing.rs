use lox_front::driver::parse_output;
use lox_front::errors::ErrorKind;
use lox_front::parser::parse_tokens;
use lox_front::scanner::scanner;
use lox_front::ERROR_EXIT_CODE;

fn parse_lines(src: &str) -> Vec<String> {
    parse_output(src.to_string()).expect("expected a successful parse")
}

#[test]
fn grouped_sum_times_number() {
    assert_eq!(parse_lines("(1 + 2) * 3"), vec!["(* (group (+ 1.0 2.0)) 3.0)".to_string()]);
}

#[test]
fn unbalanced_parens_fail_with_parse_error_status() {
    let r = parse_output("(()".to_string());
    assert!(r.is_err());
    assert_eq!(ERROR_EXIT_CODE, 65);
}

#[test]
fn literals_print_normalized() {
    assert_eq!(parse_lines("1"), vec!["1.0".to_string()]);
    assert_eq!(parse_lines("2.5"), vec!["2.5".to_string()]);
    assert_eq!(parse_lines("true"), vec!["true".to_string()]);
    assert_eq!(parse_lines("false"), vec!["false".to_string()]);
    assert_eq!(parse_lines("nil"), vec!["nil".to_string()]);
    assert_eq!(parse_lines("\"hi\""), vec!["hi".to_string()]);
}

#[test]
fn unary_operators_nest() {
    assert_eq!(parse_lines("!!true"), vec!["(! (! true))".to_string()]);
    assert_eq!(parse_lines("-1"), vec!["(- 1.0)".to_string()]);
}

#[test]
fn binary_is_left_associative() {
    assert_eq!(parse_lines("1 + 2 + 3"), vec!["(+ (+ 1.0 2.0) 3.0)".to_string()]);
    assert_eq!(parse_lines("1 * 2 / 3"), vec!["(/ (* 1.0 2.0) 3.0)".to_string()]);
}

#[test]
fn comparison_operators_parse() {
    assert_eq!(parse_lines("1 <= 2"), vec!["(<= 1.0 2.0)".to_string()]);
    assert_eq!(parse_lines("1 >= 2"), vec!["(>= 1.0 2.0)".to_string()]);
    assert_eq!(parse_lines("1 == 2"), vec!["(== 1.0 2.0)".to_string()]);
    assert_eq!(parse_lines("1 != 2"), vec!["(!= 1.0 2.0)".to_string()]);
}

#[test]
fn nested_groups() {
    assert_eq!(parse_lines("((1))"), vec!["(group (group 1.0))".to_string()]);
}

#[test]
fn several_expressions_print_on_their_own_lines() {
    assert_eq!(parse_lines("1 2"), vec!["1.0".to_string(), "2.0".to_string()]);
}

#[test]
fn empty_source_parses_to_nothing() {
    assert_eq!(parse_lines(""), Vec::<String>::new());
}

#[test]
fn empty_group_fails() {
    assert_eq!(parse_output("()".to_string()), Err(ErrorKind::EmptyGroup));
}

#[test]
fn unclosed_group_fails() {
    assert_eq!(parse_output("(1".to_string()), Err(ErrorKind::UnmatchedParens));
    assert_eq!(parse_output("(".to_string()), Err(ErrorKind::UnmatchedParens));
}

#[test]
fn stray_closing_paren_fails() {
    assert_eq!(parse_output(")".to_string()), Err(ErrorKind::UnexpectedToken));
}

#[test]
fn identifier_at_expression_position_fails() {
    assert_eq!(parse_output("foo".to_string()), Err(ErrorKind::UnexpectedToken));
}

#[test]
fn unterminated_string_fails_the_parse() {
    assert_eq!(parse_output("\"abc".to_string()), Err(ErrorKind::UnexpectedToken));
}

#[test]
fn unary_operator_without_operand_fails() {
    assert_eq!(parse_output("-".to_string()), Err(ErrorKind::UnexpectedToken));
    assert_eq!(parse_output("!".to_string()), Err(ErrorKind::UnexpectedToken));
}

#[test]
fn parse_tokens_runs_on_scanner_output() {
    let tokens = scanner("1 + 2".to_string());
    let slots = parse_tokens(&tokens).expect("parse should succeed");
    assert_eq!(slots.len(), 2);
    assert!(slots[0].is_some());
    assert!(slots[1].is_none());
}

#[test]
fn parse_is_deterministic() {
    let a = parse_output("(1 + 2) * 3 - -4".to_string());
    let b = parse_output("(1 + 2) * 3 - -4".to_string());
    assert_eq!(a, b);
}

#[test]
fn group_with_two_expressions_fails() {
    assert_eq!(parse_output("(1 2)".to_string()), Err(ErrorKind::UnexpectedToken));
}
