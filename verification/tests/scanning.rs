use lox_front::driver::tokenize_output;
use lox_front::scanner::{scanner, tokenize_line};
use lox_front::tokens::{tokens_well_formed, Token, TokenType};
use lox_front::utils::{format_number_as_string, nat_string, strip_trailing_dots, trim_string};
use lox_front::ERROR_EXIT_CODE;

#[test]
fn single_punctuation_tokens() {
    let cases = [
        ("(", "LEFT_PAREN"),
        (")", "RIGHT_PAREN"),
        ("{", "LEFT_BRACE"),
        ("}", "RIGHT_BRACE"),
        ("*", "STAR"),
        (".", "DOT"),
        (",", "COMMA"),
        ("+", "PLUS"),
        (";", "SEMICOLON"),
        ("-", "MINUS"),
        ("=", "EQUAL"),
        ("!", "BANG"),
        ("<", "LESS"),
        (">", "GREATER"),
        ("/", "SLASH"),
    ];
    for (src, kind) in cases {
        let (out, err) = tokenize_output(src.to_string());
        assert_eq!(out, vec![format!("{} {} null", kind, src), "EOF  null".to_string()]);
        assert!(err.is_empty());
        let tokens = scanner(src.to_string());
        assert_eq!(tokens.len(), 2);
        assert_eq!(tokens[0].line, 1);
        assert_eq!(tokens[0].lexeme, src);
        assert!(matches!(tokens[1].token_type, TokenType::EOF));
        assert_eq!(tokens[1].line, 2);
    }
}

#[test]
fn two_character_operators() {
    let (out, err) = tokenize_output("== != <= >=".to_string());
    assert_eq!(
        out,
        vec![
            "EQUAL_EQUAL == null".to_string(),
            "BANG_EQUAL != null".to_string(),
            "LESS_EQUAL <= null".to_string(),
            "GREATER_EQUAL >= null".to_string(),
            "EOF  null".to_string(),
        ]
    );
    assert!(err.is_empty());
}

#[test]
fn comment_discards_rest_of_line() {
    let (out, err) = tokenize_output("1 // the rest is gone ;;\n2".to_string());
    assert_eq!(
        out,
        vec!["NUMBER 1 1.0".to_string(), "NUMBER 2 2.0".to_string(), "EOF  null".to_string()]
    );
    assert!(err.is_empty());
    let tokens = scanner("1 // gone\n2".to_string());
    assert_eq!(tokens[0].line, 1);
    assert_eq!(tokens[1].line, 2);
    assert_eq!(tokens[2].line, 3);
}

#[test]
fn slash_alone_is_a_token() {
    let (out, _) = tokenize_output("1 / 2".to_string());
    assert_eq!(
        out,
        vec![
            "NUMBER 1 1.0".to_string(),
            "SLASH / null".to_string(),
            "NUMBER 2 2.0".to_string(),
            "EOF  null".to_string(),
        ]
    );
}

#[test]
fn string_literal_token() {
    let (out, err) = tokenize_output("\"hello world\"".to_string());
    assert_eq!(
        out,
        vec!["STRING \"hello world\" hello world".to_string(), "EOF  null".to_string()]
    );
    assert!(err.is_empty());
}

#[test]
fn unterminated_string_reports_and_keeps_earlier_tokens() {
    let (out, err) = tokenize_output("( \"abc".to_string());
    assert_eq!(out, vec!["LEFT_PAREN ( null".to_string(), "EOF  null".to_string()]);
    assert_eq!(err, vec!["[line 1] Error: Unterminated string.".to_string()]);
    assert_eq!(ERROR_EXIT_CODE, 65);
}

#[test]
fn unknown_character_reports_and_continues() {
    let (out, err) = tokenize_output("@+#".to_string());
    assert_eq!(out, vec!["PLUS + null".to_string(), "EOF  null".to_string()]);
    assert_eq!(
        err,
        vec![
            "[line 1] Error: Unexpected character: @".to_string(),
            "[line 1] Error: Unexpected character: #".to_string(),
        ]
    );
}

#[test]
fn number_with_trailing_dot_emits_synthetic_dot() {
    let (out, err) = tokenize_output("123.".to_string());
    assert_eq!(
        out,
        vec!["NUMBER 123 123.0".to_string(), "DOT . null".to_string(), "EOF  null".to_string()]
    );
    assert!(err.is_empty());
}

#[test]
fn number_consumes_at_most_one_dot() {
    let (out, _) = tokenize_output("1.2.3".to_string());
    assert_eq!(
        out,
        vec![
            "NUMBER 1.2 1.2".to_string(),
            "DOT . null".to_string(),
            "NUMBER 3 3.0".to_string(),
            "EOF  null".to_string(),
        ]
    );
}

#[test]
fn keywords_and_identifiers() {
    let (out, _) = tokenize_output("and andy _x var while".to_string());
    assert_eq!(
        out,
        vec![
            "AND and null".to_string(),
            "IDENTIFIER andy null".to_string(),
            "IDENTIFIER _x null".to_string(),
            "VAR var null".to_string(),
            "WHILE while null".to_string(),
            "EOF  null".to_string(),
        ]
    );
}

#[test]
fn empty_source_has_only_eof() {
    let tokens = scanner(String::new());
    assert_eq!(tokens.len(), 1);
    assert!(matches!(tokens[0].token_type, TokenType::EOF));
    assert_eq!(tokens[0].line, 1);
    let (out, err) = tokenize_output(String::new());
    assert_eq!(out, vec!["EOF  null".to_string()]);
    assert!(err.is_empty());
}

#[test]
fn line_numbers_follow_physical_lines() {
    let tokens = scanner("+\n-\n\n*".to_string());
    assert_eq!(tokens[0].line, 1);
    assert_eq!(tokens[1].line, 2);
    assert_eq!(tokens[2].line, 4);
    assert!(matches!(tokens[3].token_type, TokenType::EOF));
    assert_eq!(tokens[3].line, 5);
}

#[test]
fn carriage_return_before_line_feed_is_stripped() {
    let (out, err) = tokenize_output("1\r\n2".to_string());
    assert_eq!(
        out,
        vec!["NUMBER 1 1.0".to_string(), "NUMBER 2 2.0".to_string(), "EOF  null".to_string()]
    );
    assert!(err.is_empty());
}

#[test]
fn tokenize_line_scans_one_line() {
    let tokens = tokenize_line("(+)", 7);
    assert_eq!(tokens.len(), 3);
    assert!(matches!(tokens[0].token_type, TokenType::LeftParen));
    assert!(matches!(tokens[1].token_type, TokenType::Plus));
    assert!(matches!(tokens[2].token_type, TokenType::RightParen));
    assert_eq!(tokens[0].line, 7);
}

#[test]
fn scanner_output_is_well_formed() {
    let tokens = scanner("\"ok\" \"open 123 and @".to_string());
    assert!(tokens_well_formed(&tokens));
    let bad = vec![Token {
        token_type: TokenType::String { string: "x".to_string(), finished: true },
        lexeme: "x".to_string(),
        line: 1,
    }];
    assert!(!tokens_well_formed(&bad));
}

#[test]
fn trim_string_drops_delimiters() {
    assert_eq!(trim_string(&"\"ab\"".to_string()), "ab");
    assert_eq!(trim_string(&"\"\"".to_string()), "");
}

#[test]
fn format_number_as_string_normalizes() {
    assert_eq!(format_number_as_string(&"1.".to_string()), "1.0");
    assert_eq!(format_number_as_string(&"7".to_string()), "7.0");
    assert_eq!(format_number_as_string(&"2.00".to_string()), "2.0");
    assert_eq!(format_number_as_string(&"1.5".to_string()), "1.5");
    assert_eq!(format_number_as_string(&"007".to_string()), "007.0");
    assert_eq!(format_number_as_string(&"2.000".to_string()), "2.000");
}

#[test]
fn strip_trailing_dots_strips_only_dots() {
    assert_eq!(strip_trailing_dots("123."), "123");
    assert_eq!(strip_trailing_dots("1.2"), "1.2");
    assert_eq!(strip_trailing_dots("7"), "7");
}

#[test]
fn nat_string_renders_decimal() {
    assert_eq!(nat_string(0), "0");
    assert_eq!(nat_string(65), "65");
    assert_eq!(nat_string(12034), "12034");
}

#[test]
fn tokenize_is_deterministic() {
    let a = tokenize_output("( \"abc 123. @ and".to_string());
    let b = tokenize_output("( \"abc 123. @ and".to_string());
    assert_eq!(a, b);
}

#[test]
fn unicode_letters_form_identifiers() {
    let (out, err) = tokenize_output("héllo".to_string());
    assert_eq!(out, vec!["IDENTIFIER héllo null".to_string(), "EOF  null".to_string()]);
    assert!(err.is_empty());
}

#[test]
fn unicode_symbol_is_an_unknown_character() {
    let (out, err) = tokenize_output("°".to_string());
    assert_eq!(out, vec!["EOF  null".to_string()]);
    assert_eq!(err, vec!["[line 1] Error: Unexpected character: °".to_string()]);
}

#[test]
fn string_spans_do_not_cross_lines() {
    let (out, err) = tokenize_output("\"ab\ncd\"".to_string());
    assert_eq!(
        err,
        vec![
            "[line 1] Error: Unterminated string.".to_string(),
            "[line 2] Error: Unterminated string.".to_string(),
        ]
    );
    assert_eq!(out, vec!["IDENTIFIER cd null".to_string(), "EOF  null".to_string()]);
}
