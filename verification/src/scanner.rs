//! The lexer: source text to tokens. Each physical line is scanned left to
//! right with one character of lookahead; the token sequence of the whole
//! source is the concatenation of the per-line sequences, closed by an
//! end-of-input token on the line after the last.
use crate::exprs::string_views;
use crate::tokens::{
    kind_name, lookup_keyword, spec_keyword_of, spec_kind_name, spec_tokens_wf, token_views,
    wf_token, Token, TokenType, TokenTypeV, TokenV,
};
use crate::utils::{
    format_number_as_string, nat_string, spec_format_number, spec_nat_string,
    spec_strip_trailing_dots, strip_trailing_dots, trim_string,
};
use vstd::prelude::*;

verus! {

pub uninterp spec fn alnum_of(c: char) -> bool;

/// Relies on char::is_alphanumeric, a class of the character alone.
#[verifier::external_body]
pub(crate) fn is_alphanumeric_char(c: char) -> (r: bool)
    ensures
        r == alnum_of(c),
{
    c.is_alphanumeric()
}

/// A decimal digit.
pub open spec fn spec_is_digit(c: char) -> bool {
    48 <= c as u32 && c as u32 <= 57
}

fn is_digit_c(c: char) -> (r: bool)
    ensures
        r == spec_is_digit(c),
{
    let u = c as u32;
    48 <= u && u <= 57
}

/// A character that may continue an identifier.
pub open spec fn spec_is_ident_char(c: char) -> bool {
    alnum_of(c) || c == '_'
}

fn is_ident_c(c: char) -> (r: bool)
    ensures
        r == spec_is_ident_char(c),
{
    is_alphanumeric_char(c) || c == '_'
}

/// A token assembled from its parts.
pub open spec fn tok(token_type: TokenTypeV, lexeme: Seq<char>, line: int) -> TokenV {
    TokenV { token_type, lexeme, line }
}

/// The single characters that map directly to a punctuation kind.
pub open spec fn spec_punct_kind(c: char) -> Option<TokenTypeV> {
    if c == '(' {
        Some(TokenTypeV::LeftParen)
    } else if c == ')' {
        Some(TokenTypeV::RightParen)
    } else if c == '{' {
        Some(TokenTypeV::LeftBrace)
    } else if c == '}' {
        Some(TokenTypeV::RightBrace)
    } else if c == '*' {
        Some(TokenTypeV::Star)
    } else if c == '.' {
        Some(TokenTypeV::Dot)
    } else if c == ',' {
        Some(TokenTypeV::Comma)
    } else if c == '+' {
        Some(TokenTypeV::Plus)
    } else if c == ';' {
        Some(TokenTypeV::Semicolon)
    } else if c == '-' {
        Some(TokenTypeV::Minus)
    } else {
        None
    }
}

/// The kind chosen by one character of lookahead: the two-character kind if
/// the next character matches, else the bare kind.
pub open spec fn spec_gen_operator(
    char_: Option<char>,
    operator_type: TokenTypeV,
    simple_type: TokenTypeV,
    match_char: char,
) -> TokenTypeV {
    match char_ {
        Some(i) => if i == match_char {
            operator_type
        } else {
            simple_type
        },
        None => simple_type,
    }
}

/// The executable counterpart of `spec_gen_operator`.
pub fn gen_operator(
    char_: Option<char>,
    operator_type: TokenType,
    simple_type: TokenType,
    match_char: char,
) -> (r: TokenType)
    ensures
        r@ == spec_gen_operator(char_, operator_type@, simple_type@, match_char),
{
    if let Some(i) = char_ {
        if i == match_char {
            return operator_type;
        }
    }
    simple_type
}

/// The index just past the closing quote of a string opened before `j`, or
/// the line's end if no closing quote follows.
pub open spec fn spec_string_end(line: Seq<char>, j: int) -> int
    decreases line.len() - j,
{
    if j < 0 || j >= line.len() {
        line.len() as int
    } else if line[j] == '"' {
        j + 1
    } else {
        spec_string_end(line, j + 1)
    }
}

/// Whether a string opened before `j` finds its closing quote on the line.
pub open spec fn spec_string_finished(line: Seq<char>, j: int) -> bool
    decreases line.len() - j,
{
    if j < 0 || j >= line.len() {
        false
    } else if line[j] == '"' {
        true
    } else {
        spec_string_finished(line, j + 1)
    }
}

pub proof fn lemma_string_end_bounds(line: Seq<char>, j: int)
    requires
        0 <= j <= line.len(),
    ensures
        j <= spec_string_end(line, j) <= line.len(),
        spec_string_finished(line, j) ==> spec_string_end(line, j) >= j + 1,
    decreases line.len() - j,
{
    if j < line.len() && line[j] != '"' {
        lemma_string_end_bounds(line, j + 1);
    }
}

/// The index just past a number literal being scanned at `j`: digits, and at
/// most one dot counting those consumed before `j`.
pub open spec fn spec_number_end(line: Seq<char>, j: int, seen_dot: bool) -> int
    decreases line.len() - j,
{
    if j < 0 || j >= line.len() {
        j
    } else if spec_is_digit(line[j]) {
        spec_number_end(line, j + 1, seen_dot)
    } else if line[j] == '.' && !seen_dot {
        spec_number_end(line, j + 1, true)
    } else {
        j
    }
}

pub proof fn lemma_number_end_bounds(line: Seq<char>, j: int, seen_dot: bool)
    requires
        0 <= j <= line.len(),
    ensures
        j <= spec_number_end(line, j, seen_dot) <= line.len(),
    decreases line.len() - j,
{
    if j < line.len() {
        if spec_is_digit(line[j]) {
            lemma_number_end_bounds(line, j + 1, seen_dot);
        } else if line[j] == '.' && !seen_dot {
            lemma_number_end_bounds(line, j + 1, true);
        }
    }
}

/// The index just past an identifier being scanned at `j`.
pub open spec fn spec_ident_end(line: Seq<char>, j: int) -> int
    decreases line.len() - j,
{
    if j < 0 || j >= line.len() {
        j
    } else if spec_is_ident_char(line[j]) {
        spec_ident_end(line, j + 1)
    } else {
        j
    }
}

pub proof fn lemma_ident_end_bounds(line: Seq<char>, j: int)
    requires
        0 <= j <= line.len(),
    ensures
        j <= spec_ident_end(line, j) <= line.len(),
    decreases line.len() - j,
{
    if j < line.len() && spec_is_ident_char(line[j]) {
        lemma_ident_end_bounds(line, j + 1);
    }
}

/// The tokens scanned from position `i` to the end of one physical line
/// numbered `ln`. A `//` comment discards the remainder of the line.
pub open spec fn spec_tokenize_line_from(line: Seq<char>, i: int, ln: int) -> Seq<TokenV>
    decreases line.len() - i,
{
    if i < 0 || i >= line.len() {
        Seq::empty()
    } else {
        let c = line[i];
        if spec_punct_kind(c) is Some {
            seq![tok(spec_punct_kind(c).unwrap(), seq![c], ln)] + spec_tokenize_line_from(
                line,
                i + 1,
                ln,
            )
        } else if c == '=' || c == '!' || c == '<' || c == '>' {
            let two = i + 1 < line.len() && line[i + 1] == '=';
            let simple = if c == '=' {
                TokenTypeV::Equal
            } else if c == '!' {
                TokenTypeV::Bang
            } else if c == '<' {
                TokenTypeV::Less
            } else {
                TokenTypeV::Greater
            };
            let op = if c == '=' {
                crate::tokens::Operator::EqualEqual
            } else if c == '!' {
                crate::tokens::Operator::BangEqual
            } else if c == '<' {
                crate::tokens::Operator::LessEqual
            } else {
                crate::tokens::Operator::GreaterEqual
            };
            if two {
                seq![tok(TokenTypeV::Operator { op }, seq![c, '='], ln)] + spec_tokenize_line_from(
                    line,
                    i + 2,
                    ln,
                )
            } else {
                seq![tok(simple, seq![c], ln)] + spec_tokenize_line_from(line, i + 1, ln)
            }
        } else if c == '/' {
            if i + 1 < line.len() && line[i + 1] == '/' {
                Seq::empty()
            } else {
                seq![tok(TokenTypeV::Slash, seq![c], ln)] + spec_tokenize_line_from(line, i + 1, ln)
            }
        } else if c == ' ' || c == '\n' || c == '\t' {
            spec_tokenize_line_from(line, i + 1, ln)
        } else if c == '"' {
            let end = spec_string_end(line, i + 1);
            let fin = spec_string_finished(line, i + 1);
            let text = line.subrange(i, end);
            proof {
                lemma_string_end_bounds(line, i + 1);
            }
            seq![tok(TokenTypeV::String { string: text, finished: fin }, text, ln)]
                + spec_tokenize_line_from(line, end, ln)
        } else if spec_is_digit(c) {
            let end = spec_number_end(line, i + 1, false);
            let text = line.subrange(i, end);
            proof {
                lemma_number_end_bounds(line, i + 1, false);
            }
            let num = seq![tok(TokenTypeV::Number(text), text, ln)];
            let num_and_dot = if text.last() == '.' {
                num + seq![tok(TokenTypeV::Dot, seq!['.'], ln)]
            } else {
                num
            };
            num_and_dot + spec_tokenize_line_from(line, end, ln)
        } else if spec_is_ident_char(c) {
            let end = spec_ident_end(line, i + 1);
            let text = line.subrange(i, end);
            proof {
                lemma_ident_end_bounds(line, i + 1);
            }
            let kind = match spec_keyword_of(text) {
                Some(kw) => TokenTypeV::Keyword { kw, val: text },
                None => TokenTypeV::Identifier(text),
            };
            seq![tok(kind, text, ln)] + spec_tokenize_line_from(line, end, ln)
        } else {
            seq![tok(TokenTypeV::Unknown(seq![c]), Seq::empty(), ln)] + spec_tokenize_line_from(
                line,
                i + 1,
                ln,
            )
        }
    }
}

/// The tokens of one physical line numbered `ln`.
pub open spec fn spec_tokenize_line(line: Seq<char>, ln: int) -> Seq<TokenV> {
    spec_tokenize_line_from(line, 0, ln)
}

fn push_token(tokens: &mut Vec<Token>, token_type: TokenType, lexeme: String, line: usize)
    ensures
        token_views(final(tokens)@) == token_views(old(tokens)@).push(
            TokenV { token_type: token_type@, lexeme: lexeme@, line: line as int },
        ),
{
    let ghost t = TokenV { token_type: token_type@, lexeme: lexeme@, line: line as int };
    tokens.push(Token { token_type, lexeme, line });
    proof {
        assert(token_views(tokens@) =~= token_views(old(tokens)@).push(t));
    }
}

/// The single characters that map directly to a punctuation kind.
fn punct_token_type(c: char) -> (r: Option<TokenType>)
    ensures
        match r {
            Some(t) => spec_punct_kind(c) == Some(t@),
            None => spec_punct_kind(c) is None,
        },
{
    if c == '(' {
        Some(TokenType::LeftParen)
    } else if c == ')' {
        Some(TokenType::RightParen)
    } else if c == '{' {
        Some(TokenType::LeftBrace)
    } else if c == '}' {
        Some(TokenType::RightBrace)
    } else if c == '*' {
        Some(TokenType::Star)
    } else if c == '.' {
        Some(TokenType::Dot)
    } else if c == ',' {
        Some(TokenType::Comma)
    } else if c == '+' {
        Some(TokenType::Plus)
    } else if c == ';' {
        Some(TokenType::Semicolon)
    } else if c == '-' {
        Some(TokenType::Minus)
    } else {
        None
    }
}

/// Scans one physical line left to right with one character of lookahead,
/// producing its tokens in source order.
#[verifier::rlimit(100)]
pub fn tokenize_line(line: &str, line_number: usize) -> (tokens: Vec<Token>)
    ensures
        token_views(tokens@) == spec_tokenize_line(line@, line_number as int),
{
    let ghost ln = line_number as int;
    let len = line.unicode_len();
    let mut tokens: Vec<Token> = Vec::new();
    let mut i: usize = 0;
    proof {
        assert(token_views(tokens@) =~= Seq::<TokenV>::empty());
        assert(Seq::<TokenV>::empty() + spec_tokenize_line_from(line@, 0, ln)
            =~= spec_tokenize_line_from(line@, 0, ln));
    }
    while i < len
        invariant
            len == line@.len(),
            i <= len,
            ln == line_number as int,
            spec_tokenize_line(line@, ln) == token_views(tokens@) + spec_tokenize_line_from(
                line@,
                i as int,
                ln,
            ),
        decreases len - i,
    {
        let ghost prev = token_views(tokens@);
        let ghost iold = i as int;
        let c = line.get_char(i);
        if let Some(tt) = punct_token_type(c) {
            let ghost ttv = tt@;
            let lex = line.substring_char(i, i + 1).to_owned();
            push_token(&mut tokens, tt, lex, line_number);
            i = i + 1;
            proof {
                assert(line@.subrange(iold, iold + 1) =~= seq![c]);
                assert(spec_tokenize_line_from(line@, iold, ln) == seq![tok(ttv, seq![c], ln)]
                    + spec_tokenize_line_from(line@, i as int, ln));
                assert(token_views(tokens@) + spec_tokenize_line_from(line@, i as int, ln)
                    =~= prev + spec_tokenize_line_from(line@, iold, ln));
            }
        } else if c == '=' || c == '!' || c == '<' || c == '>' {
            let peek: Option<char> = if i + 1 < len {
                Some(line.get_char(i + 1))
            } else {
                None
            };
            let op_type = if c == '=' {
                TokenType::Operator { op: crate::tokens::Operator::EqualEqual }
            } else if c == '!' {
                TokenType::Operator { op: crate::tokens::Operator::BangEqual }
            } else if c == '<' {
                TokenType::Operator { op: crate::tokens::Operator::LessEqual }
            } else {
                TokenType::Operator { op: crate::tokens::Operator::GreaterEqual }
            };
            let simple_type = if c == '=' {
                TokenType::Equal
            } else if c == '!' {
                TokenType::Bang
            } else if c == '<' {
                TokenType::Less
            } else {
                TokenType::Greater
            };
            let ghost op_v = op_type@;
            let ghost simple_v = simple_type@;
            let tt = gen_operator(peek, op_type, simple_type, '=');
            let two = i + 1 < len && line.get_char(i + 1) == '=';
            if two {
                let lex = line.substring_char(i, i + 2).to_owned();
                push_token(&mut tokens, tt, lex, line_number);
                i = i + 2;
                proof {
                    assert(tt@ == op_v);
                    assert(line@.subrange(iold, iold + 2) =~= seq![c, '=']);
                    assert(spec_tokenize_line_from(line@, iold, ln) == seq![
                        tok(op_v, seq![c, '='], ln),
                    ] + spec_tokenize_line_from(line@, i as int, ln));
                    assert(token_views(tokens@) + spec_tokenize_line_from(line@, i as int, ln)
                        =~= prev + spec_tokenize_line_from(line@, iold, ln));
                }
            } else {
                let lex = line.substring_char(i, i + 1).to_owned();
                push_token(&mut tokens, tt, lex, line_number);
                i = i + 1;
                proof {
                    assert(tt@ == simple_v);
                    assert(line@.subrange(iold, iold + 1) =~= seq![c]);
                    assert(spec_tokenize_line_from(line@, iold, ln) == seq![
                        tok(simple_v, seq![c], ln),
                    ] + spec_tokenize_line_from(line@, i as int, ln));
                    assert(token_views(tokens@) + spec_tokenize_line_from(line@, i as int, ln)
                        =~= prev + spec_tokenize_line_from(line@, iold, ln));
                }
            }
        } else if c == '/' {
            if i + 1 < len && line.get_char(i + 1) == '/' {
                proof {
                    assert(spec_tokenize_line_from(line@, iold, ln) =~= Seq::<TokenV>::empty());
                    assert(prev + Seq::<TokenV>::empty() =~= prev);
                }
                return tokens;
            } else {
                let lex = line.substring_char(i, i + 1).to_owned();
                push_token(&mut tokens, TokenType::Slash, lex, line_number);
                i = i + 1;
                proof {
                    assert(line@.subrange(iold, iold + 1) =~= seq![c]);
                    assert(spec_tokenize_line_from(line@, iold, ln) == seq![
                        tok(TokenTypeV::Slash, seq![c], ln),
                    ] + spec_tokenize_line_from(line@, i as int, ln));
                    assert(token_views(tokens@) + spec_tokenize_line_from(line@, i as int, ln)
                        =~= prev + spec_tokenize_line_from(line@, iold, ln));
                }
            }
        } else if c == ' ' || c == '\n' || c == '\t' {
            i = i + 1;
        } else if c == '"' {
            let mut j = i + 1;
            while j < len && line.get_char(j) != '"'
                invariant
                    len == line@.len(),
                    iold + 1 <= j <= len,
                    spec_string_end(line@, iold + 1) == spec_string_end(line@, j as int),
                    spec_string_finished(line@, iold + 1) == spec_string_finished(line@, j as int),
                decreases len - j,
            {
                j = j + 1;
            }
            let fin = j < len;
            let end = if fin {
                j + 1
            } else {
                j
            };
            proof {
                lemma_string_end_bounds(line@, iold + 1);
                assert(end as int == spec_string_end(line@, iold + 1));
                assert(fin == spec_string_finished(line@, iold + 1));
            }
            let text = line.substring_char(i, end).to_owned();
            let lex = text.clone();
            push_token(
                &mut tokens,
                TokenType::String { string: text, finished: fin },
                lex,
                line_number,
            );
            i = end;
            proof {
                let stext = line@.subrange(iold, i as int);
                assert(spec_tokenize_line_from(line@, iold, ln) == seq![
                    tok(TokenTypeV::String { string: stext, finished: fin }, stext, ln),
                ] + spec_tokenize_line_from(line@, i as int, ln));
                assert(token_views(tokens@) + spec_tokenize_line_from(line@, i as int, ln)
                    =~= prev + spec_tokenize_line_from(line@, iold, ln));
            }
        } else if is_digit_c(c) {
            let mut j = i + 1;
            let mut seen_dot = false;
            while j < len && (is_digit_c(line.get_char(j)) || (line.get_char(j) == '.' && !seen_dot))
                invariant
                    len == line@.len(),
                    iold + 1 <= j <= len,
                    spec_number_end(line@, iold + 1, false) == spec_number_end(
                        line@,
                        j as int,
                        seen_dot,
                    ),
                decreases len - j,
            {
                if line.get_char(j) == '.' {
                    seen_dot = true;
                }
                j = j + 1;
            }
            proof {
                lemma_number_end_bounds(line@, iold + 1, false);
                assert(j as int == spec_number_end(line@, iold + 1, false));
            }
            let text = line.substring_char(i, j).to_owned();
            let lex = text.clone();
            let trailing_dot = line.get_char(j - 1) == '.';
            push_token(&mut tokens, TokenType::Number(text), lex, line_number);
            proof {
                let stext = line@.subrange(iold, j as int);
                assert(stext.last() == line@[j - 1]);
                assert(trailing_dot == (stext.last() == '.'));
            }
            if trailing_dot {
                let dot_lex = ".".to_owned();
                proof {
                    reveal_strlit(".");
                    assert(dot_lex@ =~= seq!['.']);
                }
                push_token(&mut tokens, TokenType::Dot, dot_lex, line_number);
            }
            i = j;
            proof {
                let stext = line@.subrange(iold, i as int);
                let num = seq![tok(TokenTypeV::Number(stext), stext, ln)];
                let toks = if stext.last() == '.' {
                    num + seq![tok(TokenTypeV::Dot, seq!['.'], ln)]
                } else {
                    num
                };
                assert(spec_tokenize_line_from(line@, iold, ln) == toks + spec_tokenize_line_from(
                    line@,
                    i as int,
                    ln,
                ));
                assert(token_views(tokens@) + spec_tokenize_line_from(line@, i as int, ln)
                    =~= prev + spec_tokenize_line_from(line@, iold, ln));
            }
        } else if is_ident_c(c) {
            let mut j = i + 1;
            while j < len && is_ident_c(line.get_char(j))
                invariant
                    len == line@.len(),
                    iold + 1 <= j <= len,
                    spec_ident_end(line@, iold + 1) == spec_ident_end(line@, j as int),
                decreases len - j,
            {
                j = j + 1;
            }
            proof {
                lemma_ident_end_bounds(line@, iold + 1);
                assert(j as int == spec_ident_end(line@, iold + 1));
            }
            let text = line.substring_char(i, j).to_owned();
            let tt = match lookup_keyword(text.as_str()) {
                Some(kw) => TokenType::Keyword { kw, val: text.clone() },
                None => TokenType::Identifier(text.clone()),
            };
            push_token(&mut tokens, tt, text, line_number);
            i = j;
            proof {
                let stext = line@.subrange(iold, i as int);
                let kind = match spec_keyword_of(stext) {
                    Some(kw) => TokenTypeV::Keyword { kw, val: stext },
                    None => TokenTypeV::Identifier(stext),
                };
                assert(spec_tokenize_line_from(line@, iold, ln) == seq![tok(kind, stext, ln)]
                    + spec_tokenize_line_from(line@, i as int, ln));
                assert(token_views(tokens@) + spec_tokenize_line_from(line@, i as int, ln)
                    =~= prev + spec_tokenize_line_from(line@, iold, ln));
            }
        } else {
            let unk = line.substring_char(i, i + 1).to_owned();
            push_token(&mut tokens, TokenType::Unknown(unk), String::new(), line_number);
            i = i + 1;
            proof {
                assert(line@.subrange(iold, iold + 1) =~= seq![c]);
                assert(spec_tokenize_line_from(line@, iold, ln) == seq![
                    tok(TokenTypeV::Unknown(seq![c]), Seq::empty(), ln),
                ] + spec_tokenize_line_from(line@, i as int, ln));
                assert(token_views(tokens@) + spec_tokenize_line_from(line@, i as int, ln)
                    =~= prev + spec_tokenize_line_from(line@, iold, ln));
            }
        }
    }
    proof {
        assert(spec_tokenize_line_from(line@, i as int, ln) =~= Seq::<TokenV>::empty());
        assert(token_views(tokens@) + Seq::<TokenV>::empty() =~= token_views(tokens@));
    }
    tokens
}

/// The index of the first line feed at or after `i`, or the text's end.
pub open spec fn spec_line_break(s: Seq<char>, i: int) -> int
    decreases s.len() - i,
{
    if i < 0 || i >= s.len() {
        s.len() as int
    } else if s[i] == '\n' {
        i
    } else {
        spec_line_break(s, i + 1)
    }
}

pub proof fn lemma_line_break_bounds(s: Seq<char>, i: int)
    requires
        0 <= i <= s.len(),
    ensures
        i <= spec_line_break(s, i) <= s.len(),
    decreases s.len() - i,
{
    if i < s.len() && s[i] != '\n' {
        lemma_line_break_bounds(s, i + 1);
    }
}

/// The physical line starting at `i`: the text up to the next line feed,
/// with a carriage return stripped when it stands directly before that line
/// feed.
pub open spec fn spec_line_at(s: Seq<char>, i: int) -> Seq<char> {
    let k = spec_line_break(s, i);
    let seg = s.subrange(i, k);
    if k < s.len() && seg.len() > 0 && seg.last() == '\r' {
        seg.drop_last()
    } else {
        seg
    }
}

/// The number of physical lines from position `i` on; a final line ending is
/// optional and opens no further line.
pub open spec fn spec_num_lines_from(s: Seq<char>, i: int) -> int
    decreases s.len() - i + 1,
{
    if i < 0 || i >= s.len() {
        0
    } else {
        proof {
            lemma_line_break_bounds(s, i);
        }
        1 + spec_num_lines_from(s, spec_line_break(s, i) + 1)
    }
}

/// The tokens of all physical lines from position `i` on, the first line
/// numbered `ln`.
pub open spec fn spec_scan_rest(s: Seq<char>, i: int, ln: int) -> Seq<TokenV>
    decreases s.len() - i + 1,
{
    if i < 0 || i >= s.len() {
        Seq::empty()
    } else {
        proof {
            lemma_line_break_bounds(s, i);
        }
        spec_tokenize_line(spec_line_at(s, i), ln) + spec_scan_rest(
            s,
            spec_line_break(s, i) + 1,
            ln + 1,
        )
    }
}

/// The full token sequence of a source text: every line's tokens in source
/// order, closed by an end-of-input token on the line after the last.
pub open spec fn spec_scan(s: Seq<char>) -> Seq<TokenV> {
    spec_scan_rest(s, 0, 1).push(
        tok(TokenTypeV::EOF, Seq::empty(), spec_num_lines_from(s, 0) + 1),
    )
}

/// Scans the whole source, line by line, and appends the end-of-input token.
pub fn scanner(source: String) -> (tokens: Vec<Token>)
    requires
        source@.len() < usize::MAX,
    ensures
        token_views(tokens@) == spec_scan(source@),
{
    let s = source.as_str();
    let len = s.unicode_len();
    let mut tokens: Vec<Token> = Vec::new();
    let mut start: usize = 0;
    let mut lines_count: usize = 0;
    proof {
        assert(token_views(tokens@) =~= Seq::<TokenV>::empty());
        assert(Seq::<TokenV>::empty() + spec_scan_rest(s@, 0, 1) =~= spec_scan_rest(s@, 0, 1));
    }
    while start < len
        invariant
            s@ == source@,
            len == s@.len() < usize::MAX,
            start <= len + 1,
            lines_count <= start,
            lines_count <= len,
            token_views(tokens@) + spec_scan_rest(s@, start as int, lines_count as int + 1)
                == spec_scan_rest(s@, 0, 1),
            lines_count + spec_num_lines_from(s@, start as int) == spec_num_lines_from(s@, 0),
        decreases len + 1 - start,
    {
        let ghost st = start as int;
        let ghost prev = token_views(tokens@);
        let mut k = start;
        while k < len && s.get_char(k) != '\n'
            invariant
                len == s@.len(),
                start <= k <= len,
                spec_line_break(s@, start as int) == spec_line_break(s@, k as int),
            decreases len - k,
        {
            k = k + 1;
        }
        proof {
            assert(k as int == spec_line_break(s@, st));
        }
        let content_end = if k < len && k > start && s.get_char(k - 1) == '\r' {
            k - 1
        } else {
            k
        };
        let line_str = s.substring_char(start, content_end);
        proof {
            let seg = s@.subrange(st, k as int);
            if k < len && k > start && s@[k - 1] == '\r' {
                assert(seg.last() == s@[k - 1]);
                assert(seg.drop_last() =~= s@.subrange(st, k - 1));
            }
            assert(line_str@ =~= spec_line_at(s@, st));
        }
        let mut lt = tokenize_line(line_str, lines_count + 1);
        let ghost ltv = token_views(lt@);
        tokens.append(&mut lt);
        proof {
            assert(token_views(tokens@) =~= prev + ltv);
        }
        start = k + 1;
        lines_count = lines_count + 1;
        proof {
            assert(token_views(tokens@) =~= prev + ltv);
            assert(spec_scan_rest(s@, st, lines_count as int) == spec_tokenize_line(
                spec_line_at(s@, st),
                lines_count as int,
            ) + spec_scan_rest(s@, start as int, lines_count as int + 1));
            assert(token_views(tokens@) + spec_scan_rest(s@, start as int, lines_count as int + 1)
                =~= prev + spec_scan_rest(s@, st, lines_count as int));
            assert(spec_num_lines_from(s@, st) == 1 + spec_num_lines_from(s@, start as int));
        }
    }
    proof {
        assert(spec_scan_rest(s@, start as int, lines_count as int + 1) =~= Seq::<TokenV>::empty());
        assert(token_views(tokens@) =~= spec_scan_rest(s@, 0, 1));
        assert(spec_num_lines_from(s@, start as int) == 0);
    }
    push_token(&mut tokens, TokenType::EOF, String::new(), lines_count + 1);
    proof {
        assert(token_views(tokens@) =~= spec_scan(source@));
    }
    tokens
}

/// Well-formedness of concatenated token sequences.
pub proof fn lemma_wf_concat(a: Seq<TokenV>, b: Seq<TokenV>)
    requires
        spec_tokens_wf(a),
        spec_tokens_wf(b),
    ensures
        spec_tokens_wf(a + b),
{
    assert forall|k: int| 0 <= k < (a + b).len() implies wf_token((a + b)[k]) by {
        if k < a.len() {
            assert((a + b)[k] == a[k]);
        } else {
            assert((a + b)[k] == b[k - a.len()]);
        }
    }
}

proof fn lemma_tokenize_line_from_wf(line: Seq<char>, i: int, ln: int)
    ensures
        spec_tokens_wf(spec_tokenize_line_from(line, i, ln)),
    decreases line.len() - i,
{
    if i < 0 || i >= line.len() {
    } else {
        let c = line[i];
        if spec_punct_kind(c) is Some {
            lemma_tokenize_line_from_wf(line, i + 1, ln);
            lemma_wf_concat(
                seq![tok(spec_punct_kind(c).unwrap(), seq![c], ln)],
                spec_tokenize_line_from(line, i + 1, ln),
            );
        } else if c == '=' || c == '!' || c == '<' || c == '>' {
            lemma_tokenize_line_from_wf(line, i + 1, ln);
            let two = i + 1 < line.len() && line[i + 1] == '=';
            if two {
                lemma_tokenize_line_from_wf(line, i + 2, ln);
                lemma_wf_concat(
                    spec_tokenize_line_from(line, i, ln).subrange(0, 1),
                    spec_tokenize_line_from(line, i + 2, ln),
                );
                assert(spec_tokens_wf(spec_tokenize_line_from(line, i, ln))) by {
                    let head = spec_tokenize_line_from(line, i, ln);
                    assert forall|k: int| 0 <= k < head.len() implies wf_token(head[k]) by {
                        if k == 0 {
                        } else {
                            assert(head[k] == spec_tokenize_line_from(line, i + 2, ln)[k - 1]);
                        }
                    }
                }
            } else {
                let head = spec_tokenize_line_from(line, i, ln);
                assert forall|k: int| 0 <= k < head.len() implies wf_token(head[k]) by {
                    if k == 0 {
                    } else {
                        assert(head[k] == spec_tokenize_line_from(line, i + 1, ln)[k - 1]);
                    }
                }
            }
        } else if c == '/' {
            if i + 1 < line.len() && line[i + 1] == '/' {
            } else {
                lemma_tokenize_line_from_wf(line, i + 1, ln);
                let head = spec_tokenize_line_from(line, i, ln);
                assert forall|k: int| 0 <= k < head.len() implies wf_token(head[k]) by {
                    if k == 0 {
                    } else {
                        assert(head[k] == spec_tokenize_line_from(line, i + 1, ln)[k - 1]);
                    }
                }
            }
        } else if c == ' ' || c == '\n' || c == '\t' {
            lemma_tokenize_line_from_wf(line, i + 1, ln);
        } else if c == '"' {
            let end = spec_string_end(line, i + 1);
            let fin = spec_string_finished(line, i + 1);
            lemma_string_end_bounds(line, i + 1);
            lemma_tokenize_line_from_wf(line, end, ln);
            let text = line.subrange(i, end);
            assert(fin ==> text.len() >= 2);
            let head = spec_tokenize_line_from(line, i, ln);
            assert forall|k: int| 0 <= k < head.len() implies wf_token(head[k]) by {
                if k == 0 {
                } else {
                    assert(head[k] == spec_tokenize_line_from(line, end, ln)[k - 1]);
                }
            }
        } else if spec_is_digit(c) {
            let end = spec_number_end(line, i + 1, false);
            lemma_number_end_bounds(line, i + 1, false);
            lemma_tokenize_line_from_wf(line, end, ln);
            let text = line.subrange(i, end);
            let num = seq![tok(TokenTypeV::Number(text), text, ln)];
            let num_and_dot = if text.last() == '.' {
                num + seq![tok(TokenTypeV::Dot, seq!['.'], ln)]
            } else {
                num
            };
            assert(spec_tokens_wf(num_and_dot)) by {
                assert forall|k: int| 0 <= k < num_and_dot.len() implies wf_token(
                    num_and_dot[k],
                ) by {}
            }
            lemma_wf_concat(num_and_dot, spec_tokenize_line_from(line, end, ln));
        } else if spec_is_ident_char(c) {
            let end = spec_ident_end(line, i + 1);
            lemma_ident_end_bounds(line, i + 1);
            lemma_tokenize_line_from_wf(line, end, ln);
            let head = spec_tokenize_line_from(line, i, ln);
            assert forall|k: int| 0 <= k < head.len() implies wf_token(head[k]) by {
                if k == 0 {
                } else {
                    assert(head[k] == spec_tokenize_line_from(line, end, ln)[k - 1]);
                }
            }
        } else {
            lemma_tokenize_line_from_wf(line, i + 1, ln);
            let head = spec_tokenize_line_from(line, i, ln);
            assert forall|k: int| 0 <= k < head.len() implies wf_token(head[k]) by {
                if k == 0 {
                } else {
                    assert(head[k] == spec_tokenize_line_from(line, i + 1, ln)[k - 1]);
                }
            }
        }
    }
}

proof fn lemma_scan_rest_wf(s: Seq<char>, i: int, ln: int)
    ensures
        spec_tokens_wf(spec_scan_rest(s, i, ln)),
    decreases s.len() - i + 1,
{
    if i < 0 || i >= s.len() {
    } else {
        lemma_line_break_bounds(s, i);
        lemma_tokenize_line_from_wf(spec_line_at(s, i), 0, ln);
        lemma_scan_rest_wf(s, spec_line_break(s, i) + 1, ln + 1);
        lemma_wf_concat(
            spec_tokenize_line(spec_line_at(s, i), ln),
            spec_scan_rest(s, spec_line_break(s, i) + 1, ln + 1),
        );
    }
}

/// Every token the lexer produces is well formed; in particular a finished
/// string token always spans its two delimiting quotes.
pub proof fn lemma_scan_wf(s: Seq<char>)
    ensures
        spec_tokens_wf(spec_scan(s)),
{
    lemma_scan_rest_wf(s, 0, 1);
    let rest = spec_scan_rest(s, 0, 1);
    let eof = tok(TokenTypeV::EOF, Seq::empty(), spec_num_lines_from(s, 0) + 1);
    assert forall|k: int| 0 <= k < spec_scan(s).len() implies wf_token(spec_scan(s)[k]) by {
        if k < rest.len() {
            assert(spec_scan(s)[k] == rest[k]);
        } else {
            assert(spec_scan(s)[k] == eof);
        }
    }
}


/// The diagnostic line reporting an unknown character.
pub open spec fn spec_unexpected_char_line(line: int, u: Seq<char>) -> Seq<char> {
    "[line "@ + spec_nat_string(line) + "] Error: Unexpected character: "@ + u
}

/// The diagnostic line reporting an unterminated string.
pub open spec fn spec_unterminated_line(line: int) -> Seq<char> {
    "[line "@ + spec_nat_string(line) + "] Error: Unterminated string."@
}

/// One printed token line: the kind's name, the lexeme, and the literal
/// value or `null`. A string prints its unquoted text; a number prints its
/// lexeme without trailing dots and its normalized decimal form.
pub open spec fn spec_token_line(t: TokenV) -> Seq<char> {
    match t.token_type {
        TokenTypeV::String { string, finished } => spec_kind_name(t.token_type) + " "@ + t.lexeme
            + " "@ + string.subrange(1, string.len() - 1),
        TokenTypeV::Number(_) => spec_kind_name(t.token_type) + " "@ + spec_strip_trailing_dots(
            t.lexeme,
        ) + " "@ + spec_format_number(t.lexeme),
        _ => spec_kind_name(t.token_type) + " "@ + t.lexeme + " null"@,
    }
}

/// The printed lines and the diagnostic lines of a token sequence: unknown
/// characters and unterminated strings go to the diagnostics, every other
/// token to the output, each in source order.
pub open spec fn spec_render_tokens(ts: Seq<TokenV>) -> (Seq<Seq<char>>, Seq<Seq<char>>)
    decreases ts.len(),
{
    if ts.len() == 0 {
        (Seq::empty(), Seq::empty())
    } else {
        let t = ts[0];
        let rest = spec_render_tokens(ts.skip(1));
        match t.token_type {
            TokenTypeV::Unknown(u) => (rest.0, seq![spec_unexpected_char_line(t.line, u)] + rest.1),
            TokenTypeV::String { string, finished } => if !finished {
                (rest.0, seq![spec_unterminated_line(t.line)] + rest.1)
            } else {
                (seq![spec_token_line(t)] + rest.0, rest.1)
            },
            _ => (seq![spec_token_line(t)] + rest.0, rest.1),
        }
    }
}

/// Renders the token sequence for the tokenize output: the printed lines and
/// the diagnostic lines, in source order. The run has failed lexically
/// exactly when the diagnostic lines are not empty.
pub fn render_tokens(tokens: &Vec<Token>) -> (r: (Vec<String>, Vec<String>))
    requires
        spec_tokens_wf(token_views(tokens@)),
    ensures
        string_views(r.0@) == spec_render_tokens(token_views(tokens@)).0,
        string_views(r.1@) == spec_render_tokens(token_views(tokens@)).1,
{
    let ghost tv = token_views(tokens@);
    let mut out: Vec<String> = Vec::new();
    let mut err: Vec<String> = Vec::new();
    let mut i: usize = 0;
    proof {
        assert(tv.skip(0) =~= tv);
        assert(string_views(out@) =~= Seq::<Seq<char>>::empty());
        assert(string_views(err@) =~= Seq::<Seq<char>>::empty());
        assert(Seq::<Seq<char>>::empty() + spec_render_tokens(tv).0 =~= spec_render_tokens(tv).0);
        assert(Seq::<Seq<char>>::empty() + spec_render_tokens(tv).1 =~= spec_render_tokens(tv).1);
    }
    while i < tokens.len()
        invariant
            i <= tokens@.len(),
            tv == token_views(tokens@),
            spec_tokens_wf(tv),
            spec_render_tokens(tv).0 == string_views(out@) + spec_render_tokens(
                tv.skip(i as int),
            ).0,
            spec_render_tokens(tv).1 == string_views(err@) + spec_render_tokens(
                tv.skip(i as int),
            ).1,
        decreases tokens@.len() - i,
    {
        let ghost prev_out = string_views(out@);
        let ghost prev_err = string_views(err@);
        let ghost rem = tv.skip(i as int);
        proof {
            assert(rem[0] == tv[i as int]);
            assert(tv[i as int] == tokens@[i as int]@);
            assert(wf_token(tv[i as int]));
            assert(rem.skip(1) =~= tv.skip(i as int + 1));
        }
        let t = &tokens[i];
        match &t.token_type {
            TokenType::Unknown(u) => {
                let mut l = "[line ".to_owned();
                l.append(nat_string(t.line).as_str());
                l.append("] Error: Unexpected character: ");
                l.append(u.as_str());
                err.push(l);
                proof {
                    assert(string_views(err@) =~= prev_err.push(
                        spec_unexpected_char_line(tv[i as int].line, u@),
                    ));
                    assert(string_views(err@) + spec_render_tokens(tv.skip(i as int + 1)).1
                        =~= prev_err + spec_render_tokens(rem).1);
                }
            },
            TokenType::String { string, finished } => {
                if !*finished {
                    let mut l = "[line ".to_owned();
                    l.append(nat_string(t.line).as_str());
                    l.append("] Error: Unterminated string.");
                    err.push(l);
                    proof {
                        assert(string_views(err@) =~= prev_err.push(
                            spec_unterminated_line(tv[i as int].line),
                        ));
                        assert(string_views(err@) + spec_render_tokens(tv.skip(i as int + 1)).1
                            =~= prev_err + spec_render_tokens(rem).1);
                    }
                } else {
                    let mut l = kind_name(&t.token_type).to_owned();
                    l.append(" ");
                    l.append(t.lexeme.as_str());
                    l.append(" ");
                    l.append(trim_string(string).as_str());
                    out.push(l);
                    proof {
                        assert(string_views(out@) =~= prev_out.push(spec_token_line(tv[i as int])));
                        assert(string_views(out@) + spec_render_tokens(tv.skip(i as int + 1)).0
                            =~= prev_out + spec_render_tokens(rem).0);
                    }
                }
            },
            TokenType::Number(_) => {
                let mut l = kind_name(&t.token_type).to_owned();
                l.append(" ");
                l.append(strip_trailing_dots(t.lexeme.as_str()).as_str());
                l.append(" ");
                l.append(format_number_as_string(&t.lexeme).as_str());
                out.push(l);
                proof {
                    assert(string_views(out@) =~= prev_out.push(spec_token_line(tv[i as int])));
                    assert(string_views(out@) + spec_render_tokens(tv.skip(i as int + 1)).0
                        =~= prev_out + spec_render_tokens(rem).0);
                }
            },
            _ => {
                let mut l = kind_name(&t.token_type).to_owned();
                l.append(" ");
                l.append(t.lexeme.as_str());
                l.append(" null");
                out.push(l);
                proof {
                    assert(string_views(out@) =~= prev_out.push(spec_token_line(tv[i as int])));
                    assert(string_views(out@) + spec_render_tokens(tv.skip(i as int + 1)).0
                        =~= prev_out + spec_render_tokens(rem).0);
                }
            },
        }
        i = i + 1;
    }
    proof {
        assert(tv.skip(i as int) =~= Seq::<TokenV>::empty());
        assert(string_views(out@) + Seq::<Seq<char>>::empty() =~= string_views(out@));
        assert(string_views(err@) + Seq::<Seq<char>>::empty() =~= string_views(err@));
    }
    (out, err)
}

/// The kind of a lone punctuation character: the direct single-character
/// kinds, and the bare forms of the four lookahead characters and the slash.
pub open spec fn spec_single_punct_kind(c: char) -> Option<TokenTypeV> {
    if spec_punct_kind(c) is Some {
        spec_punct_kind(c)
    } else if c == '=' {
        Some(TokenTypeV::Equal)
    } else if c == '!' {
        Some(TokenTypeV::Bang)
    } else if c == '<' {
        Some(TokenTypeV::Less)
    } else if c == '>' {
        Some(TokenTypeV::Greater)
    } else if c == '/' {
        Some(TokenTypeV::Slash)
    } else {
        None
    }
}

/// Scanning a source that is one single punctuation character yields exactly
/// the matching token on line 1 and the end-of-input token on line 2.
pub proof fn lemma_single_punctuation(c: char)
    requires
        spec_single_punct_kind(c) is Some,
    ensures
        spec_scan(seq![c]) =~= seq![
            tok(spec_single_punct_kind(c).unwrap(), seq![c], 1),
            tok(TokenTypeV::EOF, Seq::empty(), 2),
        ],
{
    let s = seq![c];
    assert(c != '\n');
    assert(spec_line_break(s, 1) == 1);
    assert(spec_line_break(s, 0) == 1);
    assert(spec_line_at(s, 0) =~= s);
    assert(spec_num_lines_from(s, 2) == 0);
    assert(spec_num_lines_from(s, 0) == 1);
    assert(spec_tokenize_line_from(s, 1, 1) =~= Seq::<TokenV>::empty());
    assert(spec_tokenize_line_from(s, 0, 1) =~= seq![
        tok(spec_single_punct_kind(c).unwrap(), seq![c], 1),
    ]);
    assert(spec_scan_rest(s, 2, 2) =~= Seq::<TokenV>::empty());
    assert(spec_scan_rest(s, 0, 1) =~= seq![tok(spec_single_punct_kind(c).unwrap(), seq![c], 1)]);
    assert(spec_scan(s) =~= spec_scan_rest(s, 0, 1).push(tok(TokenTypeV::EOF, Seq::empty(), 2)));
}


/// Every token of the sequence carries the line number `ln`.
pub open spec fn tokens_on_line(ts: Seq<TokenV>, ln: int) -> bool {
    forall|k: int| 0 <= k < ts.len() ==> (#[trigger] ts[k]).line == ln
}

proof fn lemma_on_line_concat(a: Seq<TokenV>, b: Seq<TokenV>, ln: int)
    requires
        tokens_on_line(a, ln),
        tokens_on_line(b, ln),
    ensures
        tokens_on_line(a + b, ln),
{
    assert forall|k: int| 0 <= k < (a + b).len() implies (a + b)[k].line == ln by {
        if k < a.len() {
            assert((a + b)[k] == a[k]);
        } else {
            assert((a + b)[k] == b[k - a.len()]);
        }
    }
}

/// Tokens never span lines: every token scanned from one physical line
/// carries that line's number.
pub proof fn lemma_tokens_never_span_lines(line: Seq<char>, i: int, ln: int)
    ensures
        tokens_on_line(spec_tokenize_line_from(line, i, ln), ln),
    decreases line.len() - i,
{
    if i < 0 || i >= line.len() {
    } else {
        let c = line[i];
        if spec_punct_kind(c) is Some {
            lemma_tokens_never_span_lines(line, i + 1, ln);
            lemma_on_line_concat(
                seq![tok(spec_punct_kind(c).unwrap(), seq![c], ln)],
                spec_tokenize_line_from(line, i + 1, ln),
                ln,
            );
        } else if c == '=' || c == '!' || c == '<' || c == '>' {
            let two = i + 1 < line.len() && line[i + 1] == '=';
            if two {
                lemma_tokens_never_span_lines(line, i + 2, ln);
                let head = spec_tokenize_line_from(line, i, ln);
                assert forall|k: int| 0 <= k < head.len() implies head[k].line == ln by {
                    if k == 0 {
                    } else {
                        assert(head[k] == spec_tokenize_line_from(line, i + 2, ln)[k - 1]);
                    }
                }
            } else {
                lemma_tokens_never_span_lines(line, i + 1, ln);
                let head = spec_tokenize_line_from(line, i, ln);
                assert forall|k: int| 0 <= k < head.len() implies head[k].line == ln by {
                    if k == 0 {
                    } else {
                        assert(head[k] == spec_tokenize_line_from(line, i + 1, ln)[k - 1]);
                    }
                }
            }
        } else if c == '/' {
            if i + 1 < line.len() && line[i + 1] == '/' {
            } else {
                lemma_tokens_never_span_lines(line, i + 1, ln);
                let head = spec_tokenize_line_from(line, i, ln);
                assert forall|k: int| 0 <= k < head.len() implies head[k].line == ln by {
                    if k == 0 {
                    } else {
                        assert(head[k] == spec_tokenize_line_from(line, i + 1, ln)[k - 1]);
                    }
                }
            }
        } else if c == ' ' || c == '\n' || c == '\t' {
            lemma_tokens_never_span_lines(line, i + 1, ln);
        } else if c == '"' {
            let end = spec_string_end(line, i + 1);
            lemma_string_end_bounds(line, i + 1);
            lemma_tokens_never_span_lines(line, end, ln);
            let head = spec_tokenize_line_from(line, i, ln);
            assert forall|k: int| 0 <= k < head.len() implies head[k].line == ln by {
                if k == 0 {
                } else {
                    assert(head[k] == spec_tokenize_line_from(line, end, ln)[k - 1]);
                }
            }
        } else if spec_is_digit(c) {
            let end = spec_number_end(line, i + 1, false);
            lemma_number_end_bounds(line, i + 1, false);
            lemma_tokens_never_span_lines(line, end, ln);
            let text = line.subrange(i, end);
            let num = seq![tok(TokenTypeV::Number(text), text, ln)];
            let num_and_dot = if text.last() == '.' {
                num + seq![tok(TokenTypeV::Dot, seq!['.'], ln)]
            } else {
                num
            };
            assert(tokens_on_line(num_and_dot, ln)) by {
                assert forall|k: int| 0 <= k < num_and_dot.len() implies num_and_dot[k].line
                    == ln by {}
            }
            lemma_on_line_concat(num_and_dot, spec_tokenize_line_from(line, end, ln), ln);
        } else if spec_is_ident_char(c) {
            let end = spec_ident_end(line, i + 1);
            lemma_ident_end_bounds(line, i + 1);
            lemma_tokens_never_span_lines(line, end, ln);
            let head = spec_tokenize_line_from(line, i, ln);
            assert forall|k: int| 0 <= k < head.len() implies head[k].line == ln by {
                if k == 0 {
                } else {
                    assert(head[k] == spec_tokenize_line_from(line, end, ln)[k - 1]);
                }
            }
        } else {
            lemma_tokens_never_span_lines(line, i + 1, ln);
            let head = spec_tokenize_line_from(line, i, ln);
            assert forall|k: int| 0 <= k < head.len() implies head[k].line == ln by {
                if k == 0 {
                } else {
                    assert(head[k] == spec_tokenize_line_from(line, i + 1, ln)[k - 1]);
                }
            }
        }
    }
}

} // verus!
