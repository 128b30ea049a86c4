//! The recursive-descent parser: a token sequence to one expression-tree
//! slot per top-level parse attempt. A single cursor advances over a shared
//! token slice; the grammar has one flat, left-associative binary level:
//!
//! ```text
//! unary   := ('-' | '!') unary | primary
//! binary  := unary ( op unary )*
//! primary := Bool | Nil | Number | String | '(' expression-list ')'
//! ```
//!
//! Structural failures are fatal at first occurrence: the whole parse
//! returns the first error.
use crate::errors::ErrorKind;
use crate::exprs::{expr_view, expr_views, opt_expr_views, Expr, ExprV};
use crate::numbers::{number_bits, number_of_literal};
use crate::tokens::{spec_tokens_wf, token_views, wf_token, Keyword, Token, TokenType, TokenTypeV, TokenV};
use crate::utils::trim_string;
use vstd::prelude::*;

verus! {

/// The kinds that may stand between two operands of a binary expression.
pub open spec fn spec_is_binary_op(t: TokenTypeV) -> bool {
    t is Slash || t is Star || t is Plus || t is Minus || t is Greater || t is Less
        || t is Operator
}

/// The cursor after a sub-parse, clamped into `(pos, len]` so that every
/// recursion visibly advances; on every reachable path the sub-parse has
/// already advanced and the clamp changes nothing.
pub open spec fn clamp_next(p: int, pos: int, len: int) -> int {
    let lo = if p < pos + 1 {
        pos + 1
    } else {
        p
    };
    if lo > len {
        len
    } else {
        lo
    }
}

/// primary := Bool | Nil | Number | String | '(' expression-list ')'
/// The end of the stream or the end-of-input token yields an empty slot; any
/// other leading token is a fatal unexpected-token failure.
pub open spec fn spec_parse_primary(toks: Seq<TokenV>, pos: int) -> Result<
    (Option<ExprV>, int),
    ErrorKind,
>
    decreases toks.len() - pos, 0int,
{
    if pos < 0 || pos >= toks.len() {
        Ok((None, pos))
    } else {
        let t = toks[pos];
        match t.token_type {
            TokenTypeV::Keyword { kw: Keyword::True, .. } => Ok((Some(ExprV::Bool(true)), pos + 1)),
            TokenTypeV::Keyword { kw: Keyword::False, .. } => Ok(
                (Some(ExprV::Bool(false)), pos + 1),
            ),
            TokenTypeV::Keyword { kw: Keyword::Nil, .. } => Ok((Some(ExprV::Nil), pos + 1)),
            TokenTypeV::Number(val) => Ok((Some(ExprV::Number(number_of_literal(val))), pos + 1)),
            TokenTypeV::String { string, finished } => if finished {
                Ok((Some(ExprV::String(string.subrange(1, string.len() - 1))), pos + 1))
            } else {
                Err(ErrorKind::UnexpectedToken)
            },
            TokenTypeV::LeftParen => match spec_parse_group_items(toks, pos + 1) {
                Err(k) => Err(k),
                Ok((items, p2)) => if items.len() == 0 {
                    Err(ErrorKind::EmptyGroup)
                } else if items.len() == 1 {
                    Ok((Some(ExprV::Grouping(Box::new(items[0]))), p2))
                } else {
                    Err(ErrorKind::UnexpectedToken)
                },
            },
            TokenTypeV::EOF => Ok((None, pos + 1)),
            _ => Err(ErrorKind::UnexpectedToken),
        }
    }
}

/// unary := ('-' | '!') unary | primary
/// Exhausting the stream while still expecting the operand of a unary
/// operator is fatal.
pub open spec fn spec_parse_unary(toks: Seq<TokenV>, pos: int) -> Result<
    (Option<ExprV>, int),
    ErrorKind,
>
    decreases toks.len() - pos, 1int,
{
    if pos < 0 || pos >= toks.len() {
        Ok((None, pos))
    } else if toks[pos].token_type is Minus || toks[pos].token_type is Bang {
        let op = toks[pos];
        match spec_parse_unary(toks, pos + 1) {
            Err(k) => Err(k),
            Ok((None, _)) => Err(ErrorKind::UnexpectedToken),
            Ok((Some(r), p2)) => Ok((Some(ExprV::Unary { operator: op, right: Box::new(r) }), p2)),
        }
    } else {
        spec_parse_primary(toks, pos)
    }
}

/// The left-associative binary loop: as long as a binary operator follows,
/// the operand parsed after it is folded into the left-hand side. A missing
/// right operand at the stream's end dissolves the whole slot, as the
/// single-pass consumption of the reference grammar does.
pub open spec fn spec_parse_binary_more(toks: Seq<TokenV>, pos: int, left: ExprV) -> Result<
    (Option<ExprV>, int),
    ErrorKind,
>
    decreases toks.len() - pos, 2int,
{
    if pos < 0 || pos >= toks.len() || !spec_is_binary_op(toks[pos].token_type) {
        Ok((Some(left), pos))
    } else {
        let op = toks[pos];
        match spec_parse_unary(toks, pos + 1) {
            Err(k) => Err(k),
            Ok((None, p2)) => Ok((None, p2)),
            Ok((Some(r), p2)) => spec_parse_binary_more(
                toks,
                clamp_next(p2, pos, toks.len() as int),
                ExprV::Binary { operator: op, left: Box::new(left), right: Box::new(r) },
            ),
        }
    }
}

/// binary := unary ( op unary )*
pub open spec fn spec_parse_binary(toks: Seq<TokenV>, pos: int) -> Result<
    (Option<ExprV>, int),
    ErrorKind,
>
    decreases toks.len() - pos, 3int,
{
    if pos < 0 || pos >= toks.len() {
        Ok((None, pos))
    } else {
        match spec_parse_unary(toks, pos) {
            Err(k) => Err(k),
            Ok((None, p1)) => Ok((None, p1)),
            Ok((Some(l), p1)) => spec_parse_binary_more(
                toks,
                clamp_next(p1, pos, toks.len() as int),
                l,
            ),
        }
    }
}

/// One expression: the single flat binary precedence level.
pub open spec fn spec_parse_expression(toks: Seq<TokenV>, pos: int) -> Result<
    (Option<ExprV>, int),
    ErrorKind,
>
    decreases toks.len() - pos, 4int,
{
    spec_parse_binary(toks, pos)
}

/// The expressions enclosed between a consumed `(` and its matching `)`.
/// Running out of tokens, or meeting the end-of-input token, before the
/// matching `)` is a fatal unmatched-parentheses failure.
pub open spec fn spec_parse_group_items(toks: Seq<TokenV>, pos: int) -> Result<
    (Seq<ExprV>, int),
    ErrorKind,
>
    decreases toks.len() - pos, 5int,
{
    if pos < 0 || pos >= toks.len() {
        Err(ErrorKind::UnmatchedParens)
    } else if toks[pos].token_type is RightParen {
        Ok((Seq::empty(), pos + 1))
    } else if toks[pos].token_type is EOF {
        Err(ErrorKind::UnmatchedParens)
    } else {
        match spec_parse_expression(toks, pos) {
            Err(k) => Err(k),
            Ok((opt, p2)) => match spec_parse_group_items(
                toks,
                clamp_next(p2, pos, toks.len() as int),
            ) {
                Err(k) => Err(k),
                Ok((rest, p3)) => {
                    let first: Seq<ExprV> = match opt {
                        Some(e) => seq![e],
                        None => Seq::empty(),
                    };
                    Ok((first + rest, p3))
                },
            },
        }
    }
}

/// One expression-tree slot per top-level parse attempt, until the tokens
/// are exhausted; the first structural failure aborts the whole parse.
pub open spec fn spec_parse_program(toks: Seq<TokenV>, pos: int) -> Result<
    Seq<Option<ExprV>>,
    ErrorKind,
>
    decreases toks.len() - pos + 1,
{
    if pos < 0 || pos >= toks.len() {
        Ok(Seq::empty())
    } else {
        match spec_parse_expression(toks, pos) {
            Err(k) => Err(k),
            Ok((opt, p2)) => match spec_parse_program(toks, clamp_next(p2, pos, toks.len() as int)) {
                Err(k) => Err(k),
                Ok(rest) => Ok(seq![opt] + rest),
            },
        }
    }
}

pub proof fn lemma_primary_consumes(toks: Seq<TokenV>, pos: int)
    requires
        0 <= pos <= toks.len(),
    ensures
        match spec_parse_primary(toks, pos) {
            Ok((o, p)) => pos <= p <= toks.len() && (pos < toks.len() ==> pos + 1 <= p),
            Err(_) => true,
        },
    decreases toks.len() - pos, 0int,
{
    if pos < toks.len() {
        if toks[pos].token_type is LeftParen {
            lemma_group_items_consumes(toks, pos + 1);
        }
    }
}

pub proof fn lemma_unary_consumes(toks: Seq<TokenV>, pos: int)
    requires
        0 <= pos <= toks.len(),
    ensures
        match spec_parse_unary(toks, pos) {
            Ok((o, p)) => pos <= p <= toks.len() && (pos < toks.len() ==> pos + 1 <= p),
            Err(_) => true,
        },
    decreases toks.len() - pos, 1int,
{
    if pos < toks.len() {
        if toks[pos].token_type is Minus || toks[pos].token_type is Bang {
            lemma_unary_consumes(toks, pos + 1);
        } else {
            lemma_primary_consumes(toks, pos);
        }
    }
}

pub proof fn lemma_binary_more_consumes(toks: Seq<TokenV>, pos: int, left: ExprV)
    requires
        0 <= pos <= toks.len(),
    ensures
        match spec_parse_binary_more(toks, pos, left) {
            Ok((o, p)) => pos <= p <= toks.len(),
            Err(_) => true,
        },
    decreases toks.len() - pos, 2int,
{
    if pos < toks.len() && spec_is_binary_op(toks[pos].token_type) {
        lemma_unary_consumes(toks, pos + 1);
        match spec_parse_unary(toks, pos + 1) {
            Ok((Some(r), p2)) => {
                let op = toks[pos];
                lemma_binary_more_consumes(
                    toks,
                    clamp_next(p2, pos, toks.len() as int),
                    ExprV::Binary { operator: op, left: Box::new(left), right: Box::new(r) },
                );
            },
            _ => {},
        }
    }
}

pub proof fn lemma_binary_consumes(toks: Seq<TokenV>, pos: int)
    requires
        0 <= pos <= toks.len(),
    ensures
        match spec_parse_binary(toks, pos) {
            Ok((o, p)) => pos <= p <= toks.len() && (pos < toks.len() ==> pos + 1 <= p),
            Err(_) => true,
        },
    decreases toks.len() - pos, 3int,
{
    lemma_unary_consumes(toks, pos);
    match spec_parse_unary(toks, pos) {
        Ok((Some(l), p1)) => {
            lemma_binary_more_consumes(toks, clamp_next(p1, pos, toks.len() as int), l);
        },
        _ => {},
    }
}

pub proof fn lemma_expression_consumes(toks: Seq<TokenV>, pos: int)
    requires
        0 <= pos <= toks.len(),
    ensures
        match spec_parse_expression(toks, pos) {
            Ok((o, p)) => pos <= p <= toks.len() && (pos < toks.len() ==> pos + 1 <= p),
            Err(_) => true,
        },
    decreases toks.len() - pos, 4int,
{
    lemma_binary_consumes(toks, pos);
}

pub proof fn lemma_group_items_consumes(toks: Seq<TokenV>, pos: int)
    requires
        0 <= pos <= toks.len(),
    ensures
        match spec_parse_group_items(toks, pos) {
            Ok((items, p)) => pos + 1 <= p <= toks.len(),
            Err(_) => true,
        },
    decreases toks.len() - pos, 5int,
{
    if pos < toks.len() && !(toks[pos].token_type is RightParen) && !(toks[pos].token_type
        is EOF) {
        lemma_expression_consumes(toks, pos);
        match spec_parse_expression(toks, pos) {
            Ok((opt, p2)) => {
                lemma_group_items_consumes(toks, clamp_next(p2, pos, toks.len() as int));
            },
            _ => {},
        }
    }
}

/// The ghost mirror of an executable sub-parse result.
pub open spec fn parse_result_view(r: Result<(Option<Expr>, usize), ErrorKind>) -> Result<
    (Option<ExprV>, int),
    ErrorKind,
> {
    match r {
        Ok((Some(e), p)) => Ok((Some(expr_view(e)), p as int)),
        Ok((None, p)) => Ok((None, p as int)),
        Err(k) => Err(k),
    }
}

fn is_binary_op(t: &TokenType) -> (r: bool)
    ensures
        r == spec_is_binary_op(t@),
{
    matches!(
        t,
        TokenType::Slash
        | TokenType::Star
        | TokenType::Plus
        | TokenType::Minus
        | TokenType::Greater
        | TokenType::Less
        | TokenType::Operator { .. }
    )
}

fn parse_primary(toks: &Vec<Token>, pos: usize) -> (r: Result<(Option<Expr>, usize), ErrorKind>)
    requires
        spec_tokens_wf(token_views(toks@)),
        pos <= toks@.len(),
    ensures
        parse_result_view(r) == spec_parse_primary(token_views(toks@), pos as int),
    decreases toks@.len() - pos, 0int,
{
    let ghost tv = token_views(toks@);
    if pos >= toks.len() {
        return Ok((None, pos));
    }
    let t = &toks[pos];
    proof {
        assert(tv[pos as int] == toks@[pos as int]@);
        assert(wf_token(tv[pos as int]));
    }
    match &t.token_type {
        TokenType::Keyword { kw: Keyword::True, .. } => Ok((Some(Expr::Bool(true)), pos + 1)),
        TokenType::Keyword { kw: Keyword::False, .. } => Ok((Some(Expr::Bool(false)), pos + 1)),
        TokenType::Keyword { kw: Keyword::Nil, .. } => Ok((Some(Expr::Nil), pos + 1)),
        TokenType::Number(val) => {
            let bits = number_bits(val.as_str());
            Ok((Some(Expr::Number(bits)), pos + 1))
        },
        TokenType::String { string, finished } => {
            if *finished {
                let text = trim_string(string);
                Ok((Some(Expr::String(text)), pos + 1))
            } else {
                Err(ErrorKind::UnexpectedToken)
            }
        },
        TokenType::LeftParen => {
            match parse_group_items(toks, pos + 1) {
                Err(k) => Err(k),
                Ok((mut items, p2)) => {
                    if items.len() == 0 {
                        Err(ErrorKind::EmptyGroup)
                    } else if items.len() == 1 {
                        let ghost itemsv = expr_views(items@);
                        if let Some(inner) = items.pop() {
                            proof {
                                assert(itemsv[0] == expr_view(inner));
                            }
                            Ok((Some(Expr::Grouping(Box::new(inner))), p2))
                        } else {
                            proof {
                                assert(false);
                            }
                            Err(ErrorKind::EmptyGroup)
                        }
                    } else {
                        Err(ErrorKind::UnexpectedToken)
                    }
                },
            }
        },
        TokenType::EOF => Ok((None, pos + 1)),
        _ => Err(ErrorKind::UnexpectedToken),
    }
}

fn parse_unary(toks: &Vec<Token>, pos: usize) -> (r: Result<(Option<Expr>, usize), ErrorKind>)
    requires
        spec_tokens_wf(token_views(toks@)),
        pos <= toks@.len(),
    ensures
        parse_result_view(r) == spec_parse_unary(token_views(toks@), pos as int),
    decreases toks@.len() - pos, 1int,
{
    let ghost tv = token_views(toks@);
    if pos >= toks.len() {
        return Ok((None, pos));
    }
    proof {
        assert(tv[pos as int] == toks@[pos as int]@);
    }
    let is_unary = matches!(&toks[pos].token_type, TokenType::Minus | TokenType::Bang);
    if is_unary {
        let op_tok = toks[pos].clone();
        match parse_unary(toks, pos + 1) {
            Err(k) => Err(k),
            Ok((None, _p)) => Err(ErrorKind::UnexpectedToken),
            Ok((Some(r0), p2)) => Ok(
                (Some(Expr::Unary { operator: op_tok, right: Box::new(r0) }), p2),
            ),
        }
    } else {
        parse_primary(toks, pos)
    }
}

fn parse_binary_more(toks: &Vec<Token>, pos: usize, left: Expr) -> (r: Result<
    (Option<Expr>, usize),
    ErrorKind,
>)
    requires
        spec_tokens_wf(token_views(toks@)),
        pos <= toks@.len(),
    ensures
        parse_result_view(r) == spec_parse_binary_more(
            token_views(toks@),
            pos as int,
            expr_view(left),
        ),
    decreases toks@.len() - pos, 2int,
{
    let ghost tv = token_views(toks@);
    if pos >= toks.len() {
        return Ok((Some(left), pos));
    }
    proof {
        assert(tv[pos as int] == toks@[pos as int]@);
    }
    if !is_binary_op(&toks[pos].token_type) {
        return Ok((Some(left), pos));
    }
    let op_tok = toks[pos].clone();
    match parse_unary(toks, pos + 1) {
        Err(k) => Err(k),
        Ok((None, p2)) => Ok((None, p2)),
        Ok((Some(rexp), p2)) => {
            proof {
                lemma_unary_consumes(tv, pos as int + 1);
                assert(clamp_next(p2 as int, pos as int, tv.len() as int) == p2 as int);
            }
            let new_left = Expr::Binary {
                operator: op_tok,
                left: Box::new(left),
                right: Box::new(rexp),
            };
            parse_binary_more(toks, p2, new_left)
        },
    }
}

fn parse_binary(toks: &Vec<Token>, pos: usize) -> (r: Result<(Option<Expr>, usize), ErrorKind>)
    requires
        spec_tokens_wf(token_views(toks@)),
        pos <= toks@.len(),
    ensures
        parse_result_view(r) == spec_parse_binary(token_views(toks@), pos as int),
    decreases toks@.len() - pos, 3int,
{
    let ghost tv = token_views(toks@);
    match parse_unary(toks, pos) {
        Err(k) => Err(k),
        Ok((None, p1)) => Ok((None, p1)),
        Ok((Some(l), p1)) => {
            proof {
                lemma_unary_consumes(tv, pos as int);
                assert(clamp_next(p1 as int, pos as int, tv.len() as int) == p1 as int);
            }
            parse_binary_more(toks, p1, l)
        },
    }
}

fn parse_expression(toks: &Vec<Token>, pos: usize) -> (r: Result<(Option<Expr>, usize), ErrorKind>)
    requires
        spec_tokens_wf(token_views(toks@)),
        pos <= toks@.len(),
    ensures
        parse_result_view(r) == spec_parse_expression(token_views(toks@), pos as int),
    decreases toks@.len() - pos, 4int,
{
    parse_binary(toks, pos)
}

fn parse_group_items(toks: &Vec<Token>, pos: usize) -> (r: Result<(Vec<Expr>, usize), ErrorKind>)
    requires
        spec_tokens_wf(token_views(toks@)),
        pos <= toks@.len(),
    ensures
        match r {
            Ok((items, p)) => spec_parse_group_items(token_views(toks@), pos as int) == Ok::<
                _,
                ErrorKind,
            >((expr_views(items@), p as int)),
            Err(k) => spec_parse_group_items(token_views(toks@), pos as int) == Err::<
                (Seq<ExprV>, int),
                _,
            >(k),
        },
    decreases toks@.len() - pos, 5int,
{
    let ghost tv = token_views(toks@);
    if pos >= toks.len() {
        return Err(ErrorKind::UnmatchedParens);
    }
    proof {
        assert(tv[pos as int] == toks@[pos as int]@);
    }
    if matches!(&toks[pos].token_type, TokenType::RightParen) {
        let out: Vec<Expr> = Vec::new();
        proof {
            assert(expr_views(out@) =~= Seq::<ExprV>::empty());
        }
        return Ok((out, pos + 1));
    }
    if matches!(&toks[pos].token_type, TokenType::EOF) {
        return Err(ErrorKind::UnmatchedParens);
    }
    match parse_expression(toks, pos) {
        Err(k) => Err(k),
        Ok((opt, p2)) => {
            proof {
                lemma_expression_consumes(tv, pos as int);
                assert(clamp_next(p2 as int, pos as int, tv.len() as int) == p2 as int);
            }
            match parse_group_items(toks, p2) {
                Err(k) => Err(k),
                Ok((rest, p3)) => {
                    let ghost restv = expr_views(rest@);
                    let mut out: Vec<Expr> = Vec::new();
                    let ghost firstv: Seq<ExprV> = match &opt {
                        Some(e) => seq![expr_view(*e)],
                        None => Seq::empty(),
                    };
                    if let Some(e) = opt {
                        out.push(e);
                    }
                    proof {
                        assert(expr_views(out@) =~= firstv);
                    }
                    let mut rest2 = rest;
                    out.append(&mut rest2);
                    proof {
                        assert(expr_views(out@) =~= firstv + restv);
                    }
                    Ok((out, p3))
                },
            }
        },
    }
}

fn parse_program(toks: &Vec<Token>, pos: usize) -> (r: Result<Vec<Option<Expr>>, ErrorKind>)
    requires
        spec_tokens_wf(token_views(toks@)),
        pos <= toks@.len(),
    ensures
        match r {
            Ok(es) => spec_parse_program(token_views(toks@), pos as int) == Ok::<_, ErrorKind>(
                opt_expr_views(es@),
            ),
            Err(k) => spec_parse_program(token_views(toks@), pos as int) == Err::<
                Seq<Option<ExprV>>,
                _,
            >(k),
        },
    decreases toks@.len() - pos + 1,
{
    let ghost tv = token_views(toks@);
    if pos >= toks.len() {
        let out: Vec<Option<Expr>> = Vec::new();
        proof {
            assert(opt_expr_views(out@) =~= Seq::<Option<ExprV>>::empty());
        }
        return Ok(out);
    }
    match parse_expression(toks, pos) {
        Err(k) => Err(k),
        Ok((opt, p2)) => {
            proof {
                lemma_expression_consumes(tv, pos as int);
                assert(clamp_next(p2 as int, pos as int, tv.len() as int) == p2 as int);
            }
            match parse_program(toks, p2) {
                Err(k) => Err(k),
                Ok(rest) => {
                    let ghost optv: Option<ExprV> = match &opt {
                        Some(e) => Some(expr_view(*e)),
                        None => None,
                    };
                    let ghost restv = opt_expr_views(rest@);
                    let mut out: Vec<Option<Expr>> = Vec::new();
                    out.push(opt);
                    let mut rest2 = rest;
                    out.append(&mut rest2);
                    proof {
                        assert(opt_expr_views(out@) =~= seq![optv] + restv);
                    }
                    Ok(out)
                },
            }
        },
    }
}

/// Parses the whole token sequence: one expression slot per top-level parse
/// attempt (a blank or end-of-input-only step yields an empty slot), or the
/// first structural failure.
pub fn parse_tokens(tokens: &Vec<Token>) -> (r: Result<Vec<Option<Expr>>, ErrorKind>)
    requires
        spec_tokens_wf(token_views(tokens@)),
    ensures
        match r {
            Ok(es) => spec_parse_program(token_views(tokens@), 0) == Ok::<_, ErrorKind>(
                opt_expr_views(es@),
            ),
            Err(k) => spec_parse_program(token_views(tokens@), 0) == Err::<
                Seq<Option<ExprV>>,
                _,
            >(k),
        },
{
    parse_program(tokens, 0)
}

} // verus!
