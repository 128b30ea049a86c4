//! Expression trees: owned strictly top-down, no sharing, no cycles. The
//! parser produces them; the evaluator and the printers consume them. Number
//! literals carry the bit pattern of their double-precision value.
use crate::numbers::{debug_bits, debug_of};
use crate::tokens::{Token, TokenV};
use vstd::prelude::*;

verus! {

/// An expression tree node.
#[derive(Debug)]
pub enum Expr {
    Bool(bool),
    Nil,
    Number(u64),
    String(String),
    Unary { operator: Token, right: Box<Expr> },
    Binary { operator: Token, left: Box<Expr>, right: Box<Expr> },
    Grouping(Box<Expr>),
}

/// Ghost mirror of `Expr`.
pub ghost enum ExprV {
    Bool(bool),
    Nil,
    Number(u64),
    String(Seq<char>),
    Unary { operator: TokenV, right: Box<ExprV> },
    Binary { operator: TokenV, left: Box<ExprV>, right: Box<ExprV> },
    Grouping(Box<ExprV>),
}

/// The ghost mirror of an expression tree.
pub open spec fn expr_view(e: Expr) -> ExprV
    decreases e,
{
    match e {
        Expr::Bool(b) => ExprV::Bool(b),
        Expr::Nil => ExprV::Nil,
        Expr::Number(n) => ExprV::Number(n),
        Expr::String(s) => ExprV::String(s@),
        Expr::Unary { operator, right } => ExprV::Unary {
            operator: operator@,
            right: Box::new(expr_view(*right)),
        },
        Expr::Binary { operator, left, right } => ExprV::Binary {
            operator: operator@,
            left: Box::new(expr_view(*left)),
            right: Box::new(expr_view(*right)),
        },
        Expr::Grouping(inner) => ExprV::Grouping(Box::new(expr_view(*inner))),
    }
}

impl View for Expr {
    type V = ExprV;

    open spec fn view(&self) -> ExprV {
        expr_view(*self)
    }
}

/// The ghost mirrors of a sequence of expressions.
pub open spec fn expr_views(es: Seq<Expr>) -> Seq<ExprV> {
    Seq::new(es.len(), |i: int| expr_view(es[i]))
}

/// The ghost mirrors of a sequence of optional expression slots.
pub open spec fn opt_expr_views(es: Seq<Option<Expr>>) -> Seq<Option<ExprV>> {
    Seq::new(
        es.len(),
        |i: int|
            match es[i] {
                Some(e) => Some(expr_view(e)),
                None => None,
            },
    )
}

/// The fully parenthesized prefix form of an expression, as the parse output
/// prints it.
pub open spec fn spec_expr_string(e: ExprV) -> Seq<char>
    decreases e,
{
    match e {
        ExprV::Bool(b) => if b {
            "true"@
        } else {
            "false"@
        },
        ExprV::Nil => "nil"@,
        ExprV::Number(n) => debug_of(n),
        ExprV::String(s) => s,
        ExprV::Unary { operator, right } => seq!['('] + operator.lexeme + seq![' ']
            + spec_expr_string(*right) + seq![')'],
        ExprV::Binary { operator, left, right } => seq!['('] + operator.lexeme + seq![' ']
            + spec_expr_string(*left) + seq![' '] + spec_expr_string(*right) + seq![')'],
        ExprV::Grouping(inner) => "(group "@ + spec_expr_string(*inner) + seq![')'],
    }
}

/// The executable counterpart of `spec_expr_string`.
pub fn expr_to_string(e: &Expr) -> (r: String)
    ensures
        r@ == spec_expr_string(e@),
    decreases *e,
{
    match e {
        Expr::Bool(b) => {
            if *b {
                "true".to_owned()
            } else {
                "false".to_owned()
            }
        },
        Expr::Nil => "nil".to_owned(),
        Expr::Number(n) => debug_bits(*n),
        Expr::String(s) => s.clone(),
        Expr::Unary { operator, right } => {
            let mut r = "(".to_owned();
            r.append(operator.lexeme.as_str());
            r.append(" ");
            let rs = expr_to_string(&**right);
            r.append(rs.as_str());
            r.append(")");
            proof {
                reveal_strlit("(");
                reveal_strlit(" ");
                reveal_strlit(")");
                assert(r@ =~= spec_expr_string(e@));
            }
            r
        },
        Expr::Binary { operator, left, right } => {
            let mut r = "(".to_owned();
            r.append(operator.lexeme.as_str());
            r.append(" ");
            let ls = expr_to_string(&**left);
            r.append(ls.as_str());
            r.append(" ");
            let rs = expr_to_string(&**right);
            r.append(rs.as_str());
            r.append(")");
            proof {
                reveal_strlit("(");
                reveal_strlit(" ");
                reveal_strlit(")");
                assert(r@ =~= spec_expr_string(e@));
            }
            r
        },
        Expr::Grouping(inner) => {
            let mut r = "(group ".to_owned();
            let is = expr_to_string(&**inner);
            r.append(is.as_str());
            r.append(")");
            proof {
                reveal_strlit(")");
                assert(r@ =~= spec_expr_string(e@));
            }
            r
        },
    }
}

/// The printed lines of a sequence of parsed expression slots: one line per
/// filled slot, in order; blank slots print nothing.
pub open spec fn spec_render_exprs(es: Seq<Option<ExprV>>) -> Seq<Seq<char>>
    decreases es.len(),
{
    if es.len() == 0 {
        Seq::empty()
    } else {
        let rest = spec_render_exprs(es.skip(1));
        match es[0] {
            Some(e) => seq![spec_expr_string(e)] + rest,
            None => rest,
        }
    }
}

/// The ghost views of a sequence of printed lines.
pub open spec fn string_views(ls: Seq<String>) -> Seq<Seq<char>> {
    Seq::new(ls.len(), |i: int| ls[i]@)
}

/// Renders each parsed expression slot on its own line.
pub fn render_exprs(exprs: &Vec<Option<Expr>>) -> (lines: Vec<String>)
    ensures
        string_views(lines@) == spec_render_exprs(opt_expr_views(exprs@)),
{
    let mut lines: Vec<String> = Vec::new();
    let mut i: usize = 0;
    proof {
        assert(opt_expr_views(exprs@).skip(0) =~= opt_expr_views(exprs@));
        assert(string_views(lines@) =~= Seq::<Seq<char>>::empty());
        assert(Seq::<Seq<char>>::empty() + spec_render_exprs(opt_expr_views(exprs@))
            =~= spec_render_exprs(opt_expr_views(exprs@)));
    }
    while i < exprs.len()
        invariant
            i <= exprs@.len(),
            spec_render_exprs(opt_expr_views(exprs@)) == string_views(lines@) + spec_render_exprs(
                opt_expr_views(exprs@).skip(i as int),
            ),
        decreases exprs@.len() - i,
    {
        let ghost prev = string_views(lines@);
        let ghost rem = opt_expr_views(exprs@).skip(i as int);
        proof {
            assert(rem[0] == opt_expr_views(exprs@)[i as int]);
            assert(rem.skip(1) =~= opt_expr_views(exprs@).skip(i as int + 1));
        }
        match &exprs[i] {
            Some(e) => {
                let line = expr_to_string(e);
                lines.push(line);
                proof {
                    assert(string_views(lines@) =~= prev.push(spec_expr_string(expr_view(
                        exprs@[i as int].unwrap(),
                    ))));
                    assert(string_views(lines@) + spec_render_exprs(
                        opt_expr_views(exprs@).skip(i as int + 1),
                    ) =~= prev + spec_render_exprs(rem));
                }
            },
            None => {
                proof {
                    assert(string_views(lines@) + spec_render_exprs(
                        opt_expr_views(exprs@).skip(i as int + 1),
                    ) =~= prev + spec_render_exprs(rem));
                }
            },
        }
        i = i + 1;
    }
    proof {
        assert(opt_expr_views(exprs@).skip(i as int) =~= Seq::<Option<ExprV>>::empty());
        assert(string_views(lines@) + Seq::<Seq<char>>::empty() =~= string_views(lines@));
    }
    lines
}

} // verus!
