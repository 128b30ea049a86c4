//! The tree-walking evaluator: one expression tree to one runtime value
//! under dynamically-typed operator semantics, or a typed failure that is
//! unrecoverable at the call site.
use crate::errors::ErrorKind;
use crate::exprs::{expr_view, opt_expr_views, string_views, Expr, ExprV};
use crate::numbers::{
    add_bits, add_of, display_bits, display_of, div_bits, div_of, eq_bits, eq_of, le_bits, le_of,
    lt_bits, lt_of, mul_bits, mul_of, neg_bits, neg_of, sub_bits, sub_of,
};
use crate::tokens::{str_eq, Operator, TokenType, TokenTypeV, TokenV};
use vstd::prelude::*;

verus! {

/// A runtime value: the result of evaluating one expression tree.
#[derive(Debug)]
pub enum Value {
    Nil,
    Bool(bool),
    Number(u64),
    String(String),
}

/// Ghost mirror of `Value`.
pub ghost enum ValueV {
    Nil,
    Bool(bool),
    Number(u64),
    String(Seq<char>),
}

impl View for Value {
    type V = ValueV;

    open spec fn view(&self) -> ValueV {
        match self {
            Value::Nil => ValueV::Nil,
            Value::Bool(b) => ValueV::Bool(*b),
            Value::Number(n) => ValueV::Number(*n),
            Value::String(s) => ValueV::String(s@),
        }
    }
}

/// What `!` yields on a value, by truthiness coercion: a Bool is negated,
/// nil negates to true, a number negates to whether it equals zero (the
/// pattern 0 carries positive zero), a string to whether it is empty.
pub open spec fn spec_bang(v: ValueV) -> bool {
    match v {
        ValueV::Bool(b) => !b,
        ValueV::Nil => true,
        ValueV::Number(n) => eq_of(n, 0),
        ValueV::String(s) => s.len() == 0,
    }
}

/// Binary dispatch by the evaluated pair's combined runtime type: numbers
/// carry arithmetic and all comparisons; strings concatenate with `+` and
/// compare by value with `==`/`!=`; a number and a string are never equal,
/// whatever the values; everything else is a failure.
pub open spec fn spec_eval_binary(op: TokenTypeV, l: ValueV, r: ValueV) -> Result<
    ValueV,
    ErrorKind,
> {
    match (l, r) {
        (ValueV::Number(n), ValueV::Number(m)) => match op {
            TokenTypeV::Star => Ok(ValueV::Number(mul_of(n, m))),
            TokenTypeV::Slash => Ok(ValueV::Number(div_of(n, m))),
            TokenTypeV::Plus => Ok(ValueV::Number(add_of(n, m))),
            TokenTypeV::Minus => Ok(ValueV::Number(sub_of(n, m))),
            TokenTypeV::Greater => Ok(ValueV::Bool(lt_of(m, n))),
            TokenTypeV::Less => Ok(ValueV::Bool(lt_of(n, m))),
            TokenTypeV::Operator { op: Operator::LessEqual } => Ok(ValueV::Bool(le_of(n, m))),
            TokenTypeV::Operator { op: Operator::GreaterEqual } => Ok(ValueV::Bool(le_of(m, n))),
            TokenTypeV::Operator { op: Operator::EqualEqual } => Ok(ValueV::Bool(eq_of(n, m))),
            TokenTypeV::Operator { op: Operator::BangEqual } => Ok(ValueV::Bool(!eq_of(n, m))),
            _ => Err(ErrorKind::UnsupportedOperator),
        },
        (ValueV::String(s), ValueV::String(t)) => match op {
            TokenTypeV::Plus => Ok(ValueV::String(s + t)),
            TokenTypeV::Operator { op: Operator::EqualEqual } => Ok(ValueV::Bool(s == t)),
            TokenTypeV::Operator { op: Operator::BangEqual } => Ok(ValueV::Bool(s != t)),
            _ => Err(ErrorKind::UnsupportedOperator),
        },
        (ValueV::Number(_), ValueV::String(_)) | (ValueV::String(_), ValueV::Number(_)) => match op {
            TokenTypeV::Operator { op: Operator::EqualEqual } => Ok(ValueV::Bool(false)),
            TokenTypeV::Operator { op: Operator::BangEqual } => Ok(ValueV::Bool(true)),
            _ => Err(ErrorKind::UnsupportedOperator),
        },
        _ => Err(ErrorKind::UnsupportedOperand),
    }
}

/// The value of one expression tree. Literals evaluate to themselves; a
/// grouping passes its single inner expression's value through unchanged;
/// unary `-` requires a number; unary `!` coerces by truthiness; a binary
/// node evaluates its left operand first, then its right, then dispatches.
pub open spec fn spec_eval(e: ExprV) -> Result<ValueV, ErrorKind>
    decreases e,
{
    match e {
        ExprV::Bool(b) => Ok(ValueV::Bool(b)),
        ExprV::Nil => Ok(ValueV::Nil),
        ExprV::Number(n) => Ok(ValueV::Number(n)),
        ExprV::String(s) => Ok(ValueV::String(s)),
        ExprV::Grouping(inner) => spec_eval(*inner),
        ExprV::Unary { operator, right } => match spec_eval(*right) {
            Err(k) => Err(k),
            Ok(v) => match operator.token_type {
                TokenTypeV::Minus => match v {
                    ValueV::Number(n) => Ok(ValueV::Number(neg_of(n))),
                    _ => Err(ErrorKind::UnsupportedOperand),
                },
                TokenTypeV::Bang => Ok(ValueV::Bool(spec_bang(v))),
                _ => Err(ErrorKind::UnsupportedOperator),
            },
        },
        ExprV::Binary { operator, left, right } => match spec_eval(*left) {
            Err(k) => Err(k),
            Ok(l) => match spec_eval(*right) {
                Err(k) => Err(k),
                Ok(r) => spec_eval_binary(operator.token_type, l, r),
            },
        },
    }
}

/// The ghost mirror of an executable evaluation result.
pub open spec fn eval_result_view(r: Result<Value, ErrorKind>) -> Result<ValueV, ErrorKind> {
    match r {
        Ok(v) => Ok(v@),
        Err(k) => Err(k),
    }
}

fn evaluate_binary(op: &TokenType, l: Value, r: Value) -> (res: Result<Value, ErrorKind>)
    ensures
        eval_result_view(res) == spec_eval_binary(op@, l@, r@),
{
    match (l, r) {
        (Value::Number(n), Value::Number(m)) => match op {
            TokenType::Star => Ok(Value::Number(mul_bits(n, m))),
            TokenType::Slash => Ok(Value::Number(div_bits(n, m))),
            TokenType::Plus => Ok(Value::Number(add_bits(n, m))),
            TokenType::Minus => Ok(Value::Number(sub_bits(n, m))),
            TokenType::Greater => Ok(Value::Bool(lt_bits(m, n))),
            TokenType::Less => Ok(Value::Bool(lt_bits(n, m))),
            TokenType::Operator { op: Operator::LessEqual } => Ok(Value::Bool(le_bits(n, m))),
            TokenType::Operator { op: Operator::GreaterEqual } => Ok(Value::Bool(le_bits(m, n))),
            TokenType::Operator { op: Operator::EqualEqual } => Ok(Value::Bool(eq_bits(n, m))),
            TokenType::Operator { op: Operator::BangEqual } => Ok(Value::Bool(!eq_bits(n, m))),
            _ => Err(ErrorKind::UnsupportedOperator),
        },
        (Value::String(s), Value::String(t)) => match op {
            TokenType::Plus => Ok(Value::String(s.concat(t.as_str()))),
            TokenType::Operator { op: Operator::EqualEqual } => Ok(
                Value::Bool(str_eq(s.as_str(), t.as_str())),
            ),
            TokenType::Operator { op: Operator::BangEqual } => Ok(
                Value::Bool(!str_eq(s.as_str(), t.as_str())),
            ),
            _ => Err(ErrorKind::UnsupportedOperator),
        },
        (Value::Number(_), Value::String(_)) | (Value::String(_), Value::Number(_)) => match op {
            TokenType::Operator { op: Operator::EqualEqual } => Ok(Value::Bool(false)),
            TokenType::Operator { op: Operator::BangEqual } => Ok(Value::Bool(true)),
            _ => Err(ErrorKind::UnsupportedOperator),
        },
        (_, _) => Err(ErrorKind::UnsupportedOperand),
    }
}

/// Reduces one expression tree to a runtime value, or fails with the first
/// unsupported operand or operator met.
pub fn evaluate_expr(expr: &Expr) -> (r: Result<Value, ErrorKind>)
    ensures
        eval_result_view(r) == spec_eval(expr@),
    decreases *expr,
{
    match expr {
        Expr::Bool(b) => Ok(Value::Bool(*b)),
        Expr::Nil => Ok(Value::Nil),
        Expr::Number(n) => Ok(Value::Number(*n)),
        Expr::String(s) => Ok(Value::String(s.clone())),
        Expr::Grouping(inner) => evaluate_expr(&**inner),
        Expr::Unary { operator, right } => {
            let res = match evaluate_expr(&**right) {
                Ok(v) => v,
                Err(k) => {
                    return Err(k);
                },
            };
            match &operator.token_type {
                TokenType::Minus => match res {
                    Value::Number(n) => Ok(Value::Number(neg_bits(n))),
                    _ => Err(ErrorKind::UnsupportedOperand),
                },
                TokenType::Bang => match res {
                    Value::Bool(b) => Ok(Value::Bool(!b)),
                    Value::Nil => Ok(Value::Bool(true)),
                    Value::Number(n) => Ok(Value::Bool(eq_bits(n, 0))),
                    Value::String(s) => Ok(Value::Bool(s.as_str().unicode_len() == 0)),
                },
                _ => Err(ErrorKind::UnsupportedOperator),
            }
        },
        Expr::Binary { operator, left, right } => {
            let l = match evaluate_expr(&**left) {
                Ok(v) => v,
                Err(k) => {
                    return Err(k);
                },
            };
            let r0 = match evaluate_expr(&**right) {
                Ok(v) => v,
                Err(k) => {
                    return Err(k);
                },
            };
            evaluate_binary(&operator.token_type, l, r0)
        },
    }
}

/// The display form of a runtime value, as the evaluate output prints it.
pub open spec fn spec_value_string(v: ValueV) -> Seq<char> {
    match v {
        ValueV::Nil => "nil"@,
        ValueV::Bool(b) => if b {
            "true"@
        } else {
            "false"@
        },
        ValueV::Number(n) => display_of(n),
        ValueV::String(s) => s,
    }
}

/// The executable counterpart of `spec_value_string`.
pub fn value_to_string(v: &Value) -> (r: String)
    ensures
        r@ == spec_value_string(v@),
{
    match v {
        Value::Nil => "nil".to_owned(),
        Value::Bool(b) => {
            if *b {
                "true".to_owned()
            } else {
                "false".to_owned()
            }
        },
        Value::Number(n) => display_bits(*n),
        Value::String(s) => s.clone(),
    }
}

/// The printed lines of evaluating each filled slot in order, and the first
/// failure if one occurs: the lines printed before it are kept, and nothing
/// after it is evaluated.
pub open spec fn spec_evaluate_exprs(es: Seq<Option<ExprV>>) -> (Seq<Seq<char>>, Option<ErrorKind>)
    decreases es.len(),
{
    if es.len() == 0 {
        (Seq::empty(), None)
    } else {
        match es[0] {
            None => spec_evaluate_exprs(es.skip(1)),
            Some(e) => match spec_eval(e) {
                Err(k) => (Seq::empty(), Some(k)),
                Ok(v) => {
                    let rest = spec_evaluate_exprs(es.skip(1));
                    (seq![spec_value_string(v)] + rest.0, rest.1)
                },
            },
        }
    }
}

/// Evaluates each parsed expression slot in order; stops at the first
/// failure, keeping the lines already produced.
pub fn evaluate_exprs(exprs: &Vec<Option<Expr>>) -> (r: (Vec<String>, Option<ErrorKind>))
    ensures
        string_views(r.0@) == spec_evaluate_exprs(opt_expr_views(exprs@)).0,
        r.1 == spec_evaluate_exprs(opt_expr_views(exprs@)).1,
{
    let ghost full = opt_expr_views(exprs@);
    let mut lines: Vec<String> = Vec::new();
    let mut i: usize = 0;
    proof {
        assert(full.skip(0) =~= full);
        assert(string_views(lines@) =~= Seq::<Seq<char>>::empty());
        assert(Seq::<Seq<char>>::empty() + spec_evaluate_exprs(full).0 =~= spec_evaluate_exprs(
            full,
        ).0);
    }
    while i < exprs.len()
        invariant
            i <= exprs@.len(),
            full == opt_expr_views(exprs@),
            spec_evaluate_exprs(full).0 == string_views(lines@) + spec_evaluate_exprs(
                full.skip(i as int),
            ).0,
            spec_evaluate_exprs(full).1 == spec_evaluate_exprs(full.skip(i as int)).1,
        decreases exprs@.len() - i,
    {
        let ghost prev = string_views(lines@);
        let ghost rem = full.skip(i as int);
        proof {
            assert(rem[0] == full[i as int]);
            assert(rem.skip(1) =~= full.skip(i as int + 1));
        }
        match &exprs[i] {
            None => {},
            Some(e) => {
                match evaluate_expr(e) {
                    Err(k) => {
                        proof {
                            assert(spec_evaluate_exprs(rem).0 =~= Seq::<Seq<char>>::empty());
                            assert(string_views(lines@) + Seq::<Seq<char>>::empty()
                                =~= string_views(lines@));
                        }
                        return (lines, Some(k));
                    },
                    Ok(v) => {
                        let line = value_to_string(&v);
                        lines.push(line);
                        proof {
                            assert(string_views(lines@) =~= prev.push(spec_value_string(v@)));
                            assert(string_views(lines@) + spec_evaluate_exprs(
                                full.skip(i as int + 1),
                            ).0 =~= prev + spec_evaluate_exprs(rem).0);
                        }
                    },
                }
            },
        }
        i = i + 1;
    }
    proof {
        assert(full.skip(i as int) =~= Seq::<Option<ExprV>>::empty());
        assert(string_views(lines@) + Seq::<Seq<char>>::empty() =~= string_views(lines@));
    }
    (lines, None)
}

/// Cross-type equality: a string and a number compared with `==` yield
/// false, and with `!=` yield true, whatever the two values are and in
/// either order.
pub proof fn lemma_cross_type_equality(s: Seq<char>, n: u64, eq_tok: TokenV, ne_tok: TokenV)
    requires
        eq_tok.token_type == (TokenTypeV::Operator { op: Operator::EqualEqual }),
        ne_tok.token_type == (TokenTypeV::Operator { op: Operator::BangEqual }),
    ensures
        spec_eval(
            ExprV::Binary {
                operator: eq_tok,
                left: Box::new(ExprV::String(s)),
                right: Box::new(ExprV::Number(n)),
            },
        ) == Ok::<ValueV, ErrorKind>(ValueV::Bool(false)),
        spec_eval(
            ExprV::Binary {
                operator: eq_tok,
                left: Box::new(ExprV::Number(n)),
                right: Box::new(ExprV::String(s)),
            },
        ) == Ok::<ValueV, ErrorKind>(ValueV::Bool(false)),
        spec_eval(
            ExprV::Binary {
                operator: ne_tok,
                left: Box::new(ExprV::String(s)),
                right: Box::new(ExprV::Number(n)),
            },
        ) == Ok::<ValueV, ErrorKind>(ValueV::Bool(true)),
        spec_eval(
            ExprV::Binary {
                operator: ne_tok,
                left: Box::new(ExprV::Number(n)),
                right: Box::new(ExprV::String(s)),
            },
        ) == Ok::<ValueV, ErrorKind>(ValueV::Bool(true)),
{
    reveal_with_fuel(spec_eval, 2);
}

/// Truthiness of logical negation: `!` on a Bool negates it, on nil yields
/// true, on a number yields whether the number equals zero (so `!0` is
/// true), and on a string yields whether it is empty (so `!""` is true and
/// `!"x"` is false).
pub proof fn lemma_truthiness(b: bool, n: u64, s: Seq<char>, bang_tok: TokenV)
    requires
        bang_tok.token_type == TokenTypeV::Bang,
    ensures
        spec_eval(ExprV::Unary { operator: bang_tok, right: Box::new(ExprV::Bool(b)) }) == Ok::<
            ValueV,
            ErrorKind,
        >(ValueV::Bool(!b)),
        spec_eval(ExprV::Unary { operator: bang_tok, right: Box::new(ExprV::Nil) }) == Ok::<
            ValueV,
            ErrorKind,
        >(ValueV::Bool(true)),
        spec_eval(ExprV::Unary { operator: bang_tok, right: Box::new(ExprV::Number(n)) }) == Ok::<
            ValueV,
            ErrorKind,
        >(ValueV::Bool(eq_of(n, 0))),
        spec_eval(ExprV::Unary { operator: bang_tok, right: Box::new(ExprV::String(s)) }) == Ok::<
            ValueV,
            ErrorKind,
        >(ValueV::Bool(s.len() == 0)),
{
    reveal_with_fuel(spec_eval, 2);
}


/// Pass-through: a grouping evaluates to exactly the value of its single
/// inner expression, unchanged.
pub proof fn lemma_grouping_pass_through(e: ExprV)
    ensures
        spec_eval(ExprV::Grouping(Box::new(e))) == spec_eval(e),
{
    reveal_with_fuel(spec_eval, 2);
}

} // verus!
