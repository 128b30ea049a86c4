//! The three observable behaviors, as pure functions from the source text
//! to the printed lines: tokenize, parse, evaluate. The surrounding program
//! only reads the file, picks one of the three, writes the lines out and
//! sets the exit status.
use crate::errors::ErrorKind;
use crate::evaluate::{evaluate_exprs, spec_evaluate_exprs};
use crate::exprs::{render_exprs, spec_render_exprs, string_views};
use crate::parser::{parse_tokens, spec_parse_program};
use crate::scanner::{lemma_scan_wf, render_tokens, scanner, spec_render_tokens, spec_scan};
use vstd::prelude::*;

verus! {

/// The tokenize output of a source text: its printed lines and its
/// diagnostic lines.
pub open spec fn spec_tokenize_output(s: Seq<char>) -> (Seq<Seq<char>>, Seq<Seq<char>>) {
    spec_render_tokens(spec_scan(s))
}

/// The parse output of a source text: its printed lines, or the first
/// structural failure.
pub open spec fn spec_parse_output(s: Seq<char>) -> Result<Seq<Seq<char>>, ErrorKind> {
    match spec_parse_program(spec_scan(s), 0) {
        Ok(es) => Ok(spec_render_exprs(es)),
        Err(k) => Err(k),
    }
}

/// The evaluate output of a source text: the first structural parse failure,
/// or the printed lines up to the first evaluation failure together with
/// that failure if one occurred.
pub open spec fn spec_evaluate_output(s: Seq<char>) -> Result<
    (Seq<Seq<char>>, Option<ErrorKind>),
    ErrorKind,
> {
    match spec_parse_program(spec_scan(s), 0) {
        Ok(es) => Ok(spec_evaluate_exprs(es)),
        Err(k) => Err(k),
    }
}

/// Scans the source and renders every token: the printed lines and the
/// diagnostic lines. The run has failed lexically exactly when the
/// diagnostic lines are not empty.
pub fn tokenize_output(source: String) -> (r: (Vec<String>, Vec<String>))
    requires
        source@.len() < usize::MAX,
    ensures
        string_views(r.0@) == spec_tokenize_output(source@).0,
        string_views(r.1@) == spec_tokenize_output(source@).1,
{
    let ghost src = source@;
    let tokens = scanner(source);
    proof {
        lemma_scan_wf(src);
    }
    render_tokens(&tokens)
}

/// Scans and parses the source and renders every parsed expression slot,
/// or reports the first structural failure.
pub fn parse_output(source: String) -> (r: Result<Vec<String>, ErrorKind>)
    requires
        source@.len() < usize::MAX,
    ensures
        match r {
            Ok(lines) => spec_parse_output(source@) == Ok::<_, ErrorKind>(string_views(lines@)),
            Err(k) => spec_parse_output(source@) == Err::<Seq<Seq<char>>, _>(k),
        },
{
    let ghost src = source@;
    let tokens = scanner(source);
    proof {
        lemma_scan_wf(src);
    }
    match parse_tokens(&tokens) {
        Ok(exprs) => Ok(render_exprs(&exprs)),
        Err(k) => Err(k),
    }
}

/// Scans, parses and evaluates the source: the first structural parse
/// failure, or the printed value lines up to the first evaluation failure
/// together with that failure if one occurred.
pub fn evaluate_output(source: String) -> (r: Result<
    (Vec<String>, Option<ErrorKind>),
    ErrorKind,
>)
    requires
        source@.len() < usize::MAX,
    ensures
        match r {
            Ok(lines_err) => spec_evaluate_output(source@) == Ok::<_, ErrorKind>(
                (string_views(lines_err.0@), lines_err.1),
            ),
            Err(k) => spec_evaluate_output(source@) == Err::<
                (Seq<Seq<char>>, Option<ErrorKind>),
                _,
            >(k),
        },
{
    let ghost src = source@;
    let tokens = scanner(source);
    proof {
        lemma_scan_wf(src);
    }
    match parse_tokens(&tokens) {
        Ok(exprs) => Ok(evaluate_exprs(&exprs)),
        Err(k) => Err(k),
    }
}

/// Determinism: each of the three outputs is a function of the source
/// text's characters alone, so two runs over identical contents produce
/// identical lines.
pub proof fn lemma_outputs_deterministic(a: Seq<char>, b: Seq<char>)
    requires
        a == b,
    ensures
        spec_tokenize_output(a) == spec_tokenize_output(b),
        spec_parse_output(a) == spec_parse_output(b),
        spec_evaluate_output(a) == spec_evaluate_output(b),
{
}

} // verus!
