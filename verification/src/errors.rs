//! The closed set of failure kinds. Lexical failures are batched and
//! recoverable: scanning continues and reports them afterwards. Parse and
//! evaluation failures are fatal at first occurrence.
use vstd::prelude::*;

verus! {

/// Every way a run can fail, over all three stages. The two lexical kinds
/// are the batched-recoverable tier: the lexer reports them through the
/// tokenize diagnostics after the full scan rather than as returned values.
/// The other five are fatal at first occurrence and are returned.
#[derive(Clone, Copy, PartialEq, Eq, Structural, Debug)]
pub enum ErrorKind {
    UnexpectedCharacter,
    UnterminatedString,
    UnmatchedParens,
    EmptyGroup,
    UnexpectedToken,
    UnsupportedOperand,
    UnsupportedOperator,
}

/// The diagnostic text of each failure kind.
pub open spec fn spec_error_message(k: ErrorKind) -> Seq<char> {
    match k {
        ErrorKind::UnexpectedCharacter => "Unexpected character."@,
        ErrorKind::UnterminatedString => "Unterminated string."@,
        ErrorKind::UnmatchedParens => "Unmatched parentheses."@,
        ErrorKind::EmptyGroup => "Unmatched parentheses."@,
        ErrorKind::UnexpectedToken => "Unexpected token."@,
        ErrorKind::UnsupportedOperand => "Unsupported operand."@,
        ErrorKind::UnsupportedOperator => "Unsupported operator."@,
    }
}

impl ErrorKind {
    /// The executable counterpart of `spec_error_message`.
    pub fn message(&self) -> (r: &'static str)
        ensures
            r@ == spec_error_message(*self),
    {
        match self {
            ErrorKind::UnexpectedCharacter => "Unexpected character.",
            ErrorKind::UnterminatedString => "Unterminated string.",
            ErrorKind::UnmatchedParens => "Unmatched parentheses.",
            ErrorKind::EmptyGroup => "Unmatched parentheses.",
            ErrorKind::UnexpectedToken => "Unexpected token.",
            ErrorKind::UnsupportedOperand => "Unsupported operand.",
            ErrorKind::UnsupportedOperator => "Unsupported operator.",
        }
    }
}

} // verus!
