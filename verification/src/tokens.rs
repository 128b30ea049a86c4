//! Token shapes produced by the lexer: a closed set of kinds, the lexeme text
//! captured from the source, and the 1-based physical line it was scanned
//! from. Ghost mirror types carry the same structure over `Seq<char>` so that
//! contracts can speak of token sequences mathematically.
use vstd::prelude::*;

verus! {

/// The two-character comparison operators, each of which also has a
/// one-character fallback form among the plain kinds.
#[derive(Clone, Copy, PartialEq, Eq, Structural, Debug)]
pub enum Operator {
    EqualEqual,
    BangEqual,
    LessEqual,
    GreaterEqual,
}

/// The fixed keyword table: an identifier that matches one of these names
/// (in lower case) is tagged with the keyword kind instead.
#[derive(Clone, Copy, PartialEq, Eq, Structural, Debug)]
pub enum Keyword {
    And,
    Class,
    Else,
    False,
    For,
    Fun,
    If,
    Nil,
    Or,
    Print,
    Return,
    Super,
    This,
    True,
    Var,
    While,
}

/// The closed tag set of token kinds.
#[derive(Debug)]
#[allow(non_camel_case_types)]
pub enum TokenType {
    RightParen,
    LeftParen,
    LeftBrace,
    RightBrace,
    Star,
    Dot,
    Comma,
    Plus,
    Minus,
    Semicolon,
    Equal,
    Operator { op: Operator },
    Bang,
    Less,
    Greater,
    EOF,
    Unknown(String),
    Comment,
    Slash,
    String { string: String, finished: bool },
    Number(String),
    Identifier(String),
    Keyword { kw: Keyword, val: String },
}

/// Ghost mirror of `TokenType`, with every text field viewed as `Seq<char>`.
#[allow(non_camel_case_types)]
pub ghost enum TokenTypeV {
    RightParen,
    LeftParen,
    LeftBrace,
    RightBrace,
    Star,
    Dot,
    Comma,
    Plus,
    Minus,
    Semicolon,
    Equal,
    Operator { op: Operator },
    Bang,
    Less,
    Greater,
    EOF,
    Unknown(Seq<char>),
    Comment,
    Slash,
    String { string: Seq<char>, finished: bool },
    Number(Seq<char>),
    Identifier(Seq<char>),
    Keyword { kw: Keyword, val: Seq<char> },
}

impl View for TokenType {
    type V = TokenTypeV;

    open spec fn view(&self) -> TokenTypeV {
        match self {
            TokenType::RightParen => TokenTypeV::RightParen,
            TokenType::LeftParen => TokenTypeV::LeftParen,
            TokenType::LeftBrace => TokenTypeV::LeftBrace,
            TokenType::RightBrace => TokenTypeV::RightBrace,
            TokenType::Star => TokenTypeV::Star,
            TokenType::Dot => TokenTypeV::Dot,
            TokenType::Comma => TokenTypeV::Comma,
            TokenType::Plus => TokenTypeV::Plus,
            TokenType::Minus => TokenTypeV::Minus,
            TokenType::Semicolon => TokenTypeV::Semicolon,
            TokenType::Equal => TokenTypeV::Equal,
            TokenType::Operator { op } => TokenTypeV::Operator { op: *op },
            TokenType::Bang => TokenTypeV::Bang,
            TokenType::Less => TokenTypeV::Less,
            TokenType::Greater => TokenTypeV::Greater,
            TokenType::EOF => TokenTypeV::EOF,
            TokenType::Unknown(s) => TokenTypeV::Unknown(s@),
            TokenType::Comment => TokenTypeV::Comment,
            TokenType::Slash => TokenTypeV::Slash,
            TokenType::String { string, finished } => TokenTypeV::String {
                string: string@,
                finished: *finished,
            },
            TokenType::Number(s) => TokenTypeV::Number(s@),
            TokenType::Identifier(s) => TokenTypeV::Identifier(s@),
            TokenType::Keyword { kw, val } => TokenTypeV::Keyword { kw: *kw, val: val@ },
        }
    }
}

impl DeepView for TokenType {
    type V = TokenTypeV;

    open spec fn deep_view(&self) -> TokenTypeV {
        self.view()
    }
}

/// A token: its kind, the literal source substring it was captured from, and
/// the 1-based physical line it lies on.
#[derive(Debug)]
pub struct Token {
    pub token_type: TokenType,
    pub lexeme: String,
    pub line: usize,
}

/// Ghost mirror of `Token`.
pub ghost struct TokenV {
    pub token_type: TokenTypeV,
    pub lexeme: Seq<char>,
    pub line: int,
}

impl View for Token {
    type V = TokenV;

    open spec fn view(&self) -> TokenV {
        TokenV { token_type: self.token_type@, lexeme: self.lexeme@, line: self.line as int }
    }
}

impl DeepView for Token {
    type V = TokenV;

    open spec fn deep_view(&self) -> TokenV {
        self.view()
    }
}

impl Clone for TokenType {
    /// A clone carries the same kind and the same text.
    fn clone(&self) -> (r: Self)
        ensures
            r@ == self@,
    {
        match self {
            TokenType::RightParen => TokenType::RightParen,
            TokenType::LeftParen => TokenType::LeftParen,
            TokenType::LeftBrace => TokenType::LeftBrace,
            TokenType::RightBrace => TokenType::RightBrace,
            TokenType::Star => TokenType::Star,
            TokenType::Dot => TokenType::Dot,
            TokenType::Comma => TokenType::Comma,
            TokenType::Plus => TokenType::Plus,
            TokenType::Minus => TokenType::Minus,
            TokenType::Semicolon => TokenType::Semicolon,
            TokenType::Equal => TokenType::Equal,
            TokenType::Operator { op } => TokenType::Operator { op: *op },
            TokenType::Bang => TokenType::Bang,
            TokenType::Less => TokenType::Less,
            TokenType::Greater => TokenType::Greater,
            TokenType::EOF => TokenType::EOF,
            TokenType::Unknown(s) => TokenType::Unknown(s.clone()),
            TokenType::Comment => TokenType::Comment,
            TokenType::Slash => TokenType::Slash,
            TokenType::String { string, finished } => TokenType::String {
                string: string.clone(),
                finished: *finished,
            },
            TokenType::Number(s) => TokenType::Number(s.clone()),
            TokenType::Identifier(s) => TokenType::Identifier(s.clone()),
            TokenType::Keyword { kw, val } => TokenType::Keyword { kw: *kw, val: val.clone() },
        }
    }
}

impl Clone for Token {
    /// A clone carries the same kind, lexeme and line.
    fn clone(&self) -> (r: Self)
        ensures
            r@ == self@,
    {
        Token { token_type: self.token_type.clone(), lexeme: self.lexeme.clone(), line: self.line }
    }
}

/// The ghost mirrors of a sequence of tokens, element by element.
pub open spec fn token_views(ts: Seq<Token>) -> Seq<TokenV> {
    Seq::new(ts.len(), |i: int| ts[i]@)
}

/// A token as the lexer produces it: a finished string literal always spans
/// at least its two delimiting quotes.
pub open spec fn wf_token(t: TokenV) -> bool {
    match t.token_type {
        TokenTypeV::String { string, finished } => finished ==> string.len() >= 2,
        _ => true,
    }
}

/// Every token of the sequence is well formed.
pub open spec fn spec_tokens_wf(ts: Seq<TokenV>) -> bool {
    forall|k: int| 0 <= k < ts.len() ==> wf_token(ts[k])
}

/// Checks that a token sequence is well formed; callers that assemble their
/// own tokens can test this before handing them to the parser.
pub fn tokens_well_formed(tokens: &Vec<Token>) -> (r: bool)
    ensures
        r == spec_tokens_wf(token_views(tokens@)),
{
    let mut i: usize = 0;
    while i < tokens.len()
        invariant
            i <= tokens@.len(),
            forall|k: int| 0 <= k < i ==> wf_token(token_views(tokens@)[k]),
        decreases tokens@.len() - i,
    {
        let ok = match &tokens[i].token_type {
            TokenType::String { string, finished } => !*finished || string.as_str().unicode_len()
                >= 2,
            _ => true,
        };
        if !ok {
            assert(!wf_token(token_views(tokens@)[i as int]));
            return false;
        }
        assert(wf_token(token_views(tokens@)[i as int]));
        i = i + 1;
    }
    true
}

pub open spec fn spec_operator_name(op: Operator) -> Seq<char> {
    match op {
        Operator::EqualEqual => "EQUAL_EQUAL"@,
        Operator::BangEqual => "BANG_EQUAL"@,
        Operator::LessEqual => "LESS_EQUAL"@,
        Operator::GreaterEqual => "GREATER_EQUAL"@,
    }
}

pub open spec fn spec_keyword_name(kw: Keyword) -> Seq<char> {
    match kw {
        Keyword::And => "AND"@,
        Keyword::Class => "CLASS"@,
        Keyword::Else => "ELSE"@,
        Keyword::False => "FALSE"@,
        Keyword::For => "FOR"@,
        Keyword::Fun => "FUN"@,
        Keyword::If => "IF"@,
        Keyword::Nil => "NIL"@,
        Keyword::Or => "OR"@,
        Keyword::Print => "PRINT"@,
        Keyword::Return => "RETURN"@,
        Keyword::Super => "SUPER"@,
        Keyword::This => "THIS"@,
        Keyword::True => "TRUE"@,
        Keyword::Var => "VAR"@,
        Keyword::While => "WHILE"@,
    }
}

/// The upper-case display name of a token kind, as it stands in the
/// tokenize output.
pub open spec fn spec_kind_name(t: TokenTypeV) -> Seq<char> {
    match t {
        TokenTypeV::RightParen => "RIGHT_PAREN"@,
        TokenTypeV::LeftParen => "LEFT_PAREN"@,
        TokenTypeV::LeftBrace => "LEFT_BRACE"@,
        TokenTypeV::RightBrace => "RIGHT_BRACE"@,
        TokenTypeV::Star => "STAR"@,
        TokenTypeV::Dot => "DOT"@,
        TokenTypeV::Comma => "COMMA"@,
        TokenTypeV::Plus => "PLUS"@,
        TokenTypeV::Minus => "MINUS"@,
        TokenTypeV::Semicolon => "SEMICOLON"@,
        TokenTypeV::Equal => "EQUAL"@,
        TokenTypeV::Operator { op } => spec_operator_name(op),
        TokenTypeV::Bang => "BANG"@,
        TokenTypeV::Less => "LESS"@,
        TokenTypeV::Greater => "GREATER"@,
        TokenTypeV::EOF => "EOF"@,
        TokenTypeV::Unknown(_) => "UNKNOWN"@,
        TokenTypeV::Comment => "COMMENT"@,
        TokenTypeV::Slash => "SLASH"@,
        TokenTypeV::String { .. } => "STRING"@,
        TokenTypeV::Number(_) => "NUMBER"@,
        TokenTypeV::Identifier(_) => "IDENTIFIER"@,
        TokenTypeV::Keyword { kw, .. } => spec_keyword_name(kw),
    }
}

/// The executable counterpart of `spec_kind_name`.
pub fn kind_name(t: &TokenType) -> (r: &'static str)
    ensures
        r@ == spec_kind_name(t@),
{
    match t {
        TokenType::RightParen => "RIGHT_PAREN",
        TokenType::LeftParen => "LEFT_PAREN",
        TokenType::LeftBrace => "LEFT_BRACE",
        TokenType::RightBrace => "RIGHT_BRACE",
        TokenType::Star => "STAR",
        TokenType::Dot => "DOT",
        TokenType::Comma => "COMMA",
        TokenType::Plus => "PLUS",
        TokenType::Minus => "MINUS",
        TokenType::Semicolon => "SEMICOLON",
        TokenType::Equal => "EQUAL",
        TokenType::Operator { op: Operator::EqualEqual } => "EQUAL_EQUAL",
        TokenType::Operator { op: Operator::BangEqual } => "BANG_EQUAL",
        TokenType::Operator { op: Operator::LessEqual } => "LESS_EQUAL",
        TokenType::Operator { op: Operator::GreaterEqual } => "GREATER_EQUAL",
        TokenType::Bang => "BANG",
        TokenType::Less => "LESS",
        TokenType::Greater => "GREATER",
        TokenType::EOF => "EOF",
        TokenType::Unknown(_) => "UNKNOWN",
        TokenType::Comment => "COMMENT",
        TokenType::Slash => "SLASH",
        TokenType::String { .. } => "STRING",
        TokenType::Number(_) => "NUMBER",
        TokenType::Identifier(_) => "IDENTIFIER",
        TokenType::Keyword { kw: Keyword::And, .. } => "AND",
        TokenType::Keyword { kw: Keyword::Class, .. } => "CLASS",
        TokenType::Keyword { kw: Keyword::Else, .. } => "ELSE",
        TokenType::Keyword { kw: Keyword::False, .. } => "FALSE",
        TokenType::Keyword { kw: Keyword::For, .. } => "FOR",
        TokenType::Keyword { kw: Keyword::Fun, .. } => "FUN",
        TokenType::Keyword { kw: Keyword::If, .. } => "IF",
        TokenType::Keyword { kw: Keyword::Nil, .. } => "NIL",
        TokenType::Keyword { kw: Keyword::Or, .. } => "OR",
        TokenType::Keyword { kw: Keyword::Print, .. } => "PRINT",
        TokenType::Keyword { kw: Keyword::Return, .. } => "RETURN",
        TokenType::Keyword { kw: Keyword::Super, .. } => "SUPER",
        TokenType::Keyword { kw: Keyword::This, .. } => "THIS",
        TokenType::Keyword { kw: Keyword::True, .. } => "TRUE",
        TokenType::Keyword { kw: Keyword::Var, .. } => "VAR",
        TokenType::Keyword { kw: Keyword::While, .. } => "WHILE",
    }
}

/// The fixed keyword lookup table: the keyword whose lower-case name is
/// exactly `s`, if any.
pub open spec fn spec_keyword_of(s: Seq<char>) -> Option<Keyword> {
    if s == "and"@ {
        Some(Keyword::And)
    } else if s == "class"@ {
        Some(Keyword::Class)
    } else if s == "else"@ {
        Some(Keyword::Else)
    } else if s == "false"@ {
        Some(Keyword::False)
    } else if s == "for"@ {
        Some(Keyword::For)
    } else if s == "fun"@ {
        Some(Keyword::Fun)
    } else if s == "if"@ {
        Some(Keyword::If)
    } else if s == "nil"@ {
        Some(Keyword::Nil)
    } else if s == "or"@ {
        Some(Keyword::Or)
    } else if s == "print"@ {
        Some(Keyword::Print)
    } else if s == "return"@ {
        Some(Keyword::Return)
    } else if s == "super"@ {
        Some(Keyword::Super)
    } else if s == "this"@ {
        Some(Keyword::This)
    } else if s == "true"@ {
        Some(Keyword::True)
    } else if s == "var"@ {
        Some(Keyword::Var)
    } else if s == "while"@ {
        Some(Keyword::While)
    } else {
        None
    }
}

/// Character-wise string equality.
pub fn str_eq(a: &str, b: &str) -> (r: bool)
    ensures
        r == (a@ == b@),
{
    let alen = a.unicode_len();
    let blen = b.unicode_len();
    if alen != blen {
        assert(a@ != b@) by {
            assert(a@.len() != b@.len());
        }
        return false;
    }
    let mut i: usize = 0;
    while i < alen
        invariant
            alen == a@.len(),
            blen == b@.len(),
            alen == blen,
            i <= alen,
            forall|j: int| 0 <= j < i ==> a@[j] == b@[j],
        decreases alen - i,
    {
        if a.get_char(i) != b.get_char(i) {
            return false;
        }
        i = i + 1;
    }
    proof {
        assert(a@ =~= b@);
    }
    true
}

/// The executable keyword lookup, resolving an identifier's text against the
/// fixed table.
pub fn lookup_keyword(s: &str) -> (r: Option<Keyword>)
    ensures
        r == spec_keyword_of(s@),
{
    if str_eq(s, "and") {
        Some(Keyword::And)
    } else if str_eq(s, "class") {
        Some(Keyword::Class)
    } else if str_eq(s, "else") {
        Some(Keyword::Else)
    } else if str_eq(s, "false") {
        Some(Keyword::False)
    } else if str_eq(s, "for") {
        Some(Keyword::For)
    } else if str_eq(s, "fun") {
        Some(Keyword::Fun)
    } else if str_eq(s, "if") {
        Some(Keyword::If)
    } else if str_eq(s, "nil") {
        Some(Keyword::Nil)
    } else if str_eq(s, "or") {
        Some(Keyword::Or)
    } else if str_eq(s, "print") {
        Some(Keyword::Print)
    } else if str_eq(s, "return") {
        Some(Keyword::Return)
    } else if str_eq(s, "super") {
        Some(Keyword::Super)
    } else if str_eq(s, "this") {
        Some(Keyword::This)
    } else if str_eq(s, "true") {
        Some(Keyword::True)
    } else if str_eq(s, "var") {
        Some(Keyword::Var)
    } else if str_eq(s, "while") {
        Some(Keyword::While)
    } else {
        None
    }
}

} // verus!
