//! Tokens produced by the lexer.
use vstd::prelude::*;
use vstd::string::StringExecFns;
use crate::text::{debug_str, debug_string, int_dec, i64_to_string, concat3};

verus! {

/// The kind of a token. `S` is the representation of text payloads:
/// `String` at run time and `Seq<char>` in specifications.
#[derive(Debug, Clone, PartialEq)]
pub enum TokenKindG<S> {
    // Keywords
    Let,
    If,
    Else,
    For,
    In,
    While,
    Func,
    Return,
    Write,
    True,
    Nil,
    False,
    And,
    Or,
    Not,
    // Literals
    Identifier(S),
    Number(i64),
    String(S),
    // Operators
    Assign,
    Plus,
    Minus,
    Multiply,
    Divide,
    Modulo,
    Power,
    GreaterThan,
    LessThan,
    Equal,
    NotEqual,
    GreaterEqual,
    LessEqual,
    // Delimiters
    LParen,
    RParen,
    LBracket,
    RBracket,
    LBrace,
    RBrace,
    Comma,
    Colon,
    // Structure
    Newline,
    Indent,
    Dedent,
    Eof,
}

/// Run-time token kind.
pub type TokenKind = TokenKindG<String>;

/// Specification view of a token kind.
pub type TokenKindView = TokenKindG<Seq<char>>;

/// A token with its 1-based source position.
#[derive(Debug, Clone)]
pub struct TokenG<S> {
    pub kind: TokenKindG<S>,
    pub line: usize,
    pub column: usize,
}

/// Run-time token.
pub type Token = TokenG<String>;

/// Specification view of a token.
pub type TokenView = TokenG<Seq<char>>;

impl View for TokenKindG<String> {
    type V = TokenKindView;

    open spec fn view(&self) -> TokenKindView {
        match self {
            TokenKindG::Let => TokenKindG::Let,
            TokenKindG::If => TokenKindG::If,
            TokenKindG::Else => TokenKindG::Else,
            TokenKindG::For => TokenKindG::For,
            TokenKindG::In => TokenKindG::In,
            TokenKindG::While => TokenKindG::While,
            TokenKindG::Func => TokenKindG::Func,
            TokenKindG::Return => TokenKindG::Return,
            TokenKindG::Write => TokenKindG::Write,
            TokenKindG::True => TokenKindG::True,
            TokenKindG::Nil => TokenKindG::Nil,
            TokenKindG::False => TokenKindG::False,
            TokenKindG::And => TokenKindG::And,
            TokenKindG::Or => TokenKindG::Or,
            TokenKindG::Not => TokenKindG::Not,
            TokenKindG::Identifier(s) => TokenKindG::Identifier(s@),
            TokenKindG::Number(n) => TokenKindG::Number(*n),
            TokenKindG::String(s) => TokenKindG::String(s@),
            TokenKindG::Assign => TokenKindG::Assign,
            TokenKindG::Plus => TokenKindG::Plus,
            TokenKindG::Minus => TokenKindG::Minus,
            TokenKindG::Multiply => TokenKindG::Multiply,
            TokenKindG::Divide => TokenKindG::Divide,
            TokenKindG::Modulo => TokenKindG::Modulo,
            TokenKindG::Power => TokenKindG::Power,
            TokenKindG::GreaterThan => TokenKindG::GreaterThan,
            TokenKindG::LessThan => TokenKindG::LessThan,
            TokenKindG::Equal => TokenKindG::Equal,
            TokenKindG::NotEqual => TokenKindG::NotEqual,
            TokenKindG::GreaterEqual => TokenKindG::GreaterEqual,
            TokenKindG::LessEqual => TokenKindG::LessEqual,
            TokenKindG::LParen => TokenKindG::LParen,
            TokenKindG::RParen => TokenKindG::RParen,
            TokenKindG::LBracket => TokenKindG::LBracket,
            TokenKindG::RBracket => TokenKindG::RBracket,
            TokenKindG::LBrace => TokenKindG::LBrace,
            TokenKindG::RBrace => TokenKindG::RBrace,
            TokenKindG::Comma => TokenKindG::Comma,
            TokenKindG::Colon => TokenKindG::Colon,
            TokenKindG::Newline => TokenKindG::Newline,
            TokenKindG::Indent => TokenKindG::Indent,
            TokenKindG::Dedent => TokenKindG::Dedent,
            TokenKindG::Eof => TokenKindG::Eof,
        }
    }
}

impl View for TokenG<String> {
    type V = TokenView;

    open spec fn view(&self) -> TokenView {
        TokenG { kind: self.kind@, line: self.line, column: self.column }
    }
}

/// Keywords: the reserved words of the language.
pub open spec fn spec_is_keyword<S>(k: TokenKindG<S>) -> bool {
    match k {
        TokenKindG::Let | TokenKindG::If | TokenKindG::Else | TokenKindG::For | TokenKindG::In
        | TokenKindG::While | TokenKindG::Func | TokenKindG::Return | TokenKindG::Write
        | TokenKindG::True | TokenKindG::False | TokenKindG::Nil | TokenKindG::And
        | TokenKindG::Or | TokenKindG::Not => true,
        _ => false,
    }
}

/// Operators: assignment, arithmetic and comparison symbols.
pub open spec fn spec_is_operator<S>(k: TokenKindG<S>) -> bool {
    match k {
        TokenKindG::Assign | TokenKindG::Plus | TokenKindG::Minus | TokenKindG::Multiply
        | TokenKindG::Divide | TokenKindG::Modulo | TokenKindG::Power | TokenKindG::GreaterThan
        | TokenKindG::LessThan | TokenKindG::Equal | TokenKindG::NotEqual
        | TokenKindG::GreaterEqual | TokenKindG::LessEqual => true,
        _ => false,
    }
}

/// Literals: identifiers, numbers, strings and the boolean keywords.
pub open spec fn spec_is_literal<S>(k: TokenKindG<S>) -> bool {
    match k {
        TokenKindG::Identifier(_) | TokenKindG::Number(_) | TokenKindG::String(_)
        | TokenKindG::True | TokenKindG::False | TokenKindG::Nil => true,
        _ => false,
    }
}

impl TokenKindG<String> {
    pub fn is_keyword(&self) -> (r: bool)
        ensures
            r == spec_is_keyword(*self),
    {
        match self {
            TokenKindG::Let | TokenKindG::If | TokenKindG::Else | TokenKindG::For
            | TokenKindG::In | TokenKindG::While | TokenKindG::Func | TokenKindG::Return
            | TokenKindG::Write | TokenKindG::True | TokenKindG::False | TokenKindG::Nil
            | TokenKindG::And | TokenKindG::Or | TokenKindG::Not => true,
            _ => false,
        }
    }

    pub fn is_operator(&self) -> (r: bool)
        ensures
            r == spec_is_operator(*self),
    {
        match self {
            TokenKindG::Assign | TokenKindG::Plus | TokenKindG::Minus | TokenKindG::Multiply
            | TokenKindG::Divide | TokenKindG::Modulo | TokenKindG::Power | TokenKindG::GreaterThan
            | TokenKindG::LessThan | TokenKindG::Equal | TokenKindG::NotEqual
            | TokenKindG::GreaterEqual | TokenKindG::LessEqual => true,
            _ => false,
        }
    }

    pub fn is_literal(&self) -> (r: bool)
        ensures
            r == spec_is_literal(*self),
    {
        match self {
            TokenKindG::Identifier(_) | TokenKindG::Number(_) | TokenKindG::String(_)
            | TokenKindG::True | TokenKindG::False | TokenKindG::Nil => true,
            _ => false,
        }
    }

    /// Compares two kinds, payloads included.
    pub fn same_as(&self, other: &TokenKind) -> (r: bool)
        ensures
            r == (self@ == other@),
    {
        match (self, other) {
            (TokenKindG::Identifier(a), TokenKindG::Identifier(b)) => a.eq(b),
            (TokenKindG::String(a), TokenKindG::String(b)) => a.eq(b),
            (TokenKindG::Number(a), TokenKindG::Number(b)) => *a == *b,
            (TokenKindG::Let, TokenKindG::Let) => true,
            (TokenKindG::If, TokenKindG::If) => true,
            (TokenKindG::Else, TokenKindG::Else) => true,
            (TokenKindG::For, TokenKindG::For) => true,
            (TokenKindG::In, TokenKindG::In) => true,
            (TokenKindG::While, TokenKindG::While) => true,
            (TokenKindG::Func, TokenKindG::Func) => true,
            (TokenKindG::Return, TokenKindG::Return) => true,
            (TokenKindG::Write, TokenKindG::Write) => true,
            (TokenKindG::True, TokenKindG::True) => true,
            (TokenKindG::Nil, TokenKindG::Nil) => true,
            (TokenKindG::False, TokenKindG::False) => true,
            (TokenKindG::And, TokenKindG::And) => true,
            (TokenKindG::Or, TokenKindG::Or) => true,
            (TokenKindG::Not, TokenKindG::Not) => true,
            (TokenKindG::Assign, TokenKindG::Assign) => true,
            (TokenKindG::Plus, TokenKindG::Plus) => true,
            (TokenKindG::Minus, TokenKindG::Minus) => true,
            (TokenKindG::Multiply, TokenKindG::Multiply) => true,
            (TokenKindG::Divide, TokenKindG::Divide) => true,
            (TokenKindG::Modulo, TokenKindG::Modulo) => true,
            (TokenKindG::Power, TokenKindG::Power) => true,
            (TokenKindG::GreaterThan, TokenKindG::GreaterThan) => true,
            (TokenKindG::LessThan, TokenKindG::LessThan) => true,
            (TokenKindG::Equal, TokenKindG::Equal) => true,
            (TokenKindG::NotEqual, TokenKindG::NotEqual) => true,
            (TokenKindG::GreaterEqual, TokenKindG::GreaterEqual) => true,
            (TokenKindG::LessEqual, TokenKindG::LessEqual) => true,
            (TokenKindG::LParen, TokenKindG::LParen) => true,
            (TokenKindG::RParen, TokenKindG::RParen) => true,
            (TokenKindG::LBracket, TokenKindG::LBracket) => true,
            (TokenKindG::RBracket, TokenKindG::RBracket) => true,
            (TokenKindG::LBrace, TokenKindG::LBrace) => true,
            (TokenKindG::RBrace, TokenKindG::RBrace) => true,
            (TokenKindG::Comma, TokenKindG::Comma) => true,
            (TokenKindG::Colon, TokenKindG::Colon) => true,
            (TokenKindG::Newline, TokenKindG::Newline) => true,
            (TokenKindG::Indent, TokenKindG::Indent) => true,
            (TokenKindG::Dedent, TokenKindG::Dedent) => true,
            (TokenKindG::Eof, TokenKindG::Eof) => true,
            _ => false,
        }
    }
}

impl TokenG<String> {
    /// Copies a token; the copy has the same view.
    pub fn copy(&self) -> (r: Token)
        ensures
            r@ == self@,
    {
        Token { kind: self.kind.copy(), line: self.line, column: self.column }
    }
}

impl TokenKindG<String> {
    /// Copies a kind; the copy has the same view.
    pub fn copy(&self) -> (r: TokenKind)
        ensures
            r@ == self@,
    {
        match self {
            TokenKindG::Identifier(s) => TokenKindG::Identifier(s.clone()),
            TokenKindG::String(s) => TokenKindG::String(s.clone()),
            TokenKindG::Number(n) => TokenKindG::Number(*n),
            TokenKindG::Let => TokenKindG::Let,
            TokenKindG::If => TokenKindG::If,
            TokenKindG::Else => TokenKindG::Else,
            TokenKindG::For => TokenKindG::For,
            TokenKindG::In => TokenKindG::In,
            TokenKindG::While => TokenKindG::While,
            TokenKindG::Func => TokenKindG::Func,
            TokenKindG::Return => TokenKindG::Return,
            TokenKindG::Write => TokenKindG::Write,
            TokenKindG::True => TokenKindG::True,
            TokenKindG::Nil => TokenKindG::Nil,
            TokenKindG::False => TokenKindG::False,
            TokenKindG::And => TokenKindG::And,
            TokenKindG::Or => TokenKindG::Or,
            TokenKindG::Not => TokenKindG::Not,
            TokenKindG::Assign => TokenKindG::Assign,
            TokenKindG::Plus => TokenKindG::Plus,
            TokenKindG::Minus => TokenKindG::Minus,
            TokenKindG::Multiply => TokenKindG::Multiply,
            TokenKindG::Divide => TokenKindG::Divide,
            TokenKindG::Modulo => TokenKindG::Modulo,
            TokenKindG::Power => TokenKindG::Power,
            TokenKindG::GreaterThan => TokenKindG::GreaterThan,
            TokenKindG::LessThan => TokenKindG::LessThan,
            TokenKindG::Equal => TokenKindG::Equal,
            TokenKindG::NotEqual => TokenKindG::NotEqual,
            TokenKindG::GreaterEqual => TokenKindG::GreaterEqual,
            TokenKindG::LessEqual => TokenKindG::LessEqual,
            TokenKindG::LParen => TokenKindG::LParen,
            TokenKindG::RParen => TokenKindG::RParen,
            TokenKindG::LBracket => TokenKindG::LBracket,
            TokenKindG::RBracket => TokenKindG::RBracket,
            TokenKindG::LBrace => TokenKindG::LBrace,
            TokenKindG::RBrace => TokenKindG::RBrace,
            TokenKindG::Comma => TokenKindG::Comma,
            TokenKindG::Colon => TokenKindG::Colon,
            TokenKindG::Newline => TokenKindG::Newline,
            TokenKindG::Indent => TokenKindG::Indent,
            TokenKindG::Dedent => TokenKindG::Dedent,
            TokenKindG::Eof => TokenKindG::Eof,
        }
    }
}


/// The `Debug` rendering of a kind, as in `format!("{:?}", kind)`.
pub open spec fn kind_dbg(k: TokenKindView) -> Seq<char> {
    match k {
        TokenKindG::Identifier(s) => "Identifier("@ + debug_str(s) + ")"@,
        TokenKindG::Number(n) => "Number("@ + int_dec(n as int) + ")"@,
        TokenKindG::String(s) => "String("@ + debug_str(s) + ")"@,
        TokenKindG::Let => "Let"@,
        TokenKindG::If => "If"@,
        TokenKindG::Else => "Else"@,
        TokenKindG::For => "For"@,
        TokenKindG::In => "In"@,
        TokenKindG::While => "While"@,
        TokenKindG::Func => "Func"@,
        TokenKindG::Return => "Return"@,
        TokenKindG::Write => "Write"@,
        TokenKindG::True => "True"@,
        TokenKindG::Nil => "Nil"@,
        TokenKindG::False => "False"@,
        TokenKindG::And => "And"@,
        TokenKindG::Or => "Or"@,
        TokenKindG::Not => "Not"@,
        TokenKindG::Assign => "Assign"@,
        TokenKindG::Plus => "Plus"@,
        TokenKindG::Minus => "Minus"@,
        TokenKindG::Multiply => "Multiply"@,
        TokenKindG::Divide => "Divide"@,
        TokenKindG::Modulo => "Modulo"@,
        TokenKindG::Power => "Power"@,
        TokenKindG::GreaterThan => "GreaterThan"@,
        TokenKindG::LessThan => "LessThan"@,
        TokenKindG::Equal => "Equal"@,
        TokenKindG::NotEqual => "NotEqual"@,
        TokenKindG::GreaterEqual => "GreaterEqual"@,
        TokenKindG::LessEqual => "LessEqual"@,
        TokenKindG::LParen => "LParen"@,
        TokenKindG::RParen => "RParen"@,
        TokenKindG::LBracket => "LBracket"@,
        TokenKindG::RBracket => "RBracket"@,
        TokenKindG::LBrace => "LBrace"@,
        TokenKindG::RBrace => "RBrace"@,
        TokenKindG::Comma => "Comma"@,
        TokenKindG::Colon => "Colon"@,
        TokenKindG::Newline => "Newline"@,
        TokenKindG::Indent => "Indent"@,
        TokenKindG::Dedent => "Dedent"@,
        TokenKindG::Eof => "Eof"@,
    }
}

impl TokenKindG<String> {
    /// The `Debug` rendering of this kind.
    pub fn debug_text(&self) -> (r: String)
        ensures
            r@ == kind_dbg(self@),
    {
        match self {
            TokenKindG::Identifier(s) => concat3("Identifier(", debug_string(s).as_str(), ")"),
            TokenKindG::Number(n) => concat3("Number(", i64_to_string(*n).as_str(), ")"),
            TokenKindG::String(s) => concat3("String(", debug_string(s).as_str(), ")"),
            TokenKindG::Let => String::from_str("Let"),
            TokenKindG::If => String::from_str("If"),
            TokenKindG::Else => String::from_str("Else"),
            TokenKindG::For => String::from_str("For"),
            TokenKindG::In => String::from_str("In"),
            TokenKindG::While => String::from_str("While"),
            TokenKindG::Func => String::from_str("Func"),
            TokenKindG::Return => String::from_str("Return"),
            TokenKindG::Write => String::from_str("Write"),
            TokenKindG::True => String::from_str("True"),
            TokenKindG::Nil => String::from_str("Nil"),
            TokenKindG::False => String::from_str("False"),
            TokenKindG::And => String::from_str("And"),
            TokenKindG::Or => String::from_str("Or"),
            TokenKindG::Not => String::from_str("Not"),
            TokenKindG::Assign => String::from_str("Assign"),
            TokenKindG::Plus => String::from_str("Plus"),
            TokenKindG::Minus => String::from_str("Minus"),
            TokenKindG::Multiply => String::from_str("Multiply"),
            TokenKindG::Divide => String::from_str("Divide"),
            TokenKindG::Modulo => String::from_str("Modulo"),
            TokenKindG::Power => String::from_str("Power"),
            TokenKindG::GreaterThan => String::from_str("GreaterThan"),
            TokenKindG::LessThan => String::from_str("LessThan"),
            TokenKindG::Equal => String::from_str("Equal"),
            TokenKindG::NotEqual => String::from_str("NotEqual"),
            TokenKindG::GreaterEqual => String::from_str("GreaterEqual"),
            TokenKindG::LessEqual => String::from_str("LessEqual"),
            TokenKindG::LParen => String::from_str("LParen"),
            TokenKindG::RParen => String::from_str("RParen"),
            TokenKindG::LBracket => String::from_str("LBracket"),
            TokenKindG::RBracket => String::from_str("RBracket"),
            TokenKindG::LBrace => String::from_str("LBrace"),
            TokenKindG::RBrace => String::from_str("RBrace"),
            TokenKindG::Comma => String::from_str("Comma"),
            TokenKindG::Colon => String::from_str("Colon"),
            TokenKindG::Newline => String::from_str("Newline"),
            TokenKindG::Indent => String::from_str("Indent"),
            TokenKindG::Dedent => String::from_str("Dedent"),
            TokenKindG::Eof => String::from_str("Eof"),
        }
    }
}

} // verus!
