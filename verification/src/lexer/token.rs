//! The closed set of lexical units.

use vstd::prelude::*;

verus! {

/// A lexical unit together with its payload.
///
/// A floating-point literal carries its lexeme: the digits as they stand in the
/// source, sign and exponent included.
#[derive(PartialEq, Debug)]
pub enum Token {
    // Literals
    IntLit(i64),
    FloatLit(String),
    StringLit(String),
    CharLit(char),
    // Delimiters
    LParen,
    RParen,
    LBrace,
    RBrace,
    LBracket,
    RBracket,
    // Symbols
    Eq,
    Ampersand,
    Bar,
    Bang,
    UpArrow,
    LAngle,
    RAngle,
    Plus,
    Minus,
    Times,
    FSlash,
    BSlash,
    Dot,
    Comma,
    Colon,
    Semicolon,
    Underscore,
    // Operators
    And,
    Or,
    Eqq,
    Neq,
    Leq,
    Geq,
    Arrow,
    Exponent,
    // Keywords
    Let,
    Mut,
    Fn,
    If,
    Else,
    Match,
    Const,
    Struct,
    Enum,
    True,
    False,
    // Misc
    Ident(String),
    /// A run of input that no rule recognises, as the byte range `[start, end)`.
    Error { start: usize, end: usize },
    /// The end of the input.
    Eof,
}

/// The kind of a token: its variant without the payload.
#[derive(PartialEq, Eq, Structural, Debug, Clone, Copy)]
pub enum TokenType {
    IntLit,
    FloatLit,
    StringLit,
    CharLit,
    LParen,
    RParen,
    LBrace,
    RBrace,
    LBracket,
    RBracket,
    Eq,
    Ampersand,
    Bar,
    Bang,
    UpArrow,
    LAngle,
    RAngle,
    Plus,
    Minus,
    Times,
    FSlash,
    BSlash,
    Dot,
    Comma,
    Colon,
    Semicolon,
    Underscore,
    And,
    Or,
    Eqq,
    Neq,
    Leq,
    Geq,
    Arrow,
    Exponent,
    Let,
    Mut,
    Fn,
    If,
    Else,
    Match,
    Const,
    Struct,
    Enum,
    True,
    False,
    Ident,
    Error,
    Eof,
}

/// The mathematical value of a [`Token`]: text payloads are sequences of
/// characters, offsets are natural numbers.
pub ghost enum TokenView {
    IntLit(int),
    FloatLit(Seq<char>),
    StringLit(Seq<char>),
    CharLit(char),
    LParen,
    RParen,
    LBrace,
    RBrace,
    LBracket,
    RBracket,
    Eq,
    Ampersand,
    Bar,
    Bang,
    UpArrow,
    LAngle,
    RAngle,
    Plus,
    Minus,
    Times,
    FSlash,
    BSlash,
    Dot,
    Comma,
    Colon,
    Semicolon,
    Underscore,
    And,
    Or,
    Eqq,
    Neq,
    Leq,
    Geq,
    Arrow,
    Exponent,
    Let,
    Mut,
    Fn,
    If,
    Else,
    Match,
    Const,
    Struct,
    Enum,
    True,
    False,
    Ident(Seq<char>),
    Error { start: nat, end: nat },
    Eof,
}

impl TokenView {
    /// The kind of the token, whatever its payload.
    pub open spec fn kind(self) -> TokenType {
        match self {
            TokenView::IntLit(_) => TokenType::IntLit,
            TokenView::FloatLit(_) => TokenType::FloatLit,
            TokenView::StringLit(_) => TokenType::StringLit,
            TokenView::CharLit(_) => TokenType::CharLit,
            TokenView::LParen => TokenType::LParen,
            TokenView::RParen => TokenType::RParen,
            TokenView::LBrace => TokenType::LBrace,
            TokenView::RBrace => TokenType::RBrace,
            TokenView::LBracket => TokenType::LBracket,
            TokenView::RBracket => TokenType::RBracket,
            TokenView::Eq => TokenType::Eq,
            TokenView::Ampersand => TokenType::Ampersand,
            TokenView::Bar => TokenType::Bar,
            TokenView::Bang => TokenType::Bang,
            TokenView::UpArrow => TokenType::UpArrow,
            TokenView::LAngle => TokenType::LAngle,
            TokenView::RAngle => TokenType::RAngle,
            TokenView::Plus => TokenType::Plus,
            TokenView::Minus => TokenType::Minus,
            TokenView::Times => TokenType::Times,
            TokenView::FSlash => TokenType::FSlash,
            TokenView::BSlash => TokenType::BSlash,
            TokenView::Dot => TokenType::Dot,
            TokenView::Comma => TokenType::Comma,
            TokenView::Colon => TokenType::Colon,
            TokenView::Semicolon => TokenType::Semicolon,
            TokenView::Underscore => TokenType::Underscore,
            TokenView::And => TokenType::And,
            TokenView::Or => TokenType::Or,
            TokenView::Eqq => TokenType::Eqq,
            TokenView::Neq => TokenType::Neq,
            TokenView::Leq => TokenType::Leq,
            TokenView::Geq => TokenType::Geq,
            TokenView::Arrow => TokenType::Arrow,
            TokenView::Exponent => TokenType::Exponent,
            TokenView::Let => TokenType::Let,
            TokenView::Mut => TokenType::Mut,
            TokenView::Fn => TokenType::Fn,
            TokenView::If => TokenType::If,
            TokenView::Else => TokenType::Else,
            TokenView::Match => TokenType::Match,
            TokenView::Const => TokenType::Const,
            TokenView::Struct => TokenType::Struct,
            TokenView::Enum => TokenType::Enum,
            TokenView::True => TokenType::True,
            TokenView::False => TokenType::False,
            TokenView::Ident(_) => TokenType::Ident,
            TokenView::Error { .. } => TokenType::Error,
            TokenView::Eof => TokenType::Eof,
        }
    }
}

impl View for Token {
    type V = TokenView;

    open spec fn view(&self) -> TokenView {
        match *self {
            Token::IntLit(value) => TokenView::IntLit(value as int),
            Token::FloatLit(lexeme) => TokenView::FloatLit(lexeme@),
            Token::StringLit(text) => TokenView::StringLit(text@),
            Token::CharLit(c) => TokenView::CharLit(c),
            Token::LParen => TokenView::LParen,
            Token::RParen => TokenView::RParen,
            Token::LBrace => TokenView::LBrace,
            Token::RBrace => TokenView::RBrace,
            Token::LBracket => TokenView::LBracket,
            Token::RBracket => TokenView::RBracket,
            Token::Eq => TokenView::Eq,
            Token::Ampersand => TokenView::Ampersand,
            Token::Bar => TokenView::Bar,
            Token::Bang => TokenView::Bang,
            Token::UpArrow => TokenView::UpArrow,
            Token::LAngle => TokenView::LAngle,
            Token::RAngle => TokenView::RAngle,
            Token::Plus => TokenView::Plus,
            Token::Minus => TokenView::Minus,
            Token::Times => TokenView::Times,
            Token::FSlash => TokenView::FSlash,
            Token::BSlash => TokenView::BSlash,
            Token::Dot => TokenView::Dot,
            Token::Comma => TokenView::Comma,
            Token::Colon => TokenView::Colon,
            Token::Semicolon => TokenView::Semicolon,
            Token::Underscore => TokenView::Underscore,
            Token::And => TokenView::And,
            Token::Or => TokenView::Or,
            Token::Eqq => TokenView::Eqq,
            Token::Neq => TokenView::Neq,
            Token::Leq => TokenView::Leq,
            Token::Geq => TokenView::Geq,
            Token::Arrow => TokenView::Arrow,
            Token::Exponent => TokenView::Exponent,
            Token::Let => TokenView::Let,
            Token::Mut => TokenView::Mut,
            Token::Fn => TokenView::Fn,
            Token::If => TokenView::If,
            Token::Else => TokenView::Else,
            Token::Match => TokenView::Match,
            Token::Const => TokenView::Const,
            Token::Struct => TokenView::Struct,
            Token::Enum => TokenView::Enum,
            Token::True => TokenView::True,
            Token::False => TokenView::False,
            Token::Ident(name) => TokenView::Ident(name@),
            Token::Error { start, end } => TokenView::Error { start: start as nat, end: end as nat },
            Token::Eof => TokenView::Eof,
        }
    }
}

impl TokenType {
    /// The name of the kind, as it is shown in messages.
    pub open spec fn name_text(self) -> Seq<char> {
        match self {
            TokenType::IntLit => "IntLit"@,
            TokenType::FloatLit => "FloatLit"@,
            TokenType::StringLit => "StringLit"@,
            TokenType::CharLit => "CharLit"@,
            TokenType::LParen => "LParen"@,
            TokenType::RParen => "RParen"@,
            TokenType::LBrace => "LBrace"@,
            TokenType::RBrace => "RBrace"@,
            TokenType::LBracket => "LBracket"@,
            TokenType::RBracket => "RBracket"@,
            TokenType::Eq => "Eq"@,
            TokenType::Ampersand => "Ampersand"@,
            TokenType::Bar => "Bar"@,
            TokenType::Bang => "Bang"@,
            TokenType::UpArrow => "UpArrow"@,
            TokenType::LAngle => "LAngle"@,
            TokenType::RAngle => "RAngle"@,
            TokenType::Plus => "Plus"@,
            TokenType::Minus => "Minus"@,
            TokenType::Times => "Times"@,
            TokenType::FSlash => "FSlash"@,
            TokenType::BSlash => "BSlash"@,
            TokenType::Dot => "Dot"@,
            TokenType::Comma => "Comma"@,
            TokenType::Colon => "Colon"@,
            TokenType::Semicolon => "Semicolon"@,
            TokenType::Underscore => "Underscore"@,
            TokenType::And => "And"@,
            TokenType::Or => "Or"@,
            TokenType::Eqq => "Eqq"@,
            TokenType::Neq => "Neq"@,
            TokenType::Leq => "Leq"@,
            TokenType::Geq => "Geq"@,
            TokenType::Arrow => "Arrow"@,
            TokenType::Exponent => "Exponent"@,
            TokenType::Let => "Let"@,
            TokenType::Mut => "Mut"@,
            TokenType::Fn => "Fn"@,
            TokenType::If => "If"@,
            TokenType::Else => "Else"@,
            TokenType::Match => "Match"@,
            TokenType::Const => "Const"@,
            TokenType::Struct => "Struct"@,
            TokenType::Enum => "Enum"@,
            TokenType::True => "True"@,
            TokenType::False => "False"@,
            TokenType::Ident => "Ident"@,
            TokenType::Error => "Error"@,
            TokenType::Eof => "Eof"@,
        }
    }

    /// The name of the kind, as it is shown in messages.
    pub fn name(&self) -> (text: &'static str)
        ensures
            text@ == self.name_text(),
    {
        match self {
            TokenType::IntLit => "IntLit",
            TokenType::FloatLit => "FloatLit",
            TokenType::StringLit => "StringLit",
            TokenType::CharLit => "CharLit",
            TokenType::LParen => "LParen",
            TokenType::RParen => "RParen",
            TokenType::LBrace => "LBrace",
            TokenType::RBrace => "RBrace",
            TokenType::LBracket => "LBracket",
            TokenType::RBracket => "RBracket",
            TokenType::Eq => "Eq",
            TokenType::Ampersand => "Ampersand",
            TokenType::Bar => "Bar",
            TokenType::Bang => "Bang",
            TokenType::UpArrow => "UpArrow",
            TokenType::LAngle => "LAngle",
            TokenType::RAngle => "RAngle",
            TokenType::Plus => "Plus",
            TokenType::Minus => "Minus",
            TokenType::Times => "Times",
            TokenType::FSlash => "FSlash",
            TokenType::BSlash => "BSlash",
            TokenType::Dot => "Dot",
            TokenType::Comma => "Comma",
            TokenType::Colon => "Colon",
            TokenType::Semicolon => "Semicolon",
            TokenType::Underscore => "Underscore",
            TokenType::And => "And",
            TokenType::Or => "Or",
            TokenType::Eqq => "Eqq",
            TokenType::Neq => "Neq",
            TokenType::Leq => "Leq",
            TokenType::Geq => "Geq",
            TokenType::Arrow => "Arrow",
            TokenType::Exponent => "Exponent",
            TokenType::Let => "Let",
            TokenType::Mut => "Mut",
            TokenType::Fn => "Fn",
            TokenType::If => "If",
            TokenType::Else => "Else",
            TokenType::Match => "Match",
            TokenType::Const => "Const",
            TokenType::Struct => "Struct",
            TokenType::Enum => "Enum",
            TokenType::True => "True",
            TokenType::False => "False",
            TokenType::Ident => "Ident",
            TokenType::Error => "Error",
            TokenType::Eof => "Eof",
        }
    }
}

impl Clone for Token {
    fn clone(&self) -> (copy: Self)
        ensures
            copy == *self,
    {
        match self {
            Token::IntLit(value) => Token::IntLit(*value),
            Token::FloatLit(text) => Token::FloatLit(text.clone()),
            Token::StringLit(text) => Token::StringLit(text.clone()),
            Token::CharLit(value) => Token::CharLit(*value),
            Token::LParen => Token::LParen,
            Token::RParen => Token::RParen,
            Token::LBrace => Token::LBrace,
            Token::RBrace => Token::RBrace,
            Token::LBracket => Token::LBracket,
            Token::RBracket => Token::RBracket,
            Token::Eq => Token::Eq,
            Token::Ampersand => Token::Ampersand,
            Token::Bar => Token::Bar,
            Token::Bang => Token::Bang,
            Token::UpArrow => Token::UpArrow,
            Token::LAngle => Token::LAngle,
            Token::RAngle => Token::RAngle,
            Token::Plus => Token::Plus,
            Token::Minus => Token::Minus,
            Token::Times => Token::Times,
            Token::FSlash => Token::FSlash,
            Token::BSlash => Token::BSlash,
            Token::Dot => Token::Dot,
            Token::Comma => Token::Comma,
            Token::Colon => Token::Colon,
            Token::Semicolon => Token::Semicolon,
            Token::Underscore => Token::Underscore,
            Token::And => Token::And,
            Token::Or => Token::Or,
            Token::Eqq => Token::Eqq,
            Token::Neq => Token::Neq,
            Token::Leq => Token::Leq,
            Token::Geq => Token::Geq,
            Token::Arrow => Token::Arrow,
            Token::Exponent => Token::Exponent,
            Token::Let => Token::Let,
            Token::Mut => Token::Mut,
            Token::Fn => Token::Fn,
            Token::If => Token::If,
            Token::Else => Token::Else,
            Token::Match => Token::Match,
            Token::Const => Token::Const,
            Token::Struct => Token::Struct,
            Token::Enum => Token::Enum,
            Token::True => Token::True,
            Token::False => Token::False,
            Token::Ident(text) => Token::Ident(text.clone()),
            Token::Error { start, end } => Token::Error { start: *start, end: *end },
            Token::Eof => Token::Eof,
        }
    }
}

impl Token {
    /// The kind of this token: two tokens of one variant have the same kind,
    /// whatever they carry.
    pub fn ty(&self) -> (kind: TokenType)
        ensures
            kind == self@.kind(),
    {
        match self {
            Token::IntLit(_) => TokenType::IntLit,
            Token::FloatLit(_) => TokenType::FloatLit,
            Token::StringLit(_) => TokenType::StringLit,
            Token::CharLit(_) => TokenType::CharLit,
            Token::LParen => TokenType::LParen,
            Token::RParen => TokenType::RParen,
            Token::LBrace => TokenType::LBrace,
            Token::RBrace => TokenType::RBrace,
            Token::LBracket => TokenType::LBracket,
            Token::RBracket => TokenType::RBracket,
            Token::Eq => TokenType::Eq,
            Token::Ampersand => TokenType::Ampersand,
            Token::Bar => TokenType::Bar,
            Token::Bang => TokenType::Bang,
            Token::UpArrow => TokenType::UpArrow,
            Token::LAngle => TokenType::LAngle,
            Token::RAngle => TokenType::RAngle,
            Token::Plus => TokenType::Plus,
            Token::Minus => TokenType::Minus,
            Token::Times => TokenType::Times,
            Token::FSlash => TokenType::FSlash,
            Token::BSlash => TokenType::BSlash,
            Token::Dot => TokenType::Dot,
            Token::Comma => TokenType::Comma,
            Token::Colon => TokenType::Colon,
            Token::Semicolon => TokenType::Semicolon,
            Token::Underscore => TokenType::Underscore,
            Token::And => TokenType::And,
            Token::Or => TokenType::Or,
            Token::Eqq => TokenType::Eqq,
            Token::Neq => TokenType::Neq,
            Token::Leq => TokenType::Leq,
            Token::Geq => TokenType::Geq,
            Token::Arrow => TokenType::Arrow,
            Token::Exponent => TokenType::Exponent,
            Token::Let => TokenType::Let,
            Token::Mut => TokenType::Mut,
            Token::Fn => TokenType::Fn,
            Token::If => TokenType::If,
            Token::Else => TokenType::Else,
            Token::Match => TokenType::Match,
            Token::Const => TokenType::Const,
            Token::Struct => TokenType::Struct,
            Token::Enum => TokenType::Enum,
            Token::True => TokenType::True,
            Token::False => TokenType::False,
            Token::Ident(_) => TokenType::Ident,
            Token::Error { .. } => TokenType::Error,
            Token::Eof => TokenType::Eof,
        }
    }
}

} // verus!
