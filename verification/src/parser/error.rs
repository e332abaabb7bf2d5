//! Why a parse failed, as a value, and as a message for a reader.

use vstd::prelude::*;
use vstd::string::StringExecFns;
use crate::lexer::token::TokenType;

verus! {

/// What a production was looking for when it met a token that it cannot start
/// with.
#[derive(Debug, Clone, Copy, PartialEq, Eq)]
pub enum Expected {
    /// The start of an expression.
    Expression,
    /// The start of a type name.
    TypeName,
    /// The start of an item.
    Item,
    /// One of `,`, `(` and `{` behind the name of an enum variant.
    VariantBody,
}

/// Why a production failed.
#[derive(Debug, Clone, Copy, PartialEq, Eq)]
pub enum ParseError {
    /// The input ended where a specific token was required.
    MissingToken,
    /// The next token is not of the kind that the production requires.
    MismatchedToken { expected: TokenType, found: TokenType },
    /// The next token cannot start or continue the production.
    UnexpectedToken(TokenType, Option<Expected>),
}

impl Expected {
    /// What was looked for, in words.
    pub open spec fn description_text(self) -> Seq<char> {
        match self {
            Expected::Expression => "start of expression"@,
            Expected::TypeName => "start of type name"@,
            Expected::Item => "start of item"@,
            Expected::VariantBody => "one of `,` `(` `{`"@,
        }
    }

    /// What was looked for, in words.
    pub fn description(&self) -> (text: &'static str)
        ensures
            text@ == self.description_text(),
    {
        match self {
            Expected::Expression => "start of expression",
            Expected::TypeName => "start of type name",
            Expected::Item => "start of item",
            Expected::VariantBody => "one of `,` `(` `{`",
        }
    }
}

impl ParseError {
    /// The failure in words, for a reader.
    pub open spec fn message_text(self) -> Seq<char> {
        match self {
            ParseError::MissingToken => "expected another token"@,
            ParseError::MismatchedToken { expected, found } => "expected token `"@
                + expected.name_text() + "`, found token `"@ + found.name_text() + "`"@,
            ParseError::UnexpectedToken(found, None) => "unexpected token `"@ + found.name_text()
                + "`"@,
            ParseError::UnexpectedToken(found, Some(wanted)) => "unexpected token `"@
                + found.name_text() + "`"@ + ", expected "@ + wanted.description_text(),
        }
    }

    /// The failure in words, for a reader.
    pub fn message(&self) -> (text: String)
        ensures
            text@ == self.message_text(),
    {
        match self {
            ParseError::MissingToken => String::from_str("expected another token"),
            ParseError::MismatchedToken { expected, found } => {
                let mut text = String::from_str("expected token `");
                text.append(expected.name());
                text.append("`, found token `");
                text.append(found.name());
                text.append("`");
                text
            },
            ParseError::UnexpectedToken(found, wanted) => {
                let mut text = String::from_str("unexpected token `");
                text.append(found.name());
                text.append("`");
                match wanted {
                    Some(wanted) => {
                        text.append(", expected ");
                        text.append(wanted.description());
                    },
                    None => {},
                }
                text
            },
        }
    }
}

} // verus!
