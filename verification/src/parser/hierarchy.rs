//! Statements.

use vstd::prelude::*;
use crate::lexer::token::Token;
use crate::lexer::token::TokenType;
use crate::parser::ParseResult;
use crate::parser::Parser;
use crate::parser::ast::Stmt;
use crate::parser::grammar::let_statement_at;
use crate::parser::grammar::parsed;
use crate::parser::grammar::statement_at;

verus! {

impl Parser {
    /// Parses one statement: a `let`, an assignment to a name, or an
    /// expression, each closed by `;`.
    pub fn statement(&mut self) -> (outcome: ParseResult<Stmt>)
        requires
            old(self).wf(),
        ensures
            final(self).follows(*old(self)),
            parsed(outcome, final(self).cursor()) == statement_at(
                old(self).stream(),
                old(self).cursor(),
            ),
    {
        match self.peek() {
            Token::Let => {
                self.next();
                self.let_statement()
            },
            Token::Ident(name) => {
                let ident = name.clone();
                self.next();
                self.consume(TokenType::Eq)?;
                let value = self.expression()?;
                self.consume(TokenType::Semicolon)?;
                Ok(Stmt::Assign { ident, value })
            },
            _ => {
                let expr = self.expression()?;
                self.consume(TokenType::Semicolon)?;
                Ok(Stmt::Expr(expr))
            },
        }
    }

    /// Parses what follows `let` in a statement: an optional `mut`, a name,
    /// an optional type name behind a colon, `=`, the value and `;`.
    fn let_statement(&mut self) -> (outcome: ParseResult<Stmt>)
        requires
            old(self).wf(),
        ensures
            final(self).follows(*old(self)),
            parsed(outcome, final(self).cursor()) == let_statement_at(
                old(self).stream(),
                old(self).cursor(),
            ),
    {
        let mutable = self.consume_at(TokenType::Mut);
        let ident = self.ident()?;
        let type_annotation = if self.consume_at(TokenType::Colon) {
            Some(self.ident()?)
        } else {
            None
        };
        self.consume(TokenType::Eq)?;
        let value = self.expression()?;
        self.consume(TokenType::Semicolon)?;
        Ok(Stmt::Let { mutable, ident, type_annotation, value })
    }
}

} // verus!
