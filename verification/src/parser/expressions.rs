//! Expressions: operator precedence by binding powers, with one token of
//! lookahead.

use vstd::prelude::*;
use crate::lexer::token::Token;
use crate::lexer::token::TokenType;
use crate::model::lemma_views_empty;
use crate::model::lemma_views_push;
use crate::model::views;
use crate::parser::Expected;
use crate::parser::ParseError;
use crate::parser::ParseResult;
use crate::parser::Parser;
use crate::parser::ast::Binding;
use crate::parser::ast::Bop;
use crate::parser::ast::Expr;
use crate::parser::ast::Lit;
use crate::parser::ast::Unop;
use crate::parser::grammar::binary_operator;
use crate::parser::grammar::block_at;
use crate::parser::grammar::conditional_at;
use crate::parser::grammar::ends_expression;
use crate::parser::grammar::expr_item;
use crate::parser::grammar::expr_list_at;
use crate::parser::grammar::expression_at;
use crate::parser::grammar::expression_from;
use crate::parser::grammar::infix_from;
use crate::parser::grammar::infix_power;
use crate::parser::grammar::lambda_at;
use crate::parser::grammar::lemma_expr_item;
use crate::parser::grammar::let_at;
use crate::parser::grammar::list_items;
use crate::parser::grammar::parenthesized_at;
use crate::parser::grammar::parsed;
use crate::parser::grammar::parsed_list;
use crate::parser::grammar::prefix_at;
use crate::parser::grammar::prefix_power;
use crate::parser::grammar::remaining;
use crate::parser::grammar::unary_at;

verus! {

impl Unop {
    /// The binding power of the operator: above that of every binary
    /// operator.
    pub fn binding_power(&self) -> (power: u8)
        ensures
            power == prefix_power(*self),
    {
        match self {
            Unop::Neg | Unop::Not => 51,
        }
    }
}

impl Bop {
    /// The binding powers of the operator, left and right.
    pub fn binding_power(&self) -> (powers: (u8, u8))
        ensures
            powers == infix_power(*self),
    {
        match self {
            Bop::Assign => (1, 2),
            Bop::Or => (3, 4),
            Bop::And => (5, 6),
            Bop::Eqq | Bop::Neq => (7, 8),
            Bop::Gt | Bop::Lt | Bop::Leq | Bop::Geq => (9, 10),
            Bop::BOr => (11, 12),
            Bop::Xor => (13, 14),
            Bop::BAnd => (15, 16),
            Bop::Add | Bop::Sub => (17, 18),
            Bop::Mul | Bop::Div => (19, 20),
            Bop::Exp => (22, 21),
        }
    }

    /// The binary operator that a token of the given kind stands for.
    pub fn of_token(kind: TokenType) -> (op: Option<Bop>)
        ensures
            op == binary_operator(kind),
    {
        match kind {
            TokenType::Eq => Some(Bop::Assign),
            TokenType::Plus => Some(Bop::Add),
            TokenType::Minus => Some(Bop::Sub),
            TokenType::Times => Some(Bop::Mul),
            TokenType::FSlash => Some(Bop::Div),
            TokenType::UpArrow => Some(Bop::Xor),
            TokenType::Ampersand => Some(Bop::BAnd),
            TokenType::Bar => Some(Bop::BOr),
            TokenType::Exponent => Some(Bop::Exp),
            TokenType::Eqq => Some(Bop::Eqq),
            TokenType::Neq => Some(Bop::Neq),
            TokenType::And => Some(Bop::And),
            TokenType::Or => Some(Bop::Or),
            TokenType::LAngle => Some(Bop::Lt),
            TokenType::Leq => Some(Bop::Leq),
            TokenType::RAngle => Some(Bop::Gt),
            TokenType::Geq => Some(Bop::Geq),
            _ => None,
        }
    }
}

/// Whether a token of the given kind ends the expression before it.
fn is_terminator(kind: TokenType) -> (yes: bool)
    ensures
        yes == ends_expression(kind),
{
    match kind {
        TokenType::Eof
        | TokenType::Else
        | TokenType::RParen
        | TokenType::RBrace
        | TokenType::RBracket
        | TokenType::Comma
        | TokenType::Semicolon
        | TokenType::Fn
        | TokenType::Const
        | TokenType::Struct
        | TokenType::Enum => true,
        _ => false,
    }
}

impl Parser {
    /// Parses one syntactically complete expression and leaves the cursor
    /// behind it.
    pub fn expression(&mut self) -> (outcome: ParseResult<Expr>)
        requires
            old(self).wf(),
        ensures
            final(self).follows(*old(self)),
            parsed(outcome, final(self).cursor()) == expression_at(
                old(self).stream(),
                old(self).cursor(),
            ),
            outcome is Ok ==> remaining(final(self).stream(), final(self).cursor()) < remaining(
                old(self).stream(),
                old(self).cursor(),
            ),
        decreases remaining(old(self).stream(), old(self).cursor()), 7nat,
    {
        reveal(expression_from);
        self.parse_expression(0)
    }

    /// Parses an expression whose binary operators all have a left binding
    /// power of at least `binding_power`; a weaker operator is left to the
    /// caller.
    pub fn parse_expression(&mut self, binding_power: u8) -> (outcome: ParseResult<Expr>)
        requires
            old(self).wf(),
        ensures
            final(self).follows(*old(self)),
            parsed(outcome, final(self).cursor()) == expression_from(
                old(self).stream(),
                old(self).cursor(),
                binding_power,
            ),
            outcome is Ok ==> remaining(final(self).stream(), final(self).cursor()) < remaining(
                old(self).stream(),
                old(self).cursor(),
            ),
        decreases remaining(old(self).stream(), old(self).cursor()), 5nat,
    {
        reveal(expression_from);
        reveal(infix_from);
        reveal(prefix_at);
        let ghost tokens = self.stream();
        let ghost origin = self.cursor();
        let mut lhs = self.prefix()?;
        let ghost start = self.cursor();
        let ghost head = lhs@;
        loop
            invariant
                self.wf(),
                self.stream() == tokens,
                tokens == old(self).stream(),
                origin == old(self).cursor(),
                start <= self.cursor(),
                origin <= start,
                remaining(tokens, self.cursor()) < remaining(tokens, origin),
                expression_from(tokens, origin, binding_power) == infix_from(
                    tokens,
                    start,
                    head,
                    binding_power,
                ),
                infix_from(tokens, self.cursor(), lhs@, binding_power) == infix_from(
                    tokens,
                    start,
                    head,
                    binding_power,
                ),
            decreases remaining(tokens, self.cursor()),
        {
            reveal(infix_from);
            reveal(expression_from);
            let kind = self.peek().ty();
            if kind == TokenType::LParen {
                let args = self.expression_list(TokenType::LParen, TokenType::RParen)?;
                lhs = Expr::FnCall { fun: Box::new(lhs), args };
                proof {
                    lhs.lemma_view();
                }
            } else {
                match Bop::of_token(kind) {
                    Some(op) => {
                        let (left, right) = op.binding_power();
                        if left < binding_power {
                            return Ok(lhs);
                        }
                        self.next();
                        let rhs = self.parse_expression(right)?;
                        lhs = Expr::BinaryOp { op, lhs: Box::new(lhs), rhs: Box::new(rhs) };
                        proof {
                            lhs.lemma_view();
                        }
                    },
                    None => {
                        if is_terminator(kind) {
                            return Ok(lhs);
                        } else {
                            return Err(ParseError::UnexpectedToken(kind, None));
                        }
                    },
                }
            }
        }
    }

    /// Parses the start of an expression: all of it but the argument lists
    /// and binary operators that may follow.
    fn prefix(&mut self) -> (outcome: ParseResult<Expr>)
        requires
            old(self).wf(),
        ensures
            final(self).follows(*old(self)),
            parsed(outcome, final(self).cursor()) == prefix_at(old(self).stream(), old(self).cursor()),
            outcome is Ok ==> remaining(final(self).stream(), final(self).cursor()) < remaining(
                old(self).stream(),
                old(self).cursor(),
            ),
        decreases remaining(old(self).stream(), old(self).cursor()), 3nat,
    {
        reveal(prefix_at);
        reveal(parenthesized_at);
        reveal(conditional_at);
        reveal(unary_at);
        reveal(let_at);
        reveal(lambda_at);
        reveal(block_at);
        match self.peek() {
            Token::LParen => {
                self.next();
                self.parenthesized()
            },
            Token::IntLit(value) => {
                let lit = Lit::Int(*value);
                self.next();
                proof {
                    lit.lemma_view();
                    Expr::Literal(lit).lemma_view();
                }
                Ok(Expr::Literal(lit))
            },
            Token::FloatLit(lexeme) => {
                let lit = Lit::Float(lexeme.clone());
                self.next();
                proof {
                    lit.lemma_view();
                    Expr::Literal(lit).lemma_view();
                }
                Ok(Expr::Literal(lit))
            },
            Token::StringLit(text) => {
                let lit = Lit::Str(text.clone());
                self.next();
                proof {
                    lit.lemma_view();
                    Expr::Literal(lit).lemma_view();
                }
                Ok(Expr::Literal(lit))
            },
            Token::CharLit(c) => {
                let lit = Lit::Char(*c);
                self.next();
                proof {
                    lit.lemma_view();
                    Expr::Literal(lit).lemma_view();
                }
                Ok(Expr::Literal(lit))
            },
            Token::True => {
                self.next();
                proof {
                    Lit::Bool(true).lemma_view();
                    Expr::Literal(Lit::Bool(true)).lemma_view();
                }
                Ok(Expr::Literal(Lit::Bool(true)))
            },
            Token::False => {
                self.next();
                proof {
                    Lit::Bool(false).lemma_view();
                    Expr::Literal(Lit::Bool(false)).lemma_view();
                }
                Ok(Expr::Literal(Lit::Bool(false)))
            },
            Token::Ident(name) => {
                let expr = Expr::Ident(name.clone());
                self.next();
                proof {
                    expr.lemma_view();
                }
                Ok(expr)
            },
            Token::If => {
                self.next();
                self.conditional()
            },
            Token::Minus => {
                self.next();
                self.unary(Unop::Neg)
            },
            Token::Bang => {
                self.next();
                self.unary(Unop::Not)
            },
            Token::Let => {
                self.next();
                self.let_binding()
            },
            Token::Bar => self.lambda(),
            Token::LBrace => {
                self.next();
                self.block()
            },
            Token::LBracket => {
                let elements = self.expression_list(TokenType::LBracket, TokenType::RBracket)?;
                let lit = Lit::Array(elements);
                proof {
                    lit.lemma_view();
                    Expr::Literal(lit).lemma_view();
                }
                Ok(Expr::Literal(lit))
            },
            token => Err(ParseError::UnexpectedToken(token.ty(), Some(Expected::Expression))),
        }
    }

    /// Parses what follows an opening parenthesis: an expression and `)`, or,
    /// where a comma follows the first expression, the rest of a tuple.
    fn parenthesized(&mut self) -> (outcome: ParseResult<Expr>)
        requires
            old(self).wf(),
        ensures
            final(self).follows(*old(self)),
            parsed(outcome, final(self).cursor()) == parenthesized_at(
                old(self).stream(),
                old(self).cursor(),
            ),
        decreases remaining(old(self).stream(), old(self).cursor()), 8nat,
    {
        reveal(parenthesized_at);
        let ghost origin = self.cursor();
        let first = self.expression()?;
        if self.consume_at(TokenType::Comma) {
            let mut members: Vec<Expr> = Vec::new();
            proof {
                lemma_views_empty::<Expr>();
                lemma_views_push(members@, first);
            }
            members.push(first);
            let members = self.expression_list_rest(members, TokenType::RParen, Ghost(origin))?;
            let lit = Lit::Tuple(members);
            proof {
                lit.lemma_view();
                Expr::Literal(lit).lemma_view();
            }
            Ok(Expr::Literal(lit))
        } else {
            self.consume(TokenType::RParen)?;
            Ok(first)
        }
    }

    /// Parses what follows `if`: the condition in parentheses, an
    /// expression, and optionally `else` with another expression.
    fn conditional(&mut self) -> (outcome: ParseResult<Expr>)
        requires
            old(self).wf(),
        ensures
            final(self).follows(*old(self)),
            parsed(outcome, final(self).cursor()) == conditional_at(
                old(self).stream(),
                old(self).cursor(),
            ),
        decreases remaining(old(self).stream(), old(self).cursor()), 8nat,
    {
        reveal(conditional_at);
        self.consume(TokenType::LParen)?;
        let cond = self.expression()?;
        self.consume(TokenType::RParen)?;
        let th = self.expression()?;
        let el = if self.consume_at(TokenType::Else) {
            Some(Box::new(self.expression()?))
        } else {
            None
        };
        let expr = Expr::If { cond: Box::new(cond), th: Box::new(th), el };
        proof {
            expr.lemma_view();
        }
        Ok(expr)
    }

    /// Parses the operand of the prefix operator `op` and applies the
    /// operator to it.
    fn unary(&mut self, op: Unop) -> (outcome: ParseResult<Expr>)
        requires
            old(self).wf(),
        ensures
            final(self).follows(*old(self)),
            parsed(outcome, final(self).cursor()) == unary_at(
                old(self).stream(),
                old(self).cursor(),
                op,
            ),
        decreases remaining(old(self).stream(), old(self).cursor()), 8nat,
    {
        reveal(unary_at);
        reveal(expression_from);
        let operand = self.parse_expression(op.binding_power())?;
        let expr = Expr::UnaryOp { op, expr: Box::new(operand) };
        proof {
            expr.lemma_view();
        }
        Ok(expr)
    }

    /// Parses what follows `let`: a binding, `=` and the bound expression.
    fn let_binding(&mut self) -> (outcome: ParseResult<Expr>)
        requires
            old(self).wf(),
        ensures
            final(self).follows(*old(self)),
            parsed(outcome, final(self).cursor()) == let_at(old(self).stream(), old(self).cursor()),
        decreases remaining(old(self).stream(), old(self).cursor()), 8nat,
    {
        reveal(let_at);
        let binding = self.binding()?;
        self.consume(TokenType::Eq)?;
        let value = self.expression()?;
        let expr = Expr::Let { binding, value: Box::new(value) };
        proof {
            expr.lemma_view();
        }
        Ok(expr)
    }

    /// Parses a lambda: the parameters between two `|`, an optional result
    /// type behind a colon, `->` and the body.
    fn lambda(&mut self) -> (outcome: ParseResult<Expr>)
        requires
            old(self).wf(),
        ensures
            final(self).follows(*old(self)),
            parsed(outcome, final(self).cursor()) == lambda_at(old(self).stream(), old(self).cursor()),
            outcome is Ok ==> remaining(final(self).stream(), final(self).cursor()) < remaining(
                old(self).stream(),
                old(self).cursor(),
            ),
        decreases remaining(old(self).stream(), old(self).cursor()), 2nat,
    {
        reveal(lambda_at);
        let params = self.delimited_list::<Binding>(TokenType::Bar, TokenType::Bar)?;
        let return_type = if self.consume_at(TokenType::Colon) {
            Some(self.type_()?)
        } else {
            None
        };
        self.consume(TokenType::Arrow)?;
        let body = self.expression()?;
        let expr = Expr::Lambda { params, return_type, body: Box::new(body) };
        proof {
            expr.lemma_view();
        }
        Ok(expr)
    }

    /// Parses what follows an opening brace: the expressions of a block, each
    /// but the last followed by `;`, and the closing brace. A `;` right
    /// before the closing brace makes a block without a value.
    fn block(&mut self) -> (outcome: ParseResult<Expr>)
        requires
            old(self).wf(),
        ensures
            final(self).follows(*old(self)),
            parsed(outcome, final(self).cursor()) == block_at(
                old(self).stream(),
                old(self).cursor(),
                Seq::empty(),
            ),
        decreases remaining(old(self).stream(), old(self).cursor()), 8nat,
    {
        reveal(block_at);
        let ghost tokens = self.stream();
        let ghost origin = self.cursor();
        let mut exprs: Vec<Expr> = Vec::new();
        proof {
            lemma_views_empty::<Expr>();
        }
        loop
            invariant
                self.wf(),
                self.stream() == tokens,
                tokens == old(self).stream(),
                origin == old(self).cursor(),
                origin <= self.cursor(),
                block_at(tokens, self.cursor(), views(exprs@)) == block_at(
                    tokens,
                    origin,
                    Seq::empty(),
                ),
            decreases remaining(tokens, self.cursor()),
        {
            reveal(block_at);
            if self.at(TokenType::RBrace) {
                self.next();
                let expr = Expr::Block { exprs, trailing: true };
                proof {
                    expr.lemma_view();
                }
                return Ok(expr);
            }
            let expr = self.expression()?;
            proof {
                lemma_views_push(exprs@, expr);
            }
            exprs.push(expr);
            if self.consume_at(TokenType::Semicolon) && self.at(TokenType::RBrace) {
                self.next();
                let expr = Expr::Block { exprs, trailing: false };
                proof {
                    expr.lemma_view();
                }
                return Ok(expr);
            }
        }
    }

    /// Parses a delimited list of expressions,
    /// `start expression (, expression)* (,)? end`.
    pub fn expression_list(&mut self, start: TokenType, end: TokenType) -> (outcome: ParseResult<
        Vec<Expr>,
    >)
        requires
            old(self).wf(),
        ensures
            final(self).follows(*old(self)),
            parsed_list(outcome, final(self).cursor()) == expr_list_at(
                old(self).stream(),
                old(self).cursor(),
                start,
                end,
            ),
            outcome is Ok ==> remaining(final(self).stream(), final(self).cursor()) < remaining(
                old(self).stream(),
                old(self).cursor(),
            ),
        decreases remaining(old(self).stream(), old(self).cursor()), 1nat,
    {
        let ghost origin = self.cursor();
        self.consume(start)?;
        proof {
            lemma_views_empty::<Expr>();
        }
        self.expression_list_rest(Vec::new(), end, Ghost(origin))
    }

    /// Parses the items of a list of expressions behind its opening token
    /// or a separator, up to and including the closing token of kind `end`.
    /// `seen` holds the expressions read so far; the list was opened at or
    /// behind position `floor`.
    fn expression_list_rest(
        &mut self,
        seen: Vec<Expr>,
        end: TokenType,
        Ghost(floor): Ghost<nat>,
    ) -> (outcome: ParseResult<Vec<Expr>>)
        requires
            old(self).wf(),
            remaining(old(self).stream(), old(self).cursor()) < remaining(old(self).stream(), floor),
        ensures
            final(self).follows(*old(self)),
            parsed_list(outcome, final(self).cursor()) == list_items(
                old(self).stream(),
                old(self).cursor(),
                expr_item(old(self).stream(), floor),
                end,
                views(seen@),
            ),
        decreases remaining(old(self).stream(), old(self).cursor()), 9nat,
    {
        reveal(list_items);
        let ghost tokens = self.stream();
        let ghost origin = self.cursor();
        let ghost item = expr_item(tokens, floor);
        let mut items = seen;
        loop
            invariant
                self.wf(),
                self.stream() == tokens,
                tokens == old(self).stream(),
                origin == old(self).cursor(),
                origin <= self.cursor(),
                remaining(tokens, origin) < remaining(tokens, floor),
                item == expr_item(tokens, floor),
                list_items(tokens, self.cursor(), item, end, views(items@)) == list_items(
                    tokens,
                    origin,
                    item,
                    end,
                    views(seen@),
                ),
            decreases remaining(tokens, self.cursor()),
        {
            reveal(list_items);
            if self.at(end) {
                self.next();
                return Ok(items);
            }
            proof {
                lemma_expr_item(tokens, floor, self.cursor());
            }
            let expr = self.expression()?;
            proof {
                lemma_views_push(items@, expr);
            }
            items.push(expr);
            if !self.consume_at(TokenType::Comma) {
                self.consume(end)?;
                return Ok(items);
            }
        }
    }
}

} // verus!
