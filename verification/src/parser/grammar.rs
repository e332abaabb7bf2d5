//! The grammar, as functions from a sequence of tokens and a position in it
//! to a node or an error, and the position behind what was read.
//!
//! A production that goes on behind a part that it has read asks first that
//! the part has not moved backwards. That is what makes these functions
//! well-founded. The part never has: `laws` proves of every production that
//! it ends at or behind its start, so the other branch, `stuck`, is never
//! taken.

use vstd::prelude::*;
use crate::lexer::token::TokenType;
use crate::lexer::token::TokenView;
use crate::model::views;
use crate::parser::Expected;
use crate::parser::ParseError;
use crate::parser::ast::BindingView;
use crate::parser::ast::Bop;
use crate::parser::ast::ExprView;
use crate::parser::ast::FieldView;
use crate::parser::ast::ItemView;
use crate::parser::ast::LitView;
use crate::parser::ast::StmtView;
use crate::parser::ast::TypeView;
use crate::parser::ast::Unop;
use crate::parser::ast::VariantView;

verus! {

/// The outcome of a production that started at some position of a token
/// sequence: the node or the error, and the position at which the next
/// production starts.
pub ghost struct Parsed<T> {
    pub result: Result<T, ParseError>,
    pub next: nat,
}

/// The lookahead at position `at`: the token there, or `Eof` past the end.
pub open spec fn peek_at(tokens: Seq<TokenView>, at: nat) -> TokenView {
    if at < tokens.len() {
        tokens[at as int]
    } else {
        TokenView::Eof
    }
}

/// The position behind the token at `at`; past the end there is nothing to
/// step over.
pub open spec fn advance(tokens: Seq<TokenView>, at: nat) -> nat {
    if at < tokens.len() {
        at + 1
    } else {
        at
    }
}

/// Whether the token at `at` is of kind `kind`, and the error if it is not:
/// a missing token where the input has ended, a mismatch elsewhere.
pub open spec fn expect(tokens: Seq<TokenView>, at: nat, kind: TokenType) -> Result<
    (),
    ParseError,
> {
    let found = peek_at(tokens, at).kind();
    if found == TokenType::Eof {
        Err(ParseError::MissingToken)
    } else if found != kind {
        Err(ParseError::MismatchedToken { expected: kind, found })
    } else {
        Ok(())
    }
}

/// How many tokens are left at position `at`.
pub open spec fn remaining(tokens: Seq<TokenView>, at: nat) -> nat {
    if at <= tokens.len() {
        (tokens.len() - at) as nat
    } else {
        0
    }
}

/// The outcome of a production as the caller of the parser sees it: the node
/// by its model.
pub open spec fn parsed<T: View>(outcome: Result<T, ParseError>, next: nat) -> Parsed<T::V> {
    Parsed {
        result: match outcome {
            Ok(node) => Ok(node@),
            Err(error) => Err(error),
        },
        next,
    }
}

/// The outcome of a production that yields a list of nodes.
pub open spec fn parsed_list<T: View>(outcome: Result<Vec<T>, ParseError>, next: nat) -> Parsed<
    Seq<T::V>,
> {
    Parsed {
        result: match outcome {
            Ok(nodes) => Ok(views(nodes@)),
            Err(error) => Err(error),
        },
        next,
    }
}

/// The outcome of a production that cannot go on because a part of it has
/// moved backwards. No production ever does.
pub open spec fn stuck<T>(at: nat) -> Parsed<T> {
    Parsed { result: Err(ParseError::MissingToken), next: at }
}

/// The items of a list from position `at` on, behind the opening token or a
/// separator; `seen` holds the items read so far. The list closes at a token
/// of kind `end`, which may follow a separator; an item that no separator
/// follows must be the last one.
#[verifier::opaque]
pub open spec fn list_items<T>(
    tokens: Seq<TokenView>,
    at: nat,
    item: spec_fn(nat) -> Parsed<T>,
    end: TokenType,
    seen: Seq<T>,
) -> Parsed<Seq<T>>
    decreases remaining(tokens, at),
{
    if peek_at(tokens, at).kind() == end {
        Parsed { result: Ok(seen), next: advance(tokens, at) }
    } else {
        let first = item(at);
        match first.result {
            Err(error) => Parsed { result: Err(error), next: first.next },
            Ok(node) => if peek_at(tokens, first.next).kind() == TokenType::Comma {
                if at <= first.next {
                    list_items(tokens, first.next + 1, item, end, seen.push(node))
                } else {
                    stuck(first.next)
                }
            } else {
                match expect(tokens, first.next, end) {
                    Err(error) => Parsed { result: Err(error), next: advance(tokens, first.next) },
                    Ok(_) => Parsed {
                        result: Ok(seen.push(node)),
                        next: advance(tokens, first.next),
                    },
                }
            },
        }
    }
}

/// A delimited list, `start item (, item)* (,)? end`, from position `at` on:
/// the items in order. `item` is the production of one item.
pub open spec fn delimited_list<T>(
    tokens: Seq<TokenView>,
    at: nat,
    item: spec_fn(nat) -> Parsed<T>,
    start: TokenType,
    end: TokenType,
) -> Parsed<Seq<T>> {
    match expect(tokens, at, start) {
        Err(error) => Parsed { result: Err(error), next: advance(tokens, at) },
        Ok(_) => list_items(tokens, at + 1, item, end, Seq::empty()),
    }
}

/// The production of a type inside a list that was opened at or behind
/// position `floor`.
pub open spec fn type_item(tokens: Seq<TokenView>, floor: nat) -> spec_fn(nat) -> Parsed<TypeView>
    decreases remaining(tokens, floor), 0nat,
{
    |at: nat|
        if remaining(tokens, at) < remaining(tokens, floor) {
            type_at(tokens, at)
        } else {
            stuck(at)
        }
}

/// Inside a list, an item behind the opening token is a type expression.
pub proof fn lemma_type_item(tokens: Seq<TokenView>, floor: nat, at: nat)
    requires
        remaining(tokens, at) < remaining(tokens, floor),
    ensures
        type_item(tokens, floor)(at) == type_at(tokens, at),
{
    reveal(type_at);
}

/// A delimited list of types from position `at` on.
pub open spec fn type_list_at(
    tokens: Seq<TokenView>,
    at: nat,
    start: TokenType,
    end: TokenType,
) -> Parsed<Seq<TypeView>>
    decreases remaining(tokens, at), 1nat,
{
    delimited_list(tokens, at, type_item(tokens, at), start, end)
}

/// A type expression from position `at` on: a name with optional generic
/// arguments, an array type, a tuple type or a function type.
#[verifier::opaque]
pub open spec fn type_at(tokens: Seq<TokenView>, at: nat) -> Parsed<TypeView>
    decreases remaining(tokens, at), 2nat,
{
    match peek_at(tokens, at) {
        TokenView::Ident(name) => if peek_at(tokens, at + 1).kind() == TokenType::LAngle {
            let generics = type_list_at(tokens, at + 1, TokenType::LAngle, TokenType::RAngle);
            match generics.result {
                Err(error) => Parsed { result: Err(error), next: generics.next },
                Ok(arguments) => Parsed {
                    result: Ok(TypeView::Ident { name, generics: arguments }),
                    next: generics.next,
                },
            }
        } else {
            Parsed {
                result: Ok(TypeView::Ident { name, generics: Seq::empty() }),
                next: at + 1,
            }
        },
        TokenView::LBracket => {
            let inner = type_at(tokens, at + 1);
            match inner.result {
                Err(error) => Parsed { result: Err(error), next: inner.next },
                Ok(element) => match expect(tokens, inner.next, TokenType::RBracket) {
                    Err(error) => Parsed { result: Err(error), next: advance(tokens, inner.next) },
                    Ok(_) => Parsed {
                        result: Ok(TypeView::Array(Box::new(element))),
                        next: advance(tokens, inner.next),
                    },
                },
            }
        },
        TokenView::LParen => {
            let members = type_list_at(tokens, at, TokenType::LParen, TokenType::RParen);
            match members.result {
                Err(error) => Parsed { result: Err(error), next: members.next },
                Ok(types) => Parsed { result: Ok(TypeView::Tuple(types)), next: members.next },
            }
        },
        TokenView::Fn => {
            let params = type_list_at(tokens, at + 1, TokenType::LParen, TokenType::RParen);
            match params.result {
                Err(error) => Parsed { result: Err(error), next: params.next },
                Ok(types) => match expect(tokens, params.next, TokenType::Colon) {
                    Err(error) => Parsed { result: Err(error), next: advance(tokens, params.next) },
                    Ok(_) => if at < params.next {
                        let result = type_at(tokens, params.next + 1);
                        match result.result {
                            Err(error) => Parsed { result: Err(error), next: result.next },
                            Ok(ty) => Parsed {
                                result: Ok(TypeView::Fn { params: types, result: Box::new(ty) }),
                                next: result.next,
                            },
                        }
                    } else {
                        stuck(params.next)
                    },
                },
            }
        },
        token => Parsed {
            result: Err(ParseError::UnexpectedToken(token.kind(), Some(Expected::TypeName))),
            next: at,
        },
    }
}

/// An identifier at position `at`: its name.
pub open spec fn ident_at(tokens: Seq<TokenView>, at: nat) -> Parsed<Seq<char>> {
    match peek_at(tokens, at) {
        TokenView::Ident(name) => Parsed { result: Ok(name), next: at + 1 },
        TokenView::Eof => Parsed { result: Err(ParseError::MissingToken), next: advance(tokens, at) },
        token => Parsed {
            result: Err(
                ParseError::MismatchedToken { expected: TokenType::Ident, found: token.kind() },
            ),
            next: at + 1,
        },
    }
}

/// A binding from position `at` on: an optional `mut`, a name, and an
/// optional type behind a colon.
#[verifier::opaque]
pub open spec fn binding_at(tokens: Seq<TokenView>, at: nat) -> Parsed<BindingView> {
    let mutable = peek_at(tokens, at).kind() == TokenType::Mut;
    let name = ident_at(tokens, if mutable { at + 1 } else { at });
    match name.result {
        Err(error) => Parsed { result: Err(error), next: name.next },
        Ok(text) => if peek_at(tokens, name.next).kind() == TokenType::Colon {
            let annotation = type_at(tokens, name.next + 1);
            match annotation.result {
                Err(error) => Parsed { result: Err(error), next: annotation.next },
                Ok(ty) => Parsed {
                    result: Ok(BindingView { mutable, name: text, type_annotation: Some(ty) }),
                    next: annotation.next,
                },
            }
        } else {
            Parsed {
                result: Ok(BindingView { mutable, name: text, type_annotation: None }),
                next: name.next,
            }
        },
    }
}

/// The production of a binding, as an item of a list.
pub open spec fn binding_item(tokens: Seq<TokenView>) -> spec_fn(nat) -> Parsed<BindingView> {
    |at: nat| binding_at(tokens, at)
}

/// The binary operator that a token of kind `kind` stands for, if any.
pub open spec fn binary_operator(kind: TokenType) -> Option<Bop> {
    match kind {
        TokenType::Eq => Some(Bop::Assign),
        TokenType::Plus => Some(Bop::Add),
        TokenType::Minus => Some(Bop::Sub),
        TokenType::Times => Some(Bop::Mul),
        TokenType::FSlash => Some(Bop::Div),
        TokenType::UpArrow => Some(Bop::Xor),
        TokenType::Ampersand => Some(Bop::BAnd),
        TokenType::Bar => Some(Bop::BOr),
        TokenType::Exponent => Some(Bop::Exp),
        TokenType::Eqq => Some(Bop::Eqq),
        TokenType::Neq => Some(Bop::Neq),
        TokenType::And => Some(Bop::And),
        TokenType::Or => Some(Bop::Or),
        TokenType::LAngle => Some(Bop::Lt),
        TokenType::Leq => Some(Bop::Leq),
        TokenType::RAngle => Some(Bop::Gt),
        TokenType::Geq => Some(Bop::Geq),
        _ => None,
    }
}

/// Whether a token of kind `kind` ends the expression before it: a closing
/// delimiter, a separator, `else`, the keyword of an item, or the end of the
/// input.
pub open spec fn ends_expression(kind: TokenType) -> bool {
    kind == TokenType::Eof || kind == TokenType::Else || kind == TokenType::RParen || kind
        == TokenType::RBrace || kind == TokenType::RBracket || kind == TokenType::Comma || kind
        == TokenType::Semicolon || kind == TokenType::Fn || kind == TokenType::Const || kind
        == TokenType::Struct || kind == TokenType::Enum
}

/// The binding powers of a binary operator, left and right. A higher power
/// binds tighter. An operator whose right power is above its left power
/// associates to the left, one whose right power is below it to the right.
pub open spec fn infix_power(op: Bop) -> (u8, u8) {
    match op {
        Bop::Assign => (1, 2),
        Bop::Or => (3, 4),
        Bop::And => (5, 6),
        Bop::Eqq | Bop::Neq => (7, 8),
        Bop::Gt | Bop::Lt | Bop::Leq | Bop::Geq => (9, 10),
        Bop::BOr => (11, 12),
        Bop::Xor => (13, 14),
        Bop::BAnd => (15, 16),
        Bop::Add | Bop::Sub => (17, 18),
        Bop::Mul | Bop::Div => (19, 20),
        Bop::Exp => (22, 21),
    }
}

/// The binding power of a prefix operator: above that of every binary
/// operator.
pub open spec fn prefix_power(op: Unop) -> u8 {
    51
}

/// The production of an expression inside a list that was opened at or
/// behind position `floor`.
pub open spec fn expr_item(tokens: Seq<TokenView>, floor: nat) -> spec_fn(nat) -> Parsed<ExprView>
    decreases remaining(tokens, floor), 0nat,
{
    |at: nat|
        if remaining(tokens, at) < remaining(tokens, floor) {
            expression_at(tokens, at)
        } else {
            stuck(at)
        }
}

/// Inside a list, an item behind the opening token is an expression.
pub proof fn lemma_expr_item(tokens: Seq<TokenView>, floor: nat, at: nat)
    requires
        remaining(tokens, at) < remaining(tokens, floor),
    ensures
        expr_item(tokens, floor)(at) == expression_at(tokens, at),
{
}

/// A delimited list of expressions from position `at` on.
pub open spec fn expr_list_at(
    tokens: Seq<TokenView>,
    at: nat,
    start: TokenType,
    end: TokenType,
) -> Parsed<Seq<ExprView>>
    decreases remaining(tokens, at), 1nat,
{
    delimited_list(tokens, at, expr_item(tokens, at), start, end)
}

/// The expressions of a block from position `at` on, behind the opening
/// brace or a separator; `seen` holds the expressions read so far. A `;`
/// right before the closing brace makes a block without a value.
#[verifier::opaque]
pub open spec fn block_at(tokens: Seq<TokenView>, at: nat, seen: Seq<ExprView>) -> Parsed<ExprView>
    decreases remaining(tokens, at), 8nat,
{
    if peek_at(tokens, at).kind() == TokenType::RBrace {
        Parsed { result: Ok(ExprView::Block { exprs: seen, trailing: true }), next: at + 1 }
    } else {
        let first = expression_at(tokens, at);
        match first.result {
            Err(error) => Parsed { result: Err(error), next: first.next },
            Ok(expr) => if remaining(tokens, first.next) < remaining(tokens, at) {
                if peek_at(tokens, first.next).kind() == TokenType::Semicolon {
                    if peek_at(tokens, first.next + 1).kind() == TokenType::RBrace {
                        Parsed {
                            result: Ok(ExprView::Block { exprs: seen.push(expr), trailing: false }),
                            next: first.next + 2,
                        }
                    } else {
                        block_at(tokens, first.next + 1, seen.push(expr))
                    }
                } else {
                    block_at(tokens, first.next, seen.push(expr))
                }
            } else {
                stuck(first.next)
            },
        }
    }
}

/// What stands behind `(` at position `at - 1`: an expression in
/// parentheses, or, where a comma follows the first expression, a tuple.
#[verifier::opaque]
pub open spec fn parenthesized_at(tokens: Seq<TokenView>, at: nat) -> Parsed<ExprView>
    decreases remaining(tokens, at), 8nat,
{
    let first = expression_at(tokens, at);
    match first.result {
        Err(error) => Parsed { result: Err(error), next: first.next },
        Ok(expr) => if peek_at(tokens, first.next).kind() == TokenType::Comma {
            if at <= first.next {
                let members = list_items(
                    tokens,
                    first.next + 1,
                    expr_item(tokens, at),
                    TokenType::RParen,
                    seq![expr],
                );
                match members.result {
                    Err(error) => Parsed { result: Err(error), next: members.next },
                    Ok(exprs) => Parsed {
                        result: Ok(ExprView::Literal(LitView::Tuple(exprs))),
                        next: members.next,
                    },
                }
            } else {
                stuck(first.next)
            }
        } else {
            match expect(tokens, first.next, TokenType::RParen) {
                Err(error) => Parsed { result: Err(error), next: advance(tokens, first.next) },
                Ok(_) => Parsed { result: Ok(expr), next: advance(tokens, first.next) },
            }
        },
    }
}

/// What stands behind `if` at position `at - 1`: a condition in
/// parentheses, an expression, and optionally `else` and another
/// expression.
#[verifier::opaque]
pub open spec fn conditional_at(tokens: Seq<TokenView>, at: nat) -> Parsed<ExprView>
    decreases remaining(tokens, at), 8nat,
{
    match expect(tokens, at, TokenType::LParen) {
        Err(error) => Parsed { result: Err(error), next: advance(tokens, at) },
        Ok(_) => {
            let cond = expression_at(tokens, at + 1);
            match cond.result {
                Err(error) => Parsed { result: Err(error), next: cond.next },
                Ok(cond_expr) => match expect(tokens, cond.next, TokenType::RParen) {
                    Err(error) => Parsed { result: Err(error), next: advance(tokens, cond.next) },
                    Ok(_) => if at < cond.next {
                        let th = expression_at(tokens, cond.next + 1);
                        match th.result {
                            Err(error) => Parsed { result: Err(error), next: th.next },
                            Ok(th_expr) => if peek_at(tokens, th.next).kind() == TokenType::Else {
                                if at < th.next {
                                    let el = expression_at(tokens, th.next + 1);
                                    match el.result {
                                        Err(error) => Parsed { result: Err(error), next: el.next },
                                        Ok(el_expr) => Parsed {
                                            result: Ok(
                                                ExprView::If {
                                                    cond: Box::new(cond_expr),
                                                    th: Box::new(th_expr),
                                                    el: Some(Box::new(el_expr)),
                                                },
                                            ),
                                            next: el.next,
                                        },
                                    }
                                } else {
                                    stuck(th.next)
                                }
                            } else {
                                Parsed {
                                    result: Ok(
                                        ExprView::If {
                                            cond: Box::new(cond_expr),
                                            th: Box::new(th_expr),
                                            el: None,
                                        },
                                    ),
                                    next: th.next,
                                }
                            },
                        }
                    } else {
                        stuck(cond.next)
                    },
                },
            }
        },
    }
}

/// What stands behind `let` at position `at - 1`: a binding, `=` and the
/// bound expression.
#[verifier::opaque]
pub open spec fn let_at(tokens: Seq<TokenView>, at: nat) -> Parsed<ExprView>
    decreases remaining(tokens, at), 8nat,
{
    let binding = binding_at(tokens, at);
    match binding.result {
        Err(error) => Parsed { result: Err(error), next: binding.next },
        Ok(bound) => match expect(tokens, binding.next, TokenType::Eq) {
            Err(error) => Parsed { result: Err(error), next: advance(tokens, binding.next) },
            Ok(_) => if at <= binding.next {
                let value = expression_at(tokens, binding.next + 1);
                match value.result {
                    Err(error) => Parsed { result: Err(error), next: value.next },
                    Ok(expr) => Parsed {
                        result: Ok(ExprView::Let { binding: bound, value: Box::new(expr) }),
                        next: value.next,
                    },
                }
            } else {
                stuck(binding.next)
            },
        },
    }
}

/// A lambda whose parameter list opens at position `at`: the parameters
/// between two `|`, an optional result type behind a colon, `->` and the
/// body.
#[verifier::opaque]
pub open spec fn lambda_at(tokens: Seq<TokenView>, at: nat) -> Parsed<ExprView>
    decreases remaining(tokens, at), 2nat,
{
    let params = delimited_list(tokens, at, binding_item(tokens), TokenType::Bar, TokenType::Bar);
    match params.result {
        Err(error) => Parsed { result: Err(error), next: params.next },
        Ok(bindings) => {
            let annotated = peek_at(tokens, params.next).kind() == TokenType::Colon;
            let result = if annotated {
                type_at(tokens, params.next + 1)
            } else {
                Parsed { result: Ok(TypeView::Tuple(Seq::empty())), next: params.next }
            };
            match result.result {
                Err(error) => Parsed { result: Err(error), next: result.next },
                Ok(ty) => match expect(tokens, result.next, TokenType::Arrow) {
                    Err(error) => Parsed { result: Err(error), next: advance(tokens, result.next) },
                    Ok(_) => if at < result.next {
                        let body = expression_at(tokens, result.next + 1);
                        match body.result {
                            Err(error) => Parsed { result: Err(error), next: body.next },
                            Ok(expr) => Parsed {
                                result: Ok(
                                    ExprView::Lambda {
                                        params: bindings,
                                        return_type: if annotated {
                                            Some(ty)
                                        } else {
                                            None
                                        },
                                        body: Box::new(expr),
                                    },
                                ),
                                next: body.next,
                            },
                        }
                    } else {
                        stuck(result.next)
                    },
                },
            }
        },
    }
}

/// The start of an expression at position `at`: a literal, a name, an
/// expression in parentheses or a tuple, a conditional, a prefix operator
/// with its operand, a `let`, a lambda, a block or an array literal.
#[verifier::opaque]
pub open spec fn prefix_at(tokens: Seq<TokenView>, at: nat) -> Parsed<ExprView>
    decreases remaining(tokens, at), 3nat,
{
    match peek_at(tokens, at) {
        TokenView::LParen => parenthesized_at(tokens, at + 1),
        TokenView::IntLit(value) => Parsed {
            result: Ok(ExprView::Literal(LitView::Int(value))),
            next: at + 1,
        },
        TokenView::FloatLit(lexeme) => Parsed {
            result: Ok(ExprView::Literal(LitView::Float(lexeme))),
            next: at + 1,
        },
        TokenView::StringLit(text) => Parsed {
            result: Ok(ExprView::Literal(LitView::Str(text))),
            next: at + 1,
        },
        TokenView::CharLit(c) => Parsed {
            result: Ok(ExprView::Literal(LitView::Char(c))),
            next: at + 1,
        },
        TokenView::True => Parsed {
            result: Ok(ExprView::Literal(LitView::Bool(true))),
            next: at + 1,
        },
        TokenView::False => Parsed {
            result: Ok(ExprView::Literal(LitView::Bool(false))),
            next: at + 1,
        },
        TokenView::Ident(name) => Parsed { result: Ok(ExprView::Ident(name)), next: at + 1 },
        TokenView::If => conditional_at(tokens, at + 1),
        TokenView::Minus => unary_at(tokens, at + 1, Unop::Neg),
        TokenView::Bang => unary_at(tokens, at + 1, Unop::Not),
        TokenView::Let => let_at(tokens, at + 1),
        TokenView::Bar => lambda_at(tokens, at),
        TokenView::LBrace => block_at(tokens, at + 1, Seq::empty()),
        TokenView::LBracket => {
            let elements = expr_list_at(tokens, at, TokenType::LBracket, TokenType::RBracket);
            match elements.result {
                Err(error) => Parsed { result: Err(error), next: elements.next },
                Ok(exprs) => Parsed {
                    result: Ok(ExprView::Literal(LitView::Array(exprs))),
                    next: elements.next,
                },
            }
        },
        token => Parsed {
            result: Err(ParseError::UnexpectedToken(token.kind(), Some(Expected::Expression))),
            next: at,
        },
    }
}

/// The operand of the prefix operator `op` from position `at` on, and the
/// operator applied to it.
#[verifier::opaque]
pub open spec fn unary_at(tokens: Seq<TokenView>, at: nat, op: Unop) -> Parsed<ExprView>
    decreases remaining(tokens, at), 8nat,
{
    let operand = expression_from(tokens, at, prefix_power(op));
    match operand.result {
        Err(error) => Parsed { result: Err(error), next: operand.next },
        Ok(expr) => Parsed {
            result: Ok(ExprView::UnaryOp { op, expr: Box::new(expr) }),
            next: operand.next,
        },
    }
}

/// What follows the expression `lhs` from position `at` on: argument lists
/// and binary operators with their right operands. An argument list applies
/// to all of `lhs`. An operator whose left power is below `min_power` is
/// left to the caller, and so is a token that ends the expression.
#[verifier::opaque]
pub open spec fn infix_from(
    tokens: Seq<TokenView>,
    at: nat,
    lhs: ExprView,
    min_power: u8,
) -> Parsed<ExprView>
    decreases remaining(tokens, at), 4nat,
{
    let kind = peek_at(tokens, at).kind();
    if kind == TokenType::LParen {
        let args = expr_list_at(tokens, at, TokenType::LParen, TokenType::RParen);
        match args.result {
            Err(error) => Parsed { result: Err(error), next: args.next },
            Ok(exprs) => if at < args.next {
                infix_from(
                    tokens,
                    args.next,
                    ExprView::FnCall { fun: Box::new(lhs), args: exprs },
                    min_power,
                )
            } else {
                stuck(args.next)
            },
        }
    } else {
        match binary_operator(kind) {
            Some(op) => if infix_power(op).0 < min_power {
                Parsed { result: Ok(lhs), next: at }
            } else {
                let rhs = expression_from(tokens, at + 1, infix_power(op).1);
                match rhs.result {
                    Err(error) => Parsed { result: Err(error), next: rhs.next },
                    Ok(expr) => if at < rhs.next {
                        infix_from(
                            tokens,
                            rhs.next,
                            ExprView::BinaryOp { op, lhs: Box::new(lhs), rhs: Box::new(expr) },
                            min_power,
                        )
                    } else {
                        stuck(rhs.next)
                    },
                }
            },
            None => if ends_expression(kind) {
                Parsed { result: Ok(lhs), next: at }
            } else {
                Parsed { result: Err(ParseError::UnexpectedToken(kind, None)), next: at }
            },
        }
    }
}

/// An expression from position `at` on whose binary operators all have a
/// left power of at least `min_power`.
#[verifier::opaque]
pub open spec fn expression_from(tokens: Seq<TokenView>, at: nat, min_power: u8) -> Parsed<
    ExprView,
>
    decreases remaining(tokens, at), 5nat,
{
    let head = prefix_at(tokens, at);
    match head.result {
        Err(error) => Parsed { result: Err(error), next: head.next },
        Ok(lhs) => if at <= head.next {
            infix_from(tokens, head.next, lhs, min_power)
        } else {
            stuck(head.next)
        },
    }
}

/// One syntactically complete expression from position `at` on.
pub open spec fn expression_at(tokens: Seq<TokenView>, at: nat) -> Parsed<ExprView>
    decreases remaining(tokens, at), 7nat,
{
    expression_from(tokens, at, 0)
}

/// The value of a statement from position `at` on and the `;` that closes
/// the statement; `wrap` makes the statement of the value.
pub open spec fn closed_by_semicolon(
    tokens: Seq<TokenView>,
    at: nat,
    wrap: spec_fn(ExprView) -> StmtView,
) -> Parsed<StmtView> {
    let value = expression_at(tokens, at);
    match value.result {
        Err(error) => Parsed { result: Err(error), next: value.next },
        Ok(expr) => match expect(tokens, value.next, TokenType::Semicolon) {
            Err(error) => Parsed { result: Err(error), next: advance(tokens, value.next) },
            Ok(_) => Parsed { result: Ok(wrap(expr)), next: advance(tokens, value.next) },
        },
    }
}

/// What stands behind `let` at position `at - 1` in a statement: an
/// optional `mut`, a name, an optional type name behind a colon, `=`, the
/// value and `;`.
pub open spec fn let_statement_at(tokens: Seq<TokenView>, at: nat) -> Parsed<StmtView> {
    let mutable = peek_at(tokens, at).kind() == TokenType::Mut;
    let name = ident_at(tokens, if mutable { at + 1 } else { at });
    match name.result {
        Err(error) => Parsed { result: Err(error), next: name.next },
        Ok(ident) => {
            let annotated = peek_at(tokens, name.next).kind() == TokenType::Colon;
            let annotation = if annotated {
                ident_at(tokens, name.next + 1)
            } else {
                Parsed { result: Ok(Seq::empty()), next: name.next }
            };
            match annotation.result {
                Err(error) => Parsed { result: Err(error), next: annotation.next },
                Ok(ty) => match expect(tokens, annotation.next, TokenType::Eq) {
                    Err(error) => Parsed {
                        result: Err(error),
                        next: advance(tokens, annotation.next),
                    },
                    Ok(_) => closed_by_semicolon(
                        tokens,
                        annotation.next + 1,
                        |value: ExprView|
                            StmtView::Let {
                                mutable,
                                ident,
                                type_annotation: if annotated {
                                    Some(ty)
                                } else {
                                    None
                                },
                                value,
                            },
                    ),
                },
            }
        },
    }
}

/// A statement from position `at` on: a `let`, an assignment to a name, or
/// an expression, each closed by `;`. A statement that starts with a name
/// is an assignment.
pub open spec fn statement_at(tokens: Seq<TokenView>, at: nat) -> Parsed<StmtView> {
    match peek_at(tokens, at) {
        TokenView::Let => let_statement_at(tokens, at + 1),
        TokenView::Ident(ident) => match expect(tokens, at + 1, TokenType::Eq) {
            Err(error) => Parsed { result: Err(error), next: advance(tokens, at + 1) },
            Ok(_) => closed_by_semicolon(
                tokens,
                at + 2,
                |value: ExprView| StmtView::Assign { ident, value },
            ),
        },
        _ => closed_by_semicolon(tokens, at, |value: ExprView| StmtView::Expr(value)),
    }
}

/// The production of an identifier, as an item of a list.
pub open spec fn ident_item(tokens: Seq<TokenView>) -> spec_fn(nat) -> Parsed<Seq<char>> {
    |at: nat| ident_at(tokens, at)
}

/// A field from position `at` on: a name, a colon and a type.
pub open spec fn field_at(tokens: Seq<TokenView>, at: nat) -> Parsed<FieldView> {
    let name = ident_at(tokens, at);
    match name.result {
        Err(error) => Parsed { result: Err(error), next: name.next },
        Ok(text) => match expect(tokens, name.next, TokenType::Colon) {
            Err(error) => Parsed { result: Err(error), next: advance(tokens, name.next) },
            Ok(_) => {
                let ty = type_at(tokens, name.next + 1);
                match ty.result {
                    Err(error) => Parsed { result: Err(error), next: ty.next },
                    Ok(field_type) => Parsed {
                        result: Ok(FieldView { name: text, ty: field_type }),
                        next: ty.next,
                    },
                }
            },
        },
    }
}

/// The production of a field, as an item of a list.
pub open spec fn field_item(tokens: Seq<TokenView>) -> spec_fn(nat) -> Parsed<FieldView> {
    |at: nat| field_at(tokens, at)
}

/// A list of fields in braces from position `at` on.
pub open spec fn fields_at(tokens: Seq<TokenView>, at: nat) -> Parsed<Seq<FieldView>> {
    delimited_list(tokens, at, field_item(tokens), TokenType::LBrace, TokenType::RBrace)
}

/// The name of a declared type from position `at` on, with its generic
/// parameters: bare identifiers between `<` and `>`, or none.
pub open spec fn declared_name_at(tokens: Seq<TokenView>, at: nat) -> Parsed<
    (Seq<char>, Seq<Seq<char>>),
> {
    let name = ident_at(tokens, at);
    match name.result {
        Err(error) => Parsed { result: Err(error), next: name.next },
        Ok(text) => if peek_at(tokens, name.next).kind() == TokenType::LAngle {
            let params = delimited_list(
                tokens,
                name.next,
                ident_item(tokens),
                TokenType::LAngle,
                TokenType::RAngle,
            );
            match params.result {
                Err(error) => Parsed { result: Err(error), next: params.next },
                Ok(names) => Parsed { result: Ok((text, names)), next: params.next },
            }
        } else {
            Parsed { result: Ok((text, Seq::empty())), next: name.next }
        },
    }
}

/// A variant of an enum from position `at` on. The token behind the name
/// tells its form: `{` a struct-like variant, `(` a tuple variant, `,` a
/// unit variant; no other token may follow the name.
pub open spec fn variant_at(tokens: Seq<TokenView>, at: nat) -> Parsed<VariantView> {
    let name = ident_at(tokens, at);
    match name.result {
        Err(error) => Parsed { result: Err(error), next: name.next },
        Ok(text) => {
            let kind = peek_at(tokens, name.next).kind();
            if kind == TokenType::LBrace {
                let fields = fields_at(tokens, name.next);
                match fields.result {
                    Err(error) => Parsed { result: Err(error), next: fields.next },
                    Ok(members) => Parsed {
                        result: Ok(VariantView::Struct(text, members)),
                        next: fields.next,
                    },
                }
            } else if kind == TokenType::LParen {
                let types = type_list_at(tokens, name.next, TokenType::LParen, TokenType::RParen);
                match types.result {
                    Err(error) => Parsed { result: Err(error), next: types.next },
                    Ok(members) => Parsed {
                        result: Ok(VariantView::Tuple(text, members)),
                        next: types.next,
                    },
                }
            } else if kind == TokenType::Comma {
                Parsed { result: Ok(VariantView::Unit(text)), next: name.next }
            } else {
                Parsed {
                    result: Err(ParseError::UnexpectedToken(kind, Some(Expected::VariantBody))),
                    next: name.next,
                }
            }
        },
    }
}

/// The production of a variant, as an item of a list.
pub open spec fn variant_item(tokens: Seq<TokenView>) -> spec_fn(nat) -> Parsed<VariantView> {
    |at: nat| variant_at(tokens, at)
}

/// What stands behind `const` at position `at - 1`: a name, a colon, a
/// type, `=` and the value.
pub open spec fn const_at(tokens: Seq<TokenView>, at: nat) -> Parsed<ItemView> {
    let name = ident_at(tokens, at);
    match name.result {
        Err(error) => Parsed { result: Err(error), next: name.next },
        Ok(ident) => match expect(tokens, name.next, TokenType::Colon) {
            Err(error) => Parsed { result: Err(error), next: advance(tokens, name.next) },
            Ok(_) => {
                let annotation = type_at(tokens, name.next + 1);
                match annotation.result {
                    Err(error) => Parsed { result: Err(error), next: annotation.next },
                    Ok(ty) => match expect(tokens, annotation.next, TokenType::Eq) {
                        Err(error) => Parsed {
                            result: Err(error),
                            next: advance(tokens, annotation.next),
                        },
                        Ok(_) => {
                            let value = expression_at(tokens, annotation.next + 1);
                            match value.result {
                                Err(error) => Parsed { result: Err(error), next: value.next },
                                Ok(expr) => Parsed {
                                    result: Ok(ItemView::Const { ident, ty, value: expr }),
                                    next: value.next,
                                },
                            }
                        },
                    },
                }
            },
        },
    }
}

/// What stands behind `fn` at position `at - 1`: a name, the parameters in
/// parentheses, an optional result type behind a colon, `->` and the body.
pub open spec fn function_at(tokens: Seq<TokenView>, at: nat) -> Parsed<ItemView> {
    let name = ident_at(tokens, at);
    match name.result {
        Err(error) => Parsed { result: Err(error), next: name.next },
        Ok(text) => {
            let params = delimited_list(
                tokens,
                name.next,
                binding_item(tokens),
                TokenType::LParen,
                TokenType::RParen,
            );
            match params.result {
                Err(error) => Parsed { result: Err(error), next: params.next },
                Ok(bindings) => {
                    let annotated = peek_at(tokens, params.next).kind() == TokenType::Colon;
                    let result = if annotated {
                        type_at(tokens, params.next + 1)
                    } else {
                        Parsed { result: Ok(TypeView::Tuple(Seq::empty())), next: params.next }
                    };
                    match result.result {
                        Err(error) => Parsed { result: Err(error), next: result.next },
                        Ok(ty) => match expect(tokens, result.next, TokenType::Arrow) {
                            Err(error) => Parsed {
                                result: Err(error),
                                next: advance(tokens, result.next),
                            },
                            Ok(_) => {
                                let body = expression_at(tokens, result.next + 1);
                                match body.result {
                                    Err(error) => Parsed { result: Err(error), next: body.next },
                                    Ok(expr) => Parsed {
                                        result: Ok(
                                            ItemView::Function {
                                                name: text,
                                                params: bindings,
                                                return_type: if annotated {
                                                    Some(ty)
                                                } else {
                                                    None
                                                },
                                                body: expr,
                                            },
                                        ),
                                        next: body.next,
                                    },
                                }
                            },
                        },
                    }
                },
            }
        },
    }
}

/// What stands behind `struct` at position `at - 1`: the name with its
/// generic parameters, and the fields in braces.
pub open spec fn struct_at(tokens: Seq<TokenView>, at: nat) -> Parsed<ItemView> {
    let head = declared_name_at(tokens, at);
    match head.result {
        Err(error) => Parsed { result: Err(error), next: head.next },
        Ok(named) => {
            let fields = fields_at(tokens, head.next);
            match fields.result {
                Err(error) => Parsed { result: Err(error), next: fields.next },
                Ok(members) => Parsed {
                    result: Ok(
                        ItemView::Struct {
                            name: named.0,
                            generic_params: named.1,
                            fields: members,
                        },
                    ),
                    next: fields.next,
                },
            }
        },
    }
}

/// What stands behind `enum` at position `at - 1`: the name with its
/// generic parameters, and the variants in braces.
pub open spec fn enum_at(tokens: Seq<TokenView>, at: nat) -> Parsed<ItemView> {
    let head = declared_name_at(tokens, at);
    match head.result {
        Err(error) => Parsed { result: Err(error), next: head.next },
        Ok(named) => {
            let variants = delimited_list(
                tokens,
                head.next,
                variant_item(tokens),
                TokenType::LBrace,
                TokenType::RBrace,
            );
            match variants.result {
                Err(error) => Parsed { result: Err(error), next: variants.next },
                Ok(members) => Parsed {
                    result: Ok(
                        ItemView::Enum {
                            name: named.0,
                            generic_params: named.1,
                            variants: members,
                        },
                    ),
                    next: variants.next,
                },
            }
        },
    }
}

/// An item from position `at` on, told by its keyword: `const`, `fn`,
/// `struct` or `enum`.
pub open spec fn item_at(tokens: Seq<TokenView>, at: nat) -> Parsed<ItemView> {
    match peek_at(tokens, at).kind() {
        TokenType::Const => const_at(tokens, at + 1),
        TokenType::Fn => function_at(tokens, at + 1),
        TokenType::Struct => struct_at(tokens, at + 1),
        TokenType::Enum => enum_at(tokens, at + 1),
        kind => Parsed {
            result: Err(ParseError::UnexpectedToken(kind, Some(Expected::Item))),
            next: at,
        },
    }
}

/// The items of a file from position `at` on, up to the end of the input;
/// `seen` holds the items read so far.
#[verifier::opaque]
pub open spec fn file_at(tokens: Seq<TokenView>, at: nat, seen: Seq<ItemView>) -> Parsed<
    Seq<ItemView>,
>
    decreases remaining(tokens, at),
{
    if peek_at(tokens, at).kind() == TokenType::Eof {
        Parsed { result: Ok(seen), next: at }
    } else {
        let first = item_at(tokens, at);
        match first.result {
            Err(error) => Parsed { result: Err(error), next: first.next },
            Ok(item) => if remaining(tokens, first.next) < remaining(tokens, at) {
                file_at(tokens, first.next, seen.push(item))
            } else {
                stuck(first.next)
            },
        }
    }
}

} // verus!
