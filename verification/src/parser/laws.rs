//! What holds of the grammar, whatever the tokens: no production moves
//! backwards, and a production that succeeds has read at least one token
//! and ends inside the tokens.

use vstd::prelude::*;
use crate::lexer::token::TokenType;
use crate::lexer::token::TokenView;
use crate::parser::ast::Bop;
use crate::parser::ast::ExprView;
use crate::parser::ast::ItemView;
use crate::parser::ast::LitView;
use crate::parser::ast::Unop;
use crate::parser::grammar::Parsed;
use crate::parser::grammar::binary_operator;
use crate::parser::grammar::binding_at;
use crate::parser::grammar::binding_item;
use crate::parser::grammar::block_at;
use crate::parser::grammar::conditional_at;
use crate::parser::grammar::declared_name_at;
use crate::parser::grammar::delimited_list;
use crate::parser::grammar::ends_expression;
use crate::parser::grammar::expr_item;
use crate::parser::grammar::expr_list_at;
use crate::parser::grammar::expression_at;
use crate::parser::grammar::expression_from;
use crate::parser::grammar::field_at;
use crate::parser::grammar::field_item;
use crate::parser::grammar::fields_at;
use crate::parser::grammar::file_at;
use crate::parser::grammar::ident_at;
use crate::parser::grammar::ident_item;
use crate::parser::grammar::infix_from;
use crate::parser::grammar::infix_power;
use crate::parser::grammar::item_at;
use crate::parser::grammar::lambda_at;
use crate::parser::grammar::let_at;
use crate::parser::grammar::list_items;
use crate::parser::grammar::parenthesized_at;
use crate::parser::grammar::peek_at;
use crate::parser::grammar::prefix_at;
use crate::parser::grammar::prefix_power;
use crate::parser::grammar::remaining;
use crate::parser::grammar::type_at;
use crate::parser::grammar::type_item;
use crate::parser::grammar::type_list_at;
use crate::parser::grammar::unary_at;
use crate::parser::grammar::variant_at;
use crate::parser::grammar::variant_item;

verus! {

/// Whether a production that started at position `at` did not move
/// backwards, and, if it succeeded, ends inside the tokens.
pub open spec fn forwards<T>(outcome: Parsed<T>, tokens: Seq<TokenView>, at: nat) -> bool {
    at <= outcome.next && (outcome.result is Ok ==> outcome.next <= tokens.len())
}

/// Whether a production that started at position `at` did not move
/// backwards, and, if it succeeded, has read at least one token and ends
/// inside the tokens.
pub open spec fn advances<T>(outcome: Parsed<T>, tokens: Seq<TokenView>, at: nat) -> bool {
    at <= outcome.next && (outcome.result is Ok ==> at < outcome.next <= tokens.len())
}

/// The items of a list go forwards where each item advances.
pub proof fn lemma_list_items_forwards<T>(
    tokens: Seq<TokenView>,
    at: nat,
    item: spec_fn(nat) -> Parsed<T>,
    end: TokenType,
    seen: Seq<T>,
)
    requires
        at <= tokens.len(),
        forall|from: nat| at <= from ==> advances(#[trigger] item(from), tokens, from),
    ensures
        forwards(list_items(tokens, at, item, end, seen), tokens, at),
    decreases remaining(tokens, at),
{
    reveal(list_items);
    if peek_kind(tokens, at) != end {
        let first = item(at);
        if first.result is Ok && peek_kind(tokens, first.next) == TokenType::Comma {
            lemma_list_items_forwards(tokens, first.next + 1, item, end, seen.push(first.result->Ok_0));
        }
    }
}

/// The kind of the lookahead at position `at`.
pub open spec fn peek_kind(tokens: Seq<TokenView>, at: nat) -> TokenType {
    peek_at(tokens, at).kind()
}

/// A delimited list advances where each item advances.
pub proof fn lemma_delimited_list_advances<T>(
    tokens: Seq<TokenView>,
    at: nat,
    item: spec_fn(nat) -> Parsed<T>,
    start: TokenType,
    end: TokenType,
)
    requires
        forall|from: nat| at < from ==> advances(#[trigger] item(from), tokens, from),
    ensures
        advances(delimited_list(tokens, at, item, start, end), tokens, at),
{
    if at < tokens.len() {
        lemma_list_items_forwards(tokens, at + 1, item, end, Seq::empty());
    }
}

/// A delimited list of types advances.
pub proof fn lemma_type_list_advances(
    tokens: Seq<TokenView>,
    at: nat,
    start: TokenType,
    end: TokenType,
)
    ensures
        advances(type_list_at(tokens, at, start, end), tokens, at),
    decreases remaining(tokens, at), 1nat,
{
    reveal(type_at);
    let item = type_item(tokens, at);
    assert forall|from: nat| at < from implies advances(#[trigger] item(from), tokens, from) by {
        if remaining(tokens, from) < remaining(tokens, at) {
            lemma_type_advances(tokens, from);
        }
    }
    lemma_delimited_list_advances(tokens, at, item, start, end);
}

/// A type expression advances.
pub proof fn lemma_type_advances(tokens: Seq<TokenView>, at: nat)
    ensures
        advances(type_at(tokens, at), tokens, at),
    decreases remaining(tokens, at), 2nat,
{
    reveal(type_at);
    if at < tokens.len() {
        match tokens[at as int] {
            TokenView::Ident(_) => {
                lemma_type_list_advances(tokens, at + 1, TokenType::LAngle, TokenType::RAngle);
            },
            TokenView::LBracket => {
                lemma_type_advances(tokens, at + 1);
            },
            TokenView::LParen => {
                lemma_type_list_advances(tokens, at, TokenType::LParen, TokenType::RParen);
            },
            TokenView::Fn => {
                lemma_type_list_advances(tokens, at + 1, TokenType::LParen, TokenType::RParen);
                let params = type_list_at(tokens, at + 1, TokenType::LParen, TokenType::RParen);
                if params.result is Ok && params.next < tokens.len() {
                    lemma_type_advances(tokens, params.next + 1);
                }
            },
            _ => {},
        }
    }
}

/// An identifier advances.
pub proof fn lemma_ident_advances(tokens: Seq<TokenView>, at: nat)
    ensures
        advances(ident_at(tokens, at), tokens, at),
{
}

/// A binding advances.
pub proof fn lemma_binding_advances(tokens: Seq<TokenView>, at: nat)
    ensures
        advances(binding_at(tokens, at), tokens, at),
{
    reveal(binding_at);
    let mutable = peek_kind(tokens, at) == TokenType::Mut;
    let name = ident_at(tokens, if mutable { at + 1 } else { at });
    if name.result is Ok {
        lemma_type_advances(tokens, name.next + 1);
    }
}

/// A delimited list of bindings advances.
pub proof fn lemma_binding_list_advances(
    tokens: Seq<TokenView>,
    at: nat,
    start: TokenType,
    end: TokenType,
)
    ensures
        advances(delimited_list(tokens, at, binding_item(tokens), start, end), tokens, at),
{
    let item = binding_item(tokens);
    assert forall|from: nat| at < from implies advances(#[trigger] item(from), tokens, from) by {
        lemma_binding_advances(tokens, from);
    }
    lemma_delimited_list_advances(tokens, at, item, start, end);
}

/// A delimited list of expressions advances.
pub proof fn lemma_expr_list_advances(
    tokens: Seq<TokenView>,
    at: nat,
    start: TokenType,
    end: TokenType,
)
    ensures
        advances(expr_list_at(tokens, at, start, end), tokens, at),
    decreases remaining(tokens, at), 1nat,
{
    let item = expr_item(tokens, at);
    assert forall|from: nat| at < from implies advances(#[trigger] item(from), tokens, from) by {
        if remaining(tokens, from) < remaining(tokens, at) {
            lemma_expression_advances(tokens, from);
        }
    }
    lemma_delimited_list_advances(tokens, at, item, start, end);
}

/// The rest of a block goes forwards, and ends behind the closing brace.
pub proof fn lemma_block_advances(tokens: Seq<TokenView>, at: nat, seen: Seq<ExprView>)
    ensures
        advances(block_at(tokens, at, seen), tokens, at),
    decreases remaining(tokens, at), 8nat,
{
    reveal(block_at);
    if peek_kind(tokens, at) != TokenType::RBrace {
        lemma_expression_advances(tokens, at);
        let first = expression_at(tokens, at);
        if first.result is Ok {
            let expr = first.result->Ok_0;
            if peek_kind(tokens, first.next) == TokenType::Semicolon {
                if peek_kind(tokens, first.next + 1) != TokenType::RBrace {
                    lemma_block_advances(tokens, first.next + 1, seen.push(expr));
                }
            } else {
                lemma_block_advances(tokens, first.next, seen.push(expr));
            }
        }
    }
}

/// What stands behind `(` goes forwards.
pub proof fn lemma_parenthesized_advances(tokens: Seq<TokenView>, at: nat)
    ensures
        advances(parenthesized_at(tokens, at), tokens, at),
    decreases remaining(tokens, at), 8nat,
{
    reveal(parenthesized_at);
    lemma_expression_advances(tokens, at);
    let first = expression_at(tokens, at);
    if first.result is Ok && peek_kind(tokens, first.next) == TokenType::Comma {
        let item = expr_item(tokens, at);
        assert forall|from: nat| first.next + 1 <= from implies advances(
            #[trigger] item(from),
            tokens,
            from,
        ) by {
            if remaining(tokens, from) < remaining(tokens, at) {
                lemma_expression_advances(tokens, from);
            }
        }
        lemma_list_items_forwards(
            tokens,
            first.next + 1,
            item,
            TokenType::RParen,
            seq![first.result->Ok_0],
        );
    }
}

/// What stands behind `if` advances.
pub proof fn lemma_conditional_advances(tokens: Seq<TokenView>, at: nat)
    ensures
        advances(conditional_at(tokens, at), tokens, at),
    decreases remaining(tokens, at), 8nat,
{
    reveal(conditional_at);
    if peek_kind(tokens, at) == TokenType::LParen {
        lemma_expression_advances(tokens, at + 1);
        let cond = expression_at(tokens, at + 1);
        if cond.result is Ok && peek_kind(tokens, cond.next) == TokenType::RParen {
            lemma_expression_advances(tokens, cond.next + 1);
            let th = expression_at(tokens, cond.next + 1);
            if th.result is Ok && peek_kind(tokens, th.next) == TokenType::Else {
                lemma_expression_advances(tokens, th.next + 1);
            }
        }
    }
}

/// What stands behind `let` advances.
pub proof fn lemma_let_advances(tokens: Seq<TokenView>, at: nat)
    ensures
        advances(let_at(tokens, at), tokens, at),
    decreases remaining(tokens, at), 8nat,
{
    reveal(let_at);
    lemma_binding_advances(tokens, at);
    let binding = binding_at(tokens, at);
    if binding.result is Ok && peek_kind(tokens, binding.next) == TokenType::Eq {
        lemma_expression_advances(tokens, binding.next + 1);
    }
}

/// A lambda advances.
pub proof fn lemma_lambda_advances(tokens: Seq<TokenView>, at: nat)
    ensures
        advances(lambda_at(tokens, at), tokens, at),
    decreases remaining(tokens, at), 2nat,
{
    reveal(lambda_at);
    lemma_binding_list_advances(tokens, at, TokenType::Bar, TokenType::Bar);
    let params = delimited_list(tokens, at, binding_item(tokens), TokenType::Bar, TokenType::Bar);
    if params.result is Ok {
        let annotated = peek_kind(tokens, params.next) == TokenType::Colon;
        if annotated {
            lemma_type_advances(tokens, params.next + 1);
        }
        let result = if annotated {
            type_at(tokens, params.next + 1)
        } else {
            Parsed {
                result: Ok(crate::parser::ast::TypeView::Tuple(Seq::empty())),
                next: params.next,
            }
        };
        if result.result is Ok && peek_kind(tokens, result.next) == TokenType::Arrow {
            lemma_expression_advances(tokens, result.next + 1);
        }
    }
}

/// The operand of a prefix operator advances.
pub proof fn lemma_unary_advances(tokens: Seq<TokenView>, at: nat, op: Unop)
    ensures
        advances(unary_at(tokens, at, op), tokens, at),
    decreases remaining(tokens, at), 8nat,
{
    reveal(unary_at);
    reveal(expression_from);
    lemma_expression_from_advances(tokens, at, prefix_power(op));
}

/// The start of an expression advances.
pub proof fn lemma_prefix_advances(tokens: Seq<TokenView>, at: nat)
    ensures
        advances(prefix_at(tokens, at), tokens, at),
    decreases remaining(tokens, at), 3nat,
{
    reveal(prefix_at);
    reveal(parenthesized_at);
    reveal(conditional_at);
    reveal(unary_at);
    reveal(let_at);
    reveal(lambda_at);
    reveal(block_at);
    if at < tokens.len() {
        match tokens[at as int] {
            TokenView::LParen => {
                lemma_parenthesized_advances(tokens, at + 1);
            },
            TokenView::If => {
                lemma_conditional_advances(tokens, at + 1);
            },
            TokenView::Minus => {
                lemma_unary_advances(tokens, at + 1, Unop::Neg);
            },
            TokenView::Bang => {
                lemma_unary_advances(tokens, at + 1, Unop::Not);
            },
            TokenView::Let => {
                lemma_let_advances(tokens, at + 1);
            },
            TokenView::Bar => {
                lemma_lambda_advances(tokens, at);
            },
            TokenView::LBrace => {
                lemma_block_advances(tokens, at + 1, Seq::empty());
            },
            TokenView::LBracket => {
                lemma_expr_list_advances(tokens, at, TokenType::LBracket, TokenType::RBracket);
            },
            _ => {},
        }
    }
}

/// What follows an expression goes forwards.
pub proof fn lemma_infix_forwards(tokens: Seq<TokenView>, at: nat, lhs: ExprView, min_power: u8)
    requires
        at <= tokens.len(),
    ensures
        forwards(infix_from(tokens, at, lhs, min_power), tokens, at),
    decreases remaining(tokens, at), 4nat,
{
    reveal(infix_from);
    reveal(expression_from);
    let kind = peek_kind(tokens, at);
    if kind == TokenType::LParen {
        lemma_expr_list_advances(tokens, at, TokenType::LParen, TokenType::RParen);
        let args = expr_list_at(tokens, at, TokenType::LParen, TokenType::RParen);
        if args.result is Ok {
            lemma_infix_forwards(
                tokens,
                args.next,
                ExprView::FnCall { fun: Box::new(lhs), args: args.result->Ok_0 },
                min_power,
            );
        }
    } else if let Some(op) = binary_operator(kind) {
        if infix_power(op).0 >= min_power {
            let right = infix_power(op).1;
            lemma_expression_from_advances(tokens, at + 1, right);
            let rhs = expression_from(tokens, at + 1, right);
            if rhs.result is Ok {
                lemma_infix_forwards(
                    tokens,
                    rhs.next,
                    ExprView::BinaryOp { op, lhs: Box::new(lhs), rhs: Box::new(rhs.result->Ok_0) },
                    min_power,
                );
            }
        }
    }
}

/// An expression advances, whatever the least binding power.
pub proof fn lemma_expression_from_advances(tokens: Seq<TokenView>, at: nat, min_power: u8)
    ensures
        advances(expression_from(tokens, at, min_power), tokens, at),
    decreases remaining(tokens, at), 5nat,
{
    reveal(expression_from);
    reveal(prefix_at);
    reveal(infix_from);
    lemma_prefix_advances(tokens, at);
    let head = prefix_at(tokens, at);
    if head.result is Ok {
        lemma_infix_forwards(tokens, head.next, head.result->Ok_0, min_power);
    }
}

/// An expression advances.
pub proof fn lemma_expression_advances(tokens: Seq<TokenView>, at: nat)
    ensures
        advances(expression_at(tokens, at), tokens, at),
    decreases remaining(tokens, at), 7nat,
{
    reveal(expression_from);
    lemma_expression_from_advances(tokens, at, 0);
}

/// A field advances.
pub proof fn lemma_field_advances(tokens: Seq<TokenView>, at: nat)
    ensures
        advances(field_at(tokens, at), tokens, at),
{
    let name = ident_at(tokens, at);
    if name.result is Ok {
        lemma_type_advances(tokens, name.next + 1);
    }
}

/// A list of fields advances.
pub proof fn lemma_fields_advance(tokens: Seq<TokenView>, at: nat)
    ensures
        advances(fields_at(tokens, at), tokens, at),
{
    let item = field_item(tokens);
    assert forall|from: nat| at < from implies advances(#[trigger] item(from), tokens, from) by {
        lemma_field_advances(tokens, from);
    }
    lemma_delimited_list_advances(tokens, at, item, TokenType::LBrace, TokenType::RBrace);
}

/// The name of a declared type advances.
pub proof fn lemma_declared_name_advances(tokens: Seq<TokenView>, at: nat)
    ensures
        advances(declared_name_at(tokens, at), tokens, at),
{
    let name = ident_at(tokens, at);
    let item = ident_item(tokens);
    assert forall|from: nat| name.next < from implies advances(
        #[trigger] item(from),
        tokens,
        from,
    ) by {
        lemma_ident_advances(tokens, from);
    }
    lemma_delimited_list_advances(tokens, name.next, item, TokenType::LAngle, TokenType::RAngle);
}

/// A variant advances.
pub proof fn lemma_variant_advances(tokens: Seq<TokenView>, at: nat)
    ensures
        advances(variant_at(tokens, at), tokens, at),
{
    let name = ident_at(tokens, at);
    lemma_fields_advance(tokens, name.next);
    lemma_type_list_advances(tokens, name.next, TokenType::LParen, TokenType::RParen);
}

/// An item advances.
pub proof fn lemma_item_advances(tokens: Seq<TokenView>, at: nat)
    ensures
        advances(item_at(tokens, at), tokens, at),
{
    let start = at + 1;
    let name = ident_at(tokens, start);
    match peek_kind(tokens, at) {
        TokenType::Const => {
            if name.result is Ok {
                lemma_type_advances(tokens, name.next + 1);
                let annotation = type_at(tokens, name.next + 1);
                if annotation.result is Ok {
                    lemma_expression_advances(tokens, annotation.next + 1);
                }
            }
        },
        TokenType::Fn => {
            lemma_binding_list_advances(tokens, name.next, TokenType::LParen, TokenType::RParen);
            let params = delimited_list(
                tokens,
                name.next,
                binding_item(tokens),
                TokenType::LParen,
                TokenType::RParen,
            );
            if name.result is Ok && params.result is Ok {
                let annotated = peek_kind(tokens, params.next) == TokenType::Colon;
                if annotated {
                    lemma_type_advances(tokens, params.next + 1);
                }
                let result = if annotated {
                    type_at(tokens, params.next + 1)
                } else {
                    Parsed {
                        result: Ok(crate::parser::ast::TypeView::Tuple(Seq::empty())),
                        next: params.next,
                    }
                };
                if result.result is Ok {
                    lemma_expression_advances(tokens, result.next + 1);
                }
            }
        },
        TokenType::Struct => {
            lemma_declared_name_advances(tokens, start);
            lemma_fields_advance(tokens, declared_name_at(tokens, start).next);
        },
        TokenType::Enum => {
            lemma_declared_name_advances(tokens, start);
            let head = declared_name_at(tokens, start);
            let item = variant_item(tokens);
            assert forall|from: nat| head.next < from implies advances(
                #[trigger] item(from),
                tokens,
                from,
            ) by {
                lemma_variant_advances(tokens, from);
            }
            lemma_delimited_list_advances(
                tokens,
                head.next,
                item,
                TokenType::LBrace,
                TokenType::RBrace,
            );
        },
        _ => {},
    }
}

/// The items of a file go forwards.
pub proof fn lemma_file_forwards(tokens: Seq<TokenView>, at: nat, seen: Seq<ItemView>)
    requires
        at <= tokens.len(),
    ensures
        forwards(file_at(tokens, at, seen), tokens, at),
    decreases remaining(tokens, at),
{
    reveal(file_at);
    if peek_kind(tokens, at) != TokenType::Eof {
        lemma_item_advances(tokens, at);
        let first = item_at(tokens, at);
        if first.result is Ok {
            lemma_file_forwards(tokens, first.next, seen.push(first.result->Ok_0));
        }
    }
}

/// A file that parses has been read up to the end of the input, and holds
/// the items that were there before and those that were read, in order.
pub proof fn lemma_file_reads_all(tokens: Seq<TokenView>, at: nat, seen: Seq<ItemView>)
    requires
        at <= tokens.len(),
    ensures
        file_at(tokens, at, seen).result matches Ok(items) ==> {
            &&& peek_kind(tokens, file_at(tokens, at, seen).next) == TokenType::Eof
            &&& seen.len() <= items.len()
            &&& items.subrange(0, seen.len() as int) == seen
        },
    decreases remaining(tokens, at),
{
    reveal(file_at);
    if peek_kind(tokens, at) != TokenType::Eof {
        lemma_item_advances(tokens, at);
        let first = item_at(tokens, at);
        if first.result is Ok {
            let longer = seen.push(first.result->Ok_0);
            lemma_file_reads_all(tokens, first.next, longer);
            if let Ok(items) = file_at(tokens, at, seen).result {
                assert(items.subrange(0, seen.len() as int) =~= items.subrange(
                    0,
                    longer.len() as int,
                ).subrange(0, seen.len() as int));
            }
        }
    } else {
        assert(seen.subrange(0, seen.len() as int) =~= seen);
    }
}

/// Whether a production that succeeded has read a token last that is not
/// `;`.
pub open spec fn ends_in_value<T>(outcome: Parsed<T>, tokens: Seq<TokenView>) -> bool {
    outcome.result is Ok ==> 0 < outcome.next <= tokens.len() && peek_kind(
        tokens,
        (outcome.next - 1) as nat,
    ) != TokenType::Semicolon
}

/// What follows an expression that does not end in `;` does not end in `;`
/// either.
pub proof fn lemma_infix_ends_in_value(
    tokens: Seq<TokenView>,
    at: nat,
    lhs: ExprView,
    min_power: u8,
)
    requires
        0 < at <= tokens.len(),
        peek_kind(tokens, (at - 1) as nat) != TokenType::Semicolon,
    ensures
        ends_in_value(infix_from(tokens, at, lhs, min_power), tokens),
    decreases remaining(tokens, at), 4nat,
{
    reveal(infix_from);
    reveal(expression_from);
    reveal(list_items);
    let kind = peek_kind(tokens, at);
    if kind == TokenType::LParen {
        lemma_expr_list_advances(tokens, at, TokenType::LParen, TokenType::RParen);
        lemma_expr_list_closes(tokens, at, TokenType::LParen, TokenType::RParen);
        let args = expr_list_at(tokens, at, TokenType::LParen, TokenType::RParen);
        if args.result is Ok {
            lemma_infix_ends_in_value(
                tokens,
                args.next,
                ExprView::FnCall { fun: Box::new(lhs), args: args.result->Ok_0 },
                min_power,
            );
        }
    } else if let Some(op) = binary_operator(kind) {
        if infix_power(op).0 >= min_power {
            let right = infix_power(op).1;
            lemma_expression_from_advances(tokens, at + 1, right);
            lemma_expression_ends_in_value(tokens, at + 1, right);
            let rhs = expression_from(tokens, at + 1, right);
            if rhs.result is Ok {
                lemma_infix_ends_in_value(
                    tokens,
                    rhs.next,
                    ExprView::BinaryOp { op, lhs: Box::new(lhs), rhs: Box::new(rhs.result->Ok_0) },
                    min_power,
                );
            }
        }
    }
}

/// The items of a list and its closing token: a list that succeeds has read
/// its closing token last.
pub proof fn lemma_list_items_close<T>(
    tokens: Seq<TokenView>,
    at: nat,
    item: spec_fn(nat) -> Parsed<T>,
    end: TokenType,
    seen: Seq<T>,
)
    requires
        at <= tokens.len(),
        end != TokenType::Eof,
        forall|from: nat| at <= from ==> advances(#[trigger] item(from), tokens, from),
    ensures
        list_items(tokens, at, item, end, seen).result is Ok ==> {
            &&& at < list_items(tokens, at, item, end, seen).next <= tokens.len()
            &&& peek_kind(tokens, (list_items(tokens, at, item, end, seen).next - 1) as nat) == end
        },
    decreases remaining(tokens, at),
{
    reveal(list_items);
    if peek_kind(tokens, at) != end {
        let first = item(at);
        assert(advances(first, tokens, at));
        if first.result is Ok && peek_kind(tokens, first.next) == TokenType::Comma {
            lemma_list_items_close(tokens, first.next + 1, item, end, seen.push(first.result->Ok_0));
        }
    }
}

/// A list of expressions in parentheses or brackets that succeeds has read
/// its closing token last.
pub proof fn lemma_expr_list_closes(
    tokens: Seq<TokenView>,
    at: nat,
    start: TokenType,
    end: TokenType,
)
    requires
        end != TokenType::Eof,
    ensures
        expr_list_at(tokens, at, start, end).result is Ok ==> {
            &&& at < expr_list_at(tokens, at, start, end).next <= tokens.len()
            &&& peek_kind(tokens, (expr_list_at(tokens, at, start, end).next - 1) as nat) == end
        },
{
    let item = expr_item(tokens, at);
    assert forall|from: nat| at < from implies advances(#[trigger] item(from), tokens, from) by {
        if remaining(tokens, from) < remaining(tokens, at) {
            lemma_expression_advances(tokens, from);
        }
    }
    if at < tokens.len() {
        lemma_list_items_close(tokens, at + 1, item, end, Seq::empty());
    }
}

/// An expression does not end in `;`.
pub proof fn lemma_expression_ends_in_value(tokens: Seq<TokenView>, at: nat, min_power: u8)
    ensures
        ends_in_value(expression_from(tokens, at, min_power), tokens),
    decreases remaining(tokens, at), 5nat,
{
    reveal(expression_from);
    reveal(prefix_at);
    reveal(infix_from);
    lemma_prefix_advances(tokens, at);
    lemma_prefix_ends_in_value(tokens, at);
    let head = prefix_at(tokens, at);
    if head.result is Ok {
        lemma_infix_ends_in_value(tokens, head.next, head.result->Ok_0, min_power);
    }
}

/// The start of an expression does not end in `;`.
pub proof fn lemma_prefix_ends_in_value(tokens: Seq<TokenView>, at: nat)
    ensures
        ends_in_value(prefix_at(tokens, at), tokens),
    decreases remaining(tokens, at), 3nat,
{
    reveal(prefix_at);
    reveal(parenthesized_at);
    reveal(conditional_at);
    reveal(unary_at);
    reveal(let_at);
    reveal(lambda_at);
    reveal(block_at);
    reveal(expression_from);
    if at < tokens.len() {
        match tokens[at as int] {
            TokenView::LParen => {
                let start = at + 1;
                lemma_expression_advances(tokens, start);
                let first = expression_at(tokens, start);
                if first.result is Ok && peek_kind(tokens, first.next) == TokenType::Comma {
                    let item = expr_item(tokens, start);
                    assert forall|from: nat| first.next + 1 <= from implies advances(
                        #[trigger] item(from),
                        tokens,
                        from,
                    ) by {
                        if remaining(tokens, from) < remaining(tokens, start) {
                            lemma_expression_advances(tokens, from);
                        }
                    }
                    lemma_list_items_close(
                        tokens,
                        first.next + 1,
                        item,
                        TokenType::RParen,
                        seq![first.result->Ok_0],
                    );
                }
            },
            TokenView::If => {
                let start = at + 1;
                if peek_kind(tokens, start) == TokenType::LParen {
                    lemma_expression_advances(tokens, start + 1);
                    let cond = expression_at(tokens, start + 1);
                    if cond.result is Ok && peek_kind(tokens, cond.next) == TokenType::RParen {
                        lemma_expression_advances(tokens, cond.next + 1);
                        lemma_expression_ends_in_value(tokens, cond.next + 1, 0);
                        let th = expression_at(tokens, cond.next + 1);
                        if th.result is Ok && peek_kind(tokens, th.next) == TokenType::Else {
                            lemma_expression_ends_in_value(tokens, th.next + 1, 0);
                        }
                    }
                }
            },
            TokenView::Minus => {
                lemma_expression_ends_in_value(tokens, at + 1, prefix_power(Unop::Neg));
            },
            TokenView::Bang => {
                lemma_expression_ends_in_value(tokens, at + 1, prefix_power(Unop::Not));
            },
            TokenView::Let => {
                lemma_binding_advances(tokens, at + 1);
                let binding = binding_at(tokens, at + 1);
                if binding.result is Ok && peek_kind(tokens, binding.next) == TokenType::Eq {
                    lemma_expression_ends_in_value(tokens, binding.next + 1, 0);
                }
            },
            TokenView::Bar => {
                lemma_binding_list_advances(tokens, at, TokenType::Bar, TokenType::Bar);
                let params = delimited_list(
                    tokens,
                    at,
                    binding_item(tokens),
                    TokenType::Bar,
                    TokenType::Bar,
                );
                if params.result is Ok {
                    let annotated = peek_kind(tokens, params.next) == TokenType::Colon;
                    if annotated {
                        lemma_type_advances(tokens, params.next + 1);
                    }
                    let result = if annotated {
                        type_at(tokens, params.next + 1)
                    } else {
                        Parsed {
                            result: Ok(crate::parser::ast::TypeView::Tuple(Seq::empty())),
                            next: params.next,
                        }
                    };
                    if result.result is Ok && peek_kind(tokens, result.next) == TokenType::Arrow {
                        lemma_expression_ends_in_value(tokens, result.next + 1, 0);
                    }
                }
            },
            TokenView::LBrace => {
                lemma_block_trailing(tokens, at + 1, Seq::empty());
            },
            TokenView::LBracket => {
                lemma_expr_list_closes(tokens, at, TokenType::LBracket, TokenType::RBracket);
            },
            _ => {},
        }
    }
}

/// A block that parses ends with its closing brace, and yields a value
/// exactly if no `;` stands right before that brace.
pub proof fn lemma_block_trailing(tokens: Seq<TokenView>, at: nat, seen: Seq<ExprView>)
    ensures
        block_at(tokens, at, seen).result matches Ok(block) ==> {
            let end = block_at(tokens, at, seen).next;
            &&& at < end <= tokens.len()
            &&& peek_kind(tokens, (end - 1) as nat) == TokenType::RBrace
            &&& block is Block
            &&& at + 1 < end ==> block->trailing == (peek_kind(tokens, (end - 2) as nat)
                != TokenType::Semicolon)
            &&& at + 1 == end ==> block->trailing && block->exprs == seen
        },
    decreases remaining(tokens, at), 8nat,
{
    reveal(block_at);
    reveal(expression_from);
    if peek_kind(tokens, at) != TokenType::RBrace {
        lemma_expression_advances(tokens, at);
        lemma_expression_ends_in_value(tokens, at, 0);
        let first = expression_at(tokens, at);
        if first.result is Ok {
            let expr = first.result->Ok_0;
            if peek_kind(tokens, first.next) == TokenType::Semicolon {
                if peek_kind(tokens, first.next + 1) != TokenType::RBrace {
                    lemma_block_trailing(tokens, first.next + 1, seen.push(expr));
                }
            } else {
                lemma_block_trailing(tokens, first.next, seen.push(expr));
            }
        }
    }
}

/// The expression that one token is by itself: a literal or a name.
pub open spec fn atom(token: TokenView) -> Option<ExprView> {
    match token {
        TokenView::IntLit(value) => Some(ExprView::Literal(LitView::Int(value))),
        TokenView::FloatLit(lexeme) => Some(ExprView::Literal(LitView::Float(lexeme))),
        TokenView::StringLit(text) => Some(ExprView::Literal(LitView::Str(text))),
        TokenView::CharLit(c) => Some(ExprView::Literal(LitView::Char(c))),
        TokenView::True => Some(ExprView::Literal(LitView::Bool(true))),
        TokenView::False => Some(ExprView::Literal(LitView::Bool(false))),
        TokenView::Ident(name) => Some(ExprView::Ident(name)),
        _ => None,
    }
}

/// The binary operator at position `at`, if one stands there.
pub open spec fn operator_at(tokens: Seq<TokenView>, at: nat) -> Option<Bop> {
    binary_operator(peek_kind(tokens, at))
}

/// The expression `lhs op rhs`.
pub open spec fn binary(op: Bop, lhs: ExprView, rhs: ExprView) -> ExprView {
    ExprView::BinaryOp { op, lhs: Box::new(lhs), rhs: Box::new(rhs) }
}

/// A literal or a name starts an expression as it stands.
pub proof fn lemma_atom(tokens: Seq<TokenView>, at: nat)
    requires
        atom(peek_at(tokens, at)) is Some,
    ensures
        prefix_at(tokens, at) == (Parsed { result: Ok(atom(peek_at(tokens, at))->0), next: at + 1 }),
{
    reveal(prefix_at);
}

/// A token that ends the expression before it leaves that expression as it
/// is.
pub proof fn lemma_terminator(tokens: Seq<TokenView>, at: nat, lhs: ExprView, min_power: u8)
    requires
        ends_expression(peek_kind(tokens, at)),
    ensures
        infix_from(tokens, at, lhs, min_power) == (Parsed { result: Ok(lhs), next: at }),
{
    reveal(infix_from);
}

/// A binary operator whose left binding power is below the least power is
/// left to the caller.
pub proof fn lemma_weaker_operator(tokens: Seq<TokenView>, at: nat, lhs: ExprView, min_power: u8)
    requires
        operator_at(tokens, at) matches Some(op) && infix_power(op).0 < min_power,
    ensures
        infix_from(tokens, at, lhs, min_power) == (Parsed { result: Ok(lhs), next: at }),
{
    reveal(infix_from);
}

/// A binary operator whose left binding power is not below the least power
/// takes as its right operand the expression behind it that holds no
/// operator weaker than its right binding power; what follows applies to
/// both operands together.
pub proof fn lemma_stronger_operator(tokens: Seq<TokenView>, at: nat, lhs: ExprView, min_power: u8)
    requires
        operator_at(tokens, at) matches Some(op) && infix_power(op).0 >= min_power,
    ensures
        ({
            let op = operator_at(tokens, at)->0;
            let rhs = expression_from(tokens, at + 1, infix_power(op).1);
            infix_from(tokens, at, lhs, min_power) == match rhs.result {
                Ok(operand) => infix_from(tokens, rhs.next, binary(op, lhs, operand), min_power),
                Err(error) => Parsed { result: Err(error), next: rhs.next },
            }
        }),
{
    reveal(infix_from);
    reveal(expression_from);
    let op = operator_at(tokens, at)->0;
    lemma_expression_from_advances(tokens, at + 1, infix_power(op).1);
}

/// An expression is its start and what follows it.
pub proof fn lemma_expression_from(tokens: Seq<TokenView>, at: nat, min_power: u8)
    ensures
        expression_from(tokens, at, min_power) == match prefix_at(tokens, at).result {
            Ok(lhs) => infix_from(tokens, prefix_at(tokens, at).next, lhs, min_power),
            Err(error) => Parsed { result: Err(error), next: prefix_at(tokens, at).next },
        },
{
    reveal(expression_from);
    reveal(prefix_at);
    reveal(infix_from);
    lemma_prefix_advances(tokens, at);
}

/// Three operands of one token each with two binary operators between
/// them: the second operator takes the middle operand if its left binding
/// power is not below the right binding power of the first, else the first
/// operator takes it. So operators of one level group to the left where
/// the right power is the greater one, and to the right where the left
/// power is.
pub proof fn lemma_two_operators(tokens: Seq<TokenView>, at: nat)
    requires
        atom(peek_at(tokens, at)) is Some,
        operator_at(tokens, at + 1) is Some,
        atom(peek_at(tokens, at + 2)) is Some,
        operator_at(tokens, at + 3) is Some,
        atom(peek_at(tokens, at + 4)) is Some,
        ends_expression(peek_kind(tokens, at + 5)),
    ensures
        ({
            let a = atom(peek_at(tokens, at))->0;
            let b = atom(peek_at(tokens, at + 2))->0;
            let c = atom(peek_at(tokens, at + 4))->0;
            let first = operator_at(tokens, at + 1)->0;
            let second = operator_at(tokens, at + 3)->0;
            expression_at(tokens, at) == (Parsed {
                result: Ok(
                    if infix_power(first).1 <= infix_power(second).0 {
                        binary(first, a, binary(second, b, c))
                    } else {
                        binary(second, binary(first, a, b), c)
                    },
                ),
                next: at + 5,
            })
        }),
{
    let a = atom(peek_at(tokens, at))->0;
    let b = atom(peek_at(tokens, at + 2))->0;
    let c = atom(peek_at(tokens, at + 4))->0;
    let first = operator_at(tokens, at + 1)->0;
    let second = operator_at(tokens, at + 3)->0;
    let right = infix_power(first).1;
    reveal(expression_from);
    lemma_expression_from(tokens, at, 0);
    lemma_atom(tokens, at);
    lemma_stronger_operator(tokens, at + 1, a, 0);
    lemma_expression_from(tokens, at + 2, right);
    lemma_atom(tokens, at + 2);
    lemma_atom(tokens, at + 4);
    lemma_expression_from(tokens, at + 4, infix_power(second).1);
    if infix_power(second).0 < right {
        lemma_weaker_operator(tokens, at + 3, b, right);
        lemma_stronger_operator(tokens, at + 3, binary(first, a, b), 0);
        lemma_terminator(tokens, at + 5, c, infix_power(second).1);
        lemma_terminator(tokens, at + 5, binary(second, binary(first, a, b), c), 0);
    } else {
        lemma_stronger_operator(tokens, at + 3, b, right);
        lemma_terminator(tokens, at + 5, c, infix_power(second).1);
        lemma_terminator(tokens, at + 5, binary(second, b, c), right);
        lemma_terminator(tokens, at + 5, binary(first, a, binary(second, b, c)), 0);
    }
}

} // verus!
