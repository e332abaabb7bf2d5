//! Productions shared by expressions and items: identifiers, bindings and
//! type expressions.

use vstd::prelude::*;
use crate::lexer::token::Token;
use crate::lexer::token::TokenType;
use crate::lexer::token::TokenView;
use crate::model::lemma_views_empty;
use crate::model::lemma_views_push;
use crate::model::views;
use crate::parser::Expected;
use crate::parser::ParseError;
use crate::parser::ParseResult;
use crate::parser::Parser;
use crate::parser::ast::Binding;
use crate::parser::ast::BindingView;
use crate::parser::ast::Type;
use crate::parser::grammar::Parsed;
use crate::parser::grammar::binding_at;
use crate::parser::grammar::binding_item;
use crate::parser::grammar::delimited_list;
use crate::parser::grammar::ident_at;
use crate::parser::grammar::ident_item;
use crate::parser::grammar::lemma_type_item;
use crate::parser::grammar::list_items;
use crate::parser::grammar::parsed;
use crate::parser::grammar::parsed_list;
use crate::parser::grammar::remaining;
use crate::parser::grammar::type_at;
use crate::parser::grammar::type_item;
use crate::parser::grammar::type_list_at;

verus! {

/// A node whose production can stand as the item of a delimited list.
pub trait ListItem: View + Sized {
    /// The production of the node, from a position of `tokens` on.
    spec fn production(tokens: Seq<TokenView>) -> spec_fn(nat) -> Parsed<Self::V>;

    /// Parses one node.
    fn parse(parser: &mut Parser) -> (outcome: ParseResult<Self>)
        requires
            old(parser).wf(),
        ensures
            final(parser).follows(*old(parser)),
            parsed(outcome, final(parser).cursor()) == Self::production(old(parser).stream())(
                old(parser).cursor(),
            ),
    ;
}

impl ListItem for String {
    open spec fn production(tokens: Seq<TokenView>) -> spec_fn(nat) -> Parsed<Seq<char>> {
        ident_item(tokens)
    }

    fn parse(parser: &mut Parser) -> (outcome: ParseResult<String>) {
        parser.ident()
    }
}

impl ListItem for Binding {
    open spec fn production(tokens: Seq<TokenView>) -> spec_fn(nat) -> Parsed<BindingView> {
        binding_item(tokens)
    }

    fn parse(parser: &mut Parser) -> (outcome: ParseResult<Binding>) {
        parser.binding()
    }
}

impl Parser {
    /// Parses an identifier and gives its name.
    pub fn ident(&mut self) -> (outcome: ParseResult<String>)
        requires
            old(self).wf(),
        ensures
            final(self).follows(*old(self)),
            parsed(outcome, final(self).cursor()) == ident_at(old(self).stream(), old(self).cursor()),
    {
        match self.next() {
            Some(Token::Ident(name)) => Ok(name),
            Some(Token::Eof) => Err(ParseError::MissingToken),
            Some(token) => Err(
                ParseError::MismatchedToken { expected: TokenType::Ident, found: token.ty() },
            ),
            None => Err(ParseError::MissingToken),
        }
    }

    /// Parses a binding: an optional `mut`, a name, and an optional type
    /// annotation behind a colon.
    pub fn binding(&mut self) -> (outcome: ParseResult<Binding>)
        requires
            old(self).wf(),
        ensures
            final(self).follows(*old(self)),
            parsed(outcome, final(self).cursor()) == binding_at(
                old(self).stream(),
                old(self).cursor(),
            ),
    {
        reveal(binding_at);
        let mutable = self.consume_at(TokenType::Mut);
        let name = self.ident()?;
        let type_annotation = if self.consume_at(TokenType::Colon) {
            Some(self.type_()?)
        } else {
            None
        };
        Ok(Binding { mutable, name, type_annotation })
    }

    /// Parses a type expression: a name with optional generic arguments, an
    /// array type `[T]`, a tuple type `(T1, T2, ...)` or a function type
    /// `fn(T1, ...): R`.
    pub fn type_(&mut self) -> (outcome: ParseResult<Type>)
        requires
            old(self).wf(),
        ensures
            final(self).follows(*old(self)),
            parsed(outcome, final(self).cursor()) == type_at(old(self).stream(), old(self).cursor()),
            outcome is Ok ==> old(self).cursor() < final(self).cursor(),
        decreases remaining(old(self).stream(), old(self).cursor()), 2nat,
    {
        reveal(type_at);
        match self.peek() {
            Token::Ident(name) => {
                let name = name.clone();
                self.next();
                let generics = if self.at(TokenType::LAngle) {
                    self.type_list(TokenType::LAngle, TokenType::RAngle)?
                } else {
                    proof {
                        lemma_views_empty::<Type>();
                    }
                    Vec::new()
                };
                let ty = Type::Ident { name, generics };
                proof {
                    ty.lemma_view();
                }
                Ok(ty)
            },
            Token::LBracket => {
                self.next();
                let inner = self.type_()?;
                self.consume(TokenType::RBracket)?;
                let ty = Type::Array(Box::new(inner));
                proof {
                    ty.lemma_view();
                }
                Ok(ty)
            },
            Token::LParen => {
                let members = self.type_list(TokenType::LParen, TokenType::RParen)?;
                let ty = Type::Tuple(members);
                proof {
                    ty.lemma_view();
                }
                Ok(ty)
            },
            Token::Fn => {
                self.next();
                let params = self.type_list(TokenType::LParen, TokenType::RParen)?;
                self.consume(TokenType::Colon)?;
                let result = self.type_()?;
                let ty = Type::Fn { params, result: Box::new(result) };
                proof {
                    ty.lemma_view();
                }
                Ok(ty)
            },
            found => Err(ParseError::UnexpectedToken(found.ty(), Some(Expected::TypeName))),
        }
    }

    /// Parses a delimited list of type expressions,
    /// `start type (, type)* (,)? end`.
    pub fn type_list(&mut self, start: TokenType, end: TokenType) -> (outcome: ParseResult<
        Vec<Type>,
    >)
        requires
            old(self).wf(),
        ensures
            final(self).follows(*old(self)),
            parsed_list(outcome, final(self).cursor()) == type_list_at(
                old(self).stream(),
                old(self).cursor(),
                start,
                end,
            ),
            outcome is Ok ==> old(self).cursor() < final(self).cursor(),
        decreases remaining(old(self).stream(), old(self).cursor()), 1nat,
    {
        let ghost tokens = self.stream();
        let ghost origin = self.cursor();
        let ghost item = type_item(tokens, origin);
        reveal(list_items);
        self.consume(start)?;
        let mut items: Vec<Type> = Vec::new();
        proof {
            lemma_views_empty::<Type>();
        }
        loop
            invariant
                self.wf(),
                self.stream() == tokens,
                origin < tokens.len(),
                origin < self.cursor(),
                list_items(tokens, self.cursor(), item, end, views(items@)) == list_items(
                    tokens,
                    origin + 1,
                    item,
                    end,
                    Seq::empty(),
                ),
                item == type_item(tokens, origin),
                tokens == old(self).stream(),
                origin == old(self).cursor(),
                type_list_at(tokens, origin, start, end) == list_items(
                    tokens,
                    origin + 1,
                    item,
                    end,
                    Seq::empty(),
                ),
            decreases remaining(tokens, self.cursor()),
        {
            reveal(list_items);
            if self.at(end) {
                self.next();
                return Ok(items);
            }
            proof {
                lemma_type_item(tokens, origin, self.cursor());
            }
            let ty = self.type_()?;
            proof {
                lemma_views_push(items@, ty);
            }
            items.push(ty);
            if !self.consume_at(TokenType::Comma) {
                self.consume(end)?;
                return Ok(items);
            }
        }
    }

    /// Parses a delimited list, `start item (, item)* (,)? end`: the items in
    /// order. A separator may stand before the closing token.
    pub fn delimited_list<T: ListItem>(&mut self, start: TokenType, end: TokenType) -> (outcome:
        ParseResult<Vec<T>>)
        requires
            old(self).wf(),
        ensures
            final(self).follows(*old(self)),
            parsed_list(outcome, final(self).cursor()) == delimited_list(
                old(self).stream(),
                old(self).cursor(),
                T::production(old(self).stream()),
                start,
                end,
            ),
            outcome is Ok ==> old(self).cursor() < final(self).cursor(),
    {
        let ghost tokens = self.stream();
        let ghost origin = self.cursor();
        let ghost item = T::production(tokens);
        reveal(list_items);
        self.consume(start)?;
        let mut items: Vec<T> = Vec::new();
        proof {
            lemma_views_empty::<T>();
        }
        loop
            invariant
                self.wf(),
                self.stream() == tokens,
                tokens == old(self).stream(),
                origin == old(self).cursor(),
                origin < tokens.len(),
                origin < self.cursor(),
                item == T::production(tokens),
                delimited_list(tokens, origin, item, start, end) == list_items(
                    tokens,
                    origin + 1,
                    item,
                    end,
                    Seq::empty(),
                ),
                list_items(tokens, self.cursor(), item, end, views(items@)) == list_items(
                    tokens,
                    origin + 1,
                    item,
                    end,
                    Seq::empty(),
                ),
            decreases remaining(tokens, self.cursor()),
        {
            reveal(list_items);
            if self.at(end) {
                self.next();
                return Ok(items);
            }
            let node = T::parse(self)?;
            proof {
                lemma_views_push(items@, node);
            }
            items.push(node);
            if !self.consume_at(TokenType::Comma) {
                self.consume(end)?;
                return Ok(items);
            }
        }
    }
}

} // verus!
