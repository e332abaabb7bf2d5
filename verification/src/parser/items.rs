//! Items: the top-level declarations of a file.

use vstd::prelude::*;
use crate::lexer::token::TokenType;
use crate::lexer::token::TokenView;
use crate::model::lemma_views_empty;
use crate::model::lemma_views_push;
use crate::model::views;
use crate::parser::Expected;
use crate::parser::ParseError;
use crate::parser::ParseResult;
use crate::parser::Parser;
use crate::parser::ast::Ast;
use crate::parser::ast::Binding;
use crate::parser::ast::Field;
use crate::parser::ast::FieldView;
use crate::parser::ast::Item;
use crate::parser::ast::Variant;
use crate::parser::ast::VariantView;
use crate::parser::grammar::Parsed;
use crate::parser::grammar::const_at;
use crate::parser::grammar::declared_name_at;
use crate::parser::grammar::delimited_list;
use crate::parser::grammar::enum_at;
use crate::parser::grammar::field_at;
use crate::parser::grammar::field_item;
use crate::parser::grammar::fields_at;
use crate::parser::grammar::file_at;
use crate::parser::grammar::function_at;
use crate::parser::grammar::item_at;
use crate::parser::grammar::parsed;
use crate::parser::grammar::parsed_list;
use crate::parser::grammar::remaining;
use crate::parser::grammar::struct_at;
use crate::parser::grammar::variant_at;
use crate::parser::grammar::variant_item;
use crate::parser::helpers::ListItem;

verus! {

impl ListItem for Field {
    open spec fn production(tokens: Seq<TokenView>) -> spec_fn(nat) -> Parsed<FieldView> {
        field_item(tokens)
    }

    fn parse(parser: &mut Parser) -> (outcome: ParseResult<Field>) {
        parser.field()
    }
}

impl ListItem for Variant {
    open spec fn production(tokens: Seq<TokenView>) -> spec_fn(nat) -> Parsed<VariantView> {
        variant_item(tokens)
    }

    fn parse(parser: &mut Parser) -> (outcome: ParseResult<Variant>) {
        parser.variant()
    }
}

impl Parser {
    /// Parses the items of a file, up to the end of the input.
    pub fn file(&mut self) -> (outcome: ParseResult<Ast>)
        requires
            old(self).wf(),
        ensures
            final(self).follows(*old(self)),
            parsed_list(outcome, final(self).cursor()) == file_at(
                old(self).stream(),
                old(self).cursor(),
                Seq::empty(),
            ),
    {
        let ghost tokens = self.stream();
        let ghost origin = self.cursor();
        let mut items: Vec<Item> = Vec::new();
        proof {
            lemma_views_empty::<Item>();
        }
        loop
            invariant
                self.wf(),
                self.stream() == tokens,
                tokens == old(self).stream(),
                origin == old(self).cursor(),
                origin <= self.cursor(),
                file_at(tokens, self.cursor(), views(items@)) == file_at(
                    tokens,
                    origin,
                    Seq::empty(),
                ),
            decreases remaining(tokens, self.cursor()),
        {
            reveal(file_at);
            if self.at(TokenType::Eof) {
                return Ok(items);
            }
            let item = self.item()?;
            proof {
                lemma_views_push(items@, item);
            }
            items.push(item);
        }
    }

    /// Parses one item: a constant, a function, a struct or an enum, told by
    /// its keyword.
    pub fn item(&mut self) -> (outcome: ParseResult<Item>)
        requires
            old(self).wf(),
        ensures
            final(self).follows(*old(self)),
            parsed(outcome, final(self).cursor()) == item_at(old(self).stream(), old(self).cursor()),
            outcome is Ok ==> remaining(final(self).stream(), final(self).cursor()) < remaining(
                old(self).stream(),
                old(self).cursor(),
            ),
    {
        match self.peek().ty() {
            TokenType::Const => {
                self.next();
                self.constant()
            },
            TokenType::Fn => {
                self.next();
                self.function()
            },
            TokenType::Struct => {
                self.next();
                self.structure()
            },
            TokenType::Enum => {
                self.next();
                self.enumeration()
            },
            found => Err(ParseError::UnexpectedToken(found, Some(Expected::Item))),
        }
    }

    /// Parses what follows `const`: a name, a colon, a type, `=` and the
    /// value.
    fn constant(&mut self) -> (outcome: ParseResult<Item>)
        requires
            old(self).wf(),
        ensures
            final(self).follows(*old(self)),
            parsed(outcome, final(self).cursor()) == const_at(old(self).stream(), old(self).cursor()),
    {
        let ident = self.ident()?;
        self.consume(TokenType::Colon)?;
        let ty = self.type_()?;
        self.consume(TokenType::Eq)?;
        let value = self.expression()?;
        Ok(Item::Const { ident, ty, value })
    }

    /// Parses what follows `fn`: a name, the parameters in parentheses, an
    /// optional result type behind a colon, `->` and the body.
    fn function(&mut self) -> (outcome: ParseResult<Item>)
        requires
            old(self).wf(),
        ensures
            final(self).follows(*old(self)),
            parsed(outcome, final(self).cursor()) == function_at(
                old(self).stream(),
                old(self).cursor(),
            ),
    {
        let name = self.ident()?;
        let params = self.delimited_list::<Binding>(TokenType::LParen, TokenType::RParen)?;
        let return_type = if self.consume_at(TokenType::Colon) {
            Some(self.type_()?)
        } else {
            None
        };
        self.consume(TokenType::Arrow)?;
        let body = self.expression()?;
        Ok(Item::Function { name, params, return_type, body })
    }

    /// Parses what follows `struct`: the name with its generic parameters,
    /// and the fields in braces.
    fn structure(&mut self) -> (outcome: ParseResult<Item>)
        requires
            old(self).wf(),
        ensures
            final(self).follows(*old(self)),
            parsed(outcome, final(self).cursor()) == struct_at(old(self).stream(), old(self).cursor()),
    {
        let (name, generic_params) = self.declared_name()?;
        let fields = self.fields()?;
        Ok(Item::Struct { name, generic_params, fields })
    }

    /// Parses what follows `enum`: the name with its generic parameters, and
    /// the variants in braces.
    fn enumeration(&mut self) -> (outcome: ParseResult<Item>)
        requires
            old(self).wf(),
        ensures
            final(self).follows(*old(self)),
            parsed(outcome, final(self).cursor()) == enum_at(old(self).stream(), old(self).cursor()),
    {
        let (name, generic_params) = self.declared_name()?;
        let variants = self.variants()?;
        Ok(Item::Enum { name, generic_params, variants })
    }

    /// Parses the name of a declared type with its generic parameters: bare
    /// identifiers between `<` and `>`, or none.
    pub fn declared_name(&mut self) -> (outcome: ParseResult<(String, Vec<String>)>)
        requires
            old(self).wf(),
        ensures
            final(self).follows(*old(self)),
            declared_name_at(old(self).stream(), old(self).cursor()) == (Parsed {
                result: match outcome {
                    Ok(named) => Ok((named.0@, views(named.1@))),
                    Err(error) => Err(error),
                },
                next: final(self).cursor(),
            }),
    {
        let name = self.ident()?;
        let generic_params = if self.at(TokenType::LAngle) {
            self.delimited_list::<String>(TokenType::LAngle, TokenType::RAngle)?
        } else {
            proof {
                lemma_views_empty::<String>();
            }
            Vec::new()
        };
        Ok((name, generic_params))
    }

    /// Parses one field: a name, a colon and a type.
    pub fn field(&mut self) -> (outcome: ParseResult<Field>)
        requires
            old(self).wf(),
        ensures
            final(self).follows(*old(self)),
            parsed(outcome, final(self).cursor()) == field_at(old(self).stream(), old(self).cursor()),
    {
        let name = self.ident()?;
        self.consume(TokenType::Colon)?;
        let ty = self.type_()?;
        Ok(Field { name, ty })
    }

    /// Parses a list of fields in braces,
    /// `{ field (, field)* (,)? }`.
    pub fn fields(&mut self) -> (outcome: ParseResult<Vec<Field>>)
        requires
            old(self).wf(),
        ensures
            final(self).follows(*old(self)),
            parsed_list(outcome, final(self).cursor()) == fields_at(
                old(self).stream(),
                old(self).cursor(),
            ),
    {
        self.delimited_list::<Field>(TokenType::LBrace, TokenType::RBrace)
    }

    /// Parses one variant of an enum. The token behind the name tells its
    /// form: `{` a struct-like variant, `(` a tuple variant, `,` a unit
    /// variant.
    pub fn variant(&mut self) -> (outcome: ParseResult<Variant>)
        requires
            old(self).wf(),
        ensures
            final(self).follows(*old(self)),
            parsed(outcome, final(self).cursor()) == variant_at(old(self).stream(), old(self).cursor()),
    {
        let name = self.ident()?;
        match self.peek().ty() {
            TokenType::LBrace => Ok(Variant::Struct(name, self.fields()?)),
            TokenType::LParen => Ok(
                Variant::Tuple(name, self.type_list(TokenType::LParen, TokenType::RParen)?),
            ),
            TokenType::Comma => Ok(Variant::Unit(name)),
            found => Err(ParseError::UnexpectedToken(found, Some(Expected::VariantBody))),
        }
    }

    /// Parses the variants of an enum in braces,
    /// `{ variant (, variant)* (,)? }`.
    pub fn variants(&mut self) -> (outcome: ParseResult<Vec<Variant>>)
        requires
            old(self).wf(),
        ensures
            final(self).follows(*old(self)),
            parsed_list(outcome, final(self).cursor()) == delimited_list(
                old(self).stream(),
                old(self).cursor(),
                variant_item(old(self).stream()),
                TokenType::LBrace,
                TokenType::RBrace,
            ),
    {
        self.delimited_list::<Variant>(TokenType::LBrace, TokenType::RBrace)
    }
}

} // verus!
