//! Syntax parser: from tokens to the abstract syntax tree.

pub mod ast;
pub mod copy;
pub mod error;
pub mod grammar;
pub mod expressions;
pub mod helpers;
pub mod hierarchy;
pub mod items;
pub mod laws;

use vstd::prelude::*;
use crate::lexer::Lexer;
use crate::lexer::lemma_lex_ends_with_single_eof;
use crate::lexer::lex;
use crate::lexer::token::Token;
use crate::lexer::token::TokenType;
use crate::lexer::token::TokenView;
use crate::parser::grammar::advance;
use crate::parser::grammar::expect;
use crate::parser::grammar::peek_at;

pub use error::Expected;
pub use error::ParseError;

verus! {

/// The outcome of a production of the parser: a node or an error.
pub type ParseResult<T> = Result<T, ParseError>;

/// A cursor over the tokens of a text, with one token of lookahead. The
/// tokens are taken from the tokenizer one by one, as the parser asks for
/// them.
pub struct Parser {
    /// The tokenizer, which stands behind the lookahead.
    lexer: Lexer,
    /// The lookahead; none once the tokenizer has given its last token.
    token: Option<Token>,
    /// The number of tokens consumed so far.
    consumed: Ghost<nat>,
}

impl Parser {
    /// The tokens that the parser reads, consumed ones included.
    #[verifier::opaque]
    pub closed spec fn stream(&self) -> Seq<TokenView> {
        lex(self.lexer.text())
    }

    /// The number of tokens consumed so far.
    pub closed spec fn cursor(&self) -> nat {
        self.consumed@
    }

    /// Whether the token that the parser holds is the one at its cursor, and
    /// the tokenizer stands behind that token.
    #[verifier::opaque]
    pub closed spec fn wf(&self) -> bool {
        let consumed = self.consumed@;
        match self.token {
            Some(token) => {
                &&& consumed < self.stream().len()
                &&& token@ == self.stream()[consumed as int]
                &&& self.lexer.pending() == self.stream().skip(consumed + 1int)
            },
            None => consumed >= self.stream().len() && self.lexer.pending().len() == 0,
        }
    }

    /// Whether this parser has come from the parser `before` by reading
    /// tokens: it reads the same tokens and stands at or behind the cursor of
    /// `before`.
    pub open spec fn follows(&self, before: Parser) -> bool {
        &&& self.wf()
        &&& self.stream() == before.stream()
        &&& before.cursor() <= self.cursor()
    }

    /// A parser at the start of the tokens of `input`.
    pub fn new(input: &str) -> (parser: Parser)
        ensures
            parser.wf(),
            parser.stream() == lex(input@),
            parser.cursor() == 0,
    {
        let mut lexer = Lexer::new(input);
        let token = lexer.next();
        proof {
            reveal(Parser::stream);
            reveal(Parser::wf);
            lemma_lex_ends_with_single_eof(input@);
        }
        Parser { lexer, token, consumed: Ghost(0) }
    }

    /// The lookahead: the next token, which stays where it is. Past the end of
    /// the tokens the lookahead is `Eof`.
    pub fn peek(&self) -> (token: &Token)
        requires
            self.wf(),
        ensures
            token@ == peek_at(self.stream(), self.cursor()),
    {
        proof {
            reveal(Parser::stream);
            reveal(Parser::wf);
        }
        match &self.token {
            Some(token) => token,
            None => &Token::Eof,
        }
    }

    /// Whether the lookahead is of the given kind.
    pub fn at(&self, kind: TokenType) -> (yes: bool)
        requires
            self.wf(),
        ensures
            yes == (peek_at(self.stream(), self.cursor()).kind() == kind),
    {
        self.peek().ty() == kind
    }

    /// Takes the next token, if one is left.
    pub fn next(&mut self) -> (token: Option<Token>)
        requires
            old(self).wf(),
        ensures
            final(self).follows(*old(self)),
            final(self).cursor() == advance(old(self).stream(), old(self).cursor()),
            old(self).cursor() < old(self).stream().len() ==> token is Some && token->0@ == old(
                self,
            ).stream()[old(self).cursor() as int],
            old(self).cursor() >= old(self).stream().len() ==> token is None,
    {
        proof {
            reveal(Parser::stream);
            reveal(Parser::wf);
        }
        if self.token.is_some() {
            let ghost stream = self.stream();
            let ghost consumed = self.consumed@;
            let following = self.lexer.next();
            let token = self.token.take();
            self.token = following;
            proof {
                if stream.skip(consumed + 1int).len() > 0 {
                    assert(stream.skip(consumed + 1int).drop_first() =~= stream.skip(
                        consumed + 2int,
                    ));
                }
                self.consumed = Ghost((consumed + 1) as nat);
            }
            token
        } else {
            None
        }
    }

    /// Takes the next token and checks that it is of the expected kind.
    pub fn consume(&mut self, expected: TokenType) -> (outcome: ParseResult<()>)
        requires
            old(self).wf(),
        ensures
            final(self).follows(*old(self)),
            final(self).cursor() == advance(old(self).stream(), old(self).cursor()),
            outcome == expect(old(self).stream(), old(self).cursor(), expected),
    {
        let found = self.peek().ty();
        self.next();
        if found == TokenType::Eof {
            Err(ParseError::MissingToken)
        } else if found != expected {
            Err(ParseError::MismatchedToken { expected, found })
        } else {
            Ok(())
        }
    }

    /// Takes the next token if it is of the given kind, and says whether it did.
    pub fn consume_at(&mut self, kind: TokenType) -> (taken: bool)
        requires
            old(self).wf(),
        ensures
            final(self).follows(*old(self)),
            taken == (peek_at(old(self).stream(), old(self).cursor()).kind() == kind),
            final(self).cursor() == if taken {
                advance(old(self).stream(), old(self).cursor())
            } else {
                old(self).cursor()
            },
    {
        if self.at(kind) {
            self.next();
            true
        } else {
            false
        }
    }
}

} // verus!
