//! Tokenizer: from source text to tokens.
//!
//! At each position the tokenizer first skips comments and white space.
//! It then gives the token of the longest match among the rules, or, where
//! no rule matches, one error token for the run of characters up to the next
//! position at which a rule matches. The end of the input gives `Eof`, once.

pub mod laws;
pub mod literals;
pub mod rules;
pub mod text;
pub mod token;

pub use token::Token;
pub use token::TokenType;
pub use token::TokenView;

use vstd::prelude::*;
use crate::lexer::rules::find_longest_match;
use crate::lexer::rules::lemma_longest_match_bounds;
use crate::lexer::rules::longest_match;
use crate::lexer::text::byte_offset;
use crate::lexer::text::char_width;
use crate::lexer::text::chars_of;
use crate::lexer::text::is_whitespace;
use crate::lexer::text::lemma_byte_offset_is_encoded_length;
use crate::lexer::text::lemma_byte_offset_monotone;
use crate::lexer::text::whitespace;
use crate::model::lemma_views_empty;
use crate::model::lemma_views_push;
use crate::model::views;

verus! {

/// Whether a comment starts at index `at`: two slashes.
pub open spec fn starts_comment(text: Seq<char>, at: nat) -> bool {
    at + 1 < text.len() && text[at as int] == '/' && text[(at + 1) as int] == '/'
}

/// The index behind the first newline from index `at` on, or the length of
/// the text where no newline follows.
pub open spec fn line_end(text: Seq<char>, at: nat) -> nat
    decreases text.len() - at,
{
    if at >= text.len() {
        text.len()
    } else if text[at as int] == '\n' {
        at + 1
    } else {
        line_end(text, at + 1)
    }
}

/// A line ends behind its start and inside the text.
pub proof fn lemma_line_end(text: Seq<char>, at: nat)
    requires
        at < text.len(),
    ensures
        at < line_end(text, at) <= text.len(),
    decreases text.len() - at,
{
    if text[at as int] != '\n' {
        if at + 1 < text.len() {
            lemma_line_end(text, at + 1);
        } else {
            assert(line_end(text, at + 1) == text.len());
        }
    }
}

/// The index of the first character from index `at` on that belongs to a
/// token: what lies before it is comments, each up to and including the end
/// of its line, and white space.
pub open spec fn skip_trivia(text: Seq<char>, at: nat) -> nat
    decreases text.len() - at,
{
    if starts_comment(text, at) {
        proof {
            lemma_line_end(text, at);
        }
        skip_trivia(text, line_end(text, at))
    } else if at < text.len() && whitespace(text[at as int]) {
        skip_trivia(text, at + 1)
    } else {
        at
    }
}

/// The first index from `at` on at which a rule matches, or the length of
/// the text where no rule matches any more.
pub open spec fn error_end(text: Seq<char>, at: nat) -> nat
    decreases text.len() - at,
{
    if at >= text.len() {
        text.len()
    } else if longest_match(text, at) is Some {
        at
    } else {
        error_end(text, at + 1)
    }
}

/// The token at index `at`, where a token starts, and the index behind it:
/// the longest match among the rules, or, where no rule matches, an error
/// token for the characters up to the next index at which a rule matches.
/// The error token holds the byte offsets of its first character and of the
/// character behind it.
pub open spec fn token_at(text: Seq<char>, at: nat) -> (TokenView, nat) {
    match longest_match(text, at) {
        Some(found) => (found.0, at + found.1),
        None => {
            let end = error_end(text, at + 1);
            (TokenView::Error { start: byte_offset(text, at), end: byte_offset(text, end) }, end)
        },
    }
}

/// Skipping stops at or behind its start, inside the text.
pub proof fn lemma_skip_trivia(text: Seq<char>, at: nat)
    requires
        at <= text.len(),
    ensures
        at <= skip_trivia(text, at) <= text.len(),
    decreases text.len() - at,
{
    if starts_comment(text, at) {
        lemma_line_end(text, at);
        lemma_skip_trivia(text, line_end(text, at));
    } else if at < text.len() && whitespace(text[at as int]) {
        lemma_skip_trivia(text, at + 1);
    }
}

/// An error ends at or behind the index from which it is looked for, inside
/// the text. No rule matches before its end, and one matches at its end
/// unless the text ends there.
pub proof fn lemma_error_end(text: Seq<char>, at: nat)
    requires
        at <= text.len(),
    ensures
        at <= error_end(text, at) <= text.len(),
        forall|inside: nat|
            at <= inside < error_end(text, at) ==> #[trigger] longest_match(text, inside) is None,
        error_end(text, at) < text.len() ==> longest_match(text, error_end(text, at)) is Some,
    decreases text.len() - at,
{
    if at < text.len() && longest_match(text, at) is None {
        lemma_error_end(text, at + 1);
    }
}

/// Where no rule matches, the token is an error whose span is not empty and
/// lies inside the text: it starts at the byte offset of the index `at` and
/// ends at the byte offset of the first index behind `at` at which a rule
/// matches, or at the end of the text where no rule matches any more.
pub proof fn lemma_error_span(text: Seq<char>, at: nat)
    requires
        at < text.len(),
        longest_match(text, at) is None,
    ensures
        ({
            let end = token_at(text, at).1;
            &&& at < end <= text.len()
            &&& token_at(text, at).0 == (TokenView::Error {
                start: byte_offset(text, at),
                end: byte_offset(text, end),
            })
            &&& byte_offset(text, at) < byte_offset(text, end) <= byte_offset(text, text.len())
            &&& forall|inside: nat| at <= inside < end ==> #[trigger] longest_match(text, inside) is None
            &&& end < text.len() ==> longest_match(text, end) is Some
        }),
{
    lemma_error_end(text, at + 1);
    let end = error_end(text, at + 1);
    lemma_byte_offset_monotone(text, at, end);
    lemma_byte_offset_monotone(text, end, text.len());
}

/// A token takes at least one character and ends inside the text, and is
/// never `Eof`.
pub proof fn lemma_token_at(text: Seq<char>, at: nat)
    requires
        at < text.len(),
    ensures
        at < token_at(text, at).1 <= text.len(),
        token_at(text, at).0.kind() != TokenType::Eof,
{
    lemma_longest_match_bounds(text, at);
    lemma_error_end(text, at + 1);
}

/// The tokens of `text` from index `at` on, with `Eof` at the end.
#[verifier::opaque]
pub open spec fn tokens_from(text: Seq<char>, at: nat) -> Seq<TokenView>
    decreases text.len() - at,
{
    let start = skip_trivia(text, at);
    if at > text.len() || start >= text.len() {
        seq![TokenView::Eof]
    } else {
        proof {
            lemma_skip_trivia(text, at);
            lemma_token_at(text, start);
        }
        seq![token_at(text, start).0] + tokens_from(text, token_at(text, start).1)
    }
}

/// The tokens of `text`.
#[verifier::opaque]
pub open spec fn lex(text: Seq<char>) -> Seq<TokenView> {
    tokens_from(text, 0)
}

/// The tokens of a text end with `Eof`, and no token before the last one is
/// `Eof`.
pub proof fn lemma_single_eof(text: Seq<char>, at: nat)
    ensures
        tokens_from(text, at).len() >= 1,
        tokens_from(text, at).last() == TokenView::Eof,
        forall|i: int|
            0 <= i < tokens_from(text, at).len() - 1 ==> (#[trigger] tokens_from(
                text,
                at,
            )[i]).kind() != TokenType::Eof,
    decreases text.len() - at,
{
    reveal(tokens_from);
    let start = skip_trivia(text, at);
    if !(at > text.len() || start >= text.len()) {
        lemma_skip_trivia(text, at);
        lemma_token_at(text, start);
        lemma_single_eof(text, token_at(text, start).1);
    }
}

/// The tokens of a text are a function of the text alone. They end with
/// `Eof`, and no token before the last one is `Eof`.
pub proof fn lemma_lex_ends_with_single_eof(text: Seq<char>)
    ensures
        lex(text).len() >= 1,
        lex(text).last() == TokenView::Eof,
        forall|i: int| 0 <= i < lex(text).len() - 1 ==> (#[trigger] lex(text)[i]).kind()
            != TokenType::Eof,
{
    reveal(lex);
    lemma_single_eof(text, 0);
}

/// The position of a tokenizer in its text.
struct Cursor {
    /// The index of the next character.
    index: usize,
    /// The byte offset of the next character.
    offset: usize,
}

/// A tokenizer over one source text. It gives the tokens one by one, the
/// last of them `Eof`, and nothing after that.
pub struct Lexer {
    input: Vec<char>,
    cursor: Cursor,
    eof: bool,
}

impl Lexer {
    #[verifier::type_invariant]
    spec fn well_formed(self) -> bool {
        &&& self.cursor.index <= self.input@.len()
        &&& self.cursor.offset == byte_offset(self.input@, self.cursor.index as nat)
        &&& byte_offset(self.input@, self.input@.len()) <= usize::MAX
        &&& self.eof ==> self.cursor.index == self.input@.len()
    }

    /// The text that is read.
    pub closed spec fn text(&self) -> Seq<char> {
        self.input@
    }

    /// The index of the next character.
    pub closed spec fn position(&self) -> nat {
        self.cursor.index as nat
    }

    /// Whether `Eof` has been given.
    pub closed spec fn finished(&self) -> bool {
        self.eof
    }

    /// The tokens that are still to come.
    pub open spec fn pending(&self) -> Seq<TokenView> {
        if self.finished() {
            Seq::empty()
        } else {
            tokens_from(self.text(), self.position())
        }
    }

    /// A tokenizer at the start of `input`.
    pub fn new(input: &str) -> (lexer: Lexer)
        ensures
            lexer.text() == input@,
            lexer.position() == 0,
            !lexer.finished(),
            lexer.pending() == lex(input@),
    {
        let chars = chars_of(input);
        let bytes = input.as_bytes();
        proof {
            reveal(lex);
            lemma_byte_offset_is_encoded_length(input@);
            vstd::slice::axiom_spec_len(bytes);
        }
        Lexer { input: chars, cursor: Cursor { index: 0, offset: 0 }, eof: false }
    }

    /// Gives all tokens that are still to come, `Eof` last.
    pub fn tokenize(&mut self) -> (tokens: Vec<Token>)
        ensures
            final(self).text() == old(self).text(),
            views(tokens@) == old(self).pending(),
            final(self).pending() == Seq::<TokenView>::empty(),
    {
        let mut tokens: Vec<Token> = Vec::new();
        proof {
            lemma_views_empty::<Token>();
        }
        loop
            invariant
                self.text() == old(self).text(),
                views(tokens@) + self.pending() == old(self).pending(),
            decreases self.pending().len(),
        {
            match self.next() {
                Some(token) => {
                    proof {
                        lemma_views_push(tokens@, token);
                    }
                    tokens.push(token);
                },
                None => {
                    return tokens;
                },
            }
        }
    }

    /// Gives the next token, or nothing once `Eof` has been given.
    pub fn next(&mut self) -> (token: Option<Token>)
        ensures
            final(self).text() == old(self).text(),
            match token {
                Some(first) => old(self).pending().len() > 0 && first@ == old(self).pending()[0]
                    && final(self).pending() == old(self).pending().drop_first(),
                None => old(self).pending().len() == 0 && final(self).pending().len() == 0,
            },
    {
        if self.eof {
            None
        } else {
            let ghost text = self.text();
            let ghost start = skip_trivia(text, self.position());
            proof {
                reveal(tokens_from);
                use_type_invariant(&*self);
                lemma_skip_trivia(text, self.position());
                if start < text.len() {
                    lemma_token_at(text, start);
                }
            }
            let token = self.next_token();
            Some(token)
        }
    }

    /// Skips comments and white space and gives the token that follows: the
    /// longest match among the rules, an error token where no rule matches,
    /// or `Eof` at the end of the input.
    pub fn next_token(&mut self) -> (token: Token)
        ensures
            final(self).text() == old(self).text(),
            skip_trivia(old(self).text(), old(self).position()) >= old(self).text().len() ==> {
                &&& token@ == TokenView::Eof
                &&& final(self).finished()
                &&& final(self).position() == old(self).text().len()
            },
            skip_trivia(old(self).text(), old(self).position()) < old(self).text().len() ==> {
                &&& (token@, final(self).position()) == token_at(
                    old(self).text(),
                    skip_trivia(old(self).text(), old(self).position()),
                )
                &&& final(self).finished() == old(self).finished()
            },
    {
        self.skip();
        proof {
            use_type_invariant(&*self);
        }
        if self.cursor.index >= self.input.len() {
            self.eof = true;
            Token::Eof
        } else {
            match self.valid_token() {
                Some(token) => token,
                None => self.invalid_token(),
            }
        }
    }

    /// Moves the cursor to the index `next`.
    fn advance_to(&mut self, next: usize)
        requires
            old(self).position() <= next <= old(self).text().len(),
            !old(self).finished() || next == old(self).position(),
        ensures
            final(self).text() == old(self).text(),
            final(self).position() == next,
            final(self).finished() == old(self).finished(),
    {
        proof {
            use_type_invariant(&*self);
        }
        let mut index = self.cursor.index;
        let mut offset = self.cursor.offset;
        while index < next
            invariant
                index <= next <= self.input@.len(),
                offset == byte_offset(self.input@, index as nat),
                byte_offset(self.input@, self.input@.len()) <= usize::MAX,
            decreases next - index,
        {
            proof {
                lemma_byte_offset_monotone(self.input@, (index + 1) as nat, self.input@.len());
            }
            offset = offset + char_width(self.input[index]);
            index = index + 1;
        }
        self.cursor = Cursor { index, offset };
    }

    /// Skips comments and white space.
    fn skip(&mut self)
        ensures
            final(self).text() == old(self).text(),
            final(self).position() == skip_trivia(old(self).text(), old(self).position()),
            final(self).finished() == old(self).finished(),
            final(self).position() <= old(self).text().len(),
    {
        proof {
            use_type_invariant(&*self);
        }
        let mut index = self.cursor.index;
        loop
            invariant
                self.cursor.index <= index <= self.input@.len(),
                skip_trivia(self.input@, index as nat) == skip_trivia(
                    self.input@,
                    self.cursor.index as nat,
                ),
            ensures
                index == skip_trivia(self.input@, self.cursor.index as nat),
            decreases self.input@.len() - index,
        {
            let size = self.input.len();
            if index < size && size - index >= 2 && self.input[index] == '/' && self.input[index
                + 1] == '/' {
                proof {
                    lemma_line_end(self.input@, index as nat);
                }
                let ghost comment = index;
                while index < size && self.input[index] != '\n'
                    invariant
                        comment <= index <= size,
                        size == self.input@.len(),
                        line_end(self.input@, index as nat) == line_end(
                            self.input@,
                            comment as nat,
                        ),
                    decreases size - index,
                {
                    index = index + 1;
                }
                if index < size {
                    index = index + 1;
                }
            } else if index < size && is_whitespace(self.input[index]) {
                index = index + 1;
            } else {
                break ;
            }
        }
        self.advance_to(index);
    }

    /// Gives the token of the longest match among the rules at the cursor
    /// and moves the cursor behind it. Where no rule matches, the cursor
    /// stays.
    fn valid_token(&mut self) -> (token: Option<Token>)
        requires
            old(self).position() < old(self).text().len(),
        ensures
            final(self).text() == old(self).text(),
            final(self).finished() == old(self).finished(),
            match token {
                Some(found) => longest_match(old(self).text(), old(self).position()) == Some(
                    (found@, (final(self).position() - old(self).position()) as nat),
                ) && old(self).position() < final(self).position(),
                None => longest_match(old(self).text(), old(self).position()) is None
                    && final(self).position() == old(self).position(),
            },
    {
        proof {
            use_type_invariant(&*self);
        }
        match find_longest_match(&self.input, self.cursor.index) {
            Some((token, len)) => {
                self.advance_to(self.cursor.index + len);
                Some(token)
            },
            None => None,
        }
    }

    /// Gives an error token for the characters from the cursor up to the next
    /// index at which a rule matches, or up to the end of the input, and
    /// moves the cursor there.
    fn invalid_token(&mut self) -> (token: Token)
        requires
            old(self).position() < old(self).text().len(),
        ensures
            final(self).text() == old(self).text(),
            final(self).finished() == old(self).finished(),
            final(self).position() == error_end(old(self).text(), old(self).position() + 1),
            token@ == (TokenView::Error {
                start: byte_offset(old(self).text(), old(self).position()),
                end: byte_offset(old(self).text(), final(self).position()),
            }),
    {
        proof {
            use_type_invariant(&*self);
        }
        let start = self.cursor.offset;
        let size = self.input.len();
        let mut end = self.cursor.index + 1;
        while end < size && find_longest_match(&self.input, end).is_none()
            invariant
                self.cursor.index < end <= self.input@.len(),
                size == self.input@.len(),
                error_end(self.input@, end as nat) == error_end(
                    self.input@,
                    (self.cursor.index + 1) as nat,
                ),
            decreases self.input@.len() - end,
        {
            end = end + 1;
        }
        self.advance_to(end);
        proof {
            use_type_invariant(&*self);
        }
        Token::Error { start, end: self.cursor.offset }
    }
}

} // verus!
