//! The rules of the tokenizer, in their fixed order, and the choice among
//! the rules that match at one position.
//!
//! The order of the rules matters where two rules match the same number of
//! characters: the rule that stands first wins. The keywords stand before
//! the identifier, so `if` is a keyword and `iffy` an identifier.

use vstd::prelude::*;
use crate::lexer::literals::char_len;
use crate::lexer::literals::char_value;
use crate::lexer::literals::float_len;
use crate::lexer::literals::identifier_len;
use crate::lexer::literals::int_len;
use crate::lexer::literals::int_value;
use crate::lexer::literals::int_value_between;
use crate::lexer::literals::lemma_closing_quote;
use crate::lexer::literals::lemma_exponent_end;
use crate::lexer::literals::match_char;
use crate::lexer::literals::match_float;
use crate::lexer::literals::match_identifier;
use crate::lexer::literals::match_int;
use crate::lexer::literals::match_string;
use crate::lexer::literals::same_len;
use crate::lexer::literals::sign_len;
use crate::lexer::literals::string_len;
use crate::lexer::literals::unescape;
use crate::lexer::literals::unescape_between;
use crate::lexer::text::chars_of;
use crate::lexer::text::digit;
use crate::lexer::text::ident_continue;
use crate::lexer::text::lemma_run_end;
use crate::lexer::text::run_end;
use crate::lexer::text::starts_with;
use crate::lexer::text::text_between;
use crate::lexer::token::Token;
use crate::lexer::token::TokenType;
use crate::lexer::token::TokenView;

verus! {

/// The number of rules.
pub const RULE_COUNT: usize = 47;

/// The number of the first rule of a keyword. The rules before it are those
/// of the literals and of the symbols.
pub const KEYWORD_RULES: usize = 35;

/// The number of the rule of identifiers, which stands behind the rules of
/// the keywords.
pub const IDENTIFIER_RULE: usize = 46;

/// The length of the match of the character `c` at index `at`.
pub open spec fn single_char(text: Seq<char>, at: nat, c: char) -> Option<nat> {
    if at < text.len() && text[at as int] == c {
        Some(1)
    } else {
        None
    }
}

/// The length of the match of the characters `first` and `second`, one
/// behind the other, at index `at`.
pub open spec fn two_chars(text: Seq<char>, at: nat, first: char, second: char) -> Option<nat> {
    if at + 1 < text.len() && text[at as int] == first && text[(at + 1) as int] == second {
        Some(2)
    } else {
        None
    }
}

/// The length of the match of the word `word` at index `at`. What follows
/// the word does not matter.
pub open spec fn keyword(text: Seq<char>, at: nat, word: Seq<char>) -> Option<nat> {
    if starts_with(text, at, word) {
        Some(word.len())
    } else {
        None
    }
}

/// The characters of the match of length `len` at index `at`.
pub open spec fn lexeme(text: Seq<char>, at: nat, len: nat) -> Seq<char> {
    text.subrange(at as int, (at + len) as int)
}

/// A match of a rule that always gives the same token.
pub open spec fn with_token(len: Option<nat>, token: TokenView) -> Option<(TokenView, nat)> {
    match len {
        Some(n) => Some((token, n)),
        None => None,
    }
}

/// The rule of integer literals. A literal whose value does not fit in 64
/// bits is no match.
pub open spec fn int_rule(text: Seq<char>, at: nat) -> Option<(TokenView, nat)> {
    match int_len(text, at) {
        Some(len) => {
            let value = int_value(lexeme(text, at, len));
            if i64::MIN <= value <= i64::MAX {
                Some((TokenView::IntLit(value), len))
            } else {
                None
            }
        },
        None => None,
    }
}

/// The rule of floating-point literals.
pub open spec fn float_rule(text: Seq<char>, at: nat) -> Option<(TokenView, nat)> {
    match float_len(text, at) {
        Some(len) => Some((TokenView::FloatLit(lexeme(text, at, len)), len)),
        None => None,
    }
}

/// The rule of string literals: the token holds what stands between the
/// quotes, with each escape sequence replaced by what it stands for.
pub open spec fn string_rule(text: Seq<char>, at: nat) -> Option<(TokenView, nat)> {
    match string_len(text, at) {
        Some(len) => Some(
            (TokenView::StringLit(unescape(text, at + 1, (at + len - 1) as nat)), len),
        ),
        None => None,
    }
}

/// The rule of character literals.
pub open spec fn char_rule(text: Seq<char>, at: nat) -> Option<(TokenView, nat)> {
    match char_len(text, at) {
        Some(len) => Some((TokenView::CharLit(char_value(text, at)), len)),
        None => None,
    }
}

/// The rule of identifiers.
pub open spec fn identifier_rule(text: Seq<char>, at: nat) -> Option<(TokenView, nat)> {
    match identifier_len(text, at) {
        Some(len) => Some((TokenView::Ident(lexeme(text, at, len)), len)),
        None => None,
    }
}

/// The match of the rule with number `index` at index `at` of `text`: the
/// token and the number of characters that it takes. The rules, in order:
/// the literals; the symbols of one character; the symbols of two
/// characters; the keywords; the identifier.
pub open spec fn rule_at(index: nat, text: Seq<char>, at: nat) -> Option<(TokenView, nat)> {
    if index == 0 {
        int_rule(text, at)
    } else if index == 1 {
        float_rule(text, at)
    } else if index == 2 {
        string_rule(text, at)
    } else if index == 3 {
        char_rule(text, at)
    } else if index == 4 {
        with_token(single_char(text, at, '['), TokenView::LBracket)
    } else if index == 5 {
        with_token(single_char(text, at, ']'), TokenView::RBracket)
    } else if index == 6 {
        with_token(single_char(text, at, '{'), TokenView::LBrace)
    } else if index == 7 {
        with_token(single_char(text, at, '}'), TokenView::RBrace)
    } else if index == 8 {
        with_token(single_char(text, at, '('), TokenView::LParen)
    } else if index == 9 {
        with_token(single_char(text, at, ')'), TokenView::RParen)
    } else if index == 10 {
        with_token(single_char(text, at, '='), TokenView::Eq)
    } else if index == 11 {
        with_token(single_char(text, at, '&'), TokenView::Ampersand)
    } else if index == 12 {
        with_token(single_char(text, at, '|'), TokenView::Bar)
    } else if index == 13 {
        with_token(single_char(text, at, '!'), TokenView::Bang)
    } else if index == 14 {
        with_token(single_char(text, at, '^'), TokenView::UpArrow)
    } else if index == 15 {
        with_token(single_char(text, at, '<'), TokenView::LAngle)
    } else if index == 16 {
        with_token(single_char(text, at, '>'), TokenView::RAngle)
    } else if index == 17 {
        with_token(single_char(text, at, '+'), TokenView::Plus)
    } else if index == 18 {
        with_token(single_char(text, at, '-'), TokenView::Minus)
    } else if index == 19 {
        with_token(single_char(text, at, '*'), TokenView::Times)
    } else if index == 20 {
        with_token(single_char(text, at, '/'), TokenView::FSlash)
    } else if index == 21 {
        with_token(single_char(text, at, '\\'), TokenView::BSlash)
    } else if index == 22 {
        with_token(single_char(text, at, '.'), TokenView::Dot)
    } else if index == 23 {
        with_token(single_char(text, at, ','), TokenView::Comma)
    } else if index == 24 {
        with_token(single_char(text, at, ':'), TokenView::Colon)
    } else if index == 25 {
        with_token(single_char(text, at, ';'), TokenView::Semicolon)
    } else if index == 26 {
        with_token(single_char(text, at, '_'), TokenView::Underscore)
    } else if index == 27 {
        with_token(two_chars(text, at, '=', '='), TokenView::Eqq)
    } else if index == 28 {
        with_token(two_chars(text, at, '!', '='), TokenView::Neq)
    } else if index == 29 {
        with_token(two_chars(text, at, '&', '&'), TokenView::And)
    } else if index == 30 {
        with_token(two_chars(text, at, '|', '|'), TokenView::Or)
    } else if index == 31 {
        with_token(two_chars(text, at, '<', '='), TokenView::Leq)
    } else if index == 32 {
        with_token(two_chars(text, at, '>', '='), TokenView::Geq)
    } else if index == 33 {
        with_token(two_chars(text, at, '-', '>'), TokenView::Arrow)
    } else if index == 34 {
        with_token(two_chars(text, at, '*', '*'), TokenView::Exponent)
    } else if index == 35 {
        with_token(keyword(text, at, seq!['l', 'e', 't']), TokenView::Let)
    } else if index == 36 {
        with_token(keyword(text, at, seq!['m', 'u', 't']), TokenView::Mut)
    } else if index == 37 {
        with_token(keyword(text, at, seq!['f', 'n']), TokenView::Fn)
    } else if index == 38 {
        with_token(keyword(text, at, seq!['i', 'f']), TokenView::If)
    } else if index == 39 {
        with_token(keyword(text, at, seq!['e', 'l', 's', 'e']), TokenView::Else)
    } else if index == 40 {
        with_token(keyword(text, at, seq!['m', 'a', 't', 'c', 'h']), TokenView::Match)
    } else if index == 41 {
        with_token(keyword(text, at, seq!['c', 'o', 'n', 's', 't']), TokenView::Const)
    } else if index == 42 {
        with_token(keyword(text, at, seq!['s', 't', 'r', 'u', 'c', 't']), TokenView::Struct)
    } else if index == 43 {
        with_token(keyword(text, at, seq!['e', 'n', 'u', 'm']), TokenView::Enum)
    } else if index == 44 {
        with_token(keyword(text, at, seq!['t', 'r', 'u', 'e']), TokenView::True)
    } else if index == 45 {
        with_token(keyword(text, at, seq!['f', 'a', 'l', 's', 'e']), TokenView::False)
    } else if index == 46 {
        identifier_rule(text, at)
    } else {
        None
    }
}

/// The length of the match of the rule with number `index`; 0 where the
/// rule does not match.
pub open spec fn match_len(index: nat, text: Seq<char>, at: nat) -> nat {
    match rule_at(index, text, at) {
        Some(found) => found.1,
        None => 0,
    }
}

/// The number of the rule that is chosen among the first `count` rules: a
/// rule with the longest match, and among several of them the one that
/// stands first. None where none of them matches.
pub open spec fn chosen_rule(count: nat, text: Seq<char>, at: nat) -> Option<nat>
    decreases count,
{
    if count == 0 {
        None
    } else {
        let last = (count - 1) as nat;
        match chosen_rule(last, text, at) {
            Some(kept) => if match_len(kept, text, at) < match_len(last, text, at) {
                Some(last)
            } else {
                Some(kept)
            },
            None => if rule_at(last, text, at) is Some {
                Some(last)
            } else {
                None
            },
        }
    }
}

/// The token at index `at` of `text` and the number of characters that it
/// takes: the match of the rule that is chosen among all rules, if any rule
/// matches.
pub open spec fn longest_match(text: Seq<char>, at: nat) -> Option<(TokenView, nat)> {
    match chosen_rule(RULE_COUNT as nat, text, at) {
        Some(index) => rule_at(index, text, at),
        None => None,
    }
}

/// No rule among the first `count` matches more characters than the chosen
/// rule, and none that stands before it matches as many. Where no rule is
/// chosen, none matches.
pub proof fn lemma_chosen_rule(count: nat, text: Seq<char>, at: nat)
    ensures
        match chosen_rule(count, text, at) {
            Some(chosen) => {
                &&& chosen < count
                &&& rule_at(chosen, text, at) is Some
                &&& forall|other: nat|
                    other < count && rule_at(other, text, at) is Some ==> #[trigger] match_len(
                        other,
                        text,
                        at,
                    ) <= match_len(chosen, text, at)
                &&& forall|other: nat|
                    other < chosen && rule_at(other, text, at) is Some ==> #[trigger] match_len(
                        other,
                        text,
                        at,
                    ) < match_len(chosen, text, at)
            },
            None => forall|other: nat| other < count ==> #[trigger] rule_at(other, text, at) is None,
        },
    decreases count,
{
    if count > 0 {
        lemma_chosen_rule((count - 1) as nat, text, at);
    }
}

/// Whether a match takes at least one character, ends inside the text, and
/// has a token that is neither the end of the input nor an error.
pub open spec fn within_text(found: Option<(TokenView, nat)>, text: Seq<char>, at: nat) -> bool {
    found matches Some(taken) ==> 1 <= taken.1 && at + taken.1 <= text.len() && taken.0.kind()
        != TokenType::Eof && taken.0.kind() != TokenType::Error
}

/// A match of a literal or of an identifier lies within the text.
pub proof fn lemma_literals_within_text(text: Seq<char>, at: nat)
    ensures
        within_text(int_rule(text, at), text, at),
        within_text(float_rule(text, at), text, at),
        within_text(string_rule(text, at), text, at),
        within_text(char_rule(text, at), text, at),
        within_text(identifier_rule(text, at), text, at),
{
    let digits = |c: char| digit(c);
    let first = at + sign_len(text, at);
    if first <= text.len() {
        lemma_run_end(text, first, digits);
        let whole_end = run_end(text, first, digits);
        if whole_end < text.len() {
            lemma_run_end(text, whole_end + 1, digits);
            lemma_exponent_end(text, run_end(text, whole_end + 1, digits));
        }
        if first < text.len() {
            lemma_run_end(text, first + 1, digits);
            lemma_exponent_end(text, run_end(text, first + 1, digits));
        }
    }
    lemma_closing_quote(text, at + 1, '"');
    if at < text.len() {
        lemma_run_end(text, at + 1, |c: char| ident_continue(c));
    }
}

/// A match of any rule lies within the text.
pub proof fn lemma_rule_bounds(index: nat, text: Seq<char>, at: nat)
    ensures
        within_text(rule_at(index, text, at), text, at),
{
    lemma_literals_within_text(text, at);
}

/// The rule that is chosen among all rules matches at least one character
/// and ends inside the text.
pub proof fn lemma_longest_match_bounds(text: Seq<char>, at: nat)
    ensures
        within_text(longest_match(text, at), text, at),
{
    lemma_chosen_rule(RULE_COUNT as nat, text, at);
    if let Some(index) = chosen_rule(RULE_COUNT as nat, text, at) {
        lemma_rule_bounds(index, text, at);
    }
}

/// Whether a match that was computed is the match of the model.
pub open spec fn same_match(
    computed: Option<(Token, usize)>,
    model: Option<(TokenView, nat)>,
) -> bool {
    match computed {
        Some((token, len)) => model == Some((token@, len as nat)),
        None => model is None,
    }
}

/// Matches the character `c` at index `at`.
pub fn match_single_char(input: &Vec<char>, at: usize, c: char) -> (len: Option<usize>)
    ensures
        same_len(len, single_char(input@, at as nat, c)),
{
    if at < input.len() && input[at] == c {
        Some(1)
    } else {
        None
    }
}

/// Matches the characters `first` and `second`, one behind the other, at
/// index `at`.
pub fn match_two_chars(input: &Vec<char>, at: usize, first: char, second: char) -> (len: Option<
    usize,
>)
    ensures
        same_len(len, two_chars(input@, at as nat, first, second)),
{
    if at < input.len() && input.len() - at >= 2 && input[at] == first && input[at + 1]
        == second {
        Some(2)
    } else {
        None
    }
}

/// Matches the word `keyword` at index `at`.
pub fn match_keyword(input: &Vec<char>, at: usize, keyword: &str) -> (len: Option<usize>)
    ensures
        same_len(len, self::keyword(input@, at as nat, keyword@)),
{
    let word = chars_of(keyword);
    if at > input.len() || word.len() > input.len() - at {
        return None;
    }
    let mut matched: usize = 0;
    while matched < word.len()
        invariant
            at + word.len() <= input.len(),
            matched <= word.len(),
            word@ == keyword@,
            input@.subrange(at as int, at + matched) == word@.subrange(0, matched as int),
        decreases word.len() - matched,
    {
        if input[at + matched] != word[matched] {
            return None;
        }
        matched = matched + 1;
    }
    assert(word@.subrange(0, matched as int) =~= word@);
    Some(word.len())
}

/// A match of a rule that always gives the same token.
fn tagged(len: Option<usize>, token: Token) -> (found: Option<(Token, usize)>)
    ensures
        found == (match len {
            Some(n) => Some((token, n)),
            None => None,
        }),
{
    match len {
        Some(n) => Some((token, n)),
        None => None,
    }
}

/// Applies the rule with number `index` at index `at`: the token and the
/// number of characters that it takes, if the rule matches there.
pub fn rule(index: usize, input: &Vec<char>, at: usize) -> (found: Option<(Token, usize)>)
    ensures
        same_match(found, rule_at(index as nat, input@, at as nat)),
{
    match index {
        0 => match match_int(input, at) {
            Some(len) => match int_value_between(input, at, at + len) {
                Some(value) => Some((Token::IntLit(value), len)),
                None => None,
            },
            None => None,
        },
        1 => match match_float(input, at) {
            Some(len) => Some((Token::FloatLit(text_between(input, at, at + len)), len)),
            None => None,
        },
        2 => match match_string(input, at) {
            Some(len) => Some(
                (Token::StringLit(unescape_between(input, at + 1, at + len - 1)), len),
            ),
            None => None,
        },
        3 => match match_char(input, at) {
            Some(len) => {
                let c = if input[at + 1] == '\\' {
                    if input[at + 2] == 'n' {
                        '\n'
                    } else {
                        input[at + 2]
                    }
                } else {
                    input[at + 1]
                };
                Some((Token::CharLit(c), len))
            },
            None => None,
        },
        4 => tagged(match_single_char(input, at, '['), Token::LBracket),
        5 => tagged(match_single_char(input, at, ']'), Token::RBracket),
        6 => tagged(match_single_char(input, at, '{'), Token::LBrace),
        7 => tagged(match_single_char(input, at, '}'), Token::RBrace),
        8 => tagged(match_single_char(input, at, '('), Token::LParen),
        9 => tagged(match_single_char(input, at, ')'), Token::RParen),
        10 => tagged(match_single_char(input, at, '='), Token::Eq),
        11 => tagged(match_single_char(input, at, '&'), Token::Ampersand),
        12 => tagged(match_single_char(input, at, '|'), Token::Bar),
        13 => tagged(match_single_char(input, at, '!'), Token::Bang),
        14 => tagged(match_single_char(input, at, '^'), Token::UpArrow),
        15 => tagged(match_single_char(input, at, '<'), Token::LAngle),
        16 => tagged(match_single_char(input, at, '>'), Token::RAngle),
        17 => tagged(match_single_char(input, at, '+'), Token::Plus),
        18 => tagged(match_single_char(input, at, '-'), Token::Minus),
        19 => tagged(match_single_char(input, at, '*'), Token::Times),
        20 => tagged(match_single_char(input, at, '/'), Token::FSlash),
        21 => tagged(match_single_char(input, at, '\\'), Token::BSlash),
        22 => tagged(match_single_char(input, at, '.'), Token::Dot),
        23 => tagged(match_single_char(input, at, ','), Token::Comma),
        24 => tagged(match_single_char(input, at, ':'), Token::Colon),
        25 => tagged(match_single_char(input, at, ';'), Token::Semicolon),
        26 => tagged(match_single_char(input, at, '_'), Token::Underscore),
        27 => tagged(match_two_chars(input, at, '=', '='), Token::Eqq),
        28 => tagged(match_two_chars(input, at, '!', '='), Token::Neq),
        29 => tagged(match_two_chars(input, at, '&', '&'), Token::And),
        30 => tagged(match_two_chars(input, at, '|', '|'), Token::Or),
        31 => tagged(match_two_chars(input, at, '<', '='), Token::Leq),
        32 => tagged(match_two_chars(input, at, '>', '='), Token::Geq),
        33 => tagged(match_two_chars(input, at, '-', '>'), Token::Arrow),
        34 => tagged(match_two_chars(input, at, '*', '*'), Token::Exponent),
        35 => {
            proof {
                reveal_strlit("let");
                assert("let"@ =~= seq!['l', 'e', 't']);
            }
            tagged(match_keyword(input, at, "let"), Token::Let)
        },
        36 => {
            proof {
                reveal_strlit("mut");
                assert("mut"@ =~= seq!['m', 'u', 't']);
            }
            tagged(match_keyword(input, at, "mut"), Token::Mut)
        },
        37 => {
            proof {
                reveal_strlit("fn");
                assert("fn"@ =~= seq!['f', 'n']);
            }
            tagged(match_keyword(input, at, "fn"), Token::Fn)
        },
        38 => {
            proof {
                reveal_strlit("if");
                assert("if"@ =~= seq!['i', 'f']);
            }
            tagged(match_keyword(input, at, "if"), Token::If)
        },
        39 => {
            proof {
                reveal_strlit("else");
                assert("else"@ =~= seq!['e', 'l', 's', 'e']);
            }
            tagged(match_keyword(input, at, "else"), Token::Else)
        },
        40 => {
            proof {
                reveal_strlit("match");
                assert("match"@ =~= seq!['m', 'a', 't', 'c', 'h']);
            }
            tagged(match_keyword(input, at, "match"), Token::Match)
        },
        41 => {
            proof {
                reveal_strlit("const");
                assert("const"@ =~= seq!['c', 'o', 'n', 's', 't']);
            }
            tagged(match_keyword(input, at, "const"), Token::Const)
        },
        42 => {
            proof {
                reveal_strlit("struct");
                assert("struct"@ =~= seq!['s', 't', 'r', 'u', 'c', 't']);
            }
            tagged(match_keyword(input, at, "struct"), Token::Struct)
        },
        43 => {
            proof {
                reveal_strlit("enum");
                assert("enum"@ =~= seq!['e', 'n', 'u', 'm']);
            }
            tagged(match_keyword(input, at, "enum"), Token::Enum)
        },
        44 => {
            proof {
                reveal_strlit("true");
                assert("true"@ =~= seq!['t', 'r', 'u', 'e']);
            }
            tagged(match_keyword(input, at, "true"), Token::True)
        },
        45 => {
            proof {
                reveal_strlit("false");
                assert("false"@ =~= seq!['f', 'a', 'l', 's', 'e']);
            }
            tagged(match_keyword(input, at, "false"), Token::False)
        },
        46 => match match_identifier(input, at) {
            Some(len) => Some((Token::Ident(text_between(input, at, at + len)), len)),
            None => None,
        },
        _ => None,
    }
}

/// Applies all rules at index `at` and gives the match of the rule that is
/// chosen: the token and the number of characters that it takes.
pub fn find_longest_match(input: &Vec<char>, at: usize) -> (found: Option<(Token, usize)>)
    ensures
        same_match(found, longest_match(input@, at as nat)),
        found matches Some(best) ==> 1 <= best.1 && at + best.1 <= input.len(),
{
    let mut best: Option<(Token, usize)> = None;
    let ghost mut chosen: Option<nat> = None;
    let mut index: usize = 0;
    while index < RULE_COUNT
        invariant
            index <= RULE_COUNT,
            chosen == chosen_rule(index as nat, input@, at as nat),
            chosen is Some <==> best is Some,
            chosen matches Some(number) ==> same_match(
                best,
                rule_at(number, input@, at as nat),
            ),
        decreases RULE_COUNT - index,
    {
        let candidate = rule(index, input, at);
        let longer = match (&best, &candidate) {
            (Some(kept), Some(found)) => kept.1 < found.1,
            (None, Some(_)) => true,
            _ => false,
        };
        if longer {
            best = candidate;
        }
        index = index + 1;
        proof {
            chosen = chosen_rule(index as nat, input@, at as nat);
        }
    }
    proof {
        lemma_longest_match_bounds(input@, at as nat);
    }
    best
}

} // verus!
