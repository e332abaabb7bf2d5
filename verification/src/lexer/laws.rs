//! What holds of the rules of the tokenizer, whatever the text.

use vstd::prelude::*;
use crate::lexer::rules::IDENTIFIER_RULE;
use crate::lexer::rules::KEYWORD_RULES;
use crate::lexer::rules::RULE_COUNT;
use crate::lexer::rules::chosen_rule;
use crate::lexer::rules::identifier_rule;
use crate::lexer::rules::lemma_chosen_rule;
use crate::lexer::rules::longest_match;
use crate::lexer::rules::match_len;
use crate::lexer::rules::rule_at;
use crate::lexer::text::ident_continue;
use crate::lexer::text::lemma_run_end;
use crate::lexer::text::run_end;
use crate::lexer::text::starts_with;

verus! {

/// Where a word stands in a text, the text holds the characters of the
/// word.
pub proof fn lemma_starts_with(text: Seq<char>, at: nat, word: Seq<char>)
    requires
        starts_with(text, at, word),
    ensures
        at + word.len() <= text.len(),
        forall|i: int| 0 <= i < word.len() ==> #[trigger] text[at + i] == word[i],
{
    assert forall|i: int| 0 <= i < word.len() implies #[trigger] text[at + i] == word[i] by {
        assert(text.subrange(at as int, at + word.len() as int)[i] == text[at + i]);
    }
}

/// Whether `c` is a small letter.
pub open spec fn small_letter(c: char) -> bool {
    'a' <= c <= 'z'
}

/// Where a keyword matches, the text holds small letters from the start of
/// the match to its end, at least two of them, and the first two are those
/// of the keyword.
pub proof fn lemma_keyword_letters(index: nat, text: Seq<char>, at: nat)
    requires
        KEYWORD_RULES <= index < IDENTIFIER_RULE,
        rule_at(index, text, at) is Some,
    ensures
        2 <= match_len(index, text, at),
        at + match_len(index, text, at) <= text.len(),
        forall|i: int| at <= i < at + match_len(index, text, at) ==> small_letter(#[trigger] text[i]),
        (text[at as int], text[(at + 1) as int]) == keyword_head(index),
{
    if index == 35 {
        lemma_starts_with(text, at, seq!['l', 'e', 't']);
    }
    if index == 36 {
        lemma_starts_with(text, at, seq!['m', 'u', 't']);
    }
    if index == 37 {
        lemma_starts_with(text, at, seq!['f', 'n']);
    }
    if index == 38 {
        lemma_starts_with(text, at, seq!['i', 'f']);
    }
    if index == 39 {
        lemma_starts_with(text, at, seq!['e', 'l', 's', 'e']);
    }
    if index == 40 {
        lemma_starts_with(text, at, seq!['m', 'a', 't', 'c', 'h']);
    }
    if index == 41 {
        lemma_starts_with(text, at, seq!['c', 'o', 'n', 's', 't']);
    }
    if index == 42 {
        lemma_starts_with(text, at, seq!['s', 't', 'r', 'u', 'c', 't']);
    }
    if index == 43 {
        lemma_starts_with(text, at, seq!['e', 'n', 'u', 'm']);
    }
    if index == 44 {
        lemma_starts_with(text, at, seq!['t', 'r', 'u', 'e']);
    }
    if index == 45 {
        lemma_starts_with(text, at, seq!['f', 'a', 'l', 's', 'e']);
    }
}

/// Two keywords do not match at one place.
pub proof fn lemma_one_keyword(first: nat, second: nat, text: Seq<char>, at: nat)
    requires
        KEYWORD_RULES <= first < IDENTIFIER_RULE,
        KEYWORD_RULES <= second < IDENTIFIER_RULE,
        rule_at(first, text, at) is Some,
        rule_at(second, text, at) is Some,
    ensures
        first == second,
{
    lemma_keyword_letters(first, text, at);
    lemma_keyword_letters(second, text, at);
}

/// The first two characters of the keyword whose rule has number `index`.
pub open spec fn keyword_head(index: nat) -> (char, char) {
    if index == 35 {
        ('l', 'e')
    } else if index == 36 {
        ('m', 'u')
    } else if index == 37 {
        ('f', 'n')
    } else if index == 38 {
        ('i', 'f')
    } else if index == 39 {
        ('e', 'l')
    } else if index == 40 {
        ('m', 'a')
    } else if index == 41 {
        ('c', 'o')
    } else if index == 42 {
        ('s', 't')
    } else if index == 43 {
        ('e', 'n')
    } else if index == 44 {
        ('t', 'r')
    } else {
        ('f', 'a')
    }
}

/// At a small letter only keywords and the identifier match.
pub proof fn lemma_rules_at_a_letter(index: nat, text: Seq<char>, at: nat)
    requires
        at < text.len(),
        small_letter(text[at as int]),
        index < KEYWORD_RULES,
    ensures
        rule_at(index, text, at) is None,
{
}

/// Where a keyword matches, the token is the keyword if the name that
/// starts there ends with the keyword, and the identifier of that name if
/// the name goes on: of two matches of one length the keyword wins, which
/// stands first; a longer name wins against the keyword.
pub proof fn lemma_keyword_or_identifier(index: nat, text: Seq<char>, at: nat)
    requires
        KEYWORD_RULES <= index < IDENTIFIER_RULE,
        rule_at(index, text, at) is Some,
    ensures
        longest_match(text, at) == if run_end(text, at + 1, |c: char| ident_continue(c)) == at
            + match_len(index, text, at) {
            rule_at(index, text, at)
        } else {
            identifier_rule(text, at)
        },
        identifier_rule(text, at) is Some,
        match_len(index, text, at) <= match_len(IDENTIFIER_RULE as nat, text, at),
{
    lemma_keyword_letters(index, text, at);
    lemma_run_end(text, at + 1, |c: char| ident_continue(c));
    lemma_chosen_rule(RULE_COUNT as nat, text, at);
    let chosen = chosen_rule(RULE_COUNT as nat, text, at);
    let winner = chosen->0;
    if winner < KEYWORD_RULES {
        lemma_rules_at_a_letter(winner, text, at);
    } else if winner < IDENTIFIER_RULE {
        lemma_one_keyword(index, winner, text, at);
    }
}

} // verus!
