//! The literals and identifiers of the language: what each looks like in
//! the source, and what it stands for.

use vstd::prelude::*;
use crate::lexer::text::digit;
use crate::lexer::text::digit_value;
use crate::lexer::text::digits_end;
use crate::lexer::text::ident_continue;
use crate::lexer::text::ident_end;
use crate::lexer::text::ident_start;
use crate::lexer::text::is_ident_start;
use crate::lexer::text::lemma_run_end;
use crate::lexer::text::run_end;

verus! {

/// The length of the sign at index `at`: 1 where `+` or `-` stands there.
pub open spec fn sign_len(text: Seq<char>, at: nat) -> nat {
    if at < text.len() && (text[at as int] == '+' || text[at as int] == '-') {
        1
    } else {
        0
    }
}

/// The length of the integer literal at index `at`: an optional sign and the
/// longest run of digits behind it, which holds at least one digit.
pub open spec fn int_len(text: Seq<char>, at: nat) -> Option<nat> {
    let first = at + sign_len(text, at);
    let end = run_end(text, first, |c: char| digit(c));
    if first < end {
        Some((end - at) as nat)
    } else {
        None
    }
}

/// The number that a sequence of digits stands for in base ten.
pub open spec fn decimal(digits: Seq<char>) -> nat
    decreases digits.len(),
{
    if digits.len() == 0 {
        0
    } else {
        decimal(digits.drop_last()) * 10 + digit_value(digits.last())
    }
}

/// The number that an integer literal stands for.
pub open spec fn int_value(lexeme: Seq<char>) -> int {
    if lexeme.len() > 0 && lexeme[0] == '-' {
        -(decimal(lexeme.skip(1)) as int)
    } else if lexeme.len() > 0 && lexeme[0] == '+' {
        decimal(lexeme.skip(1)) as int
    } else {
        decimal(lexeme) as int
    }
}

/// The end of the exponent that follows a mantissa ending at index `at`:
/// `e` or `E`, an optional sign and at least one digit. Where no complete
/// exponent follows, the literal ends with the mantissa.
pub open spec fn exponent_end(text: Seq<char>, at: nat) -> nat {
    if at < text.len() && (text[at as int] == 'e' || text[at as int] == 'E') {
        let first = at + 1 + sign_len(text, at + 1);
        let end = run_end(text, first, |c: char| digit(c));
        if first < end {
            end
        } else {
            at
        }
    } else {
        at
    }
}

/// The length of the floating-point literal at index `at`: an optional
/// sign; digits, a point and optional digits, or a point and digits; and an
/// optional exponent.
pub open spec fn float_len(text: Seq<char>, at: nat) -> Option<nat> {
    let first = at + sign_len(text, at);
    let whole_end = run_end(text, first, |c: char| digit(c));
    if first < whole_end {
        if whole_end < text.len() && text[whole_end as int] == '.' {
            let fraction_end = run_end(text, whole_end + 1, |c: char| digit(c));
            Some((exponent_end(text, fraction_end) - at) as nat)
        } else {
            None
        }
    } else if first < text.len() && text[first as int] == '.' {
        let fraction_end = run_end(text, first + 1, |c: char| digit(c));
        if first + 1 < fraction_end {
            Some((exponent_end(text, fraction_end) - at) as nat)
        } else {
            None
        }
    } else {
        None
    }
}

/// Whether `c` may follow a backslash in a literal whose quote is `quote`.
pub open spec fn escapable(c: char, quote: char) -> bool {
    c == quote || c == '\\' || c == 'n'
}

/// The character that stands for `c` behind a backslash.
pub open spec fn unescaped(c: char) -> char {
    if c == 'n' {
        '\n'
    } else {
        c
    }
}

/// The index of the quote that closes a literal whose body starts at index
/// `at`. A backslash takes the character behind it along, which must be
/// one that can be escaped. There is none where the text ends first.
pub open spec fn closing_quote(text: Seq<char>, at: nat, quote: char) -> Option<nat>
    decreases text.len() - at,
{
    if at >= text.len() {
        None
    } else if text[at as int] == quote {
        Some(at)
    } else if text[at as int] == '\\' {
        if at + 1 < text.len() && escapable(text[(at + 1) as int], quote) {
            closing_quote(text, at + 2, quote)
        } else {
            None
        }
    } else {
        closing_quote(text, at + 1, quote)
    }
}

/// The characters that the body of a literal between the indices `at` and
/// `end` stands for: each escape sequence gives one character.
pub open spec fn unescape(text: Seq<char>, at: nat, end: nat) -> Seq<char>
    decreases end - at,
{
    if at >= end || at >= text.len() {
        Seq::empty()
    } else if text[at as int] == '\\' && at + 1 < end && at + 1 < text.len() {
        seq![unescaped(text[(at + 1) as int])] + unescape(text, at + 2, end)
    } else {
        seq![text[at as int]] + unescape(text, at + 1, end)
    }
}

/// The length of the string literal at index `at`: from `"` to the closing
/// `"`.
pub open spec fn string_len(text: Seq<char>, at: nat) -> Option<nat> {
    if at < text.len() && text[at as int] == '"' {
        match closing_quote(text, at + 1, '"') {
            Some(close) => Some((close + 1 - at) as nat),
            None => None,
        }
    } else {
        None
    }
}

/// The length of the character literal at index `at`: `'`, one character
/// or one escape sequence, and `'`.
pub open spec fn char_len(text: Seq<char>, at: nat) -> Option<nat> {
    if at + 2 < text.len() && text[at as int] == '\'' {
        if text[(at + 1) as int] == '\\' {
            if at + 3 < text.len() && escapable(text[(at + 2) as int], '\'') && text[(at + 3) as int] == '\'' {
                Some(4)
            } else {
                None
            }
        } else if text[(at + 1) as int] != '\'' && text[(at + 2) as int] == '\'' {
            Some(3)
        } else {
            None
        }
    } else {
        None
    }
}

/// The character that the character literal at index `at` stands for.
pub open spec fn char_value(text: Seq<char>, at: nat) -> char {
    if text[(at + 1) as int] == '\\' {
        unescaped(text[(at + 2) as int])
    } else {
        text[(at + 1) as int]
    }
}

/// The length of the identifier at index `at`: a letter or `_`, and the
/// longest run of letters, digits and `_` behind it.
pub open spec fn identifier_len(text: Seq<char>, at: nat) -> Option<nat> {
    if at < text.len() && ident_start(text[at as int]) {
        Some((run_end(text, at + 1, |c: char| ident_continue(c)) - at) as nat)
    } else {
        None
    }
}

/// Whether a length that was computed is the length of the model.
pub open spec fn same_len(computed: Option<usize>, model: Option<nat>) -> bool {
    match computed {
        Some(len) => model == Some(len as nat),
        None => model is None,
    }
}

/// The closing quote of a literal lies inside the text, at or behind
/// `at`.
pub proof fn lemma_closing_quote(text: Seq<char>, at: nat, quote: char)
    ensures
        closing_quote(text, at, quote) matches Some(close) ==> at <= close < text.len()
            && text[close as int] == quote,
    decreases text.len() - at,
{
    if at < text.len() && text[at as int] != quote {
        if text[at as int] == '\\' {
            if at + 1 < text.len() && escapable(text[(at + 1) as int], quote) {
                lemma_closing_quote(text, at + 2, quote);
            }
        } else {
            lemma_closing_quote(text, at + 1, quote);
        }
    }
}

/// An exponent ends at or behind the mantissa and inside the text.
pub proof fn lemma_exponent_end(text: Seq<char>, at: nat)
    requires
        at <= text.len(),
    ensures
        at <= exponent_end(text, at) <= text.len(),
{
    let first = at + 1 + sign_len(text, at + 1);
    if first <= text.len() {
        lemma_run_end(text, first, |c: char| digit(c));
    }
}

/// The length of the sign at index `at`.
fn sign_at(input: &Vec<char>, at: usize) -> (len: usize)
    ensures
        len == sign_len(input@, at as nat),
        len <= 1,
        at + len <= input.len() || len == 0,
{
    if at < input.len() && (input[at] == '+' || input[at] == '-') {
        1
    } else {
        0
    }
}

/// Matches an integer literal at index `at` and gives its length.
pub fn match_int(input: &Vec<char>, at: usize) -> (len: Option<usize>)
    ensures
        same_len(len, int_len(input@, at as nat)),
        len matches Some(n) ==> 1 <= n && at + n <= input.len(),
{
    if at >= input.len() {
        return None;
    }
    let first = at + sign_at(input, at);
    let end = digits_end(input, first);
    if first < end {
        Some(end - at)
    } else {
        None
    }
}

/// The end of the exponent that follows a mantissa ending at index `at`.
fn exponent_at(input: &Vec<char>, at: usize) -> (end: usize)
    requires
        at <= input.len(),
    ensures
        end == exponent_end(input@, at as nat),
        at <= end <= input.len(),
{
    if at < input.len() && (input[at] == 'e' || input[at] == 'E') {
        let first = at + 1 + sign_at(input, at + 1);
        let end = digits_end(input, first);
        if first < end {
            end
        } else {
            at
        }
    } else {
        at
    }
}

/// Matches a floating-point literal at index `at` and gives its length.
pub fn match_float(input: &Vec<char>, at: usize) -> (len: Option<usize>)
    ensures
        same_len(len, float_len(input@, at as nat)),
        len matches Some(n) ==> 1 <= n && at + n <= input.len(),
{
    if at >= input.len() {
        return None;
    }
    let first = at + sign_at(input, at);
    let whole_end = digits_end(input, first);
    if first < whole_end {
        if whole_end < input.len() && input[whole_end] == '.' {
            let fraction_end = digits_end(input, whole_end + 1);
            Some(exponent_at(input, fraction_end) - at)
        } else {
            None
        }
    } else if first < input.len() && input[first] == '.' {
        let fraction_end = digits_end(input, first + 1);
        if first + 1 < fraction_end {
            Some(exponent_at(input, fraction_end) - at)
        } else {
            None
        }
    } else {
        None
    }
}

/// Finds the quote that closes a literal whose body starts at index `at`.
fn find_closing_quote(input: &Vec<char>, at: usize, quote: char) -> (close: Option<usize>)
    requires
        at <= input.len(),
    ensures
        same_len(close, closing_quote(input@, at as nat, quote)),
        close matches Some(index) ==> at <= index < input.len(),
{
    let mut index = at;
    while index < input.len()
        invariant
            at <= index <= input.len(),
            closing_quote(input@, index as nat, quote) == closing_quote(input@, at as nat, quote),
        decreases input.len() - index,
    {
        let c = input[index];
        if c == quote {
            return Some(index);
        } else if c == '\\' {
            if index + 1 < input.len() && (input[index + 1] == quote || input[index + 1] == '\\'
                || input[index + 1] == 'n') {
                index = index + 2;
            } else {
                return None;
            }
        } else {
            index = index + 1;
        }
    }
    None
}

/// Matches a string literal at index `at` and gives its length.
pub fn match_string(input: &Vec<char>, at: usize) -> (len: Option<usize>)
    ensures
        same_len(len, string_len(input@, at as nat)),
        len matches Some(n) ==> 2 <= n && at + n <= input.len(),
{
    if at < input.len() && input[at] == '"' {
        match find_closing_quote(input, at + 1, '"') {
            Some(close) => Some(close + 1 - at),
            None => None,
        }
    } else {
        None
    }
}

/// Matches a character literal at index `at` and gives its length.
pub fn match_char(input: &Vec<char>, at: usize) -> (len: Option<usize>)
    ensures
        same_len(len, char_len(input@, at as nat)),
        len matches Some(n) ==> 3 <= n && at + n <= input.len(),
{
    let size = input.len();
    if at < size && size - at > 2 && input[at] == '\'' {
        if input[at + 1] == '\\' {
            if size - at > 3 && (input[at + 2] == '\'' || input[at + 2] == '\\' || input[at + 2]
                == 'n') && input[at + 3] == '\'' {
                Some(4)
            } else {
                None
            }
        } else if input[at + 1] != '\'' && input[at + 2] == '\'' {
            Some(3)
        } else {
            None
        }
    } else {
        None
    }
}

/// Matches an identifier at index `at` and gives its length.
pub fn match_identifier(input: &Vec<char>, at: usize) -> (len: Option<usize>)
    ensures
        same_len(len, identifier_len(input@, at as nat)),
        len matches Some(n) ==> 1 <= n && at + n <= input.len(),
{
    if at < input.len() && is_ident_start(input[at]) {
        Some(ident_end(input, at + 1) - at)
    } else {
        None
    }
}

/// The number that the integer literal between the indices `from` and `to`
/// stands for, where it fits in 64 bits.
pub fn int_value_between(input: &Vec<char>, from: usize, to: usize) -> (value: Option<i64>)
    requires
        from <= to <= input.len(),
        int_len(input@, from as nat) == Some((to - from) as nat),
    ensures
        match value {
            Some(number) => number == int_value(input@.subrange(from as int, to as int)),
            None => !(i64::MIN <= int_value(input@.subrange(from as int, to as int)) <= i64::MAX),
        },
{
    let negative = input[from] == '-';
    let first = from + sign_at(input, from);
    let ghost lexeme = input@.subrange(from as int, to as int);
    proof {
        lemma_run_end(input@, first as nat, |c: char| digit(c));
    }
    let limit: u64 = 9223372036854775808;
    let mut magnitude: u64 = 0;
    let mut overflow = false;
    let mut at = first;
    while at < to
        invariant
            first <= at <= to <= input.len(),
            limit == 9223372036854775808,
            forall|i: int| first <= i < to ==> digit(#[trigger] input@[i]),
            !overflow ==> magnitude == decimal(input@.subrange(first as int, at as int))
                && magnitude <= limit,
            overflow ==> decimal(input@.subrange(first as int, at as int)) > limit,
        decreases to - at,
    {
        let c = input[at];
        let d: u64 = (c as u32 - '0' as u32) as u64;
        proof {
            let longer = input@.subrange(first as int, at + 1);
            assert(longer.drop_last() =~= input@.subrange(first as int, at as int));
        }
        if !overflow {
            if magnitude > (limit - d) / 10 {
                overflow = true;
            } else {
                magnitude = magnitude * 10 + d;
            }
        }
        at = at + 1;
    }
    proof {
        if first > from {
            assert(lexeme.skip(1) =~= input@.subrange(first as int, to as int));
        }
    }
    if overflow {
        None
    } else if negative {
        if magnitude == limit {
            Some(i64::MIN)
        } else {
            Some(-(magnitude as i64))
        }
    } else if magnitude == limit {
        None
    } else {
        Some(magnitude as i64)
    }
}

/// The characters that the body of a literal between the indices `from`
/// and `to` stands for, as a string.
pub fn unescape_between(input: &Vec<char>, from: usize, to: usize) -> (text: String)
    requires
        from <= to <= input.len(),
    ensures
        text@ == unescape(input@, from as nat, to as nat),
{
    let mut text = String::new();
    let mut at = from;
    while at < to
        invariant
            from <= at,
            to <= input.len(),
            text@ + unescape(input@, at as nat, to as nat) == unescape(
                input@,
                from as nat,
                to as nat,
            ),
        decreases to - at,
    {
        if input[at] == '\\' && at + 1 < to {
            let c = input[at + 1];
            text.push(if c == 'n' { '\n' } else { c });
            at = at + 2;
        } else {
            text.push(input[at]);
            at = at + 1;
        }
    }
    text
}

} // verus!
