//! Source text: classes of characters, runs of characters, and byte offsets.

use vstd::prelude::*;
use vstd::utf8::encode_scalar;
use vstd::utf8::encode_utf8;

verus! {

/// Whether `c` is white space: a character with the Unicode property
/// `White_Space`.
pub open spec fn whitespace(c: char) -> bool {
    let v = c as u32;
    (0x09 <= v <= 0x0D) || v == 0x20 || v == 0x85 || v == 0xA0 || v == 0x1680 || (0x2000 <= v
        <= 0x200A) || v == 0x2028 || v == 0x2029 || v == 0x202F || v == 0x205F || v == 0x3000
}

/// Whether `c` is one of the digits `0` to `9`.
pub open spec fn digit(c: char) -> bool {
    '0' <= c <= '9'
}

/// Whether an identifier may start with `c`: an ASCII letter or `_`.
pub open spec fn ident_start(c: char) -> bool {
    ('a' <= c <= 'z') || ('A' <= c <= 'Z') || c == '_'
}

/// Whether `c` may stand inside an identifier: an ASCII letter, `_` or a
/// digit.
pub open spec fn ident_continue(c: char) -> bool {
    ident_start(c) || digit(c)
}

/// The number that the digit `c` stands for.
pub open spec fn digit_value(c: char) -> nat {
    (c as u32 - '0' as u32) as nat
}

/// The number of bytes that `c` takes in UTF-8.
pub open spec fn utf8_width(c: char) -> nat {
    if (c as u32) < 0x80 {
        1
    } else if (c as u32) < 0x800 {
        2
    } else if (c as u32) < 0x10000 {
        3
    } else {
        4
    }
}

/// The byte offset of the character at index `upto`: the number of bytes
/// that the first `upto` characters of `text` take in UTF-8.
pub open spec fn byte_offset(text: Seq<char>, upto: nat) -> nat
    decreases upto,
{
    if upto == 0 || upto > text.len() {
        0
    } else {
        byte_offset(text, (upto - 1) as nat) + utf8_width(text[upto - 1])
    }
}

/// The end of the longest run of characters of one class that starts at
/// index `at`: the index of the first character from `at` on that is not
/// in the class, or the length of the text.
pub open spec fn run_end(text: Seq<char>, at: nat, class: spec_fn(char) -> bool) -> nat
    decreases text.len() - at,
{
    if at < text.len() && class(text[at as int]) {
        run_end(text, at + 1, class)
    } else {
        at
    }
}

/// Whether `word` stands in `text` at index `at`.
pub open spec fn starts_with(text: Seq<char>, at: nat, word: Seq<char>) -> bool {
    at + word.len() <= text.len() && text.subrange(at as int, at + word.len() as int) == word
}

/// A run ends at or behind its start and inside the text; every character
/// in it is of the class, and the character behind it is not.
pub proof fn lemma_run_end(text: Seq<char>, at: nat, class: spec_fn(char) -> bool)
    requires
        at <= text.len(),
    ensures
        at <= run_end(text, at, class) <= text.len(),
        forall|i: int| at <= i < run_end(text, at, class) ==> class(#[trigger] text[i]),
        run_end(text, at, class) < text.len() ==> !class(text[run_end(text, at, class) as int]),
    decreases text.len() - at,
{
    if at < text.len() && class(text[at as int]) {
        lemma_run_end(text, at + 1, class);
    }
}

/// Byte offsets grow with the index.
pub proof fn lemma_byte_offset_monotone(text: Seq<char>, low: nat, high: nat)
    requires
        low <= high <= text.len(),
    ensures
        byte_offset(text, low) + (high - low) <= byte_offset(text, high),
    decreases high - low,
{
    if low < high {
        lemma_byte_offset_monotone(text, low, (high - 1) as nat);
    }
}

/// The byte offsets of a text that lost its first character.
proof fn lemma_byte_offset_drop_first(text: Seq<char>, upto: nat)
    requires
        0 < text.len(),
        upto < text.len(),
    ensures
        byte_offset(text, upto + 1) == utf8_width(text[0]) + byte_offset(text.drop_first(), upto),
    decreases upto,
{
    if upto > 0 {
        lemma_byte_offset_drop_first(text, (upto - 1) as nat);
    } else {
        assert(byte_offset(text, 0) == 0);
    }
}

/// The byte offset of the end of a text is the length of its UTF-8
/// encoding.
pub proof fn lemma_byte_offset_is_encoded_length(text: Seq<char>)
    ensures
        byte_offset(text, text.len()) == encode_utf8(text).len(),
    decreases text.len(),
{
    if text.len() > 0 {
        lemma_byte_offset_is_encoded_length(text.drop_first());
        lemma_byte_offset_drop_first(text, (text.len() - 1) as nat);
        vstd::utf8::char_is_scalar(text[0]);
    }
}

/// Whether `c` is white space.
pub fn is_whitespace(c: char) -> (yes: bool)
    ensures
        yes == whitespace(c),
{
    let v: u32 = c as u32;
    (0x09 <= v && v <= 0x0D) || v == 0x20 || v == 0x85 || v == 0xA0 || v == 0x1680 || (0x2000 <= v
        && v <= 0x200A) || v == 0x2028 || v == 0x2029 || v == 0x202F || v == 0x205F || v == 0x3000
}

/// Whether `c` is one of the digits `0` to `9`.
pub fn is_digit(c: char) -> (yes: bool)
    ensures
        yes == digit(c),
{
    '0' <= c && c <= '9'
}

/// Whether an identifier may start with `c`.
pub fn is_ident_start(c: char) -> (yes: bool)
    ensures
        yes == ident_start(c),
{
    ('a' <= c && c <= 'z') || ('A' <= c && c <= 'Z') || c == '_'
}

/// Whether `c` may stand inside an identifier.
pub fn is_ident_continue(c: char) -> (yes: bool)
    ensures
        yes == ident_continue(c),
{
    is_ident_start(c) || is_digit(c)
}

/// The number of bytes that `c` takes in UTF-8.
pub fn char_width(c: char) -> (width: usize)
    ensures
        width == utf8_width(c),
{
    let v: u32 = c as u32;
    if v < 0x80 {
        1
    } else if v < 0x800 {
        2
    } else if v < 0x10000 {
        3
    } else {
        4
    }
}

/// The end of the run of digits that starts at index `at`.
pub fn digits_end(input: &Vec<char>, at: usize) -> (end: usize)
    requires
        at <= input.len(),
    ensures
        end == run_end(input@, at as nat, |c: char| digit(c)),
        at <= end <= input.len(),
{
    let mut end = at;
    while end < input.len() && is_digit(input[end])
        invariant
            at <= end <= input.len(),
            run_end(input@, end as nat, |c: char| digit(c)) == run_end(
                input@,
                at as nat,
                |c: char| digit(c),
            ),
        decreases input.len() - end,
    {
        end = end + 1;
    }
    end
}

/// The end of the run of identifier characters that starts at index `at`.
pub fn ident_end(input: &Vec<char>, at: usize) -> (end: usize)
    requires
        at <= input.len(),
    ensures
        end == run_end(input@, at as nat, |c: char| ident_continue(c)),
        at <= end <= input.len(),
{
    let mut end = at;
    while end < input.len() && is_ident_continue(input[end])
        invariant
            at <= end <= input.len(),
            run_end(input@, end as nat, |c: char| ident_continue(c)) == run_end(
                input@,
                at as nat,
                |c: char| ident_continue(c),
            ),
        decreases input.len() - end,
    {
        end = end + 1;
    }
    end
}

/// `String::push` appends the character to the end of the string and leaves
/// what the string held before in place.
pub assume_specification[ String::push ](text: &mut String, ch: char)
    ensures
        final(text)@ == old(text)@.push(ch),
;

/// The characters of `input` from index `from` up to index `to`, as a
/// string.
pub fn text_between(input: &Vec<char>, from: usize, to: usize) -> (text: String)
    requires
        from <= to <= input.len(),
    ensures
        text@ == input@.subrange(from as int, to as int),
{
    let mut text = String::new();
    let mut at = from;
    while at < to
        invariant
            from <= at <= to <= input.len(),
            text@ == input@.subrange(from as int, at as int),
        decreases to - at,
    {
        text.push(input[at]);
        at = at + 1;
    }
    text
}

/// The characters of `text`, in order.
pub fn chars_of(text: &str) -> (chars: Vec<char>)
    ensures
        chars@ == text@,
{
    let mut chars: Vec<char> = Vec::new();
    for c in it: text.chars()
        invariant
            chars@ == it.seq().take(it.index() as int),
            it.seq() == text@,
    {
        chars.push(c);
    }
    chars
}

} // verus!
