use frontend::lexer::literals::{match_char, match_float, match_identifier, match_int, match_string};
use frontend::lexer::rules::{
    find_longest_match, match_keyword, match_single_char, match_two_chars, rule, RULE_COUNT,
};
use frontend::lexer::text::{char_width, chars_of, is_whitespace};
use frontend::lexer::{Lexer, Token, TokenType};
use regex::Regex;

fn tokens_of(input: &str) -> Vec<Token> {
    Lexer::new(input).tokenize()
}

#[test]
fn tokenizing_twice_gives_the_same_tokens() {
    let source = "fn f(a: Int) -> { let b = a ** 2; $$ b } // done";
    assert_eq!(tokens_of(source), tokens_of(source));
}

#[test]
fn eof_comes_once_and_last() {
    for source in ["", "   ", "a", "a b $ c", "// only a comment", "1 +", "\n\n"] {
        let tokens = tokens_of(source);
        assert_eq!(tokens.last(), Some(&Token::Eof));
        let eofs = tokens.iter().filter(|token| **token == Token::Eof).count();
        assert_eq!(eofs, 1);
    }
}

#[test]
fn nothing_follows_eof() {
    let mut lexer = Lexer::new("x");
    assert_eq!(lexer.next(), Some(Token::Ident("x".into())));
    assert_eq!(lexer.next(), Some(Token::Eof));
    assert_eq!(lexer.next(), None);
    assert_eq!(lexer.next(), None);
    assert_eq!(lexer.tokenize(), Vec::<Token>::new());
}

#[test]
fn next_token_gives_eof_at_the_end() {
    let mut lexer = Lexer::new("  ;  ");
    assert_eq!(lexer.next_token(), Token::Semicolon);
    assert_eq!(lexer.next_token(), Token::Eof);
    assert_eq!(lexer.next(), None);
}

#[test]
fn keyword_wins_a_tie_against_identifier() {
    assert_eq!(tokens_of("if"), vec![Token::If, Token::Eof]);
    assert_eq!(tokens_of("iffy"), vec![Token::Ident("iffy".into()), Token::Eof]);
    assert_eq!(tokens_of("let"), vec![Token::Let, Token::Eof]);
    assert_eq!(tokens_of("letter"), vec![Token::Ident("letter".into()), Token::Eof]);
    assert_eq!(tokens_of("true"), vec![Token::True, Token::Eof]);
    assert_eq!(tokens_of("true1"), vec![Token::Ident("true1".into()), Token::Eof]);
    assert_eq!(tokens_of("_"), vec![Token::Underscore, Token::Eof]);
    assert_eq!(tokens_of("_a"), vec![Token::Ident("_a".into()), Token::Eof]);
}

#[test]
fn all_keywords() {
    assert_eq!(
        tokens_of("let mut fn if else match const struct enum true false"),
        vec![
            Token::Let,
            Token::Mut,
            Token::Fn,
            Token::If,
            Token::Else,
            Token::Match,
            Token::Const,
            Token::Struct,
            Token::Enum,
            Token::True,
            Token::False,
            Token::Eof
        ]
    );
}

#[test]
fn symbols_of_two_characters() {
    assert_eq!(
        tokens_of("== != && || <= >= -> **"),
        vec![
            Token::Eqq,
            Token::Neq,
            Token::And,
            Token::Or,
            Token::Leq,
            Token::Geq,
            Token::Arrow,
            Token::Exponent,
            Token::Eof
        ]
    );
    assert_eq!(
        tokens_of("***"),
        vec![Token::Exponent, Token::Times, Token::Eof]
    );
    assert_eq!(
        tokens_of("[]{}\\^&|"),
        vec![
            Token::LBracket,
            Token::RBracket,
            Token::LBrace,
            Token::RBrace,
            Token::BSlash,
            Token::UpArrow,
            Token::Ampersand,
            Token::Bar,
            Token::Eof
        ]
    );
}

#[test]
fn error_spans_are_byte_offsets() {
    assert_eq!(
        tokens_of("\u{e9}\u{e9}+"),
        vec![Token::Error { start: 0, end: 4 }, Token::Plus, Token::Eof]
    );
    assert_eq!(
        tokens_of("a \u{1F600}"),
        vec![
            Token::Ident("a".into()),
            Token::Error { start: 2, end: 6 },
            Token::Eof
        ]
    );
    assert_eq!(
        tokens_of("$"),
        vec![Token::Error { start: 0, end: 1 }, Token::Eof]
    );
}

#[test]
fn an_error_runs_up_to_the_next_match() {
    // White space matches no rule, so it does not end the run.
    assert_eq!(
        tokens_of("$ $ x"),
        vec![
            Token::Error { start: 0, end: 4 },
            Token::Ident("x".into()),
            Token::Eof
        ]
    );
    assert_eq!(
        tokens_of("$$ "),
        vec![Token::Error { start: 0, end: 3 }, Token::Eof]
    );
}

#[test]
fn comments_and_white_space_give_no_token() {
    assert_eq!(tokens_of("// no newline at the end"), vec![Token::Eof]);
    assert_eq!(tokens_of("//\n//\n  \t\r\n"), vec![Token::Eof]);
    assert_eq!(
        tokens_of("a//b\nc"),
        vec![Token::Ident("a".into()), Token::Ident("c".into()), Token::Eof]
    );
    assert_eq!(
        tokens_of("a / b"),
        vec![
            Token::Ident("a".into()),
            Token::FSlash,
            Token::Ident("b".into()),
            Token::Eof
        ]
    );
    assert_eq!(
        tokens_of("\u{3000}+\u{a0}"),
        vec![Token::Plus, Token::Eof]
    );
}

#[test]
fn integer_literals() {
    assert_eq!(tokens_of("0"), vec![Token::IntLit(0), Token::Eof]);
    assert_eq!(tokens_of("007"), vec![Token::IntLit(7), Token::Eof]);
    assert_eq!(tokens_of("+15"), vec![Token::IntLit(15), Token::Eof]);
    assert_eq!(tokens_of("-15"), vec![Token::IntLit(-15), Token::Eof]);
    assert_eq!(
        tokens_of("- 15"),
        vec![Token::Minus, Token::IntLit(15), Token::Eof]
    );
    assert_eq!(
        tokens_of("9223372036854775807"),
        vec![Token::IntLit(i64::MAX), Token::Eof]
    );
    assert_eq!(
        tokens_of("-9223372036854775808"),
        vec![Token::IntLit(i64::MIN), Token::Eof]
    );
    assert_eq!(
        tokens_of("000000000000000000000000000000000012"),
        vec![Token::IntLit(12), Token::Eof]
    );
}

#[test]
fn an_integer_that_does_not_fit_is_no_match() {
    // The literal as a whole matches no rule; the first suffix that does is
    // "223372036854775808", behind one character.
    assert_eq!(
        tokens_of("9223372036854775808"),
        vec![
            Token::Error { start: 0, end: 1 },
            Token::IntLit(223372036854775808),
            Token::Eof
        ]
    );
    assert_eq!(
        tokens_of("-9223372036854775809"),
        vec![
            Token::Minus,
            Token::Error { start: 1, end: 2 },
            Token::IntLit(223372036854775809),
            Token::Eof
        ]
    );
}

#[test]
fn float_literals_keep_their_lexeme() {
    for (source, value) in [
        ("1.5", 1.5),
        (".5", 0.5),
        ("5.", 5.0),
        ("-1.25e3", -1250.0),
        ("+2.E-2", 0.02),
        ("1.e5", 100000.0),
        (".5e+1", 5.0),
    ] {
        let tokens = tokens_of(source);
        assert_eq!(tokens, vec![Token::FloatLit(source.into()), Token::Eof]);
        assert_eq!(source.parse::<f64>().unwrap(), value);
    }
    // An exponent without digits does not belong to the literal.
    assert_eq!(
        tokens_of("1.5e"),
        vec![
            Token::FloatLit("1.5".into()),
            Token::Ident("e".into()),
            Token::Eof
        ]
    );
    assert_eq!(
        tokens_of("1.5e+"),
        vec![
            Token::FloatLit("1.5".into()),
            Token::Ident("e".into()),
            Token::Plus,
            Token::Eof
        ]
    );
    assert_eq!(
        tokens_of("1..5"),
        vec![
            Token::FloatLit("1.".into()),
            Token::FloatLit(".5".into()),
            Token::Eof
        ]
    );
    assert_eq!(tokens_of("."), vec![Token::Dot, Token::Eof]);
}

#[test]
fn string_and_char_literals() {
    assert_eq!(
        tokens_of(r#""""#),
        vec![Token::StringLit("".into()), Token::Eof]
    );
    assert_eq!(
        tokens_of(r#""a\nb\\c\"d""#),
        vec![Token::StringLit("a\nb\\c\"d".into()), Token::Eof]
    );
    assert_eq!(
        tokens_of(r#""\\n""#),
        vec![Token::StringLit("\\n".into()), Token::Eof]
    );
    assert_eq!(
        tokens_of("\"two\nlines \u{e9}\""),
        vec![Token::StringLit("two\nlines \u{e9}".into()), Token::Eof]
    );
    assert_eq!(tokens_of("'a'"), vec![Token::CharLit('a'), Token::Eof]);
    assert_eq!(tokens_of(r"'\''"), vec![Token::CharLit('\''), Token::Eof]);
    assert_eq!(tokens_of(r"'\\'"), vec![Token::CharLit('\\'), Token::Eof]);
    assert_eq!(tokens_of("'\"'"), vec![Token::CharLit('"'), Token::Eof]);
    assert_eq!(tokens_of("'\u{e9}'"), vec![Token::CharLit('\u{e9}'), Token::Eof]);
}

#[test]
fn malformed_literals_become_errors() {
    // No closing quote: the quote matches no rule, the rest is an identifier.
    assert_eq!(
        tokens_of("\"abc"),
        vec![
            Token::Error { start: 0, end: 1 },
            Token::Ident("abc".into()),
            Token::Eof
        ]
    );
    // An escape sequence that the language does not have.
    assert_eq!(
        tokens_of(r#""\t""#),
        vec![
            Token::Error { start: 0, end: 1 },
            Token::BSlash,
            Token::Ident("t".into()),
            Token::Error { start: 3, end: 4 },
            Token::Eof
        ]
    );
    assert_eq!(
        tokens_of("''"),
        vec![Token::Error { start: 0, end: 2 }, Token::Eof]
    );
    assert_eq!(
        tokens_of("'ab'"),
        vec![
            Token::Error { start: 0, end: 1 },
            Token::Ident("ab".into()),
            Token::Error { start: 3, end: 4 },
            Token::Eof
        ]
    );
}

#[test]
fn only_ascii_letters_and_digits_make_names_and_numbers() {
    // U+0663 is a digit of another script, U+00E9 a letter with an accent.
    assert_eq!(
        tokens_of("x\u{663}"),
        vec![
            Token::Ident("x".into()),
            Token::Error { start: 1, end: 3 },
            Token::Eof
        ]
    );
    assert_eq!(
        tokens_of("\u{663}1"),
        vec![Token::Error { start: 0, end: 2 }, Token::IntLit(1), Token::Eof]
    );
    assert_eq!(
        tokens_of("caf\u{e9}s"),
        vec![
            Token::Ident("caf".into()),
            Token::Error { start: 3, end: 5 },
            Token::Ident("s".into()),
            Token::Eof
        ]
    );
}

#[test]
fn kind_ignores_the_payload() {
    assert_eq!(Token::Ident("a".into()).ty(), Token::Ident("b".into()).ty());
    assert_eq!(Token::Ident("a".into()).ty(), TokenType::Ident);
    assert_eq!(Token::IntLit(1).ty(), Token::IntLit(2).ty());
    assert_ne!(Token::IntLit(1).ty(), Token::FloatLit("1.".into()).ty());
    assert_eq!(
        Token::Error { start: 0, end: 1 }.ty(),
        Token::Error { start: 5, end: 9 }.ty()
    );
    assert_ne!(Token::Ident("a".into()), Token::Ident("b".into()));
    assert_eq!(Token::Eof.ty(), TokenType::Eof);
    assert_eq!(Token::Ident("a".into()).clone(), Token::Ident("a".into()));
}

#[test]
fn fixed_matchers() {
    let input = chars_of("=>let");
    assert_eq!(match_single_char(&input, 0, '='), Some(1));
    assert_eq!(match_single_char(&input, 0, '>'), None);
    assert_eq!(match_single_char(&input, 1, '>'), Some(1));
    assert_eq!(match_single_char(&input, 5, '>'), None);
    assert_eq!(match_two_chars(&input, 0, '=', '>'), Some(2));
    assert_eq!(match_two_chars(&input, 0, '=', '='), None);
    assert_eq!(match_two_chars(&input, 4, 't', 't'), None);
    assert_eq!(match_two_chars(&input, 9, 't', 't'), None);
    assert_eq!(match_keyword(&input, 2, "let"), Some(3));
    assert_eq!(match_keyword(&input, 2, "le"), Some(2));
    assert_eq!(match_keyword(&input, 2, "lets"), None);
    assert_eq!(match_keyword(&input, 3, "let"), None);
    assert_eq!(match_keyword(&input, 7, "let"), None);
}

#[test]
fn the_longest_match_wins_and_the_first_rule_among_equals() {
    let input = chars_of("enumerate enum -1.5 -1 ->");
    assert_eq!(
        find_longest_match(&input, 0),
        Some((Token::Ident("enumerate".into()), 9))
    );
    assert_eq!(find_longest_match(&input, 10), Some((Token::Enum, 4)));
    assert_eq!(
        find_longest_match(&input, 15),
        Some((Token::FloatLit("-1.5".into()), 4))
    );
    assert_eq!(find_longest_match(&input, 20), Some((Token::IntLit(-1), 2)));
    assert_eq!(find_longest_match(&input, 23), Some((Token::Arrow, 2)));
    assert_eq!(find_longest_match(&input, 9), None);
    assert_eq!(find_longest_match(&input, 25), None);
    // Both the keyword rule and the identifier rule match "enum"; among the
    // rules the keyword stands first.
    let keyword = (0..RULE_COUNT).position(|index| rule(index, &input, 10) == Some((Token::Enum, 4)));
    let identifier = (0..RULE_COUNT)
        .position(|index| rule(index, &input, 10) == Some((Token::Ident("enum".into()), 4)));
    assert!(keyword.is_some() && identifier.is_some());
    assert!(keyword < identifier);
    assert_eq!(rule(RULE_COUNT, &input, 10), None);
}

#[test]
fn white_space_is_what_the_standard_library_says() {
    let mut code: u32 = 0;
    while code <= 0x10FFFF {
        if let Some(c) = char::from_u32(code) {
            assert_eq!(is_whitespace(c), c.is_whitespace(), "U+{:04X}", code);
            assert_eq!(char_width(c), c.len_utf8(), "U+{:04X}", code);
        }
        code += 1;
    }
}

#[test]
fn characters_of_a_text() {
    assert_eq!(chars_of("a\u{e9}\u{1F600}"), vec!['a', '\u{e9}', '\u{1F600}']);
    assert_eq!(chars_of(""), Vec::<char>::new());
}

/// The end of the match of `pattern` at the start of `input`, counted in
/// characters.
fn regex_len(pattern: &Regex, input: &str) -> Option<usize> {
    pattern
        .find(input)
        .map(|found| input[..found.end()].chars().count())
}

/// Texts over a small alphabet, made by a fixed linear congruential
/// generator.
fn sample_texts() -> Vec<String> {
    let alphabet: Vec<char> = "0129+-.eE\"'\\naZ_ ;".chars().collect();
    let mut state: u64 = 0x2545F4914F6CDD1D;
    let mut texts = Vec::new();
    for _ in 0..4000 {
        let mut text = String::new();
        state = state.wrapping_mul(6364136223846793005).wrapping_add(1442695040888963407);
        let len = (state >> 33) % 9;
        for _ in 0..len {
            state = state.wrapping_mul(6364136223846793005).wrapping_add(1442695040888963407);
            text.push(alphabet[((state >> 33) % alphabet.len() as u64) as usize]);
        }
        texts.push(text);
    }
    for fixed in [
        "1", "-1", "+", "1.", ".1", "1.e", "1.e1", "1.5e-3x", "e1", "\"\"", "\"\\\"\"", "\"\\",
        "'a'", "'\\n'", "'\\'", "'''", "''", "_", "a1_", "1a",
    ] {
        texts.push(fixed.to_string());
    }
    texts
}

#[test]
fn literal_matchers_agree_with_their_patterns() {
    let int = Regex::new(r#"^[\+-]?\d+"#).unwrap();
    let float = Regex::new(r#"^[\+-]?((\d+\.(\d+)?)|(\.\d+))([Ee][\+-]?\d+)?"#).unwrap();
    let string = Regex::new(r#"^"((\\"|\\\\|\\n)|[^\\"])*""#).unwrap();
    let character = Regex::new(r#"^'((\\'|\\\\|\\n)|[^\\'])'"#).unwrap();
    let identifier = Regex::new(r#"^[A-Za-z_]([A-Za-z_]|\d)*"#).unwrap();
    for text in sample_texts() {
        let input = chars_of(&text);
        assert_eq!(match_int(&input, 0), regex_len(&int, &text), "{:?}", text);
        assert_eq!(match_float(&input, 0), regex_len(&float, &text), "{:?}", text);
        assert_eq!(match_string(&input, 0), regex_len(&string, &text), "{:?}", text);
        assert_eq!(match_char(&input, 0), regex_len(&character, &text), "{:?}", text);
        assert_eq!(
            match_identifier(&input, 0),
            regex_len(&identifier, &text),
            "{:?}",
            text
        );
    }
}

#[test]
fn matchers_past_the_end_match_nothing() {
    let input = chars_of("1");
    assert_eq!(match_int(&input, 1), None);
    assert_eq!(match_int(&input, 7), None);
    assert_eq!(match_float(&input, 1), None);
    assert_eq!(match_string(&input, 1), None);
    assert_eq!(match_char(&input, 1), None);
    assert_eq!(match_identifier(&input, 1), None);
    assert_eq!(find_longest_match(&input, 5), None);
}
