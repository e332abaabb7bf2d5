use frontend::lexer::Lexer;
use frontend::lexer::Token as T;

fn tokens_of(input: &str) -> Vec<T> {
    let mut lexer = Lexer::new(input);
    lexer.tokenize()
}

/// A floating-point literal by its lexeme, which must denote `value`.
fn float(lexeme: &str, value: f64) -> T {
    assert_eq!(lexeme.parse::<f64>().unwrap(), value);
    T::FloatLit(lexeme.into())
}

/// Walks `tokens` and compares them to the expected ones, in order.
fn assert_tokens(tokens: &[T], expected: Vec<T>) {
    let mut iter = tokens.iter();
    for want in expected {
        let token = iter.next().expect("not enough tokens");
        assert_eq!(*token, want);
    }
}

#[test]
fn single_char_tokens() {
    let tokens = tokens_of("+-(.):");
    assert_tokens(
        &tokens,
        vec![
            T::Plus,
            T::Minus,
            T::LParen,
            T::Dot,
            T::RParen,
            T::Colon,
            T::Eof,
        ],
    );
}

#[test]
fn unknown_input() {
    let tokens = tokens_of("{$$$$$$$+");
    assert_tokens(
        &tokens,
        vec![T::LBrace, T::Error { start: 1, end: 8 }, T::Plus, T::Eof],
    );
}

#[test]
fn single_char_tokens_with_whitespace() {
    let tokens = tokens_of("   + -  (.): ");
    assert_tokens(
        &tokens,
        vec![
            T::Plus,
            T::Minus,
            T::LParen,
            T::Dot,
            T::RParen,
            T::Colon,
            T::Eof,
        ],
    );
}

#[test]
fn maybe_multiple_char_tokens() {
    let tokens = tokens_of("&&=<=_!=||");
    assert_tokens(
        &tokens,
        vec![T::And, T::Eq, T::Leq, T::Underscore, T::Neq, T::Or, T::Eof],
    );
}

#[test]
fn keywords() {
    let tokens = tokens_of("if let = match else fn");
    assert_tokens(
        &tokens,
        vec![T::If, T::Let, T::Eq, T::Match, T::Else, T::Fn, T::Eof],
    );
}

#[test]
fn comment() {
    let tokens = tokens_of("//hello, world!\nif let");
    assert_tokens(&tokens, vec![T::If, T::Let]);
}

#[test]
fn literals() {
    let tokens = tokens_of(r#"1 .5 0.211 -1. true "test"'\n'"#);
    assert_tokens(
        &tokens,
        vec![
            T::IntLit(1),
            float(".5", 0.5),
            float("0.211", 0.211),
            float("-1.", -1.0),
            T::True,
            T::StringLit("test".into()),
            T::CharLit('\n'),
            T::Eof,
        ],
    );
}

#[test]
fn function() {
    let input = r#"
        // this is a comment!
        fn test(var: Type, var2_: bool) {
            let x = '\n' + "String content \"\\ test" + 7 / 27.3e-2^4;
            let chars = x.chars();
            if let Some(c) = chars.next() {
                x = x + c;
            } else if !var2_ {
                x = x + ",";
            }
        }
    "#;
    let tokens = tokens_of(input);
    assert_tokens(
        &tokens,
        vec![
            // function signature
            T::Fn,
            T::Ident("test".into()),
            T::LParen,
            T::Ident("var".into()),
            T::Colon,
            T::Ident("Type".into()),
            T::Comma,
            T::Ident("var2_".into()),
            T::Colon,
            T::Ident("bool".into()),
            T::RParen,
            T::LBrace,
            // `x` assignment
            T::Let,
            T::Ident("x".into()),
            T::Eq,
            T::CharLit('\n'),
            T::Plus,
            T::StringLit("String content \"\\ test".into()),
            T::Plus,
            T::IntLit(7),
            T::FSlash,
            float("27.3e-2", 27.3e-2),
            T::UpArrow,
            T::IntLit(4),
            T::Semicolon,
            // `chars` assignment
            T::Let,
            T::Ident("chars".into()),
            T::Eq,
            T::Ident("x".into()),
            T::Dot,
            T::Ident("chars".into()),
            T::LParen,
            T::RParen,
            T::Semicolon,
            // if
            T::If,
            T::Let,
            T::Ident("Some".into()),
            T::LParen,
            T::Ident("c".into()),
            T::RParen,
            T::Eq,
            T::Ident("chars".into()),
            T::Dot,
            T::Ident("next".into()),
            T::LParen,
            T::RParen,
            T::LBrace,
            // `x` re-assignment
            T::Ident("x".into()),
            T::Eq,
            T::Ident("x".into()),
            T::Plus,
            T::Ident("c".into()),
            T::Semicolon,
            // else if
            T::RBrace,
            T::Else,
            T::If,
            T::Bang,
            T::Ident("var2_".into()),
            T::LBrace,
            // `x` re-assignment
            T::Ident("x".into()),
            T::Eq,
            T::Ident("x".into()),
            T::Plus,
            T::StringLit(",".into()),
            T::Semicolon,
            T::RBrace, // end if
            T::RBrace, // end fn
            T::Eof,
        ],
    );
}
