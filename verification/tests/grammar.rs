use frontend::lexer::{Token, TokenType};
use frontend::parser::ast::{Binding, Bop, Expr, Field, Item, Lit, Stmt, Type, Unop, Variant};
use frontend::parser::{Expected, ParseError, Parser};

fn number(value: i64) -> Expr {
    Expr::Literal(Lit::Int(value))
}

fn name(text: &str) -> Expr {
    Expr::Ident(text.into())
}

fn named(text: &str) -> Type {
    Type::Ident { name: text.into(), generics: vec![] }
}

fn binary(op: Bop, lhs: Expr, rhs: Expr) -> Expr {
    Expr::BinaryOp { op, lhs: Box::new(lhs), rhs: Box::new(rhs) }
}

fn expression(input: &str) -> Result<Expr, ParseError> {
    Parser::new(input).expression()
}

#[test]
fn binding_powers() {
    assert_eq!(Bop::Assign.binding_power(), (1, 2));
    assert_eq!(Bop::Or.binding_power(), (3, 4));
    assert_eq!(Bop::And.binding_power(), (5, 6));
    assert_eq!(Bop::Eqq.binding_power(), (7, 8));
    assert_eq!(Bop::Neq.binding_power(), (7, 8));
    assert_eq!(Bop::Gt.binding_power(), (9, 10));
    assert_eq!(Bop::Lt.binding_power(), (9, 10));
    assert_eq!(Bop::Leq.binding_power(), (9, 10));
    assert_eq!(Bop::Geq.binding_power(), (9, 10));
    assert_eq!(Bop::BOr.binding_power(), (11, 12));
    assert_eq!(Bop::Xor.binding_power(), (13, 14));
    assert_eq!(Bop::BAnd.binding_power(), (15, 16));
    assert_eq!(Bop::Add.binding_power(), (17, 18));
    assert_eq!(Bop::Sub.binding_power(), (17, 18));
    assert_eq!(Bop::Mul.binding_power(), (19, 20));
    assert_eq!(Bop::Div.binding_power(), (19, 20));
    assert_eq!(Bop::Exp.binding_power(), (22, 21));
    assert_eq!(Unop::Neg.binding_power(), 51);
    assert_eq!(Unop::Not.binding_power(), 51);
}

#[test]
fn operators_of_tokens() {
    assert_eq!(Bop::of_token(TokenType::Eq), Some(Bop::Assign));
    assert_eq!(Bop::of_token(TokenType::UpArrow), Some(Bop::Xor));
    assert_eq!(Bop::of_token(TokenType::Ampersand), Some(Bop::BAnd));
    assert_eq!(Bop::of_token(TokenType::Bar), Some(Bop::BOr));
    assert_eq!(Bop::of_token(TokenType::And), Some(Bop::And));
    assert_eq!(Bop::of_token(TokenType::Or), Some(Bop::Or));
    assert_eq!(Bop::of_token(TokenType::Exponent), Some(Bop::Exp));
    assert_eq!(Bop::of_token(TokenType::LAngle), Some(Bop::Lt));
    assert_eq!(Bop::of_token(TokenType::RAngle), Some(Bop::Gt));
    assert_eq!(Bop::of_token(TokenType::Dot), None);
    assert_eq!(Bop::of_token(TokenType::LParen), None);
}

#[test]
fn left_associative_operators_fold_left() {
    assert_eq!(
        expression("4 - 2 - 3"),
        Ok(binary(Bop::Sub, binary(Bop::Sub, number(4), number(2)), number(3)))
    );
    assert_eq!(
        expression("a = b = c"),
        Ok(binary(Bop::Assign, binary(Bop::Assign, name("a"), name("b")), name("c")))
    );
}

#[test]
fn exponent_folds_right() {
    assert_eq!(
        expression("4 ** 2 ** 3"),
        Ok(binary(Bop::Exp, number(4), binary(Bop::Exp, number(2), number(3))))
    );
}

#[test]
fn tighter_operators_bind_first() {
    assert_eq!(
        expression("4 + 2 * 3"),
        Ok(binary(Bop::Add, number(4), binary(Bop::Mul, number(2), number(3))))
    );
    assert_eq!(
        expression("a || b && c == d < e | f ^ g & h + i * j ** k"),
        Ok(binary(
            Bop::Or,
            name("a"),
            binary(
                Bop::And,
                name("b"),
                binary(
                    Bop::Eqq,
                    name("c"),
                    binary(
                        Bop::Lt,
                        name("d"),
                        binary(
                            Bop::BOr,
                            name("e"),
                            binary(
                                Bop::Xor,
                                name("f"),
                                binary(
                                    Bop::BAnd,
                                    name("g"),
                                    binary(
                                        Bop::Add,
                                        name("h"),
                                        binary(
                                            Bop::Mul,
                                            name("i"),
                                            binary(Bop::Exp, name("j"), name("k"))
                                        )
                                    )
                                )
                            )
                        )
                    )
                )
            )
        ))
    );
    assert_eq!(
        expression("- a * b"),
        Ok(binary(
            Bop::Mul,
            Expr::UnaryOp { op: Unop::Neg, expr: Box::new(name("a")) },
            name("b")
        ))
    );
    assert_eq!(
        expression("(4 + 2) * 3"),
        Ok(binary(Bop::Mul, binary(Bop::Add, number(4), number(2)), number(3)))
    );
}

#[test]
fn a_call_applies_to_what_stands_before_it() {
    let call = |fun: Expr, args: Vec<Expr>| Expr::FnCall { fun: Box::new(fun), args };
    assert_eq!(
        expression("f(x) + 1"),
        Ok(binary(Bop::Add, call(name("f"), vec![name("x")]), number(1)))
    );
    assert_eq!(
        expression("1 + f(x) * 2"),
        Ok(binary(
            Bop::Add,
            number(1),
            binary(Bop::Mul, call(name("f"), vec![name("x")]), number(2))
        ))
    );
    assert_eq!(
        expression("f(1)(2,)"),
        Ok(call(call(name("f"), vec![number(1)]), vec![number(2)]))
    );
    assert_eq!(
        expression("! f()"),
        Ok(Expr::UnaryOp { op: Unop::Not, expr: Box::new(call(name("f"), vec![])) })
    );
}

#[test]
fn block_trailing() {
    let binding = |text: &str| Binding { mutable: false, name: text.into(), type_annotation: None };
    assert_eq!(
        expression("{ let x = 1; x }"),
        Ok(Expr::Block {
            exprs: vec![
                Expr::Let { binding: binding("x"), value: Box::new(number(1)) },
                name("x")
            ],
            trailing: true
        })
    );
    assert_eq!(
        expression("{ let x = 1; }"),
        Ok(Expr::Block {
            exprs: vec![Expr::Let { binding: binding("x"), value: Box::new(number(1)) }],
            trailing: false
        })
    );
    assert_eq!(expression("{}"), Ok(Expr::Block { exprs: vec![], trailing: true }));
    assert_eq!(
        expression("{ 1; 2; 3 }"),
        Ok(Expr::Block { exprs: vec![number(1), number(2), number(3)], trailing: true })
    );
    assert_eq!(
        expression("{ 1 ; ; }"),
        Err(ParseError::UnexpectedToken(TokenType::Semicolon, Some(Expected::Expression)))
    );
    assert_eq!(expression("{ 1; 2"), Err(ParseError::UnexpectedToken(TokenType::Eof, Some(Expected::Expression))));
}

#[test]
fn literals_and_lists() {
    assert_eq!(
        expression("[1, 2,]"),
        Ok(Expr::Literal(Lit::Array(vec![number(1), number(2)])))
    );
    assert_eq!(expression("[]"), Ok(Expr::Literal(Lit::Array(vec![]))));
    assert_eq!(expression("(1,)"), Ok(Expr::Literal(Lit::Tuple(vec![number(1)]))));
    assert_eq!(
        expression("(1, 2)"),
        Ok(Expr::Literal(Lit::Tuple(vec![number(1), number(2)])))
    );
    assert_eq!(expression("((1))"), Ok(number(1)));
    assert_eq!(expression("true"), Ok(Expr::Literal(Lit::Bool(true))));
    assert_eq!(expression("false"), Ok(Expr::Literal(Lit::Bool(false))));
    assert_eq!(expression("'c'"), Ok(Expr::Literal(Lit::Char('c'))));
    assert_eq!(
        expression("1.5e3"),
        Ok(Expr::Literal(Lit::Float("1.5e3".into())))
    );
    assert_eq!(
        expression("[1 2]"),
        Err(ParseError::UnexpectedToken(TokenType::IntLit, None))
    );
    assert_eq!(
        expression("[1, 2"),
        Err(ParseError::MissingToken)
    );
}

#[test]
fn lambdas() {
    assert_eq!(
        expression("|mut a: Int,|: Int -> a"),
        Ok(Expr::Lambda {
            params: vec![Binding {
                mutable: true,
                name: "a".into(),
                type_annotation: Some(named("Int"))
            }],
            return_type: Some(named("Int")),
            body: Box::new(name("a"))
        })
    );
    // Two bars without a space are the operator `||`.
    assert_eq!(
        expression("|| -> 1"),
        Err(ParseError::UnexpectedToken(TokenType::Or, Some(Expected::Expression)))
    );
    assert_eq!(
        expression("|a| a"),
        Err(ParseError::MismatchedToken { expected: TokenType::Arrow, found: TokenType::Ident })
    );
}

#[test]
fn errors_of_expressions() {
    assert_eq!(expression("(1"), Err(ParseError::MissingToken));
    assert_eq!(
        expression("(1 ]"),
        Err(ParseError::MismatchedToken { expected: TokenType::RParen, found: TokenType::RBracket })
    );
    assert_eq!(
        expression(")"),
        Err(ParseError::UnexpectedToken(TokenType::RParen, Some(Expected::Expression)))
    );
    assert_eq!(
        expression(""),
        Err(ParseError::UnexpectedToken(TokenType::Eof, Some(Expected::Expression)))
    );
    assert_eq!(
        expression("1 2"),
        Err(ParseError::UnexpectedToken(TokenType::IntLit, None))
    );
    assert_eq!(
        expression("a . b"),
        Err(ParseError::UnexpectedToken(TokenType::Dot, None))
    );
    assert_eq!(
        expression("if x y"),
        Err(ParseError::MismatchedToken { expected: TokenType::LParen, found: TokenType::Ident })
    );
    assert_eq!(
        expression("let = 1"),
        Err(ParseError::MismatchedToken { expected: TokenType::Ident, found: TokenType::Eq })
    );
    assert_eq!(expression("let"), Err(ParseError::MissingToken));
    assert_eq!(
        expression("let x: 5 = 1"),
        Err(ParseError::UnexpectedToken(TokenType::IntLit, Some(Expected::TypeName)))
    );
    assert_eq!(
        expression("1 +"),
        Err(ParseError::UnexpectedToken(TokenType::Eof, Some(Expected::Expression)))
    );
}

#[test]
fn a_lexical_error_fails_the_parse() {
    assert_eq!(
        expression("$"),
        Err(ParseError::UnexpectedToken(TokenType::Error, Some(Expected::Expression)))
    );
    assert_eq!(
        expression("1 + $"),
        Err(ParseError::UnexpectedToken(TokenType::Error, Some(Expected::Expression)))
    );
    assert_eq!(
        expression("1 $"),
        Err(ParseError::UnexpectedToken(TokenType::Error, None))
    );
    assert_eq!(
        expression("(1 $"),
        Err(ParseError::UnexpectedToken(TokenType::Error, None))
    );
    assert_eq!(
        Parser::new("const $").item(),
        Err(ParseError::MismatchedToken { expected: TokenType::Ident, found: TokenType::Error })
    );
}

#[test]
fn generic_types() {
    assert_eq!(
        Parser::new("Bar<Baz<T>, U>").type_(),
        Ok(Type::Ident {
            name: "Bar".into(),
            generics: vec![
                Type::Ident { name: "Baz".into(), generics: vec![named("T")] },
                named("U")
            ]
        })
    );
    assert_eq!(
        Parser::new("A<B<C<D>>>").type_(),
        Ok(Type::Ident {
            name: "A".into(),
            generics: vec![Type::Ident {
                name: "B".into(),
                generics: vec![Type::Ident { name: "C".into(), generics: vec![named("D")] }]
            }]
        })
    );
}

#[test]
fn other_types() {
    assert_eq!(
        Parser::new("[Int]").type_(),
        Ok(Type::Array(Box::new(named("Int"))))
    );
    assert_eq!(
        Parser::new("(Int, [Str],)").type_(),
        Ok(Type::Tuple(vec![named("Int"), Type::Array(Box::new(named("Str")))]))
    );
    assert_eq!(Parser::new("()").type_(), Ok(Type::Tuple(vec![])));
    assert_eq!(
        Parser::new("fn(Int, Str): fn(): Int").type_(),
        Ok(Type::Fn {
            params: vec![named("Int"), named("Str")],
            result: Box::new(Type::Fn { params: vec![], result: Box::new(named("Int")) })
        })
    );
    assert_eq!(
        Parser::new("fn(Int) Int").type_(),
        Err(ParseError::MismatchedToken { expected: TokenType::Colon, found: TokenType::Ident })
    );
    assert_eq!(
        Parser::new("[Int").type_(),
        Err(ParseError::MissingToken)
    );
    assert_eq!(
        Parser::new("7").type_(),
        Err(ParseError::UnexpectedToken(TokenType::IntLit, Some(Expected::TypeName)))
    );
    assert_eq!(
        Parser::new("A<B").type_(),
        Err(ParseError::MissingToken)
    );
}

#[test]
fn bindings_and_identifiers() {
    assert_eq!(
        Parser::new("mut x: Int").binding(),
        Ok(Binding { mutable: true, name: "x".into(), type_annotation: Some(named("Int")) })
    );
    assert_eq!(
        Parser::new("x").binding(),
        Ok(Binding { mutable: false, name: "x".into(), type_annotation: None })
    );
    assert_eq!(
        Parser::new("mut mut").binding(),
        Err(ParseError::MismatchedToken { expected: TokenType::Ident, found: TokenType::Mut })
    );
    assert_eq!(Parser::new("abc").ident(), Ok("abc".to_string()));
    assert_eq!(Parser::new("").ident(), Err(ParseError::MissingToken));
    assert_eq!(
        Parser::new("1").ident(),
        Err(ParseError::MismatchedToken { expected: TokenType::Ident, found: TokenType::IntLit })
    );
}

#[test]
fn enum_variants() {
    assert_eq!(
        Parser::new("enum Foo { X, Y(Bar), Z { a: A } }").item(),
        Ok(Item::Enum {
            name: "Foo".into(),
            generic_params: vec![],
            variants: vec![
                Variant::Unit("X".into()),
                Variant::Tuple("Y".into(), vec![named("Bar")]),
                Variant::Struct("Z".into(), vec![Field { name: "a".into(), ty: named("A") }]),
            ]
        })
    );
    assert_eq!(
        Parser::new("enum Opt<T> { None, Some(T), }").item(),
        Ok(Item::Enum {
            name: "Opt".into(),
            generic_params: vec!["T".into()],
            variants: vec![
                Variant::Unit("None".into()),
                Variant::Tuple("Some".into(), vec![named("T")]),
            ]
        })
    );
    // A unit variant is told by the comma behind it.
    assert_eq!(
        Parser::new("enum Foo { X }").item(),
        Err(ParseError::UnexpectedToken(TokenType::RBrace, Some(Expected::VariantBody)))
    );
    assert_eq!(
        Parser::new("enum Foo { X = 1 }").item(),
        Err(ParseError::UnexpectedToken(TokenType::Eq, Some(Expected::VariantBody)))
    );
    assert_eq!(
        Parser::new("X,").variant(),
        Ok(Variant::Unit("X".into()))
    );
}

#[test]
fn items_and_files() {
    assert_eq!(
        Parser::new("foo").item(),
        Err(ParseError::UnexpectedToken(TokenType::Ident, Some(Expected::Item)))
    );
    assert_eq!(
        Parser::new("").item(),
        Err(ParseError::UnexpectedToken(TokenType::Eof, Some(Expected::Item)))
    );
    assert_eq!(Parser::new("  // nothing\n").file(), Ok(vec![]));
    assert_eq!(
        Parser::new("const A: Int = 1 const B: Int = 2").file(),
        Ok(vec![
            Item::Const { ident: "A".into(), ty: named("Int"), value: number(1) },
            Item::Const { ident: "B".into(), ty: named("Int"), value: number(2) },
        ])
    );
    assert_eq!(
        Parser::new("const A: Int = 1; const B: Int = 2").file(),
        Err(ParseError::UnexpectedToken(TokenType::Semicolon, Some(Expected::Item)))
    );
    assert_eq!(
        Parser::new("struct S { }").item(),
        Ok(Item::Struct { name: "S".into(), generic_params: vec![], fields: vec![] })
    );
    assert_eq!(
        Parser::new("struct S<1> { }").item(),
        Err(ParseError::MismatchedToken { expected: TokenType::Ident, found: TokenType::IntLit })
    );
    assert_eq!(
        Parser::new("fn f() 1").item(),
        Err(ParseError::MismatchedToken { expected: TokenType::Arrow, found: TokenType::IntLit })
    );
    assert_eq!(
        Parser::new("fn f(): Int -> 1").item(),
        Ok(Item::Function {
            name: "f".into(),
            params: vec![],
            return_type: Some(named("Int")),
            body: number(1)
        })
    );
    assert_eq!(
        Parser::new("a: A, b: B }").field(),
        Ok(Field { name: "a".into(), ty: named("A") })
    );
    assert_eq!(
        Parser::new("{ a: A, b: B, }").fields(),
        Ok(vec![
            Field { name: "a".into(), ty: named("A") },
            Field { name: "b".into(), ty: named("B") }
        ])
    );
    assert_eq!(
        Parser::new("Pair<A, B>").declared_name(),
        Ok(("Pair".to_string(), vec!["A".to_string(), "B".to_string()]))
    );
}

#[test]
fn lists() {
    assert_eq!(
        Parser::new("<A, B,>").delimited_list::<String>(TokenType::LAngle, TokenType::RAngle),
        Ok(vec!["A".to_string(), "B".to_string()])
    );
    assert_eq!(
        Parser::new("<>").delimited_list::<String>(TokenType::LAngle, TokenType::RAngle),
        Ok(vec![])
    );
    assert_eq!(
        Parser::new("{ a: A }").delimited_list::<Field>(TokenType::LBrace, TokenType::RBrace),
        Ok(vec![Field { name: "a".into(), ty: named("A") }])
    );
    assert_eq!(
        Parser::new("[ X, Y(A), ]").delimited_list::<Variant>(TokenType::LBracket, TokenType::RBracket),
        Ok(vec![Variant::Unit("X".into()), Variant::Tuple("Y".into(), vec![named("A")])])
    );
    assert_eq!(
        Parser::new("<,>").delimited_list::<String>(TokenType::LAngle, TokenType::RAngle),
        Err(ParseError::MismatchedToken { expected: TokenType::Ident, found: TokenType::Comma })
    );
    assert_eq!(
        Parser::new("(a, mut b)").delimited_list::<Binding>(TokenType::LParen, TokenType::RParen),
        Ok(vec![
            Binding { mutable: false, name: "a".into(), type_annotation: None },
            Binding { mutable: true, name: "b".into(), type_annotation: None }
        ])
    );
    assert_eq!(
        Parser::new("(1, 2)").expression_list(TokenType::LParen, TokenType::RParen),
        Ok(vec![number(1), number(2)])
    );
    assert_eq!(
        Parser::new("[A]").type_list(TokenType::LParen, TokenType::RParen),
        Err(ParseError::MismatchedToken { expected: TokenType::LParen, found: TokenType::LBracket })
    );
    assert_eq!(
        Parser::new("(A B)").type_list(TokenType::LParen, TokenType::RParen),
        Err(ParseError::MismatchedToken { expected: TokenType::RParen, found: TokenType::Ident })
    );
}

#[test]
fn statements() {
    assert_eq!(
        Parser::new("let mut x: Int = 1 + 2;").statement(),
        Ok(Stmt::Let {
            mutable: true,
            ident: "x".into(),
            type_annotation: Some("Int".into()),
            value: binary(Bop::Add, number(1), number(2))
        })
    );
    assert_eq!(
        Parser::new("let x = 1;").statement(),
        Ok(Stmt::Let { mutable: false, ident: "x".into(), type_annotation: None, value: number(1) })
    );
    assert_eq!(
        Parser::new("x = 1;").statement(),
        Ok(Stmt::Assign { ident: "x".into(), value: number(1) })
    );
    assert_eq!(
        Parser::new("1 + 2;").statement(),
        Ok(Stmt::Expr(binary(Bop::Add, number(1), number(2))))
    );
    assert_eq!(Parser::new("1 + 2").statement(), Err(ParseError::MissingToken));
    assert_eq!(
        Parser::new("x + 1;").statement(),
        Err(ParseError::MismatchedToken { expected: TokenType::Eq, found: TokenType::Plus })
    );
    assert_eq!(
        Parser::new("let x: [Int] = 1;").statement(),
        Err(ParseError::MismatchedToken { expected: TokenType::Ident, found: TokenType::LBracket })
    );
}

#[test]
fn the_cursor() {
    let mut parser = Parser::new("a ,");
    assert_eq!(*parser.peek(), Token::Ident("a".into()));
    assert_eq!(*parser.peek(), Token::Ident("a".into()));
    assert!(parser.at(TokenType::Ident));
    assert!(!parser.at(TokenType::Comma));
    assert!(!parser.consume_at(TokenType::Comma));
    assert_eq!(parser.next(), Some(Token::Ident("a".into())));
    assert!(parser.consume_at(TokenType::Comma));
    assert!(parser.at(TokenType::Eof));
    assert_eq!(parser.next(), Some(Token::Eof));
    // Past the end the lookahead is `Eof`, and nothing is left to take.
    assert_eq!(*parser.peek(), Token::Eof);
    assert!(parser.at(TokenType::Eof));
    assert_eq!(parser.next(), None);
    assert_eq!(parser.consume(TokenType::Comma), Err(ParseError::MissingToken));
    assert!(parser.consume_at(TokenType::Eof));
    assert_eq!(parser.next(), None);

    let mut parser = Parser::new("a ,");
    assert_eq!(
        parser.consume(TokenType::Comma),
        Err(ParseError::MismatchedToken { expected: TokenType::Comma, found: TokenType::Ident })
    );
    assert_eq!(parser.consume(TokenType::Comma), Ok(()));
    assert_eq!(parser.consume(TokenType::Comma), Err(ParseError::MissingToken));
    assert_eq!(parser.next(), None);
}

#[test]
fn expression_stops_where_it_ends() {
    let mut parser = Parser::new("1 + 2; 3");
    assert_eq!(parser.expression(), Ok(binary(Bop::Add, number(1), number(2))));
    assert_eq!(parser.consume(TokenType::Semicolon), Ok(()));
    assert_eq!(parser.expression(), Ok(number(3)));
    assert!(parser.at(TokenType::Eof));
    let mut parser = Parser::new("a * b + c");
    assert_eq!(parser.parse_expression(18), Ok(binary(Bop::Mul, name("a"), name("b"))));
    assert!(parser.at(TokenType::Plus));
}

#[test]
fn literals_convert_to_expressions() {
    let expr: Expr = Lit::Int(3).into();
    assert_eq!(expr, number(3));
    let boxed: Box<Expr> = Lit::Int(3).into();
    assert_eq!(*boxed, number(3));
}

#[test]
fn messages() {
    assert_eq!(ParseError::MissingToken.message(), "expected another token");
    assert_eq!(
        ParseError::MismatchedToken { expected: TokenType::RParen, found: TokenType::Comma }
            .message(),
        "expected token `RParen`, found token `Comma`"
    );
    assert_eq!(
        ParseError::UnexpectedToken(TokenType::Dot, None).message(),
        "unexpected token `Dot`"
    );
    assert_eq!(
        ParseError::UnexpectedToken(TokenType::Eof, Some(Expected::Expression)).message(),
        "unexpected token `Eof`, expected start of expression"
    );
    assert_eq!(Expected::TypeName.description(), "start of type name");
    assert_eq!(Expected::Item.description(), "start of item");
    assert_eq!(Expected::VariantBody.description(), "one of `,` `(` `{`");
    assert_eq!(TokenType::Ident.name(), "Ident");
    assert_eq!(TokenType::Error.name(), "Error");
}

#[test]
fn copies_are_equal() {
    let source = r#"
        const LIMIT: Int = 10
        fn f(mut a: [Int], b: fn(Int): (Int, Str)): Int -> {
            let c = |x: Int| -> (x, -x, [1.5, "two", 'c', true]);
            if (a < b) c(1)(2) else { a = b ** 2; }
        }
        struct S<T> { x: T, y: Box<T>, }
        enum E<T> { A, B(T, T), C { x: T } }
    "#;
    let items = Parser::new(source).file().unwrap();
    assert_eq!(items.len(), 4);
    assert_eq!(items.clone(), items);
    for item in &items {
        assert_eq!(item.clone(), *item);
    }
    let statement = Parser::new("let mut x: Int = [1, (2, 3)];").statement().unwrap();
    assert_eq!(statement.clone(), statement);
    let ty = Parser::new("fn(A<B>, [C]): (D, E)").type_().unwrap();
    assert_eq!(ty.clone(), ty);
    let entries = Lit::Mapping(vec![(name("k"), number(1)), (name("l"), number(2))]);
    assert_eq!(entries.clone(), entries);
    let field = Field { name: "a".into(), ty: named("A") };
    assert_eq!(field.clone(), field);
    let variant = Variant::Struct("V".into(), vec![field]);
    assert_eq!(variant.clone(), variant);
    let binding = Binding { mutable: true, name: "b".into(), type_annotation: Some(ty) };
    assert_eq!(binding.clone(), binding);
}
