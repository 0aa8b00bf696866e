use lox_parser::ast::{Expression, ParseError, Statement};
use lox_parser::parser::Parser;
use lox_parser::token::{Object, Token, TokenType};

fn tok(kind: TokenType, lexeme: &str) -> Token {
    Token::new(kind, lexeme.to_string(), Object::Nil, 1)
}

fn num(text: &str) -> Token {
    Token::new(TokenType::Number, text.to_string(), Object::Number(text.to_string()), 1)
}

fn ident(name: &str) -> Token {
    Token::new(TokenType::Identifier, name.to_string(), Object::Nil, 1)
}

fn lit(text: &str) -> Expression {
    Expression::Literal(Object::Number(text.to_string()))
}

fn var(name: &str) -> Expression {
    Expression::Var(ident(name))
}

fn binary(l: Expression, op: Token, r: Expression) -> Expression {
    Expression::Binary(Box::new(l), op, Box::new(r))
}

fn parse(tokens: Vec<Token>) -> Result<Vec<Statement>, ParseError> {
    let mut parser = Parser::new(tokens);
    parser.parse()
}

#[test]
fn parser_test() {
    // function a() {print 1}
    let tokens = vec![
        tok(TokenType::Function, "function"),
        ident("a"),
        tok(TokenType::LeftParen, "("),
        tok(TokenType::RightParen, ")"),
        tok(TokenType::LeftBrace, "{"),
        tok(TokenType::Print, "print"),
        num("1"),
        tok(TokenType::RightBrace, "}"),
    ];
    let exp = parse(tokens).unwrap();
    println!("{:#?}", exp);
    assert_eq!(
        exp,
        vec![Statement::Function(ident("a"), vec![], vec![Statement::Print(lit("1"))])]
    );
}

#[test]
fn test() {
    // 1+6/(3+3)*2
    let tokens = vec![
        num("1"),
        tok(TokenType::Plus, "+"),
        num("6"),
        tok(TokenType::Slash, "/"),
        tok(TokenType::LeftParen, "("),
        num("3"),
        tok(TokenType::Plus, "+"),
        num("3"),
        tok(TokenType::RightParen, ")"),
        tok(TokenType::Star, "*"),
        num("2"),
    ];
    let exp = parse(tokens).unwrap();
    println!("{:#?}", exp);
}

#[test]
fn expression_precedence() {
    // 1 + 6 / (3 + 3) * 2
    let tokens = vec![
        num("1"),
        tok(TokenType::Plus, "+"),
        num("6"),
        tok(TokenType::Slash, "/"),
        tok(TokenType::LeftParen, "("),
        num("3"),
        tok(TokenType::Plus, "+"),
        num("3"),
        tok(TokenType::RightParen, ")"),
        tok(TokenType::Star, "*"),
        num("2"),
    ];
    let grouped = Expression::Grouping(Box::new(binary(
        lit("3"),
        tok(TokenType::Plus, "+"),
        lit("3"),
    )));
    let divided = binary(lit("6"), tok(TokenType::Slash, "/"), grouped);
    let timesed = binary(divided, tok(TokenType::Star, "*"), lit("2"));
    let expected = binary(lit("1"), tok(TokenType::Plus, "+"), timesed);
    assert_eq!(parse(tokens).unwrap(), vec![Statement::Expression(expected)]);
}

#[test]
fn print_statement() {
    // print 1
    let tokens = vec![tok(TokenType::Print, "print"), num("1")];
    assert_eq!(parse(tokens).unwrap(), vec![Statement::Print(lit("1"))]);
}

#[test]
fn var_then_assignment() {
    // var x = 42  x = x + 1
    let tokens = vec![
        tok(TokenType::Var, "var"),
        ident("x"),
        tok(TokenType::Equal, "="),
        num("42"),
        ident("x"),
        tok(TokenType::Equal, "="),
        ident("x"),
        tok(TokenType::Plus, "+"),
        num("1"),
    ];
    let expected = vec![
        Statement::Var(ident("x"), lit("42")),
        Statement::Expression(Expression::Assignment(
            ident("x"),
            Box::new(binary(var("x"), tok(TokenType::Plus, "+"), lit("1"))),
        )),
    ];
    assert_eq!(parse(tokens).unwrap(), expected);
}

#[test]
fn if_else_statement() {
    // if (a == 1) print a else print 0
    let tokens = vec![
        tok(TokenType::If, "if"),
        tok(TokenType::LeftParen, "("),
        ident("a"),
        tok(TokenType::EqualEqual, "=="),
        num("1"),
        tok(TokenType::RightParen, ")"),
        tok(TokenType::Print, "print"),
        ident("a"),
        tok(TokenType::Else, "else"),
        tok(TokenType::Print, "print"),
        num("0"),
    ];
    let expected = vec![Statement::If(
        binary(var("a"), tok(TokenType::EqualEqual, "=="), lit("1")),
        Box::new(Statement::Print(var("a"))),
        Some(Box::new(Statement::Print(lit("0")))),
    )];
    assert_eq!(parse(tokens).unwrap(), expected);
}

#[test]
fn function_declaration() {
    // function add(a, b) { print a + b }
    let tokens = vec![
        tok(TokenType::Function, "function"),
        ident("add"),
        tok(TokenType::LeftParen, "("),
        ident("a"),
        tok(TokenType::Comma, ","),
        ident("b"),
        tok(TokenType::RightParen, ")"),
        tok(TokenType::LeftBrace, "{"),
        tok(TokenType::Print, "print"),
        ident("a"),
        tok(TokenType::Plus, "+"),
        ident("b"),
        tok(TokenType::RightBrace, "}"),
    ];
    let expected = vec![Statement::Function(
        ident("add"),
        vec![ident("a"), ident("b")],
        vec![Statement::Print(binary(var("a"), tok(TokenType::Plus, "+"), var("b")))],
    )];
    assert_eq!(parse(tokens).unwrap(), expected);
}

#[test]
fn empty_call_chain() {
    // f()()
    let tokens = vec![
        ident("f"),
        tok(TokenType::LeftParen, "("),
        tok(TokenType::RightParen, ")"),
        tok(TokenType::LeftParen, "("),
        tok(TokenType::RightParen, ")"),
    ];
    let inner = Expression::Call(Box::new(var("f")), tok(TokenType::RightParen, ")"), vec![]);
    let outer = Expression::Call(Box::new(inner), tok(TokenType::RightParen, ")"), vec![]);
    assert_eq!(parse(tokens).unwrap(), vec![Statement::Expression(outer)]);
}

#[test]
fn call_chain_with_arguments() {
    // f(a)(b)
    let tokens = vec![
        ident("f"),
        tok(TokenType::LeftParen, "("),
        ident("a"),
        tok(TokenType::RightParen, ")"),
        tok(TokenType::LeftParen, "("),
        ident("b"),
        tok(TokenType::RightParen, ")"),
    ];
    let inner = Expression::Call(
        Box::new(var("f")),
        tok(TokenType::RightParen, ")"),
        vec![var("a")],
    );
    let outer = Expression::Call(
        Box::new(inner),
        tok(TokenType::RightParen, ")"),
        vec![var("b")],
    );
    assert_eq!(parse(tokens).unwrap(), vec![Statement::Expression(outer)]);
}

#[test]
fn assignment_is_right_associative() {
    // a = b = c
    let tokens = vec![
        ident("a"),
        tok(TokenType::Equal, "="),
        ident("b"),
        tok(TokenType::Equal, "="),
        ident("c"),
    ];
    let expected = Expression::Assignment(
        ident("a"),
        Box::new(Expression::Assignment(ident("b"), Box::new(var("c")))),
    );
    assert_eq!(parse(tokens).unwrap(), vec![Statement::Expression(expected)]);
}

#[test]
fn dangling_else_binds_to_nearest_if() {
    // if (a) if (b) print 1 else print 2
    let tokens = vec![
        tok(TokenType::If, "if"),
        tok(TokenType::LeftParen, "("),
        ident("a"),
        tok(TokenType::RightParen, ")"),
        tok(TokenType::If, "if"),
        tok(TokenType::LeftParen, "("),
        ident("b"),
        tok(TokenType::RightParen, ")"),
        tok(TokenType::Print, "print"),
        num("1"),
        tok(TokenType::Else, "else"),
        tok(TokenType::Print, "print"),
        num("2"),
    ];
    let inner = Statement::If(
        var("b"),
        Box::new(Statement::Print(lit("1"))),
        Some(Box::new(Statement::Print(lit("2")))),
    );
    let expected = vec![Statement::If(var("a"), Box::new(inner), None)];
    assert_eq!(parse(tokens).unwrap(), expected);
}

#[test]
fn lower_precedence_operator_is_root() {
    // a + b * c: the + is the root, b * c its right child
    let tokens = vec![
        ident("a"),
        tok(TokenType::Plus, "+"),
        ident("b"),
        tok(TokenType::Star, "*"),
        ident("c"),
    ];
    let expected = binary(
        var("a"),
        tok(TokenType::Plus, "+"),
        binary(var("b"), tok(TokenType::Star, "*"), var("c")),
    );
    assert_eq!(parse(tokens).unwrap(), vec![Statement::Expression(expected)]);
}

#[test]
fn equality_below_comparison() {
    // a == b < c: the == is the root, b < c its right child
    let tokens = vec![
        ident("a"),
        tok(TokenType::EqualEqual, "=="),
        ident("b"),
        tok(TokenType::Less, "<"),
        ident("c"),
    ];
    let expected = binary(
        var("a"),
        tok(TokenType::EqualEqual, "=="),
        binary(var("b"), tok(TokenType::Less, "<"), var("c")),
    );
    assert_eq!(parse(tokens).unwrap(), vec![Statement::Expression(expected)]);
}

#[test]
fn unary_nests_rightward() {
    // !-a
    let tokens = vec![tok(TokenType::Bang, "!"), tok(TokenType::Minus, "-"), ident("a")];
    let expected = Expression::Unary(
        tok(TokenType::Bang, "!"),
        Box::new(Expression::Unary(tok(TokenType::Minus, "-"), Box::new(var("a")))),
    );
    assert_eq!(parse(tokens).unwrap(), vec![Statement::Expression(expected)]);
}

#[test]
fn boolean_and_string_literals() {
    // print true  print false  print "s"
    let tokens = vec![
        tok(TokenType::Print, "print"),
        tok(TokenType::True, "true"),
        tok(TokenType::Print, "print"),
        tok(TokenType::False, "false"),
        tok(TokenType::Print, "print"),
        Token::new(TokenType::Str, "\"s\"".to_string(), Object::Str("s".to_string()), 1),
    ];
    let expected = vec![
        Statement::Print(Expression::Literal(Object::Bool(true))),
        Statement::Print(Expression::Literal(Object::Bool(false))),
        Statement::Print(Expression::Literal(Object::Str("s".to_string()))),
    ];
    assert_eq!(parse(tokens).unwrap(), expected);
}

#[test]
fn print_without_expression_yields_mark() {
    // print  (nothing follows: the silent sentinel is kept)
    let tokens = vec![tok(TokenType::Print, "print")];
    assert_eq!(parse(tokens).unwrap(), vec![Statement::Print(Expression::Mark)]);
}

#[test]
fn empty_input_is_empty_program() {
    assert_eq!(parse(vec![]).unwrap(), vec![]);
}

#[test]
fn var_without_initializer_fails() {
    // var x
    let tokens = vec![tok(TokenType::Var, "var"), ident("x")];
    assert_eq!(parse(tokens), Err(ParseError::ExpectedInitializer));
}

#[test]
fn unclosed_grouping_fails() {
    // (1 + 2
    let tokens = vec![
        tok(TokenType::LeftParen, "("),
        num("1"),
        tok(TokenType::Plus, "+"),
        num("2"),
    ];
    assert_eq!(parse(tokens), Err(ParseError::ExpectedRightParenAfterExpression));
}

#[test]
fn unclosed_block_fails() {
    // { print 1
    let tokens = vec![tok(TokenType::LeftBrace, "{"), tok(TokenType::Print, "print"), num("1")];
    assert_eq!(parse(tokens), Err(ParseError::ExpectedRightBraceAfterBlock));
}

#[test]
fn invalid_assignment_target_fails() {
    // 1 = 2
    let tokens = vec![num("1"), tok(TokenType::Equal, "="), num("2")];
    assert_eq!(parse(tokens), Err(ParseError::InvalidAssignmentTarget));
}

#[test]
fn if_without_paren_fails() {
    // if x
    let tokens = vec![tok(TokenType::If, "if"), ident("x")];
    assert_eq!(parse(tokens), Err(ParseError::ExpectedLeftParenAfterIf));
}

#[test]
fn unclosed_if_condition_fails() {
    // if (x print 1
    let tokens = vec![
        tok(TokenType::If, "if"),
        tok(TokenType::LeftParen, "("),
        ident("x"),
        tok(TokenType::Print, "print"),
        num("1"),
    ];
    assert_eq!(parse(tokens), Err(ParseError::ExpectedRightParenAfterCondition));
}

#[test]
fn function_without_name_fails() {
    // function (
    let tokens = vec![tok(TokenType::Function, "function"), tok(TokenType::LeftParen, "(")];
    assert_eq!(parse(tokens), Err(ParseError::ExpectedFunctionName));
}

#[test]
fn function_without_paren_fails() {
    // function f {
    let tokens = vec![
        tok(TokenType::Function, "function"),
        ident("f"),
        tok(TokenType::LeftBrace, "{"),
    ];
    assert_eq!(parse(tokens), Err(ParseError::ExpectedLeftParenAfterFunctionName));
}

#[test]
fn parameter_name_missing_fails() {
    // function f(1)
    let tokens = vec![
        tok(TokenType::Function, "function"),
        ident("f"),
        tok(TokenType::LeftParen, "("),
        num("1"),
        tok(TokenType::RightParen, ")"),
    ];
    assert_eq!(parse(tokens), Err(ParseError::ExpectedParameterName));
}

#[test]
fn parameter_after_comma_missing_fails() {
    // function f(a,)
    let tokens = vec![
        tok(TokenType::Function, "function"),
        ident("f"),
        tok(TokenType::LeftParen, "("),
        ident("a"),
        tok(TokenType::Comma, ","),
        tok(TokenType::RightParen, ")"),
    ];
    assert_eq!(parse(tokens), Err(ParseError::ExpectedParameterName));
}

#[test]
fn unclosed_parameters_fail() {
    // function f(a {
    let tokens = vec![
        tok(TokenType::Function, "function"),
        ident("f"),
        tok(TokenType::LeftParen, "("),
        ident("a"),
        tok(TokenType::LeftBrace, "{"),
    ];
    assert_eq!(parse(tokens), Err(ParseError::ExpectedRightParenAfterParameters));
}

#[test]
fn function_body_brace_missing_fails() {
    // function f() print
    let tokens = vec![
        tok(TokenType::Function, "function"),
        ident("f"),
        tok(TokenType::LeftParen, "("),
        tok(TokenType::RightParen, ")"),
        tok(TokenType::Print, "print"),
    ];
    assert_eq!(parse(tokens), Err(ParseError::ExpectedLeftBraceBeforeFunctionBody));
}

#[test]
fn var_name_missing_fails() {
    // var 1
    let tokens = vec![tok(TokenType::Var, "var"), num("1")];
    assert_eq!(parse(tokens), Err(ParseError::ExpectedVariableName));
}

#[test]
fn unclosed_arguments_fail() {
    // f(a
    let tokens = vec![ident("f"), tok(TokenType::LeftParen, "("), ident("a")];
    assert_eq!(parse(tokens), Err(ParseError::ExpectedRightParenAfterArguments));
}

#[test]
fn stray_token_sticks() {
    // ) alone: no primary matches, the cursor cannot advance
    let tokens = vec![tok(TokenType::RightParen, ")")];
    assert_eq!(parse(tokens), Err(ParseError::Stuck));
}

#[test]
fn trailing_comma_keeps_mark_argument() {
    // f(a,): the missing argument after the comma is the silent sentinel
    let tokens = vec![
        ident("f"),
        tok(TokenType::LeftParen, "("),
        ident("a"),
        tok(TokenType::Comma, ","),
        tok(TokenType::RightParen, ")"),
    ];
    let expected = Expression::Call(
        Box::new(var("f")),
        tok(TokenType::RightParen, ")"),
        vec![var("a"), Expression::Mark],
    );
    assert_eq!(parse(tokens).unwrap(), vec![Statement::Expression(expected)]);
}

#[test]
fn error_messages_name_the_expectation() {
    assert_eq!(ParseError::ExpectedVariableName.message(), "expect var name");
    assert_eq!(ParseError::ExpectedInitializer.message(), "var error");
    assert_eq!(ParseError::InvalidAssignmentTarget.message(), "invalid assignment");
    assert_eq!(
        ParseError::ExpectedRightBraceAfterBlock.message(),
        "expected '}' after block."
    );
}
