use minicc::{
    consume_token, parse, ASTNode, BinaryOperator, Constant, Error, Expression, Function, Keyword,
    Literal, Program, Statement, Token, TokenStream, UnaryOperator,
};

fn number(i: u32) -> Token {
    Token::Literal(Literal::Int(i))
}

fn ident(name: &str) -> Token {
    Token::Identifier(String::from(name))
}

fn constant(i: u32) -> Expression {
    Expression::Constant(Constant::Int(i))
}

fn var(name: &str) -> Expression {
    Expression::Var(String::from(name))
}

fn assign(name: &str, value: Expression) -> Expression {
    Expression::Assign(String::from(name), Box::new(value))
}

fn binary(op: BinaryOperator, left: Expression, right: Expression) -> Expression {
    Expression::Binary(op, Box::new(left), Box::new(right))
}

fn unary(op: UnaryOperator, operand: Expression) -> Expression {
    Expression::Unary(op, Box::new(operand))
}

/// The tokens of `int main() { body }`.
fn function_of(body: Vec<Token>) -> Vec<Token> {
    let mut tokens = vec![
        Token::Keyword(Keyword::Int),
        ident("main"),
        Token::OpenParenthesis,
        Token::CloseParenthesis,
        Token::OpenBrace,
    ];
    tokens.extend(body);
    tokens.push(Token::CloseBrace);
    tokens
}

fn program(body: Vec<Statement>) -> Program {
    Program(Function { name: String::from("main"), body })
}

fn stream(tokens: Vec<Token>) -> TokenStream {
    itertools::put_back_n(tokens)
}

/// Parses `e ;` as a whole expression and gives the expression and what is left.
fn expression(mut tokens: Vec<Token>) -> (Result<Expression, Error>, Vec<Token>) {
    tokens.push(Token::Semicolon);
    let mut t = stream(tokens);
    let r = Expression::parse(&mut t);
    (r, t.collect())
}

/// The tokens in parentheses.
fn enclosed(tokens: Vec<Token>) -> Vec<Token> {
    let mut all = vec![Token::OpenParenthesis];
    all.extend(tokens);
    all.push(Token::CloseParenthesis);
    all
}

fn parsed_expression(tokens: Vec<Token>) -> Expression {
    let (r, rest) = expression(tokens);
    assert_eq!(rest, vec![Token::Semicolon]);
    r.unwrap()
}

#[test]
fn precedence_of_multiplication_over_addition() {
    let tokens = function_of(vec![
        Token::Keyword(Keyword::Return),
        number(1),
        Token::Addition,
        number(2),
        Token::Multiplication,
        number(3),
        Token::Semicolon,
    ]);
    let expected = program(vec![Statement::Return(binary(
        BinaryOperator::Addition,
        constant(1),
        binary(BinaryOperator::Multiplication, constant(2), constant(3)),
    ))]);
    assert_eq!(parse(tokens), Ok(expected));
}

#[test]
fn parentheses_override_precedence() {
    let tokens = function_of(vec![
        Token::Keyword(Keyword::Return),
        Token::OpenParenthesis,
        number(1),
        Token::Addition,
        number(2),
        Token::CloseParenthesis,
        Token::Multiplication,
        number(3),
        Token::Semicolon,
    ]);
    let expected = program(vec![Statement::Return(binary(
        BinaryOperator::Multiplication,
        binary(BinaryOperator::Addition, constant(1), constant(2)),
        constant(3),
    ))]);
    assert_eq!(parse(tokens), Ok(expected));
}

#[test]
fn assignment_is_right_associative() {
    // int a; int b; a = b = 3;
    let tokens = function_of(vec![
        Token::Keyword(Keyword::Int),
        ident("a"),
        Token::Semicolon,
        Token::Keyword(Keyword::Int),
        ident("b"),
        Token::Semicolon,
        ident("a"),
        Token::Assign,
        ident("b"),
        Token::Assign,
        number(3),
        Token::Semicolon,
    ]);
    let expected = program(vec![
        Statement::Declaration(String::from("a"), None),
        Statement::Declaration(String::from("b"), None),
        Statement::Expression(assign("a", assign("b", constant(3)))),
    ]);
    assert_eq!(parse(tokens), Ok(expected));
}

#[test]
fn compound_assignment_is_assignment_of_the_operation() {
    let compound = parsed_expression(vec![ident("x"), Token::AssignAdd, number(5)]);
    let plain = parsed_expression(vec![
        ident("x"),
        Token::Assign,
        ident("x"),
        Token::Addition,
        number(5),
    ]);
    assert_eq!(compound, plain);
    assert_eq!(compound, assign("x", binary(BinaryOperator::Addition, var("x"), constant(5))));
}

#[test]
fn every_compound_assignment_has_its_operator() {
    let cases = vec![
        (Token::AssignAdd, BinaryOperator::Addition),
        (Token::AssignSub, BinaryOperator::Subtraction),
        (Token::AssignMul, BinaryOperator::Multiplication),
        (Token::AssignDiv, BinaryOperator::Division),
        (Token::AssignMod, BinaryOperator::Modulo),
        (Token::AssignAnd, BinaryOperator::BitAnd),
        (Token::AssignOr, BinaryOperator::BitOr),
        (Token::AssignXor, BinaryOperator::BitXor),
        (Token::AssignShiftLeft, BinaryOperator::ShiftLeft),
        (Token::AssignShiftRight, BinaryOperator::ShiftRight),
    ];
    for (tok, op) in cases {
        let e = parsed_expression(vec![ident("x"), tok, number(2), Token::Addition, number(3)]);
        assert_eq!(
            e,
            assign(
                "x",
                binary(op, var("x"), binary(BinaryOperator::Addition, constant(2), constant(3)))
            )
        );
    }
}

#[test]
fn compound_assignment_chains_from_the_right() {
    let e = parsed_expression(vec![
        ident("x"),
        Token::AssignMul,
        ident("y"),
        Token::AssignSub,
        number(1),
    ]);
    assert_eq!(
        e,
        assign(
            "x",
            binary(
                BinaryOperator::Multiplication,
                var("x"),
                assign("y", binary(BinaryOperator::Subtraction, var("y"), constant(1)))
            )
        )
    );
}

#[test]
fn binary_operators_are_left_associative() {
    let e = parsed_expression(vec![
        number(1),
        Token::Negative,
        number(2),
        Token::Negative,
        number(3),
    ]);
    assert_eq!(
        e,
        binary(
            BinaryOperator::Subtraction,
            binary(BinaryOperator::Subtraction, constant(1), constant(2)),
            constant(3)
        )
    );
    let e = parsed_expression(vec![
        number(8),
        Token::Division,
        number(4),
        Token::Multiplication,
        number(2),
    ]);
    assert_eq!(
        e,
        binary(
            BinaryOperator::Multiplication,
            binary(BinaryOperator::Division, constant(8), constant(4)),
            constant(2)
        )
    );
}

#[test]
fn binding_powers_order_the_operators() {
    // a || b && c == d < e + f * g
    let e = parsed_expression(vec![
        ident("a"),
        Token::Or,
        ident("b"),
        Token::And,
        ident("c"),
        Token::Equal,
        ident("d"),
        Token::LessThan,
        ident("e"),
        Token::Addition,
        ident("f"),
        Token::Multiplication,
        ident("g"),
    ]);
    let product = binary(BinaryOperator::Multiplication, var("f"), var("g"));
    let sum = binary(BinaryOperator::Addition, var("e"), product);
    let less = binary(BinaryOperator::LessThan, var("d"), sum);
    let equal = binary(BinaryOperator::Equal, var("c"), less);
    let and = binary(BinaryOperator::And, var("b"), equal);
    assert_eq!(e, binary(BinaryOperator::Or, var("a"), and));
    // a * b + c < d == e && f || g
    let e = parsed_expression(vec![
        ident("a"),
        Token::Multiplication,
        ident("b"),
        Token::Addition,
        ident("c"),
        Token::LessThan,
        ident("d"),
        Token::Equal,
        ident("e"),
        Token::And,
        ident("f"),
        Token::Or,
        ident("g"),
    ]);
    let product = binary(BinaryOperator::Multiplication, var("a"), var("b"));
    let sum = binary(BinaryOperator::Addition, product, var("c"));
    let less = binary(BinaryOperator::LessThan, sum, var("d"));
    let equal = binary(BinaryOperator::Equal, less, var("e"));
    let and = binary(BinaryOperator::And, equal, var("f"));
    assert_eq!(e, binary(BinaryOperator::Or, and, var("g")));
}

#[test]
fn operators_of_one_binding_power() {
    let cases = vec![
        (Token::Multiplication, BinaryOperator::Multiplication, Token::Division, BinaryOperator::Division),
        (Token::Addition, BinaryOperator::Addition, Token::Negative, BinaryOperator::Subtraction),
        (Token::LessThan, BinaryOperator::LessThan, Token::GreaterThanEqual, BinaryOperator::GreaterThanEqual),
        (Token::LessThanEqual, BinaryOperator::LessThanEqual, Token::GreaterThan, BinaryOperator::GreaterThan),
        (Token::Equal, BinaryOperator::Equal, Token::NotEqual, BinaryOperator::NotEqual),
    ];
    for (first, first_op, second, second_op) in cases {
        let e = parsed_expression(vec![number(1), first, number(2), second, number(3)]);
        assert_eq!(e, binary(second_op, binary(first_op, constant(1), constant(2)), constant(3)));
    }
}

#[test]
fn comparison_after_a_sum_keeps_its_operator() {
    // 1 + 2 <= 3: the `<=` that ends the right operand of `+` goes back as it is.
    let e = parsed_expression(vec![
        number(1),
        Token::Addition,
        number(2),
        Token::LessThanEqual,
        number(3),
    ]);
    assert_eq!(
        e,
        binary(
            BinaryOperator::LessThanEqual,
            binary(BinaryOperator::Addition, constant(1), constant(2)),
            constant(3)
        )
    );
}

#[test]
fn prefix_operators_nest_and_bind_tightest() {
    let e = parsed_expression(vec![
        Token::Negative,
        Token::Negation,
        Token::Complement,
        number(1),
    ]);
    assert_eq!(
        e,
        unary(
            UnaryOperator::Negative,
            unary(UnaryOperator::Negation, unary(UnaryOperator::Complement, constant(1)))
        )
    );
    let e = parsed_expression(vec![Token::Negative, number(1), Token::Addition, number(2)]);
    assert_eq!(
        e,
        binary(BinaryOperator::Addition, unary(UnaryOperator::Negative, constant(1)), constant(2))
    );
    let e = parsed_expression(vec![number(5), Token::Division, Token::Negative, number(3)]);
    assert_eq!(
        e,
        binary(BinaryOperator::Division, constant(5), unary(UnaryOperator::Negative, constant(3)))
    );
    let e = parsed_expression(vec![
        Token::Negation,
        Token::OpenParenthesis,
        ident("a"),
        Token::Or,
        ident("b"),
        Token::CloseParenthesis,
    ]);
    assert_eq!(e, unary(UnaryOperator::Negation, binary(BinaryOperator::Or, var("a"), var("b"))));
}

#[test]
fn parenthesized_variable_can_be_assigned() {
    let e = parsed_expression(vec![
        Token::OpenParenthesis,
        ident("a"),
        Token::CloseParenthesis,
        Token::Assign,
        number(1),
    ]);
    assert_eq!(e, assign("a", constant(1)));
}

#[test]
fn assignment_to_something_else_is_invalid() {
    let (r, rest) = expression(vec![number(1), Token::Assign, number(2)]);
    assert_eq!(r, Err(Error::InvalidSyntax));
    assert_eq!(rest, vec![Token::Semicolon]);
    let (r, _) = expression(vec![ident("a"), Token::Addition, ident("b"), Token::Assign, number(1)]);
    assert_eq!(r, Err(Error::InvalidSyntax));
    let (r, _) = expression(vec![
        Token::Negative,
        ident("a"),
        Token::AssignAdd,
        number(1),
    ]);
    assert_eq!(r, Err(Error::InvalidSyntax));
}

#[test]
fn remainder_has_no_infix_form() {
    // return -5 % 3; the `%` ends the expression, and the `;` is missing there.
    let tokens = function_of(vec![
        Token::Keyword(Keyword::Return),
        Token::Negative,
        number(5),
        Token::Modulo,
        number(3),
        Token::Semicolon,
    ]);
    assert_eq!(
        parse(tokens),
        Err(Error::UnexpectedToken {
            wanted: "",
            expected: vec![Token::Semicolon],
            found: Token::Modulo,
            tokens: vec![number(3), Token::Semicolon, Token::CloseBrace],
        })
    );
}

#[test]
fn statements_of_each_form() {
    // int x; int y = 2; int z = y = 3; x = 1; 4; return x;
    let tokens = function_of(vec![
        Token::Keyword(Keyword::Int),
        ident("x"),
        Token::Semicolon,
        Token::Keyword(Keyword::Int),
        ident("y"),
        Token::Assign,
        number(2),
        Token::Semicolon,
        Token::Keyword(Keyword::Int),
        ident("z"),
        Token::Assign,
        ident("y"),
        Token::Assign,
        number(3),
        Token::Semicolon,
        ident("x"),
        Token::Assign,
        number(1),
        Token::Semicolon,
        number(4),
        Token::Semicolon,
        Token::Keyword(Keyword::Return),
        ident("x"),
        Token::Semicolon,
    ]);
    let expected = program(vec![
        Statement::Declaration(String::from("x"), None),
        Statement::Declaration(String::from("y"), Some(assign("y", constant(2)))),
        Statement::Declaration(String::from("z"), Some(assign("z", assign("y", constant(3))))),
        Statement::Expression(assign("x", constant(1))),
        Statement::Expression(constant(4)),
        Statement::Return(var("x")),
    ]);
    assert_eq!(parse(tokens), Ok(expected));
}

#[test]
fn empty_body_and_function_name() {
    let tokens = vec![
        Token::Keyword(Keyword::Int),
        ident("start"),
        Token::OpenParenthesis,
        Token::CloseParenthesis,
        Token::OpenBrace,
        Token::CloseBrace,
    ];
    assert_eq!(
        parse(tokens),
        Ok(Program(Function { name: String::from("start"), body: vec![] }))
    );
}

#[test]
fn tokens_after_the_function_are_left_alone() {
    let mut tokens = function_of(vec![Token::Keyword(Keyword::Return), number(0), Token::Semicolon]);
    tokens.push(Token::CloseBrace);
    tokens.push(number(9));
    let expected = program(vec![Statement::Return(constant(0))]);
    assert_eq!(parse(tokens.clone()), Ok(expected));
    let mut t = stream(tokens);
    assert!(Program::parse(&mut t).is_ok());
    let rest: Vec<Token> = t.collect();
    assert_eq!(rest, vec![Token::CloseBrace, number(9)]);
}

#[test]
fn function_shape_is_fixed() {
    assert_eq!(parse(vec![]), Err(Error::UnexpectedEnd { wanted: "" }));
    assert_eq!(
        parse(vec![Token::Keyword(Keyword::Int)]),
        Err(Error::UnexpectedEnd { wanted: "Function" })
    );
    assert_eq!(
        parse(vec![Token::Keyword(Keyword::Int), number(5), Token::OpenParenthesis]),
        Err(Error::InvalidSyntax)
    );
    assert_eq!(
        parse(vec![Token::Keyword(Keyword::Return), ident("main"), Token::OpenParenthesis]),
        Err(Error::UnexpectedToken {
            wanted: "",
            expected: vec![Token::Keyword(Keyword::Int)],
            found: Token::Keyword(Keyword::Return),
            tokens: vec![ident("main"), Token::OpenParenthesis],
        })
    );
    assert_eq!(
        parse(vec![Token::Keyword(Keyword::Int), ident("main"), Token::OpenBrace, Token::CloseBrace]),
        Err(Error::UnexpectedToken {
            wanted: "",
            expected: vec![Token::OpenParenthesis],
            found: Token::OpenBrace,
            tokens: vec![Token::CloseBrace],
        })
    );
    assert_eq!(
        parse(vec![
            Token::Keyword(Keyword::Int),
            ident("main"),
            Token::OpenParenthesis,
            Token::Keyword(Keyword::Int),
            ident("x"),
            Token::CloseParenthesis,
        ]),
        Err(Error::UnexpectedToken {
            wanted: "",
            expected: vec![Token::CloseParenthesis],
            found: Token::Keyword(Keyword::Int),
            tokens: vec![ident("x"), Token::CloseParenthesis],
        })
    );
    assert_eq!(
        parse(vec![
            Token::Keyword(Keyword::Int),
            ident("main"),
            Token::OpenParenthesis,
            Token::CloseParenthesis,
            Token::Semicolon,
        ]),
        Err(Error::UnexpectedToken {
            wanted: "",
            expected: vec![Token::OpenBrace],
            found: Token::Semicolon,
            tokens: vec![],
        })
    );
    assert_eq!(
        parse(vec![Token::Keyword(Keyword::Int), ident("main"), Token::OpenParenthesis]),
        Err(Error::UnexpectedEnd { wanted: "" })
    );
}

#[test]
fn body_without_closing_brace_ends_unexpectedly() {
    let mut tokens = function_of(vec![Token::Keyword(Keyword::Return), number(1), Token::Semicolon]);
    tokens.pop();
    assert_eq!(parse(tokens), Err(Error::UnexpectedEnd { wanted: "Keyword" }));
    let mut tokens = function_of(vec![]);
    tokens.pop();
    assert_eq!(parse(tokens), Err(Error::UnexpectedEnd { wanted: "Keyword" }));
}

#[test]
fn statement_starts_with_one_of_few_tokens() {
    let tokens = function_of(vec![Token::OpenBrace, number(1), Token::Semicolon]);
    assert_eq!(
        parse(tokens),
        Err(Error::UnexpectedToken {
            wanted: "Statement",
            expected: vec![
                Token::Keyword(Keyword::Return),
                Token::Keyword(Keyword::Int),
                ident(""),
            ],
            found: Token::OpenBrace,
            tokens: vec![number(1), Token::Semicolon, Token::CloseBrace],
        })
    );
    // A statement cannot begin with a prefix operator or a parenthesis.
    let tokens = function_of(vec![Token::Negative, number(1), Token::Semicolon]);
    assert!(matches!(
        parse(tokens),
        Err(Error::UnexpectedToken { wanted: "Statement", found: Token::Negative, .. })
    ));
    let mut t = stream(vec![]);
    assert_eq!(Statement::parse(&mut t), Err(Error::UnexpectedEnd { wanted: "Keyword" }));
}

#[test]
fn declaration_needs_a_name_and_an_end() {
    let mut t = stream(vec![Token::Keyword(Keyword::Int), Token::Semicolon, number(1)]);
    assert_eq!(
        Statement::parse(&mut t),
        Err(Error::UnexpectedToken {
            wanted: "Identifier",
            expected: vec![ident("_")],
            found: Token::Semicolon,
            tokens: vec![number(1)],
        })
    );
    assert_eq!(t.next(), None);
    let mut t = stream(vec![Token::Keyword(Keyword::Int), ident("x"), Token::Addition, number(1)]);
    assert_eq!(
        Statement::parse(&mut t),
        Err(Error::UnexpectedToken {
            wanted: "Statement part",
            expected: vec![Token::Semicolon, Token::Assign],
            found: Token::Addition,
            tokens: vec![number(1)],
        })
    );
    let mut t = stream(vec![Token::Keyword(Keyword::Int)]);
    assert_eq!(Statement::parse(&mut t), Err(Error::UnexpectedEnd { wanted: "Statement" }));
    let mut t = stream(vec![Token::Keyword(Keyword::Int), ident("x")]);
    assert_eq!(Statement::parse(&mut t), Err(Error::UnexpectedEnd { wanted: "Identifier" }));
    let mut t = stream(vec![Token::Keyword(Keyword::Int), ident("x"), Token::Assign, number(1)]);
    assert_eq!(Statement::parse(&mut t), Err(Error::UnexpectedEnd { wanted: "Expression" }));
}

#[test]
fn statement_parser_leaves_what_follows() {
    let mut t = stream(vec![
        Token::Keyword(Keyword::Int),
        ident("x"),
        Token::Assign,
        number(1),
        Token::Semicolon,
        Token::Keyword(Keyword::Return),
        ident("x"),
    ]);
    assert_eq!(
        Statement::parse(&mut t),
        Ok(Statement::Declaration(String::from("x"), Some(assign("x", constant(1)))))
    );
    let rest: Vec<Token> = t.collect();
    assert_eq!(rest, vec![Token::Keyword(Keyword::Return), ident("x")]);
}

#[test]
fn expression_needs_an_atom() {
    let tokens = function_of(vec![Token::Keyword(Keyword::Return), Token::Semicolon]);
    assert_eq!(
        parse(tokens),
        Err(Error::UnexpectedToken {
            wanted: "Expression atom",
            expected: vec![
                Token::Negative,
                Token::Negation,
                Token::Complement,
                Token::OpenParenthesis,
                Token::Literal(Literal::Empty),
            ],
            found: Token::Semicolon,
            tokens: vec![Token::CloseBrace],
        })
    );
    let mut t = stream(vec![number(1), Token::Addition]);
    assert_eq!(Expression::parse(&mut t), Err(Error::UnexpectedEnd { wanted: "Expression" }));
    let mut t = stream(vec![Token::Negative]);
    assert_eq!(Expression::parse(&mut t), Err(Error::UnexpectedEnd { wanted: "Expression" }));
    let mut t = stream(vec![]);
    assert_eq!(Expression::parse(&mut t), Err(Error::UnexpectedEnd { wanted: "Expression" }));
}

#[test]
fn expression_needs_a_token_after_it() {
    let mut t = stream(vec![number(1)]);
    assert_eq!(Expression::parse(&mut t), Err(Error::UnexpectedEnd { wanted: "Expression" }));
    let mut t = stream(vec![number(1), Token::CloseBrace]);
    assert_eq!(Expression::parse(&mut t), Ok(constant(1)));
    let rest: Vec<Token> = t.collect();
    assert_eq!(rest, vec![Token::CloseBrace]);
}

#[test]
fn missing_semicolon_and_parenthesis() {
    let tokens = function_of(vec![Token::Keyword(Keyword::Return), number(1)]);
    assert_eq!(
        parse(tokens),
        Err(Error::UnexpectedToken {
            wanted: "",
            expected: vec![Token::Semicolon],
            found: Token::CloseBrace,
            tokens: vec![],
        })
    );
    let (r, rest) = expression(vec![Token::OpenParenthesis, number(1)]);
    assert_eq!(
        r,
        Err(Error::UnexpectedToken {
            wanted: "",
            expected: vec![Token::CloseParenthesis],
            found: Token::Semicolon,
            tokens: vec![],
        })
    );
    assert_eq!(rest, vec![]);
}

#[test]
fn error_inside_parentheses_is_reported_as_it_is() {
    let (r, rest) = expression(vec![
        Token::OpenParenthesis,
        number(1),
        Token::Assign,
        number(2),
        Token::OpenBrace,
    ]);
    assert_eq!(r, Err(Error::InvalidSyntax));
    assert_eq!(rest, vec![Token::OpenBrace, Token::Semicolon]);
}

#[test]
fn literal_without_a_value_is_no_constant() {
    let (r, rest) = expression(vec![Token::Literal(Literal::Empty), Token::Addition]);
    assert_eq!(
        r,
        Err(Error::UnexpectedToken {
            wanted: "Constant",
            expected: vec![number(0)],
            found: Token::Literal(Literal::Empty),
            tokens: vec![Token::Addition, Token::Semicolon],
        })
    );
    assert_eq!(rest, vec![]);
}

#[test]
fn consume_token_takes_the_expected_token() {
    let mut t = stream(vec![Token::Semicolon, number(1), ident("a")]);
    assert_eq!(consume_token(&mut t, Token::Semicolon), Ok(()));
    assert_eq!(consume_token(&mut t, number(1)), Ok(()));
    assert_eq!(consume_token(&mut t, ident("a")), Ok(()));
    assert_eq!(consume_token(&mut t, ident("a")), Err(Error::UnexpectedEnd { wanted: "" }));
}

#[test]
fn consume_token_reports_another_token_with_the_rest() {
    let mut t = stream(vec![ident("a"), number(1), Token::Semicolon]);
    assert_eq!(
        consume_token(&mut t, ident("b")),
        Err(Error::UnexpectedToken {
            wanted: "",
            expected: vec![ident("b")],
            found: ident("a"),
            tokens: vec![number(1), Token::Semicolon],
        })
    );
    assert_eq!(t.next(), None);
    let mut t = stream(vec![number(1)]);
    assert!(consume_token(&mut t, number(2)).is_err());
    let mut t = stream(vec![Token::Keyword(Keyword::Int)]);
    assert!(consume_token(&mut t, Token::Keyword(Keyword::Return)).is_err());
}

#[test]
fn tokens_compare_by_kind_and_content() {
    assert_eq!(ident("a"), ident("a"));
    assert_ne!(ident("a"), ident("b"));
    assert_ne!(ident("a"), number(1));
    assert_eq!(number(1), number(1));
    assert_ne!(number(1), number(2));
    assert_ne!(number(1), Token::Literal(Literal::Empty));
    assert_eq!(Token::Keyword(Keyword::Int), Token::Keyword(Keyword::Int));
    assert_ne!(Token::Keyword(Keyword::Int), Token::Keyword(Keyword::Return));
    assert_eq!(Token::AssignShiftRight, Token::AssignShiftRight);
    assert_ne!(Token::AssignShiftRight, Token::AssignShiftLeft);
    assert_ne!(Token::Negative, Token::Negation);
    assert_ne!(Token::LessThan, Token::LessThanEqual);
}

#[test]
fn constant_parser() {
    let mut t = stream(vec![number(7), number(8)]);
    assert_eq!(Constant::parse(&mut t), Ok(Constant::Int(7)));
    assert_eq!(Constant::parse(&mut t), Ok(Constant::Int(8)));
    assert_eq!(Constant::parse(&mut t), Err(Error::UnexpectedEnd { wanted: "Constant" }));
    let mut t = stream(vec![ident("a"), number(8)]);
    assert_eq!(
        Constant::parse(&mut t),
        Err(Error::UnexpectedToken {
            wanted: "Constant",
            expected: vec![number(0)],
            found: ident("a"),
            tokens: vec![number(8)],
        })
    );
}

#[test]
fn unary_operator_parser() {
    let mut t = stream(vec![Token::Complement, Token::Negative, Token::Negation, Token::Addition]);
    assert_eq!(UnaryOperator::parse(&mut t), Ok(UnaryOperator::Complement));
    assert_eq!(UnaryOperator::parse(&mut t), Ok(UnaryOperator::Negative));
    assert_eq!(UnaryOperator::parse(&mut t), Ok(UnaryOperator::Negation));
    assert_eq!(
        UnaryOperator::parse(&mut t),
        Err(Error::UnexpectedToken {
            wanted: "UnaryOperator",
            expected: vec![Token::Complement, Token::Negation, Token::Negative],
            found: Token::Addition,
            tokens: vec![],
        })
    );
    assert_eq!(UnaryOperator::parse(&mut t), Err(Error::UnexpectedEnd { wanted: "UnaryOperator" }));
}

#[test]
fn binary_operator_parser() {
    let cases = vec![
        (Token::Addition, BinaryOperator::Addition),
        (Token::Negative, BinaryOperator::Subtraction),
        (Token::Multiplication, BinaryOperator::Multiplication),
        (Token::Division, BinaryOperator::Division),
        (Token::Modulo, BinaryOperator::Modulo),
        (Token::BitAnd, BinaryOperator::BitAnd),
        (Token::BitOr, BinaryOperator::BitOr),
        (Token::BitXor, BinaryOperator::BitXor),
        (Token::ShiftLeft, BinaryOperator::ShiftLeft),
        (Token::ShiftRight, BinaryOperator::ShiftRight),
    ];
    let all: Vec<Token> = cases.iter().map(|(tok, _)| tok.clone()).collect();
    for (tok, op) in cases {
        let mut t = stream(vec![tok, Token::Semicolon]);
        assert_eq!(BinaryOperator::parse(&mut t), Ok(op));
        assert_eq!(t.next(), Some(Token::Semicolon));
    }
    let mut t = stream(vec![Token::LessThan, Token::Semicolon]);
    assert_eq!(
        BinaryOperator::parse(&mut t),
        Err(Error::UnexpectedToken {
            wanted: "BinaryOperator",
            expected: all,
            found: Token::LessThan,
            tokens: vec![Token::Semicolon],
        })
    );
    assert_eq!(
        BinaryOperator::parse(&mut t),
        Err(Error::UnexpectedEnd { wanted: "BinaryOperator" })
    );
}

#[test]
fn expressions_in_full_parentheses_parse_to_their_trees() {
    // (1) + ((2) * (3))
    let mut product = enclosed(vec![number(2)]);
    product.push(Token::Multiplication);
    product.extend(enclosed(vec![number(3)]));
    let mut tokens = enclosed(vec![number(1)]);
    tokens.push(Token::Addition);
    tokens.extend(enclosed(product.clone()));
    assert_eq!(
        parsed_expression(tokens),
        binary(
            BinaryOperator::Addition,
            constant(1),
            binary(BinaryOperator::Multiplication, constant(2), constant(3))
        )
    );
    // ((2) * (3)) - (-(x))
    let mut tokens = enclosed(product.clone());
    tokens.push(Token::Negative);
    let mut negated = vec![Token::Negative];
    negated.extend(enclosed(vec![ident("x")]));
    tokens.extend(enclosed(negated));
    assert_eq!(
        parsed_expression(tokens),
        binary(
            BinaryOperator::Subtraction,
            binary(BinaryOperator::Multiplication, constant(2), constant(3)),
            unary(UnaryOperator::Negative, var("x"))
        )
    );
    // x = ((2) * (3))
    let mut tokens = vec![ident("x"), Token::Assign];
    tokens.extend(enclosed(product.clone()));
    assert_eq!(
        parsed_expression(tokens),
        assign("x", binary(BinaryOperator::Multiplication, constant(2), constant(3)))
    );
    // x %= ((2) * (3))
    let mut tokens = vec![ident("x"), Token::AssignMod];
    tokens.extend(enclosed(product));
    assert_eq!(
        parsed_expression(tokens),
        assign(
            "x",
            binary(
                BinaryOperator::Modulo,
                var("x"),
                binary(BinaryOperator::Multiplication, constant(2), constant(3))
            )
        )
    );
}
