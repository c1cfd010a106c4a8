use fredlang::ast::ParseError;
use fredlang::expressions::{Expression, AST};
use fredlang::tokens::{Token, TokenKind};

#[test]
/// Checks the expression building for single token expressions.
fn parse_primary_for_single_token_expressions() {
    let tokens = vec![
        Token::new("this is a string".to_string(), TokenKind::String, 1),
        Token::new("10".to_string(), TokenKind::Number, 1),
        Token::new("true".to_string(), TokenKind::True, 1),
        Token::new("false".to_string(), TokenKind::False, 1),
        Token::new("null".to_string(), TokenKind::Null, 1),
    ];
    let expected_expressions = vec![
        Expression::String("this is a string".to_string()),
        Expression::Number(10),
        Expression::Boolean(true),
        Expression::Boolean(false),
        Expression::Null,
    ];

    let mut ast = AST::new(tokens);

    for expected_expr in expected_expressions {
        assert_eq!(
            ast.parse_primary().unwrap(),
            expected_expr,
            "should parse primary single token based expression"
        )
    }
}

#[test]
/// Checks the expression building for grouping expressions.
fn parse_primary_for_grouping_expressions() {
    let tokens = vec![
        Token::new("(".to_string(), TokenKind::LeftParentheses, 1),
        Token::new("inside group".to_string(), TokenKind::String, 1),
        Token::new(")".to_string(), TokenKind::RightParentheses, 1),
    ];

    let expected_expression =
        Expression::Group(Expression::String("inside group".to_string()).as_box());

    let mut ast = AST::new(tokens);

    assert_eq!(
        ast.parse_primary().unwrap(),
        expected_expression,
        "should parse primary grouping expression"
    )
}

#[test]
/// Checks the invalid grouping expression.
fn create_error_for_invalid_grouping_expression() {
    let tokens = vec![
        Token::new("(".to_string(), TokenKind::LeftParentheses, 1),
        Token::new("inside group".to_string(), TokenKind::String, 1),
        // Notice here closing parentheses token needed but got number token
        Token::new("1".to_string(), TokenKind::Number, 1),
    ];
    let expected_errors = vec![ParseError::UnexpectedToken(
        ")".to_string(),
        "1".to_string(),
    )];

    let mut ast = AST::new(tokens);
    ast.parse_primary();

    for (i, error) in ast.errors.into_iter().enumerate() {
        assert_eq!(error, expected_errors[i])
    }
}

#[test]
/// Checks the expression building for unary expressions.
fn parse_unary_expressions() {
    let bang_token = Token::new("!".to_string(), TokenKind::Bang, 1);
    let minus_token = Token::new("-".to_string(), TokenKind::Minus, 1);

    let token_combinations = vec![
        vec![
            bang_token.clone(),
            Token::new("false".to_string(), TokenKind::False, 1),
        ],
        vec![
            minus_token.clone(),
            Token::new("500".to_string(), TokenKind::Number, 1),
        ],
    ];

    let expected_expressions = vec![
        Expression::Unary(bang_token, Expression::Boolean(false).as_box()),
        Expression::Unary(minus_token, Expression::Number(500).as_box()),
    ];

    for (i, tokens) in token_combinations.into_iter().enumerate() {
        let mut ast = AST::new(tokens);

        assert_eq!(
            ast.parse_unary().unwrap(),
            expected_expressions[i],
            "should parse unary expressions"
        )
    }
}

#[test]
/// Checks the expression building for factor expressions.
fn parse_factor_expressions() {
    let star_token = Token::new("*".to_string(), TokenKind::Star, 1);
    let slash_token = Token::new("/".to_string(), TokenKind::Slash, 1);

    let token_combinations = vec![
        vec![
            Token::new("10".to_string(), TokenKind::Number, 1),
            star_token.clone(),
            Token::new("5".to_string(), TokenKind::Number, 1),
        ],
        vec![
            Token::new("10".to_string(), TokenKind::Number, 1),
            slash_token.clone(),
            Token::new("5".to_string(), TokenKind::Number, 1),
        ],
    ];

    let expected_expressions = vec![
        Expression::Binary(
            Expression::Number(10).as_box(),
            star_token,
            Expression::Number(5).as_box(),
        ),
        Expression::Binary(
            Expression::Number(10).as_box(),
            slash_token,
            Expression::Number(5).as_box(),
        ),
    ];

    for (i, tokens) in token_combinations.into_iter().enumerate() {
        let mut ast = AST::new(tokens);
        assert_eq!(
            ast.parse_factor().unwrap(),
            expected_expressions[i],
            "should parse factor expressions"
        )
    }
}

#[test]
/// Checks the expression building for term expressions.
fn parse_term_expressions() {
    let plus_token = Token::new("+".to_string(), TokenKind::Plus, 1);
    let minus_token = Token::new("-".to_string(), TokenKind::Minus, 1);

    let token_combinations = vec![
        vec![
            Token::new("10".to_string(), TokenKind::Number, 1),
            plus_token.clone(),
            Token::new("5".to_string(), TokenKind::Number, 1),
        ],
        vec![
            Token::new("10".to_string(), TokenKind::Number, 1),
            minus_token.clone(),
            Token::new("5".to_string(), TokenKind::Number, 1),
        ],
    ];

    let expected_expressions = vec![
        Expression::Binary(
            Expression::Number(10).as_box(),
            plus_token,
            Expression::Number(5).as_box(),
        ),
        Expression::Binary(
            Expression::Number(10).as_box(),
            minus_token,
            Expression::Number(5).as_box(),
        ),
    ];

    for (i, tokens) in token_combinations.into_iter().enumerate() {
        let mut ast = AST::new(tokens);
        assert_eq!(
            ast.parse_term().unwrap(),
            expected_expressions[i],
            "should parse term expressions"
        )
    }
}

#[test]
/// Checks the expression building for comparison expressions.
fn parse_comparison_expressions() {
    let great_token = Token::new(">".to_string(), TokenKind::Great, 1);
    let great_equal_token = Token::new(">=".to_string(), TokenKind::GreatEqual, 1);
    let less_token = Token::new("<".to_string(), TokenKind::Less, 1);
    let less_equal_token = Token::new("<=".to_string(), TokenKind::LessEqual, 1);

    let token_combinations = vec![
        vec![
            Token::new("10".to_string(), TokenKind::Number, 1),
            great_token.clone(),
            Token::new("5".to_string(), TokenKind::Number, 1),
        ],
        vec![
            Token::new("10".to_string(), TokenKind::Number, 1),
            great_equal_token.clone(),
            Token::new("5".to_string(), TokenKind::Number, 1),
        ],
        vec![
            Token::new("5".to_string(), TokenKind::Number, 1),
            less_token.clone(),
            Token::new("10".to_string(), TokenKind::Number, 1),
        ],
        vec![
            Token::new("5".to_string(), TokenKind::Number, 1),
            less_equal_token.clone(),
            Token::new("10".to_string(), TokenKind::Number, 1),
        ],
    ];

    let expected_expressions = vec![
        Expression::Binary(
            Expression::Number(10).as_box(),
            great_token,
            Expression::Number(5).as_box(),
        ),
        Expression::Binary(
            Expression::Number(10).as_box(),
            great_equal_token,
            Expression::Number(5).as_box(),
        ),
        Expression::Binary(
            Expression::Number(5).as_box(),
            less_token,
            Expression::Number(10).as_box(),
        ),
        Expression::Binary(
            Expression::Number(5).as_box(),
            less_equal_token,
            Expression::Number(10).as_box(),
        ),
    ];

    for (i, tokens) in token_combinations.into_iter().enumerate() {
        let mut ast = AST::new(tokens);
        assert_eq!(
            ast.parse_comparison().unwrap(),
            expected_expressions[i],
            "should parse comparison expressions"
        )
    }
}

#[test]
/// Checks the expression building for equality expressions.
fn parse_equality_expressions() {
    let double_equal_token = Token::new("==".to_string(), TokenKind::DoubleEqual, 1);
    let bang_equal_token = Token::new("!=".to_string(), TokenKind::BangEqual, 1);

    let token_combinations = vec![
        vec![
            Token::new("5".to_string(), TokenKind::Number, 1),
            double_equal_token.clone(),
            Token::new("5".to_string(), TokenKind::Number, 1),
        ],
        vec![
            Token::new("5".to_string(), TokenKind::Number, 1),
            bang_equal_token.clone(),
            Token::new("5".to_string(), TokenKind::Number, 1),
        ],
    ];

    let expected_expressions = vec![
        Expression::Binary(
            Expression::Number(5).as_box(),
            double_equal_token,
            Expression::Number(5).as_box(),
        ),
        Expression::Binary(
            Expression::Number(5).as_box(),
            bang_equal_token,
            Expression::Number(5).as_box(),
        ),
    ];

    for (i, tokens) in token_combinations.into_iter().enumerate() {
        let mut ast = AST::new(tokens);
        assert_eq!(
            ast.parse_equality().unwrap(),
            expected_expressions[i],
            "should parse term expressions"
        )
    }
}

#[test]
/// A grouping whose closing parenthesis is missing still parses, recording
/// an `UnexpectedToken` diagnostic instead of aborting.
fn parse_missing_closing_parenthesis() {
    let tokens = vec![
        Token::new("(".to_string(), TokenKind::LeftParentheses, 1),
        Token::new("5".to_string(), TokenKind::Number, 1),
    ];

    let mut ast = AST::new(tokens);
    let parsed = ast.parse();

    assert_eq!(
        parsed,
        Some(Expression::Group(Expression::Number(5).as_box()))
    );
    assert_eq!(
        ast.errors,
        vec![ParseError::UnexpectedToken(")".to_string(), "".to_string())]
    );
}

#[test]
/// A token that cannot start an expression aborts the subtree with an
/// `ExpectedExpression` diagnostic.
fn parse_expected_expression_error() {
    let tokens = vec![Token::new("+".to_string(), TokenKind::Plus, 1)];

    let mut ast = AST::new(tokens);
    let parsed = ast.parse();

    assert_eq!(parsed, None);
    assert_eq!(ast.errors, vec![ParseError::ExpectedExpression]);
}

#[test]
/// Running out of tokens where an expression is required is reported the
/// same way.
fn parse_empty_input() {
    let mut ast = AST::new(Vec::new());
    let parsed = ast.parse();

    assert_eq!(parsed, None);
    assert_eq!(ast.errors, vec![ParseError::ExpectedExpression]);
}

#[test]
/// A numeric literal too large for the number type saturates at its largest
/// value instead of failing.
fn parse_saturating_number_literal() {
    let tokens = vec![Token::new(
        "99999999999999999999".to_string(),
        TokenKind::Number,
        1,
    )];

    let mut ast = AST::new(tokens);
    let parsed = ast.parse();

    assert_eq!(parsed, Some(Expression::Number(i64::MAX)));
}
