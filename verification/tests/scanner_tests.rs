use fredlang::scanner::Scanner;
use fredlang::tokens::{Token, TokenKind};

#[test]
/// Runs `scan_tokens` over a source with only single chars valid lexemes.
fn scan_over_single_char_tokens() {
    let source = "{},.-+;/*!><()=";
    let expected_tokens = vec![
        Token::new("{".to_string(), TokenKind::LeftBrace, 1),
        Token::new("}".to_string(), TokenKind::RightBrace, 1),
        Token::new(",".to_string(), TokenKind::Comma, 1),
        Token::new(".".to_string(), TokenKind::Dot, 1),
        Token::new("-".to_string(), TokenKind::Minus, 1),
        Token::new("+".to_string(), TokenKind::Plus, 1),
        Token::new(";".to_string(), TokenKind::Semicolon, 1),
        Token::new("/".to_string(), TokenKind::Slash, 1),
        Token::new("*".to_string(), TokenKind::Star, 1),
        Token::new("!".to_string(), TokenKind::Bang, 1),
        Token::new(">".to_string(), TokenKind::Great, 1),
        Token::new("<".to_string(), TokenKind::Less, 1),
        Token::new("(".to_string(), TokenKind::LeftParentheses, 1),
        Token::new(")".to_string(), TokenKind::RightParentheses, 1),
        Token::new("=".to_string(), TokenKind::Equal, 1),
    ];

    let mut scanner = Scanner::new(&source);
    scanner.scan_tokens();

    assert_eq!(
        scanner.tokens, expected_tokens,
        "scanned tokens for single char lexemes should be same as the expected tokens"
    )
}

#[test]
/// Runs `scan tokens` over a source build from two chars valid lexemes.
fn scan_over_two_subsequent_chars_tokens() {
    let source = "==!=>=<=";
    let expected_tokens = vec![
        Token::new("==".to_string(), TokenKind::DoubleEqual, 1),
        Token::new("!=".to_string(), TokenKind::BangEqual, 1),
        Token::new(">=".to_string(), TokenKind::GreatEqual, 1),
        Token::new("<=".to_string(), TokenKind::LessEqual, 1),
    ];

    let mut scanner = Scanner::new(&source);
    scanner.scan_tokens();

    assert_eq!(
        scanner.tokens, expected_tokens,
        "scanned tokens for two subsequent chars lexemes should be same as the expected tokens"
    )
}

#[test]
/// Runs `scan_tokens` over a source built from a valid string pattern lexeme.
fn scan_string() {
    let source = "\"Hello world\"";
    let expected_tokens = vec![Token::new("Hello world".to_string(), TokenKind::String, 1)];

    let mut scanner = Scanner::new(&source);
    scanner.scan_tokens();

    assert_eq!(
        scanner.tokens, expected_tokens,
        "scanned tokens for string lexemes should be same as expected tokens"
    )
}

#[test]
/// Run `scan_tokens` over a source built from a valid integer number pattern lexeme.
fn scan_number() {
    let source = "10 25 30";
    let expected_tokens = vec![
        Token::new("10".to_string(), TokenKind::Number, 1),
        Token::new("25".to_string(), TokenKind::Number, 1),
        Token::new("30".to_string(), TokenKind::Number, 1),
    ];

    let mut scanner = Scanner::new(&source);
    scanner.scan_tokens();

    assert_eq!(
        scanner.tokens, expected_tokens,
        "scanned tokens for number lexeme should be same as expected tokens"
    )
}

#[test]
/// Runs `scan_tokens` over source built from keyword or identifier lexeme.
fn scan_keyword_and_identifier() {
    let source =
        "and else false for function if null or print return true var while my_own_identifier";
    let expected_tokens = vec![
        Token::new("and".to_string(), TokenKind::And, 1),
        Token::new("else".to_string(), TokenKind::Else, 1),
        Token::new("false".to_string(), TokenKind::False, 1),
        Token::new("for".to_string(), TokenKind::For, 1),
        Token::new("function".to_string(), TokenKind::Function, 1),
        Token::new("if".to_string(), TokenKind::If, 1),
        Token::new("null".to_string(), TokenKind::Null, 1),
        Token::new("or".to_string(), TokenKind::Or, 1),
        Token::new("print".to_string(), TokenKind::Print, 1),
        Token::new("return".to_string(), TokenKind::Return, 1),
        Token::new("true".to_string(), TokenKind::True, 1),
        Token::new("var".to_string(), TokenKind::Var, 1),
        Token::new("while".to_string(), TokenKind::While, 1),
        Token::new("my_own_identifier".to_string(), TokenKind::Identifier, 1),
    ];

    let mut scanner = Scanner::new(&source);
    scanner.scan_tokens();

    assert_eq!(
        scanner.tokens, expected_tokens,
        "scanner tokens for keyword lexemes should be same as expected tokens"
    )
}

#[test]
/// Runs `scan_tokens` over an invalid lexeme and capture the error.
fn scan_fails_on_invalid_lexeme() {
    let invalid_source = "@";

    let mut scanner = Scanner::new(&invalid_source);
    scanner.scan_tokens();

    assert!(
        scanner.errors.len() == 1,
        "should track errors when invalid lexeme is found"
    )
}

#[test]
/// Runs `update_line` and checks if it modifies the `line` field of the [`Scanner`]
fn update_line() {
    let mut scanner = Scanner::new("");
    let expected_line = 10;

    for _ in 1..expected_line {
        scanner.update_line();
    }

    assert_eq!(
        scanner.line, expected_line,
        "scanner line should be updated once a new line character is found"
    )
}

#[test]
/// Runs `scan_tokens` over a comment and checks if comment characters are skipped.
fn skip_single_line_comment() {
    let mut scanner = Scanner::new("# This is a comment\n");
    scanner.scan_tokens();

    assert_eq!(
        scanner.tokens.len(),
        0,
        "scanner should not emit any tokens after comment consuming"
    );
}

#[test]
/// An unrecognized character alone yields zero tokens and exactly one
/// lexical error carrying the offending fragment and its line.
fn scan_unknown_char_reports_fragment_and_line() {
    let mut scanner = Scanner::new("@");
    scanner.scan_tokens();

    assert_eq!(scanner.tokens.len(), 0);
    assert_eq!(scanner.errors.len(), 1);
    assert_eq!(scanner.errors[0].fragment, "@".to_string());
    assert_eq!(scanner.errors[0].line, 1);
}

#[test]
/// An unrecognized character skips the rest of its line and scanning
/// resumes on the next line.
fn scan_resumes_on_next_line_after_error() {
    let mut scanner = Scanner::new("@ 12 junk\n42");
    scanner.scan_tokens();

    assert_eq!(scanner.errors.len(), 1);
    assert_eq!(scanner.errors[0].fragment, "@ 12 junk".to_string());
    assert_eq!(
        scanner.tokens,
        vec![Token::new("42".to_string(), TokenKind::Number, 2)]
    );
}

#[test]
/// The alternate short spelling of the function keyword is reserved too.
fn scan_func_keyword() {
    let mut scanner = Scanner::new("func");
    scanner.scan_tokens();

    assert_eq!(
        scanner.tokens,
        vec![Token::new("func".to_string(), TokenKind::Function, 1)]
    );
}

#[test]
/// An unterminated string consumes to end of input and still yields a token.
fn scan_unterminated_string() {
    let mut scanner = Scanner::new("\"abc");
    scanner.scan_tokens();

    assert_eq!(
        scanner.tokens,
        vec![Token::new("abc".to_string(), TokenKind::String, 1)]
    );
    assert_eq!(scanner.errors.len(), 0);
}

#[test]
/// Tokens carry the line they were found on; line breaks advance it.
fn scan_tracks_lines() {
    let mut scanner = Scanner::new("1\n2\n\n3");
    scanner.scan_tokens();

    assert_eq!(
        scanner.tokens,
        vec![
            Token::new("1".to_string(), TokenKind::Number, 1),
            Token::new("2".to_string(), TokenKind::Number, 2),
            Token::new("3".to_string(), TokenKind::Number, 4),
        ]
    );
    assert_eq!(scanner.line, 4);
}

#[test]
/// A comment without a trailing line break runs to end of input.
fn scan_comment_without_newline() {
    let mut scanner = Scanner::new("# trailing comment");
    scanner.scan_tokens();

    assert_eq!(scanner.tokens.len(), 0);
    assert_eq!(scanner.errors.len(), 0);
}

#[test]
/// `match_incoming` looks at the character under the cursor without
/// consuming anything.
fn match_incoming_peeks_without_consuming() {
    let mut scanner = Scanner::new("ab");

    assert!(scanner.match_incoming('a'));
    assert!(!scanner.match_incoming('b'));
    assert_eq!(scanner.pos, 0);
}

#[test]
/// The line break that ends a comment still advances the line counter.
fn scan_comment_newline_advances_line() {
    let mut scanner = Scanner::new("#c\n1");
    scanner.scan_tokens();

    assert_eq!(
        scanner.tokens,
        vec![Token::new("1".to_string(), TokenKind::Number, 2)]
    );
    assert_eq!(scanner.line, 2);
}

#[test]
/// Whitespace beyond the ASCII blanks is skipped too, not reported as an
/// error.
fn scan_skips_unicode_whitespace() {
    let mut scanner = Scanner::new("\u{0B}\u{A0}7\u{2003}8");
    scanner.scan_tokens();

    assert_eq!(
        scanner.tokens,
        vec![
            Token::new("7".to_string(), TokenKind::Number, 1),
            Token::new("8".to_string(), TokenKind::Number, 1),
        ]
    );
    assert_eq!(scanner.errors.len(), 0);
}
