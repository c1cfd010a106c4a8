use fredlang::multipeek::{Multipeek, Multipeeker};
use fredlang::tokens::{Token, TokenKind};

#[test]
fn create_multipeek() {
    let tokens = vec![
        Token::new("3".to_string(), TokenKind::Number, 1),
        Token::new("*".to_string(), TokenKind::Star, 1),
        Token::new("5".to_string(), TokenKind::Number, 1),
        Token::new("/".to_string(), TokenKind::Slash, 1),
        Token::new("2".to_string(), TokenKind::Number, 1),
    ];
    let multipeek = Multipeek::new(tokens.clone());

    assert_eq!(
        multipeek.current,
        Some(tokens[0].clone()),
        "current field should start at first element of the iterator"
    );
}

#[test]
fn consume_next() {
    let tokens = vec![
        Token::new("3".to_string(), TokenKind::Number, 1),
        Token::new("*".to_string(), TokenKind::Star, 1),
        Token::new("5".to_string(), TokenKind::Number, 1),
        Token::new("/".to_string(), TokenKind::Slash, 1),
        Token::new("2".to_string(), TokenKind::Number, 1),
    ];
    let mut multipeek = Multipeek::new(tokens.clone());

    let mut i = 0;
    while let Some(token) = multipeek.next() {
        assert_eq!(
            token, tokens[i],
            "tokens on multipeek iteration should be same as expected"
        );
        i += 1;
    }
}

#[test]
fn peek_multiple_times() {
    let numbers = Vec::from_iter(0..10);

    let mut multipeek = Multipeek::new(numbers);

    for n in 0..4 {
        assert!(multipeek.peek().is_some_and(|v| *v == n));
    }

    let mut i = 0;
    while let Some(n) = multipeek.next() {
        assert!(i == n);
        i += 1;
    }
}

#[test]
fn interleaved_peeks_keep_consumption_order() {
    let numbers = Vec::from_iter(0..8);

    let mut multipeek = Multipeek::new(numbers.clone());
    let mut consumed = Vec::new();

    multipeek.peek();
    consumed.push(multipeek.next().unwrap());
    multipeek.peek();
    multipeek.peek();
    consumed.push(multipeek.next().unwrap());
    consumed.push(multipeek.next().unwrap());
    multipeek.peek();
    while let Some(n) = multipeek.next() {
        consumed.push(n);
    }

    assert_eq!(
        consumed, numbers,
        "peeking must not alter what next hands out, nor its order"
    );
}

#[test]
fn peek_past_the_end_returns_nothing() {
    let numbers = vec![1, 2];

    let mut multipeek = Multipeek::new(numbers);

    assert_eq!(multipeek.peek(), Some(&1));
    assert_eq!(multipeek.peek(), Some(&2));
    assert!(multipeek.peek().is_none());
    assert_eq!(multipeek.next(), Some(1));
    assert_eq!(multipeek.next(), Some(2));
    assert_eq!(multipeek.next(), None);
}

#[test]
/// The peeking capability is also reachable through the `Multipeeker` trait,
/// which hands out an owned copy of the peeked item.
fn peek_through_trait() {
    let mut multipeek = Multipeek::new(vec![1, 2, 3]);

    assert_eq!(Multipeeker::peek(&mut multipeek), Some(1));
    assert_eq!(multipeek.next(), Some(1));
}
