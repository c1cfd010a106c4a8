use vstd::prelude::*;

verus! {

/// The lexical categories a lexeme can be classified as: punctuation,
/// one- and two-character operators, literals, keywords and identifiers.
#[derive(Clone, Copy, Debug, PartialEq, Eq, Structural)]
pub enum TokenKind {
    LeftParentheses,
    RightParentheses,
    LeftBrace,
    RightBrace,
    Comma,
    Dot,
    Minus,
    Plus,
    Semicolon,
    Slash,
    Star,
    Equal,
    DoubleEqual,
    Bang,
    BangEqual,
    Great,
    GreatEqual,
    Less,
    LessEqual,
    String,
    Number,
    And,
    Else,
    False,
    For,
    Function,
    If,
    Null,
    Or,
    Print,
    Return,
    True,
    Var,
    While,
    Identifier,
}

/// A classified lexeme: the verbatim source text it was extracted from,
/// its kind, and the line it was found on.
#[derive(Clone, Debug, PartialEq, Eq)]
pub struct Token {
    /// Tags the token with a `TokenKind`.
    pub kind: TokenKind,
    /// The verbatim source substring the token was built from.
    pub lexeme: String,
    /// Line number (starting at 1) where the lexeme was found.
    pub line: u32,
}

/// Mathematical model of a `Token`: the lexeme as a sequence of characters.
pub ghost struct TokenV {
    pub kind: TokenKind,
    pub lexeme: Seq<char>,
    pub line: u32,
}

impl View for Token {
    type V = TokenV;

    open spec fn view(&self) -> TokenV {
        TokenV { kind: self.kind, lexeme: self.lexeme@, line: self.line }
    }
}

impl DeepView for Token {
    type V = TokenV;

    open spec fn deep_view(&self) -> TokenV {
        self.view()
    }
}

impl Token {
    /// Constructs a new token instance.
    pub fn new(lexeme: String, kind: TokenKind, line: u32) -> (t: Token)
        ensures
            t@ == (TokenV { kind, lexeme: lexeme@, line }),
    {
        Token { kind, lexeme, line }
    }
}

} // verus!
