use vstd::prelude::*;
use vstd::string::StrSliceExecFns;
use vstd::string::StringExecFns;
use crate::tokens::{Token, TokenKind, TokenV};

verus! {

/// An unrecognized character sequence: the skipped source fragment and the
/// line it was found on.
#[derive(Clone, Debug, PartialEq, Eq)]
pub struct LexError {
    /// The offending text, from the unrecognized character to the end of its line.
    pub fragment: String,
    /// Line number where the unrecognized character was found.
    pub line: u32,
}

/// Mathematical model of a `LexError`.
pub ghost struct LexErrorV {
    pub fragment: Seq<char>,
    pub line: u32,
}

impl View for LexError {
    type V = LexErrorV;

    open spec fn view(&self) -> LexErrorV {
        LexErrorV { fragment: self.fragment@, line: self.line }
    }
}

impl DeepView for LexError {
    type V = LexErrorV;

    open spec fn deep_view(&self) -> LexErrorV {
        self.view()
    }
}

/// ASCII decimal digit.
pub open spec fn is_digit_char(c: char) -> bool {
    ('0' as u32) <= (c as u32) && (c as u32) <= ('9' as u32)
}

/// ASCII letter, the only characters that may start a keyword or identifier.
pub open spec fn is_alpha_char(c: char) -> bool {
    (('a' as u32) <= (c as u32) && (c as u32) <= ('z' as u32)) || (('A' as u32) <= (c as u32) && (c
        as u32) <= ('Z' as u32))
}

/// Characters that may continue a keyword or identifier.
pub open spec fn is_ident_char(c: char) -> bool {
    is_alpha_char(c) || is_digit_char(c) || c == '_'
}

/// Whitespace the scanner skips without emitting anything: every Unicode
/// whitespace character except the line break, which is handled separately
/// because it updates the line counter.
pub open spec fn is_blank_char(c: char) -> bool {
    ||| c == ' '
    ||| c == '\t'
    ||| c == '\r'
    ||| c == '\u{0B}'
    ||| c == '\u{0C}'
    ||| c == '\u{85}'
    ||| c == '\u{A0}'
    ||| c == '\u{1680}'
    ||| (('\u{2000}' as u32) <= (c as u32) && (c as u32) <= ('\u{200A}' as u32))
    ||| c == '\u{2028}'
    ||| c == '\u{2029}'
    ||| c == '\u{202F}'
    ||| c == '\u{205F}'
    ||| c == '\u{3000}'
}

/// The kind of a single-character punctuation lexeme, if the character is one.
pub open spec fn punct_kind(c: char) -> Option<TokenKind> {
    if c == '(' {
        Some(TokenKind::LeftParentheses)
    } else if c == ')' {
        Some(TokenKind::RightParentheses)
    } else if c == '{' {
        Some(TokenKind::LeftBrace)
    } else if c == '}' {
        Some(TokenKind::RightBrace)
    } else if c == ',' {
        Some(TokenKind::Comma)
    } else if c == '.' {
        Some(TokenKind::Dot)
    } else if c == '-' {
        Some(TokenKind::Minus)
    } else if c == '+' {
        Some(TokenKind::Plus)
    } else if c == ';' {
        Some(TokenKind::Semicolon)
    } else if c == '/' {
        Some(TokenKind::Slash)
    } else if c == '*' {
        Some(TokenKind::Star)
    } else {
        None
    }
}

/// The kind of an operator character standing alone, if it is one.
pub open spec fn single_op_kind(c: char) -> Option<TokenKind> {
    if c == '=' {
        Some(TokenKind::Equal)
    } else if c == '!' {
        Some(TokenKind::Bang)
    } else if c == '>' {
        Some(TokenKind::Great)
    } else if c == '<' {
        Some(TokenKind::Less)
    } else {
        None
    }
}

/// The kind of an operator character composed with a following `=`.
pub open spec fn pair_op_kind(c: char) -> Option<TokenKind> {
    if c == '=' {
        Some(TokenKind::DoubleEqual)
    } else if c == '!' {
        Some(TokenKind::BangEqual)
    } else if c == '>' {
        Some(TokenKind::GreatEqual)
    } else if c == '<' {
        Some(TokenKind::LessEqual)
    } else {
        None
    }
}

/// Resolves an alphanumeric run against the reserved keyword table;
/// everything not in the table is an identifier.
pub open spec fn keyword_kind(s: Seq<char>) -> TokenKind {
    if s == "and"@ {
        TokenKind::And
    } else if s == "else"@ {
        TokenKind::Else
    } else if s == "false"@ {
        TokenKind::False
    } else if s == "for"@ {
        TokenKind::For
    } else if s == "function"@ {
        TokenKind::Function
    } else if s == "func"@ {
        TokenKind::Function
    } else if s == "if"@ {
        TokenKind::If
    } else if s == "null"@ {
        TokenKind::Null
    } else if s == "or"@ {
        TokenKind::Or
    } else if s == "print"@ {
        TokenKind::Print
    } else if s == "return"@ {
        TokenKind::Return
    } else if s == "true"@ {
        TokenKind::True
    } else if s == "var"@ {
        TokenKind::Var
    } else if s == "while"@ {
        TokenKind::While
    } else {
        TokenKind::Identifier
    }
}

/// First index at or after `i` whose character is not a decimal digit.
pub open spec fn digit_run_end(s: Seq<char>, i: int) -> int
    decreases s.len() - i,
{
    if i >= s.len() {
        s.len() as int
    } else if !is_digit_char(s[i]) {
        i
    } else {
        digit_run_end(s, i + 1)
    }
}

/// First index at or after `i` whose character cannot continue an identifier.
pub open spec fn ident_run_end(s: Seq<char>, i: int) -> int
    decreases s.len() - i,
{
    if i >= s.len() {
        s.len() as int
    } else if !is_ident_char(s[i]) {
        i
    } else {
        ident_run_end(s, i + 1)
    }
}

/// First index at or after `i` holding a closing string delimiter `"`.
pub open spec fn string_body_end(s: Seq<char>, i: int) -> int
    decreases s.len() - i,
{
    if i >= s.len() {
        s.len() as int
    } else if s[i] == '"' {
        i
    } else {
        string_body_end(s, i + 1)
    }
}

/// First index at or after `i` holding a line break.
pub open spec fn line_end(s: Seq<char>, i: int) -> int
    decreases s.len() - i,
{
    if i >= s.len() {
        s.len() as int
    } else if s[i] == '\n' {
        i
    } else {
        line_end(s, i + 1)
    }
}

pub proof fn lemma_digit_run_end(s: Seq<char>, i: int)
    requires
        0 <= i <= s.len(),
    ensures
        i <= digit_run_end(s, i) <= s.len(),
        forall|j: int| i <= j < digit_run_end(s, i) ==> is_digit_char(#[trigger] s[j]),
        digit_run_end(s, i) < s.len() ==> !is_digit_char(s[digit_run_end(s, i)]),
    decreases s.len() - i,
{
    if i < s.len() && is_digit_char(s[i]) {
        lemma_digit_run_end(s, i + 1);
    }
}

pub proof fn lemma_ident_run_end(s: Seq<char>, i: int)
    requires
        0 <= i <= s.len(),
    ensures
        i <= ident_run_end(s, i) <= s.len(),
        forall|j: int| i <= j < ident_run_end(s, i) ==> is_ident_char(#[trigger] s[j]),
        ident_run_end(s, i) < s.len() ==> !is_ident_char(s[ident_run_end(s, i)]),
    decreases s.len() - i,
{
    if i < s.len() && is_ident_char(s[i]) {
        lemma_ident_run_end(s, i + 1);
    }
}

pub proof fn lemma_string_body_end(s: Seq<char>, i: int)
    requires
        0 <= i <= s.len(),
    ensures
        i <= string_body_end(s, i) <= s.len(),
        forall|j: int| i <= j < string_body_end(s, i) ==> #[trigger] s[j] != '"',
        string_body_end(s, i) < s.len() ==> s[string_body_end(s, i)] == '"',
    decreases s.len() - i,
{
    if i < s.len() && s[i] != '"' {
        lemma_string_body_end(s, i + 1);
    }
}

pub proof fn lemma_line_end(s: Seq<char>, i: int)
    requires
        0 <= i <= s.len(),
    ensures
        i <= line_end(s, i) <= s.len(),
        forall|j: int| i <= j < line_end(s, i) ==> #[trigger] s[j] != '\n',
        line_end(s, i) < s.len() ==> s[line_end(s, i)] == '\n',
    decreases s.len() - i,
{
    if i < s.len() && s[i] != '\n' {
        lemma_line_end(s, i + 1);
    }
}

/// The line counter after one line break: it grows by one and stays put at
/// the largest representable line number instead of wrapping.
pub open spec fn bumped(line: u32) -> u32 {
    if line < u32::MAX {
        (line + 1) as u32
    } else {
        line
    }
}

/// Everything one scan pass produces: the tokens, the lexical errors, and the
/// final line counter.
pub ghost struct ScanOut {
    pub tokens: Seq<TokenV>,
    pub errors: Seq<LexErrorV>,
    pub line: u32,
}

/// `rest` with one more token in front.
pub open spec fn with_token(t: TokenV, rest: ScanOut) -> ScanOut {
    ScanOut { tokens: seq![t] + rest.tokens, errors: rest.errors, line: rest.line }
}

/// `rest` with one more lexical error in front.
pub open spec fn with_error(e: LexErrorV, rest: ScanOut) -> ScanOut {
    ScanOut { tokens: rest.tokens, errors: seq![e] + rest.errors, line: rest.line }
}

/// What scanning the source `s` from cursor `i` with line counter `line`
/// produces, one lexeme per step:
/// a line break updates the line counter, blanks are skipped, `#` starts a
/// comment running up to (not including) the next line break, so that the
/// break still updates the line counter, operators compose with a following
/// `=`, `"` delimits a verbatim string (an unterminated one runs to the end of
/// the input), a digit starts a number, a letter starts a keyword or
/// identifier, and any other character is a lexical error that skips the rest
/// of its line.
pub open spec fn scan_from(s: Seq<char>, i: int, line: u32) -> ScanOut
    decreases s.len() - i,
    when 0 <= i <= s.len()
    via scan_from_decreases
{
    if i >= s.len() {
        ScanOut { tokens: seq![], errors: seq![], line }
    } else {
        let c = s[i];
        if c == '\n' {
            scan_from(s, i + 1, bumped(line))
        } else if is_blank_char(c) {
            scan_from(s, i + 1, line)
        } else if c == '#' {
            scan_from(s, line_end(s, i + 1), line)
        } else if single_op_kind(c) is Some {
            if i + 1 < s.len() && s[i + 1] == '=' {
                let t = TokenV {
                    kind: pair_op_kind(c)->Some_0,
                    lexeme: s.subrange(i, i + 2),
                    line,
                };
                with_token(t, scan_from(s, i + 2, line))
            } else {
                let t = TokenV {
                    kind: single_op_kind(c)->Some_0,
                    lexeme: s.subrange(i, i + 1),
                    line,
                };
                with_token(t, scan_from(s, i + 1, line))
            }
        } else if punct_kind(c) is Some {
            let t = TokenV { kind: punct_kind(c)->Some_0, lexeme: s.subrange(i, i + 1), line };
            with_token(t, scan_from(s, i + 1, line))
        } else if c == '"' {
            let close = string_body_end(s, i + 1);
            let next = if close < s.len() {
                close + 1
            } else {
                close
            };
            let t = TokenV { kind: TokenKind::String, lexeme: s.subrange(i + 1, close), line };
            with_token(t, scan_from(s, next, line))
        } else if is_digit_char(c) {
            let end = digit_run_end(s, i + 1);
            let t = TokenV { kind: TokenKind::Number, lexeme: s.subrange(i, end), line };
            with_token(t, scan_from(s, end, line))
        } else if is_alpha_char(c) {
            let end = ident_run_end(s, i + 1);
            let lex = s.subrange(i, end);
            let t = TokenV { kind: keyword_kind(lex), lexeme: lex, line };
            with_token(t, scan_from(s, end, line))
        } else {
            let end = line_end(s, i + 1);
            let e = LexErrorV { fragment: s.subrange(i, end), line };
            with_error(e, scan_from(s, end, line))
        }
    }
}

#[via_fn]
proof fn scan_from_decreases(s: Seq<char>, i: int, line: u32) {
    if 0 <= i < s.len() {
        lemma_line_end(s, i + 1);
        lemma_string_body_end(s, i + 1);
        lemma_digit_run_end(s, i + 1);
        lemma_ident_run_end(s, i + 1);
    }
}

/// ASCII decimal digit, executable form.
fn digit_char(c: char) -> (r: bool)
    ensures
        r == is_digit_char(c),
{
    ('0' as u32) <= (c as u32) && (c as u32) <= ('9' as u32)
}

/// ASCII letter, executable form.
fn alpha_char(c: char) -> (r: bool)
    ensures
        r == is_alpha_char(c),
{
    (('a' as u32) <= (c as u32) && (c as u32) <= ('z' as u32)) || (('A' as u32) <= (c as u32) && (c
        as u32) <= ('Z' as u32))
}

/// Skippable whitespace, executable form.
fn blank_char(c: char) -> (r: bool)
    ensures
        r == is_blank_char(c),
{
    c == ' ' || c == '\t' || c == '\r' || c == '\u{0B}' || c == '\u{0C}' || c == '\u{85}' || c
        == '\u{A0}' || c == '\u{1680}' || (('\u{2000}' as u32) <= (c as u32) && (c as u32)
        <= ('\u{200A}' as u32)) || c == '\u{2028}' || c == '\u{2029}' || c == '\u{202F}' || c
        == '\u{205F}' || c == '\u{3000}'
}

/// Identifier continuation character, executable form.
fn ident_char(c: char) -> (r: bool)
    ensures
        r == is_ident_char(c),
{
    alpha_char(c) || digit_char(c) || c == '_'
}

/// Holds all the state of the tokenization process: the source under scan,
/// the cursor, the line counter, and the tokens and errors produced so far.
pub struct Scanner<'a> {
    /// Source code that is being transformed into tokens.
    pub source: &'a str,
    /// Index (in characters) of the next character to inspect.
    pub pos: usize,
    /// Total number of characters in `source`.
    pub len: usize,
    /// Line number of the current scanning position, starting at 1.
    pub line: u32,
    /// The tokens produced so far.
    pub tokens: Vec<Token>,
    /// The lexical errors produced so far.
    pub errors: Vec<LexError>,
}

impl<'a> Scanner<'a> {
    /// The cursor never runs past the end and `len` counts the source's characters.
    pub open spec fn wf(&self) -> bool {
        self.pos <= self.len && self.len == self.source@.len()
    }

    /// Constructs a new scanner instance over the given source.
    pub fn new(source: &'a str) -> (sc: Self)
        ensures
            sc.wf(),
            sc.source@ == source@,
            sc.pos == 0,
            sc.line == 1,
            sc.tokens@ == Seq::<Token>::empty(),
            sc.errors@ == Seq::<LexError>::empty(),
    {
        let len = source.unicode_len();
        Scanner { source, pos: 0, len, line: 1, tokens: Vec::new(), errors: Vec::new() }
    }

    /// Updates the line number by 1, staying put at the largest
    /// representable line number.
    pub fn update_line(&mut self)
        ensures
            *final(self) == (Scanner { line: bumped(old(self).line), ..*old(self) }),
    {
        if self.line < u32::MAX {
            self.line = self.line + 1;
        }
    }

    /// Checks if the next character matches the given target character,
    /// without consuming it.
    pub fn match_incoming(&mut self, target: char) -> (r: bool)
        requires
            old(self).wf(),
        ensures
            *final(self) == *old(self),
            r == (old(self).pos < old(self).len && old(self).source@[old(self).pos as int]
                == target),
    {
        if self.pos < self.len {
            self.source.get_char(self.pos) == target
        } else {
            false
        }
    }

    /// Skip the characters of a single line comment, up to (not including)
    /// the line break that ends it, so that the break still updates the line
    /// counter when scanning resumes.
    pub fn skip_single_line_comment(&mut self)
        requires
            old(self).wf(),
        ensures
            *final(self) == (Scanner {
                pos: line_end(old(self).source@, old(self).pos as int) as usize,
                ..*old(self)
            }),
    {
        proof {
            lemma_line_end(self.source@, self.pos as int);
        }
        while self.pos < self.len && self.source.get_char(self.pos) != '\n'
            invariant
                self.wf(),
                old(self).pos <= self.pos,
                *self == (Scanner { pos: self.pos, ..*old(self) }),
                line_end(self.source@, old(self).pos as int) == line_end(
                    self.source@,
                    self.pos as int,
                ),
            decreases self.len - self.pos,
        {
            self.pos = self.pos + 1;
        }
    }

    /// Builds a token from the single character at the cursor, consuming it.
    fn build_single_char_token(&mut self, kind: TokenKind) -> (t: Token)
        requires
            old(self).wf(),
            old(self).pos < old(self).len,
        ensures
            *final(self) == (Scanner { pos: (old(self).pos + 1) as usize, ..*old(self) }),
            t@ == (TokenV {
                kind,
                lexeme: old(self).source@.subrange(old(self).pos as int, old(self).pos + 1),
                line: old(self).line,
            }),
    {
        let lexeme = String::from_str(self.source.substring_char(self.pos, self.pos + 1));
        let t = Token::new(lexeme, kind, self.line);
        self.pos = self.pos + 1;
        t
    }

    /// Builds a token from the two-character operator at the cursor,
    /// consuming both characters.
    fn build_pair_chars_token(&mut self, kind: TokenKind) -> (t: Token)
        requires
            old(self).wf(),
            old(self).pos + 2 <= old(self).len,
        ensures
            *final(self) == (Scanner { pos: (old(self).pos + 2) as usize, ..*old(self) }),
            t@ == (TokenV {
                kind,
                lexeme: old(self).source@.subrange(old(self).pos as int, old(self).pos + 2),
                line: old(self).line,
            }),
    {
        let lexeme = String::from_str(self.source.substring_char(self.pos, self.pos + 2));
        let t = Token::new(lexeme, kind, self.line);
        self.pos = self.pos + 2;
        t
    }

    /// Builds a string token: the cursor stands on the opening `"`; the
    /// lexeme is everything up to the next `"` (or the end of the input when
    /// the string is unterminated), and the closing delimiter is consumed.
    fn build_string_token(&mut self) -> (t: Token)
        requires
            old(self).wf(),
            old(self).pos < old(self).len,
            old(self).source@[old(self).pos as int] == '"',
        ensures
            ({
                let close = string_body_end(old(self).source@, old(self).pos + 1);
                &&& *final(self) == (Scanner {
                    pos: if close < old(self).len {
                        (close + 1) as usize
                    } else {
                        old(self).len
                    },
                    ..*old(self)
                })
                &&& t@ == (TokenV {
                    kind: TokenKind::String,
                    lexeme: old(self).source@.subrange(old(self).pos + 1, close),
                    line: old(self).line,
                })
            }),
    {
        let start = self.pos + 1;
        self.pos = start;
        proof {
            lemma_string_body_end(self.source@, start as int);
        }
        while self.pos < self.len && self.source.get_char(self.pos) != '"'
            invariant
                self.wf(),
                start <= self.pos,
                *self == (Scanner { pos: self.pos, ..*old(self) }),
                string_body_end(self.source@, start as int) == string_body_end(
                    self.source@,
                    self.pos as int,
                ),
            decreases self.len - self.pos,
        {
            self.pos = self.pos + 1;
        }
        let lexeme = String::from_str(self.source.substring_char(start, self.pos));
        let t = Token::new(lexeme, TokenKind::String, self.line);
        if self.pos < self.len {
            self.pos = self.pos + 1;
        }
        t
    }

    /// Builds a number token from the digit run starting at the cursor.
    fn build_number_token(&mut self) -> (t: Token)
        requires
            old(self).wf(),
            old(self).pos < old(self).len,
            is_digit_char(old(self).source@[old(self).pos as int]),
        ensures
            ({
                let end = digit_run_end(old(self).source@, old(self).pos as int);
                &&& *final(self) == (Scanner { pos: end as usize, ..*old(self) })
                &&& t@ == (TokenV {
                    kind: TokenKind::Number,
                    lexeme: old(self).source@.subrange(old(self).pos as int, end),
                    line: old(self).line,
                })
            }),
    {
        let start = self.pos;
        proof {
            lemma_digit_run_end(self.source@, start as int);
        }
        self.pos = self.pos + 1;
        while self.pos < self.len && digit_char(self.source.get_char(self.pos))
            invariant
                self.wf(),
                start < self.pos,
                *self == (Scanner { pos: self.pos, ..*old(self) }),
                digit_run_end(self.source@, start as int) == digit_run_end(
                    self.source@,
                    self.pos as int,
                ),
            decreases self.len - self.pos,
        {
            self.pos = self.pos + 1;
        }
        let lexeme = String::from_str(self.source.substring_char(start, self.pos));
        Token::new(lexeme, TokenKind::Number, self.line)
    }

    /// Builds a keyword or identifier token from the alphanumeric run
    /// starting at the cursor, resolving it against the keyword table.
    fn build_keyword_or_identifier_token(&mut self) -> (t: Token)
        requires
            old(self).wf(),
            old(self).pos < old(self).len,
            is_alpha_char(old(self).source@[old(self).pos as int]),
        ensures
            ({
                let end = ident_run_end(old(self).source@, old(self).pos as int);
                let lex = old(self).source@.subrange(old(self).pos as int, end);
                &&& *final(self) == (Scanner { pos: end as usize, ..*old(self) })
                &&& t@ == (TokenV { kind: keyword_kind(lex), lexeme: lex, line: old(self).line })
            }),
    {
        let start = self.pos;
        proof {
            lemma_ident_run_end(self.source@, start as int);
        }
        self.pos = self.pos + 1;
        while self.pos < self.len && ident_char(self.source.get_char(self.pos))
            invariant
                self.wf(),
                start < self.pos,
                *self == (Scanner { pos: self.pos, ..*old(self) }),
                ident_run_end(self.source@, start as int) == ident_run_end(
                    self.source@,
                    self.pos as int,
                ),
            decreases self.len - self.pos,
        {
            self.pos = self.pos + 1;
        }
        let lexeme = String::from_str(self.source.substring_char(start, self.pos));
        let kind = keyword_kind_of(&lexeme);
        Token::new(lexeme, kind, self.line)
    }

    /// Builds a lexical error from the unrecognized character at the cursor,
    /// skipping everything up to (but not including) the next line break.
    fn build_lex_error(&mut self) -> (e: LexError)
        requires
            old(self).wf(),
            old(self).pos < old(self).len,
        ensures
            ({
                let end = line_end(old(self).source@, old(self).pos + 1);
                &&& *final(self) == (Scanner { pos: end as usize, ..*old(self) })
                &&& e@ == (LexErrorV {
                    fragment: old(self).source@.subrange(old(self).pos as int, end),
                    line: old(self).line,
                })
            }),
    {
        let start = self.pos;
        self.pos = self.pos + 1;
        proof {
            lemma_line_end(self.source@, self.pos as int);
        }
        while self.pos < self.len && self.source.get_char(self.pos) != '\n'
            invariant
                self.wf(),
                start < self.pos,
                *self == (Scanner { pos: self.pos, ..*old(self) }),
                line_end(self.source@, start + 1) == line_end(self.source@, self.pos as int),
            decreases self.len - self.pos,
        {
            self.pos = self.pos + 1;
        }
        let fragment = String::from_str(self.source.substring_char(start, self.pos));
        LexError { fragment, line: self.line }
    }

    /// Appends one token, leaving all scanning state untouched.
    fn push_token(&mut self, t: Token)
        ensures
            final(self).tokens.deep_view() == old(self).tokens.deep_view().push(t@),
            final(self).source == old(self).source,
            final(self).pos == old(self).pos,
            final(self).len == old(self).len,
            final(self).line == old(self).line,
            final(self).errors == old(self).errors,
    {
        let ghost tv = t@;
        self.tokens.push(t);
        proof {
            assert(self.tokens.deep_view() =~= old(self).tokens.deep_view().push(tv));
        }
    }

    /// Appends one lexical error, leaving all scanning state untouched.
    fn push_error(&mut self, e: LexError)
        ensures
            final(self).errors.deep_view() == old(self).errors.deep_view().push(e@),
            final(self).source == old(self).source,
            final(self).pos == old(self).pos,
            final(self).len == old(self).len,
            final(self).line == old(self).line,
            final(self).tokens == old(self).tokens,
    {
        let ghost ev = e@;
        self.errors.push(e);
        proof {
            assert(self.errors.deep_view() =~= old(self).errors.deep_view().push(ev));
        }
    }

    /// Iterates over the source, identifies valid lexemes and builds the
    /// corresponding tokens; unrecognized text is reported as lexical errors
    /// and scanning continues on the next line.
    pub fn scan_tokens(&mut self)
        requires
            old(self).wf(),
        ensures
            final(self).wf(),
            final(self).source@ == old(self).source@,
            final(self).len == old(self).len,
            final(self).pos == final(self).len,
            ({
                let out = scan_from(old(self).source@, old(self).pos as int, old(self).line);
                &&& final(self).tokens.deep_view() == old(self).tokens.deep_view() + out.tokens
                &&& final(self).errors.deep_view() == old(self).errors.deep_view() + out.errors
                &&& final(self).line == out.line
            }),
    {
        let ghost s = self.source@;
        let ghost p0 = self.pos as int;
        let ghost l0 = self.line;
        let ghost n0 = self.tokens.deep_view().len() as int;
        let ghost e0 = self.errors.deep_view().len() as int;

        while self.pos < self.len
            invariant
                self.wf(),
                self.source@ == s,
                self.len == old(self).len,
                0 <= p0 <= s.len(),
                0 <= n0 <= self.tokens.deep_view().len(),
                0 <= e0 <= self.errors.deep_view().len(),
                self.tokens.deep_view().take(n0) == old(self).tokens.deep_view(),
                self.errors.deep_view().take(e0) == old(self).errors.deep_view(),
                scan_from(s, p0, l0).tokens == self.tokens.deep_view().skip(n0) + scan_from(
                    s,
                    self.pos as int,
                    self.line,
                ).tokens,
                scan_from(s, p0, l0).errors == self.errors.deep_view().skip(e0) + scan_from(
                    s,
                    self.pos as int,
                    self.line,
                ).errors,
                scan_from(s, p0, l0).line == scan_from(s, self.pos as int, self.line).line,
            decreases self.len - self.pos,
        {
            let ghost pre = *self;
            let ghost pre_dv = self.tokens.deep_view();
            let ghost pre_ev = self.errors.deep_view();
            let ghost mut step_tok: Option<TokenV> = None;
            let ghost mut step_err: Option<LexErrorV> = None;
            let c = self.source.get_char(self.pos);
            if c == '\n' {
                self.pos = self.pos + 1;
                self.update_line();
                proof {
                    assert(scan_from(s, pre.pos as int, pre.line) == scan_from(
                        s,
                        self.pos as int,
                        self.line,
                    ));
                }
            } else if blank_char(c) {
                self.pos = self.pos + 1;
                proof {
                    assert(scan_from(s, pre.pos as int, pre.line) == scan_from(
                        s,
                        self.pos as int,
                        self.line,
                    ));
                }
            } else if c == '#' {
                self.pos = self.pos + 1;
                self.skip_single_line_comment();
                proof {
                    lemma_line_end(s, pre.pos + 1);
                    assert(scan_from(s, pre.pos as int, pre.line) == scan_from(
                        s,
                        self.pos as int,
                        self.line,
                    ));
                }
            } else if c == '=' || c == '!' || c == '>' || c == '<' {
                let kind_pair = if c == '=' {
                    TokenKind::DoubleEqual
                } else if c == '!' {
                    TokenKind::BangEqual
                } else if c == '>' {
                    TokenKind::GreatEqual
                } else {
                    TokenKind::LessEqual
                };
                let kind_single = if c == '=' {
                    TokenKind::Equal
                } else if c == '!' {
                    TokenKind::Bang
                } else if c == '>' {
                    TokenKind::Great
                } else {
                    TokenKind::Less
                };
                let pair = self.pos + 1 < self.len && self.source.get_char(self.pos + 1) == '=';
                let t = if pair {
                    self.build_pair_chars_token(kind_pair)
                } else {
                    self.build_single_char_token(kind_single)
                };
                proof {
                    step_tok = Some(t@);
                    assert(scan_from(s, pre.pos as int, pre.line) == with_token(
                        t@,
                        scan_from(s, self.pos as int, self.line),
                    ));
                }
                self.push_token(t);
            } else if c == '(' || c == ')' || c == '{' || c == '}' || c == ',' || c == '.' || c
                == '-' || c == '+' || c == ';' || c == '/' || c == '*' {
                let kind = if c == '(' {
                    TokenKind::LeftParentheses
                } else if c == ')' {
                    TokenKind::RightParentheses
                } else if c == '{' {
                    TokenKind::LeftBrace
                } else if c == '}' {
                    TokenKind::RightBrace
                } else if c == ',' {
                    TokenKind::Comma
                } else if c == '.' {
                    TokenKind::Dot
                } else if c == '-' {
                    TokenKind::Minus
                } else if c == '+' {
                    TokenKind::Plus
                } else if c == ';' {
                    TokenKind::Semicolon
                } else if c == '/' {
                    TokenKind::Slash
                } else {
                    TokenKind::Star
                };
                let t = self.build_single_char_token(kind);
                proof {
                    step_tok = Some(t@);
                    assert(scan_from(s, pre.pos as int, pre.line) == with_token(
                        t@,
                        scan_from(s, self.pos as int, self.line),
                    ));
                }
                self.push_token(t);
            } else if c == '"' {
                proof {
                    lemma_string_body_end(s, pre.pos + 1);
                }
                let t = self.build_string_token();
                proof {
                    step_tok = Some(t@);
                    assert(scan_from(s, pre.pos as int, pre.line) == with_token(
                        t@,
                        scan_from(s, self.pos as int, self.line),
                    ));
                }
                self.push_token(t);
            } else if digit_char(c) {
                proof {
                    lemma_digit_run_end(s, pre.pos as int);
                }
                let t = self.build_number_token();
                proof {
                    step_tok = Some(t@);
                    assert(scan_from(s, pre.pos as int, pre.line) == with_token(
                        t@,
                        scan_from(s, self.pos as int, self.line),
                    ));
                }
                self.push_token(t);
            } else if alpha_char(c) {
                proof {
                    lemma_ident_run_end(s, pre.pos as int);
                }
                let t = self.build_keyword_or_identifier_token();
                proof {
                    step_tok = Some(t@);
                    assert(scan_from(s, pre.pos as int, pre.line) == with_token(
                        t@,
                        scan_from(s, self.pos as int, self.line),
                    ));
                }
                self.push_token(t);
            } else {
                proof {
                    lemma_line_end(s, pre.pos + 1);
                }
                let e = self.build_lex_error();
                proof {
                    step_err = Some(e@);
                    assert(scan_from(s, pre.pos as int, pre.line) == with_error(
                        e@,
                        scan_from(s, self.pos as int, self.line),
                    ));
                }
                self.push_error(e);
            }
            proof {
                let rest = scan_from(s, self.pos as int, self.line);
                match step_tok {
                    Some(tv) => {
                        assert(self.tokens.deep_view() == pre_dv.push(tv));
                        assert(self.tokens.deep_view().take(n0) =~= pre_dv.take(n0));
                        assert(self.tokens.deep_view().skip(n0) =~= pre_dv.skip(n0).push(tv));
                        assert(pre_dv.skip(n0).push(tv) + rest.tokens =~= pre_dv.skip(n0) + (seq![
                            tv,
                        ] + rest.tokens));
                    },
                    None => {
                        assert(self.tokens.deep_view() == pre_dv);
                    },
                }
                match step_err {
                    Some(ev) => {
                        assert(self.errors.deep_view() == pre_ev.push(ev));
                        assert(self.errors.deep_view().take(e0) =~= pre_ev.take(e0));
                        assert(self.errors.deep_view().skip(e0) =~= pre_ev.skip(e0).push(ev));
                        assert(pre_ev.skip(e0).push(ev) + rest.errors =~= pre_ev.skip(e0) + (seq![
                            ev,
                        ] + rest.errors));
                    },
                    None => {
                        assert(self.errors.deep_view() == pre_ev);
                    },
                }
                assert(scan_from(s, p0, l0).tokens == self.tokens.deep_view().skip(n0)
                    + rest.tokens);
                assert(scan_from(s, p0, l0).errors == self.errors.deep_view().skip(e0)
                    + rest.errors);
            }
        }
        proof {
            assert(scan_from(s, self.pos as int, self.line).tokens =~= Seq::<TokenV>::empty());
            assert(scan_from(s, self.pos as int, self.line).errors =~= Seq::<LexErrorV>::empty());
            assert(self.tokens.deep_view().skip(n0) + Seq::<TokenV>::empty()
                =~= self.tokens.deep_view().skip(n0));
            assert(self.errors.deep_view().skip(e0) + Seq::<LexErrorV>::empty()
                =~= self.errors.deep_view().skip(e0));
            assert(self.tokens.deep_view() =~= self.tokens.deep_view().take(n0)
                + self.tokens.deep_view().skip(n0));
            assert(self.errors.deep_view() =~= self.errors.deep_view().take(e0)
                + self.errors.deep_view().skip(e0));
        }
    }
}

/// Compares two string slices character for character.
fn str_eq(a: &str, b: &str) -> (r: bool)
    ensures
        r == (a@ == b@),
{
    let sa = String::from_str(a);
    let sb = String::from_str(b);
    sa == sb
}

/// Resolves a lexeme against the reserved keyword table.
fn keyword_kind_of(lex: &String) -> (k: TokenKind)
    ensures
        k == keyword_kind(lex@),
{
    let s = lex.as_str();
    if str_eq(s, "and") {
        TokenKind::And
    } else if str_eq(s, "else") {
        TokenKind::Else
    } else if str_eq(s, "false") {
        TokenKind::False
    } else if str_eq(s, "for") {
        TokenKind::For
    } else if str_eq(s, "function") {
        TokenKind::Function
    } else if str_eq(s, "func") {
        TokenKind::Function
    } else if str_eq(s, "if") {
        TokenKind::If
    } else if str_eq(s, "null") {
        TokenKind::Null
    } else if str_eq(s, "or") {
        TokenKind::Or
    } else if str_eq(s, "print") {
        TokenKind::Print
    } else if str_eq(s, "return") {
        TokenKind::Return
    } else if str_eq(s, "true") {
        TokenKind::True
    } else if str_eq(s, "var") {
        TokenKind::Var
    } else if str_eq(s, "while") {
        TokenKind::While
    } else {
        TokenKind::Identifier
    }
}

} // verus!
