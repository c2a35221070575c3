//! The scanner: source text to tokens.
//!
//! A scanner walks the characters of a source text once, from the first to
//! the last, and hands out one token per call.  What it hands out is fixed by
//! the spec function [`scan`]: the first token at or after a position, and the
//! position and line at which scanning goes on.

use crate::text::{chars_of, spells, string_of};
use vstd::prelude::*;

verus! {

/// The kind of a token.  The three literal kinds carry their text.
#[derive(Debug, Clone, PartialEq)]
pub enum TokenType {
    // Single-character tokens
    LeftParen,
    RightParen,
    LeftBrace,
    RightBrace,
    Comma,
    Dot,
    Minus,
    Plus,
    Semicolon,
    Slash,
    Star,
    Colon,
    Question,
    // One or two character tokens
    Bang,
    BangEqual,
    Eqal,
    EqualEqual,
    Greater,
    GreaterEqual,
    Less,
    LessEqual,
    // Literals
    Identifier(String),
    /// A number literal, as the digits that were written.
    Number(String),
    String(String),
    // Keywords
    And,
    Class,
    Else,
    False,
    Fun,
    For,
    If,
    Nil,
    Or,
    Print,
    Return,
    Super,
    This,
    True,
    Var,
    While,
    // Other
    Eof,
}

/// The mathematical model of a [`TokenType`].
pub enum TokenKind {
    LeftParen,
    RightParen,
    LeftBrace,
    RightBrace,
    Comma,
    Dot,
    Minus,
    Plus,
    Semicolon,
    Slash,
    Star,
    Colon,
    Question,
    Bang,
    BangEqual,
    Eqal,
    EqualEqual,
    Greater,
    GreaterEqual,
    Less,
    LessEqual,
    Identifier(Seq<char>),
    Number(Seq<char>),
    String(Seq<char>),
    And,
    Class,
    Else,
    False,
    Fun,
    For,
    If,
    Nil,
    Or,
    Print,
    Return,
    Super,
    This,
    True,
    Var,
    While,
    Eof,
}

impl View for TokenType {
    type V = TokenKind;

    open spec fn view(&self) -> TokenKind {
        match self {
            TokenType::LeftParen => TokenKind::LeftParen,
            TokenType::RightParen => TokenKind::RightParen,
            TokenType::LeftBrace => TokenKind::LeftBrace,
            TokenType::RightBrace => TokenKind::RightBrace,
            TokenType::Comma => TokenKind::Comma,
            TokenType::Dot => TokenKind::Dot,
            TokenType::Minus => TokenKind::Minus,
            TokenType::Plus => TokenKind::Plus,
            TokenType::Semicolon => TokenKind::Semicolon,
            TokenType::Slash => TokenKind::Slash,
            TokenType::Star => TokenKind::Star,
            TokenType::Colon => TokenKind::Colon,
            TokenType::Question => TokenKind::Question,
            TokenType::Bang => TokenKind::Bang,
            TokenType::BangEqual => TokenKind::BangEqual,
            TokenType::Eqal => TokenKind::Eqal,
            TokenType::EqualEqual => TokenKind::EqualEqual,
            TokenType::Greater => TokenKind::Greater,
            TokenType::GreaterEqual => TokenKind::GreaterEqual,
            TokenType::Less => TokenKind::Less,
            TokenType::LessEqual => TokenKind::LessEqual,
            TokenType::Identifier(text) => TokenKind::Identifier(text@),
            TokenType::Number(text) => TokenKind::Number(text@),
            TokenType::String(text) => TokenKind::String(text@),
            TokenType::And => TokenKind::And,
            TokenType::Class => TokenKind::Class,
            TokenType::Else => TokenKind::Else,
            TokenType::False => TokenKind::False,
            TokenType::Fun => TokenKind::Fun,
            TokenType::For => TokenKind::For,
            TokenType::If => TokenKind::If,
            TokenType::Nil => TokenKind::Nil,
            TokenType::Or => TokenKind::Or,
            TokenType::Print => TokenKind::Print,
            TokenType::Return => TokenKind::Return,
            TokenType::Super => TokenKind::Super,
            TokenType::This => TokenKind::This,
            TokenType::True => TokenKind::True,
            TokenType::Var => TokenKind::Var,
            TokenType::While => TokenKind::While,
            TokenType::Eof => TokenKind::Eof,
        }
    }
}

impl TokenKind {
    /// A number that tells the variants apart.
    pub open spec fn tag(self) -> u8 {
        match self {
            TokenKind::LeftParen => 0,
            TokenKind::RightParen => 1,
            TokenKind::LeftBrace => 2,
            TokenKind::RightBrace => 3,
            TokenKind::Comma => 4,
            TokenKind::Dot => 5,
            TokenKind::Minus => 6,
            TokenKind::Plus => 7,
            TokenKind::Semicolon => 8,
            TokenKind::Slash => 9,
            TokenKind::Star => 10,
            TokenKind::Colon => 11,
            TokenKind::Question => 12,
            TokenKind::Bang => 13,
            TokenKind::BangEqual => 14,
            TokenKind::Eqal => 15,
            TokenKind::EqualEqual => 16,
            TokenKind::Greater => 17,
            TokenKind::GreaterEqual => 18,
            TokenKind::Less => 19,
            TokenKind::LessEqual => 20,
            TokenKind::Identifier(_) => 21,
            TokenKind::Number(_) => 22,
            TokenKind::String(_) => 23,
            TokenKind::And => 24,
            TokenKind::Class => 25,
            TokenKind::Else => 26,
            TokenKind::False => 27,
            TokenKind::Fun => 28,
            TokenKind::For => 29,
            TokenKind::If => 30,
            TokenKind::Nil => 31,
            TokenKind::Or => 32,
            TokenKind::Print => 33,
            TokenKind::Return => 34,
            TokenKind::Super => 35,
            TokenKind::This => 36,
            TokenKind::True => 37,
            TokenKind::Var => 38,
            TokenKind::While => 39,
            TokenKind::Eof => 40,
        }
    }
}

impl TokenType {
    /// A number that tells the variants apart.
    pub fn tag(&self) -> (tag: u8)
        ensures
            tag == self@.tag(),
    {
        match self {
            TokenType::LeftParen => 0,
            TokenType::RightParen => 1,
            TokenType::LeftBrace => 2,
            TokenType::RightBrace => 3,
            TokenType::Comma => 4,
            TokenType::Dot => 5,
            TokenType::Minus => 6,
            TokenType::Plus => 7,
            TokenType::Semicolon => 8,
            TokenType::Slash => 9,
            TokenType::Star => 10,
            TokenType::Colon => 11,
            TokenType::Question => 12,
            TokenType::Bang => 13,
            TokenType::BangEqual => 14,
            TokenType::Eqal => 15,
            TokenType::EqualEqual => 16,
            TokenType::Greater => 17,
            TokenType::GreaterEqual => 18,
            TokenType::Less => 19,
            TokenType::LessEqual => 20,
            TokenType::Identifier(_) => 21,
            TokenType::Number(_) => 22,
            TokenType::String(_) => 23,
            TokenType::And => 24,
            TokenType::Class => 25,
            TokenType::Else => 26,
            TokenType::False => 27,
            TokenType::Fun => 28,
            TokenType::For => 29,
            TokenType::If => 30,
            TokenType::Nil => 31,
            TokenType::Or => 32,
            TokenType::Print => 33,
            TokenType::Return => 34,
            TokenType::Super => 35,
            TokenType::This => 36,
            TokenType::True => 37,
            TokenType::Var => 38,
            TokenType::While => 39,
            TokenType::Eof => 40,
        }
    }

    /// Whether the two kinds are the same, text included.
    pub fn same(&self, other: &TokenType) -> (same: bool)
        ensures
            same == (self@ == other@),
    {
        if self.tag() != other.tag() {
            return false;
        }
        match (self, other) {
            (TokenType::Identifier(a), TokenType::Identifier(b)) => a.eq(b),
            (TokenType::Number(a), TokenType::Number(b)) => a.eq(b),
            (TokenType::String(a), TokenType::String(b)) => a.eq(b),
            _ => true,
        }
    }

    /// A copy of the kind.
    pub fn duplicate(&self) -> (copy: TokenType)
        ensures
            copy@ == self@,
    {
        match self {
            TokenType::LeftParen => TokenType::LeftParen,
            TokenType::RightParen => TokenType::RightParen,
            TokenType::LeftBrace => TokenType::LeftBrace,
            TokenType::RightBrace => TokenType::RightBrace,
            TokenType::Comma => TokenType::Comma,
            TokenType::Dot => TokenType::Dot,
            TokenType::Minus => TokenType::Minus,
            TokenType::Plus => TokenType::Plus,
            TokenType::Semicolon => TokenType::Semicolon,
            TokenType::Slash => TokenType::Slash,
            TokenType::Star => TokenType::Star,
            TokenType::Colon => TokenType::Colon,
            TokenType::Question => TokenType::Question,
            TokenType::Bang => TokenType::Bang,
            TokenType::BangEqual => TokenType::BangEqual,
            TokenType::Eqal => TokenType::Eqal,
            TokenType::EqualEqual => TokenType::EqualEqual,
            TokenType::Greater => TokenType::Greater,
            TokenType::GreaterEqual => TokenType::GreaterEqual,
            TokenType::Less => TokenType::Less,
            TokenType::LessEqual => TokenType::LessEqual,
            TokenType::Identifier(text) => TokenType::Identifier(text.clone()),
            TokenType::Number(text) => TokenType::Number(text.clone()),
            TokenType::String(text) => TokenType::String(text.clone()),
            TokenType::And => TokenType::And,
            TokenType::Class => TokenType::Class,
            TokenType::Else => TokenType::Else,
            TokenType::False => TokenType::False,
            TokenType::Fun => TokenType::Fun,
            TokenType::For => TokenType::For,
            TokenType::If => TokenType::If,
            TokenType::Nil => TokenType::Nil,
            TokenType::Or => TokenType::Or,
            TokenType::Print => TokenType::Print,
            TokenType::Return => TokenType::Return,
            TokenType::Super => TokenType::Super,
            TokenType::This => TokenType::This,
            TokenType::True => TokenType::True,
            TokenType::Var => TokenType::Var,
            TokenType::While => TokenType::While,
            TokenType::Eof => TokenType::Eof,
        }
    }
}

/// A token: its kind, its text and the line it was found on (lines count from 1).
#[derive(Debug, Clone, PartialEq)]
pub struct Token {
    pub kind: TokenType,
    pub lexeme: String,
    pub line: u32,
}

/// The mathematical model of a [`Token`].
pub struct TokenView {
    pub kind: TokenKind,
    pub lexeme: Seq<char>,
    pub line: u32,
}

impl View for Token {
    type V = TokenView;

    open spec fn view(&self) -> TokenView {
        TokenView { kind: self.kind@, lexeme: self.lexeme@, line: self.line }
    }
}

/// The models of the tokens of `tokens`, in order.
pub open spec fn token_views(tokens: Seq<Token>) -> Seq<TokenView> {
    Seq::new(tokens.len(), |i: int| tokens[i]@)
}

/// The classes of characters that the scanner reads in runs.
#[derive(Clone, Copy, Debug, PartialEq, Eq, Structural)]
pub enum CharClass {
    /// `0` to `9`.
    Digit,
    /// `0` to `9`, `a` to `z` and `A` to `Z`.
    AlphaNumeric,
    /// Every character but `"`.
    InString,
    /// Every character but the line feed.
    InComment,
}

pub open spec fn is_digit(c: char) -> bool {
    '0' <= c <= '9'
}

pub open spec fn is_letter(c: char) -> bool {
    'a' <= c <= 'z' || 'A' <= c <= 'Z'
}

pub open spec fn is_alphanumeric(c: char) -> bool {
    is_digit(c) || is_letter(c)
}

/// Whether a word can start with `c`: `c` is a letter or another alphabetic
/// character.
pub open spec fn is_word_start(c: char) -> bool {
    is_letter(c) || is_alphabetic(c)
}

/// Whether `char::is_alphabetic` holds of `c`: the Unicode property `Alphabetic`.
pub uninterp spec fn is_alphabetic(c: char) -> bool;

/// `char::is_alphabetic` tells whether a character has the Unicode property
/// `Alphabetic`; the answer depends on the character alone.  The letters `a`
/// to `z` and `A` to `Z` have the property.
pub assume_specification[ char::is_alphabetic ](c: char) -> (b: bool)
    ensures
        b == is_alphabetic(c),
        is_letter(c) ==> b,
;

impl CharClass {
    pub open spec fn holds(self, c: char) -> bool {
        match self {
            CharClass::Digit => is_digit(c),
            CharClass::AlphaNumeric => is_alphanumeric(c),
            CharClass::InString => c != '"',
            CharClass::InComment => c != '\n',
        }
    }

    /// Whether `c` belongs to the class.
    pub fn accepts(self, c: char) -> (r: bool)
        ensures
            r == self.holds(c),
    {
        match self {
            CharClass::Digit => '0' <= c && c <= '9',
            CharClass::AlphaNumeric => ('0' <= c && c <= '9') || ('a' <= c && c <= 'z') || ('A'
                <= c && c <= 'Z'),
            CharClass::InString => c != '"',
            CharClass::InComment => c != '\n',
        }
    }
}

/// The end of the longest run of characters of `class` that starts at `from`.
pub open spec fn run_end(src: Seq<char>, from: int, class: CharClass) -> int
    decreases src.len() - from,
{
    if 0 <= from < src.len() && class.holds(src[from]) {
        run_end(src, from + 1, class)
    } else {
        from
    }
}

/// A run ends inside the text, at the first character outside the class.
pub proof fn lemma_run_end(src: Seq<char>, from: int, class: CharClass)
    requires
        0 <= from <= src.len(),
    ensures
        from <= run_end(src, from, class) <= src.len(),
        forall|k: int| from <= k < run_end(src, from, class) ==> class.holds(#[trigger] src[k]),
        run_end(src, from, class) < src.len() ==> !class.holds(src[run_end(src, from, class)]),
    decreases src.len() - from,
{
    if from < src.len() && class.holds(src[from]) {
        lemma_run_end(src, from + 1, class);
    }
}

/// The kind of the token that the one character `c` makes, if it makes one
/// whatever follows.
pub open spec fn single_kind(c: char) -> Option<TokenKind> {
    if c == '(' {
        Some(TokenKind::LeftParen)
    } else if c == ')' {
        Some(TokenKind::RightParen)
    } else if c == '{' {
        Some(TokenKind::LeftBrace)
    } else if c == '}' {
        Some(TokenKind::RightBrace)
    } else if c == ',' {
        Some(TokenKind::Comma)
    } else if c == '.' {
        Some(TokenKind::Dot)
    } else if c == '-' {
        Some(TokenKind::Minus)
    } else if c == '+' {
        Some(TokenKind::Plus)
    } else if c == ';' {
        Some(TokenKind::Semicolon)
    } else if c == '*' {
        Some(TokenKind::Star)
    } else if c == '?' {
        Some(TokenKind::Question)
    } else if c == ':' {
        Some(TokenKind::Colon)
    } else {
        None
    }
}

/// The kind of the operator that starts with `c`, alone (`with_equal` false)
/// or followed by `=` (`with_equal` true), for the four characters that can
/// be followed by `=`.
pub open spec fn operator_kind(c: char, with_equal: bool) -> Option<TokenKind> {
    if c == '!' {
        Some(if with_equal { TokenKind::BangEqual } else { TokenKind::Bang })
    } else if c == '=' {
        Some(if with_equal { TokenKind::EqualEqual } else { TokenKind::Eqal })
    } else if c == '<' {
        Some(if with_equal { TokenKind::LessEqual } else { TokenKind::Less })
    } else if c == '>' {
        Some(if with_equal { TokenKind::GreaterEqual } else { TokenKind::Greater })
    } else {
        None
    }
}

/// The kind of a word: a keyword's kind, or an identifier with the word as
/// its name.
pub open spec fn word_kind(word: Seq<char>) -> TokenKind {
    if word == "if"@ {
        TokenKind::If
    } else if word == "else"@ {
        TokenKind::Else
    } else if word == "true"@ {
        TokenKind::True
    } else if word == "false"@ {
        TokenKind::False
    } else if word == "nil"@ {
        TokenKind::Nil
    } else if word == "while"@ {
        TokenKind::While
    } else if word == "for"@ {
        TokenKind::For
    } else if word == "and"@ {
        TokenKind::And
    } else if word == "or"@ {
        TokenKind::Or
    } else if word == "fun"@ {
        TokenKind::Fun
    } else if word == "return"@ {
        TokenKind::Return
    } else if word == "class"@ {
        TokenKind::Class
    } else if word == "this"@ {
        TokenKind::This
    } else if word == "super"@ {
        TokenKind::Super
    } else if word == "var"@ {
        TokenKind::Var
    } else if word == "print"@ {
        TokenKind::Print
    } else {
        TokenKind::Identifier(word)
    }
}

/// Where a number that starts at `from` ends: after its digits, and after a
/// `.` and further digits where a digit follows the `.`.
pub open spec fn number_end(src: Seq<char>, from: int) -> int {
    let whole = run_end(src, from, CharClass::Digit);
    if whole + 1 < src.len() && src[whole] == '.' && is_digit(src[whole + 1]) {
        run_end(src, whole + 1, CharClass::Digit)
    } else {
        whole
    }
}

/// What the scanner finds from a position on.
pub enum Scanned {
    /// A token that ends before `next`; `line` is the line of `next`.
    Token { token: TokenView, next: int, line: u32 },
    /// No token is left; `line` is the line of the end of the text.
    End { line: u32 },
}

/// The line after `line`.  Lines are counted up to `u32::MAX`, where the
/// count stays.
pub open spec fn next_line(line: u32) -> u32 {
    if line < u32::MAX {
        (line + 1) as u32
    } else {
        line
    }
}

/// The token whose text is `src[from..to]`.
pub open spec fn found(kind: TokenKind, src: Seq<char>, from: int, to: int, line: u32) -> Scanned {
    Scanned::Token {
        token: TokenView { kind, lexeme: src.subrange(from, to), line },
        next: to,
        line,
    }
}

/// The first token of `src` at or after the position `at`, which is on line
/// `line`.
///
/// Blanks, tabs and carriage returns are passed over, and so is every
/// character that starts no token.  A line feed is passed over and starts a
/// new line.  `//` starts a comment that runs up to the next line feed.  A
/// string runs from `"` to the next `"` or to the end of the text, and its
/// text is what stands between them.  A number is a run of digits, with a `.`
/// and a second run where a digit follows the `.`.  A word is an alphabetic
/// character and the letters and digits after it.
pub open spec fn scan(src: Seq<char>, at: int, line: u32) -> Scanned
    decreases src.len() - at,
{
    if at < 0 || at >= src.len() {
        Scanned::End { line }
    } else {
        let c = src[at];
        let with_equal = at + 1 < src.len() && src[at + 1] == '=';
        if single_kind(c) is Some {
            found(single_kind(c)->0, src, at, at + 1, line)
        } else if operator_kind(c, with_equal) is Some {
            found(operator_kind(c, with_equal)->0, src, at, if with_equal {
                at + 2
            } else {
                at + 1
            }, line)
        } else if c == '/' {
            if at + 1 < src.len() && src[at + 1] == '/' {
                proof {
                    lemma_run_end(src, at + 1, CharClass::InComment);
                }
                scan(src, run_end(src, at + 1, CharClass::InComment), line)
            } else {
                found(TokenKind::Slash, src, at, at + 1, line)
            }
        } else if c == ' ' || c == '\r' || c == '\t' {
            scan(src, at + 1, line)
        } else if c == '\n' {
            scan(src, at + 1, next_line(line))
        } else if c == '"' {
            let close = run_end(src, at + 1, CharClass::InString);
            let text = src.subrange(at + 1, close);
            Scanned::Token {
                token: TokenView { kind: TokenKind::String(text), lexeme: text, line },
                next: if close < src.len() {
                    close + 1
                } else {
                    close
                },
                line,
            }
        } else if is_digit(c) {
            let end = number_end(src, at + 1);
            found(TokenKind::Number(src.subrange(at, end)), src, at, end, line)
        } else if is_word_start(c) {
            let end = run_end(src, at + 1, CharClass::AlphaNumeric);
            found(word_kind(src.subrange(at, end)), src, at, end, line)
        } else {
            scan(src, at + 1, line)
        }
    }
}

/// Every token that [`scan`] finds is of another kind than `Eof`, and scanning
/// goes on behind the position it started at, inside the text.
pub proof fn lemma_scan_advances(src: Seq<char>, at: int, line: u32)
    requires
        0 <= at <= src.len(),
    ensures
        scan(src, at, line) matches Scanned::Token { token, next, .. } ==> at < next <= src.len()
            && token.kind !is Eof,
    decreases src.len() - at,
{
    if at < src.len() {
        let c = src[at];
        let with_equal = at + 1 < src.len() && src[at + 1] == '=';
        lemma_run_end(src, at + 1, CharClass::InComment);
        lemma_run_end(src, at + 1, CharClass::InString);
        lemma_run_end(src, at + 1, CharClass::Digit);
        lemma_run_end(src, at + 1, CharClass::AlphaNumeric);
        let whole = run_end(src, at + 1, CharClass::Digit);
        if whole + 1 < src.len() {
            lemma_run_end(src, whole + 1, CharClass::Digit);
        }
        if single_kind(c) is Some {
        } else if operator_kind(c, with_equal) is Some {
        } else if c == '/' {
            if at + 1 < src.len() && src[at + 1] == '/' {
                lemma_scan_advances(src, run_end(src, at + 1, CharClass::InComment), line);
            }
        } else if c == ' ' || c == '\r' || c == '\t' {
            lemma_scan_advances(src, at + 1, line);
        } else if c == '\n' {
            lemma_scan_advances(src, at + 1, next_line(line));
        } else if c == '"' {
        } else if is_digit(c) {
        } else if is_word_start(c) {
        } else {
            lemma_scan_advances(src, at + 1, line);
        }
    }
}

/// The token that ends the stream.
pub open spec fn eof_token(line: u32) -> TokenView {
    TokenView { kind: TokenKind::Eof, lexeme: Seq::empty(), line }
}

/// All the tokens of `src` from the position `at` on, with the `Eof` token
/// that ends them.
pub open spec fn tokens_from(src: Seq<char>, at: int, line: u32) -> Seq<TokenView>
    decreases src.len() - at,
{
    let first = scan(src, at, line);
    if first is Token {
        proof {
            if 0 <= at <= src.len() {
                lemma_scan_advances(src, at, line);
            }
        }
        seq![first->token] + tokens_from(src, first->next, first->Token_line)
    } else {
        seq![eof_token(first->End_line)]
    }
}

/// All the tokens of `src`.
pub open spec fn tokens_of(src: Seq<char>) -> Seq<TokenView> {
    tokens_from(src, 0, 1)
}

/// Whether `c` is a blank, a tab, a carriage return or a line feed.
pub open spec fn is_blank(c: char) -> bool {
    c == ' ' || c == '\r' || c == '\t' || c == '\n'
}

/// Whether `c` can stand in a token: it is no blank, and it is a character
/// of punctuation or of an operator, a quote, a digit, a letter or another
/// alphabetic character.
pub open spec fn is_significant(c: char) -> bool {
    !is_blank(c) && (single_kind(c) is Some || operator_kind(c, false) is Some || c == '/' || c
        == '"' || is_alphanumeric(c) || is_alphabetic(c))
}

/// Whether a comment starts at `at`.
pub open spec fn comment_at(src: Seq<char>, at: int) -> bool {
    0 <= at && at + 1 < src.len() && src[at] == '/' && src[at + 1] == '/'
}

/// The text `src[at..]` without its comments, its blanks and the characters
/// that can stand in no token.
pub open spec fn stripped(src: Seq<char>, at: int) -> Seq<char>
    decreases src.len() - at,
{
    if at < 0 || at >= src.len() {
        Seq::empty()
    } else if comment_at(src, at) {
        proof {
            lemma_run_end(src, at + 1, CharClass::InComment);
        }
        stripped(src, run_end(src, at + 1, CharClass::InComment))
    } else if is_significant(src[at]) {
        seq![src[at]] + stripped(src, at + 1)
    } else {
        stripped(src, at + 1)
    }
}

/// The texts of `tokens`, one behind the other.
pub open spec fn lexemes(tokens: Seq<TokenView>) -> Seq<char>
    decreases tokens.len(),
{
    if tokens.len() == 0 {
        Seq::empty()
    } else {
        tokens[0].lexeme + lexemes(tokens.skip(1))
    }
}

/// A piece of text whose characters can all stand in a token, and in which
/// no comment starts, is kept as it is.
proof fn lemma_stripped_piece(src: Seq<char>, from: int, to: int)
    requires
        0 <= from <= to <= src.len(),
        forall|k: int| from <= k < to ==> is_significant(#[trigger] src[k]),
        forall|k: int| from <= k < to ==> !comment_at(src, k),
    ensures
        stripped(src, from) == src.subrange(from, to) + stripped(src, to),
    decreases to - from,
{
    if from < to {
        lemma_stripped_piece(src, from + 1, to);
        assert(src.subrange(from, to) =~= seq![src[from]] + src.subrange(from + 1, to));
        assert(stripped(src, from) =~= src.subrange(from, to) + stripped(src, to));
    } else {
        assert(src.subrange(from, to) + stripped(src, to) =~= stripped(src, to));
    }
}

/// The tokens behind a first token spell the text of the first token and
/// what the others spell.
proof fn lemma_lexemes_first(first: TokenView, rest: Seq<TokenView>)
    ensures
        lexemes(seq![first] + rest) == first.lexeme + lexemes(rest),
{
    assert((seq![first] + rest).skip(1) =~= rest);
}

/// In a text without a `"`, the tokens from `at` on spell the text from
/// `at` on, without its comments, its blanks and the characters that can
/// stand in no token.
proof fn lemma_lexemes_from(src: Seq<char>, at: int, line: u32)
    requires
        0 <= at <= src.len(),
        forall|k: int| 0 <= k < src.len() ==> src[k] != '"',
    ensures
        lexemes(tokens_from(src, at, line)) == stripped(src, at),
    decreases src.len() - at,
{
    let first = scan(src, at, line);
    lemma_scan_advances(src, at, line);
    if at >= src.len() {
        assert(tokens_from(src, at, line) =~= seq![eof_token(line)]);
        assert(lexemes(tokens_from(src, at, line).skip(1)) =~= Seq::<char>::empty());
        assert(lexemes(tokens_from(src, at, line)) =~= Seq::<char>::empty());
    } else {
        let c = src[at];
        let with_equal = at + 1 < src.len() && src[at + 1] == '=';
        lemma_run_end(src, at + 1, CharClass::InComment);
        lemma_run_end(src, at + 1, CharClass::Digit);
        lemma_run_end(src, at + 1, CharClass::AlphaNumeric);
        let skipped_to: int = if single_kind(c) is Some || operator_kind(c, with_equal) is Some {
            at
        } else if c == '/' {
            if comment_at(src, at) {
                run_end(src, at + 1, CharClass::InComment)
            } else {
                at
            }
        } else if is_blank(c) {
            at + 1
        } else if is_digit(c) || is_word_start(c) {
            at
        } else {
            at + 1
        };
        if skipped_to > at {
            let next_line = if c == '\n' {
                next_line(line)
            } else {
                line
            };
            lemma_lexemes_from(src, skipped_to, next_line);
            assert(scan(src, at, line) == scan(src, skipped_to, next_line));
            assert(tokens_from(src, at, line) == tokens_from(src, skipped_to, next_line));
            assert(stripped(src, at) == stripped(src, skipped_to));
        } else {
            assert(first is Token);
            let next = first->next;
            let whole = run_end(src, at + 1, CharClass::Digit);
            if whole + 1 < src.len() {
                lemma_run_end(src, whole + 1, CharClass::Digit);
            }
            lemma_lexemes_from(src, next, first->Token_line);
            lemma_lexemes_first(first->token, tokens_from(src, next, first->Token_line));
            assert(first->token.lexeme == src.subrange(at, next));
            assert forall|k: int| at <= k < next implies is_significant(#[trigger] src[k])
                && !comment_at(src, k) by {
                if is_digit(c) && k > at {
                    if k < whole {
                    } else if k == whole {
                    } else {
                    }
                }
            }
            lemma_stripped_piece(src, at, next);
        }
    }
}

/// The tokens of a text without a `"` spell the text, without its comments,
/// its blanks and the characters that can stand in no token: scanning loses
/// nothing else.  (A string is left out because the text of its token is
/// what stands between the quotes, without them.)
pub proof fn lexemes_spell_the_source(src: Seq<char>)
    requires
        forall|k: int| 0 <= k < src.len() ==> src[k] != '"',
    ensures
        lexemes(tokens_of(src)) == stripped(src, 0),
{
    lemma_lexemes_from(src, 0, 1);
}

/// The tokens from `at` on end with the `Eof` token, and hold no other.
proof fn lemma_eof_from(src: Seq<char>, at: int, line: u32)
    requires
        0 <= at <= src.len(),
    ensures
        tokens_from(src, at, line).len() > 0,
        tokens_from(src, at, line).last().kind is Eof,
        forall|i: int|
            0 <= i < tokens_from(src, at, line).len() - 1 ==> !((#[trigger] tokens_from(
                src,
                at,
                line,
            )[i]).kind is Eof),
    decreases src.len() - at,
{
    let first = scan(src, at, line);
    lemma_scan_advances(src, at, line);
    if first is Token {
        lemma_eof_from(src, first->next, first->Token_line);
    }
}

/// The tokens of a text end with the `Eof` token, and hold no other.
pub proof fn eof_comes_last_and_once(src: Seq<char>)
    ensures
        tokens_of(src).len() > 0,
        tokens_of(src).last().kind is Eof,
        forall|i: int|
            0 <= i < tokens_of(src).len() - 1 ==> !((#[trigger] tokens_of(src)[i]).kind is Eof),
{
    lemma_eof_from(src, 0, 1);
}

/// A scanner over one source text.
pub struct Scanner {
    source: Vec<char>,
    line: u32,
    index: usize,
    was_eof_yielded: bool,
}

impl Scanner {
    /// The characters of the source text.
    pub closed spec fn source(&self) -> Seq<char> {
        self.source@
    }

    /// The position of the next character to read.
    pub closed spec fn index(&self) -> int {
        self.index as int
    }

    /// The line of the next character to read.
    pub closed spec fn line(&self) -> u32 {
        self.line
    }

    /// Whether the `Eof` token was handed out.
    pub closed spec fn finished(&self) -> bool {
        self.was_eof_yielded
    }

    /// The position is inside the text or at its end.
    pub closed spec fn wf(&self) -> bool {
        self.index <= self.source@.len()
    }

    /// The tokens that are still to come, the `Eof` token among them.
    pub open spec fn remaining(&self) -> Seq<TokenView> {
        if self.finished() {
            Seq::empty()
        } else {
            tokens_from(self.source(), self.index(), self.line())
        }
    }

    /// A scanner at the start of `source`, on line 1.
    pub fn new(source: String) -> (scanner: Self)
        ensures
            scanner.wf(),
            scanner.source() == source@,
            scanner.index() == 0,
            scanner.line() == 1,
            !scanner.finished(),
    {
        Scanner { line: 1, index: 0, source: chars_of(source.as_str()), was_eof_yielded: false }
    }

    fn add_token(&self, kind: TokenType, lexeme: String) -> (token: Token)
        ensures
            token@ == (TokenView { kind: kind@, lexeme: lexeme@, line: self.line() }),
    {
        Token { kind, lexeme, line: self.line }
    }

    /// The `nth` character after the position, if the text has one.
    fn peek_char(&self, nth: usize) -> (c: Option<char>)
        requires
            self.wf(),
        ensures
            c == if self.index() + nth < self.source().len() {
                Some(self.source()[self.index() + nth])
            } else {
                None
            },
    {
        if nth < self.source.len() - self.index {
            Some(self.source[self.index + nth])
        } else {
            None
        }
    }

    /// Reads one character, if one is left.
    fn next_char(&mut self) -> (c: Option<char>)
        requires
            old(self).wf(),
        ensures
            final(self).wf(),
            final(self).source() == old(self).source(),
            final(self).line() == old(self).line(),
            final(self).finished() == old(self).finished(),
            c == if old(self).index() < old(self).source().len() {
                Some(old(self).source()[old(self).index()])
            } else {
                None
            },
            final(self).index() == if c is Some {
                old(self).index() + 1
            } else {
                old(self).index()
            },
    {
        if self.index < self.source.len() {
            let c = self.source[self.index];
            self.index = self.index + 1;
            Some(c)
        } else {
            None
        }
    }

    /// Reads one character if one is left and `func` accepts it.
    pub fn next_char_if<F: FnOnce(&char) -> bool>(&mut self, func: F) -> (c: Option<char>)
        requires
            old(self).wf(),
            old(self).index() < old(self).source().len() ==> func.requires(
                (&old(self).source()[old(self).index()],),
            ),
        ensures
            final(self).wf(),
            final(self).source() == old(self).source(),
            final(self).line() == old(self).line(),
            final(self).finished() == old(self).finished(),
            c is Some ==> old(self).index() < old(self).source().len() && c == Some(
                old(self).source()[old(self).index()],
            ) && func.ensures((&old(self).source()[old(self).index()],), true)
                && final(self).index() == old(self).index() + 1,
            c is None ==> final(self).index() == old(self).index() && (old(self).index() < old(self).source().len() ==> func.ensures(
                (&old(self).source()[old(self).index()],),
                false,
            )),
    {
        match self.peek_char(0) {
            Some(c) => {
                if func(&c) {
                    self.next_char()
                } else {
                    None
                }
            },
            None => None,
        }
    }

    /// Reads the longest run of characters of `class` at the position.
    fn skip_run(&mut self, class: CharClass)
        requires
            old(self).wf(),
        ensures
            final(self).wf(),
            final(self).source() == old(self).source(),
            final(self).line() == old(self).line(),
            final(self).finished() == old(self).finished(),
            final(self).index() == run_end(old(self).source(), old(self).index(), class),
    {
        loop
            invariant
                self.wf(),
                self.source() == old(self).source(),
                self.line() == old(self).line(),
                self.finished() == old(self).finished(),
                old(self).index() <= self.index(),
                run_end(self.source(), self.index(), class) == run_end(
                    old(self).source(),
                    old(self).index(),
                    class,
                ),
            ensures
                self.wf(),
                self.source() == old(self).source(),
                self.line() == old(self).line(),
                self.finished() == old(self).finished(),
                self.index() == run_end(old(self).source(), old(self).index(), class),
            decreases self.source().len() - self.index(),
        {
            let more = match self.peek_char(0) {
                Some(c) => class.accepts(c),
                None => false,
            };
            if !more {
                break ;
            }
            self.next_char();
        }
    }

    /// The kind of the word `source[from..to]`.
    fn word_type(&self, from: usize, to: usize) -> (kind: TokenType)
        requires
            from <= to <= self.source().len(),
        ensures
            kind@ == word_kind(self.source().subrange(from as int, to as int)),
    {
        let src = &self.source;
        if spells(src, from, to, "if") {
            TokenType::If
        } else if spells(src, from, to, "else") {
            TokenType::Else
        } else if spells(src, from, to, "true") {
            TokenType::True
        } else if spells(src, from, to, "false") {
            TokenType::False
        } else if spells(src, from, to, "nil") {
            TokenType::Nil
        } else if spells(src, from, to, "while") {
            TokenType::While
        } else if spells(src, from, to, "for") {
            TokenType::For
        } else if spells(src, from, to, "and") {
            TokenType::And
        } else if spells(src, from, to, "or") {
            TokenType::Or
        } else if spells(src, from, to, "fun") {
            TokenType::Fun
        } else if spells(src, from, to, "return") {
            TokenType::Return
        } else if spells(src, from, to, "class") {
            TokenType::Class
        } else if spells(src, from, to, "this") {
            TokenType::This
        } else if spells(src, from, to, "super") {
            TokenType::Super
        } else if spells(src, from, to, "var") {
            TokenType::Var
        } else if spells(src, from, to, "print") {
            TokenType::Print
        } else {
            TokenType::Identifier(string_of(src, from, to))
        }
    }

    /// The kind of the token that `c` makes by itself, if it makes one.
    fn single_type(c: char) -> (kind: Option<TokenType>)
        ensures
            match kind {
                Some(k) => single_kind(c) == Some(k@),
                None => single_kind(c) is None,
            },
    {
        if c == '(' {
            Some(TokenType::LeftParen)
        } else if c == ')' {
            Some(TokenType::RightParen)
        } else if c == '{' {
            Some(TokenType::LeftBrace)
        } else if c == '}' {
            Some(TokenType::RightBrace)
        } else if c == ',' {
            Some(TokenType::Comma)
        } else if c == '.' {
            Some(TokenType::Dot)
        } else if c == '-' {
            Some(TokenType::Minus)
        } else if c == '+' {
            Some(TokenType::Plus)
        } else if c == ';' {
            Some(TokenType::Semicolon)
        } else if c == '*' {
            Some(TokenType::Star)
        } else if c == '?' {
            Some(TokenType::Question)
        } else if c == ':' {
            Some(TokenType::Colon)
        } else {
            None
        }
    }

    /// The kind of the operator that starts with `c`, if `c` starts one.
    fn operator_type(c: char, with_equal: bool) -> (kind: Option<TokenType>)
        ensures
            match kind {
                Some(k) => operator_kind(c, with_equal) == Some(k@),
                None => operator_kind(c, with_equal) is None,
            },
    {
        if c == '!' {
            Some(if with_equal { TokenType::BangEqual } else { TokenType::Bang })
        } else if c == '=' {
            Some(if with_equal { TokenType::EqualEqual } else { TokenType::Eqal })
        } else if c == '<' {
            Some(if with_equal { TokenType::LessEqual } else { TokenType::Less })
        } else if c == '>' {
            Some(if with_equal { TokenType::GreaterEqual } else { TokenType::Greater })
        } else {
            None
        }
    }

    /// The token whose text is `source[from..index]`.
    fn token_from(&self, kind: TokenType, from: usize) -> (token: Token)
        requires
            self.wf(),
            from <= self.index(),
        ensures
            token@ == (TokenView {
                kind: kind@,
                lexeme: self.source().subrange(from as int, self.index()),
                line: self.line(),
            }),
    {
        let lexeme = string_of(&self.source, from, self.index);
        self.add_token(kind, lexeme)
    }

    /// The next token: `None` once the `Eof` token was handed out.
    pub fn next_token(&mut self) -> (token: Option<Token>)
        requires
            old(self).wf(),
        ensures
            final(self).wf(),
            final(self).source() == old(self).source(),
            old(self).finished() ==> token is None && final(self).finished() && final(self).index() == old(self).index() && final(self).line() == old(self).line(),
            !old(self).finished() ==> match scan(
                old(self).source(),
                old(self).index(),
                old(self).line(),
            ) {
                Scanned::Token { token: found, next, line } => token is Some && token->0@ == found
                    && final(self).index() == next && final(self).line() == line && !final(self).finished(),
                Scanned::End { line } => token is Some && token->0@ == eof_token(line) && final(self).index() == old(self).source().len() && final(self).line() == line && final(self).finished(),
            },
    {
        if self.was_eof_yielded {
            return None;
        }
        loop
            invariant
                self.wf(),
                !self.finished(),
                !old(self).finished(),
                self.source() == old(self).source(),
                scan(self.source(), self.index(), self.line()) == scan(
                    old(self).source(),
                    old(self).index(),
                    old(self).line(),
                ),
            decreases self.source().len() - self.index(),
        {
            let start = self.index;
            let c = match self.next_char() {
                Some(c) => c,
                None => {
                    self.was_eof_yielded = true;
                    let lexeme = String::new();
                    return Some(self.add_token(TokenType::Eof, lexeme));
                },
            };
            proof {
                lemma_run_end(self.source(), start + 1, CharClass::InComment);
                lemma_run_end(self.source(), start + 1, CharClass::InString);
                lemma_run_end(self.source(), start + 1, CharClass::Digit);
                lemma_run_end(self.source(), start + 1, CharClass::AlphaNumeric);
            }
            let with_equal = match self.peek_char(0) {
                Some(d) => d == '=',
                None => false,
            };
            if let Some(kind) = Self::single_type(c) {
                return Some(self.token_from(kind, start));
            } else if let Some(kind) = Self::operator_type(c, with_equal) {
                if with_equal {
                    self.next_char();
                }
                return Some(self.token_from(kind, start));
            } else if c == '/' {
                let comment = match self.peek_char(0) {
                    Some(d) => d == '/',
                    None => false,
                };
                if comment {
                    self.skip_run(CharClass::InComment);
                } else {
                    return Some(self.token_from(TokenType::Slash, start));
                }
            } else if c == ' ' || c == '\r' || c == '\t' {
            } else if c == '\n' {
                if self.line < u32::MAX {
                    self.line = self.line + 1;
                }
            } else if c == '"' {
                self.skip_run(CharClass::InString);
                let value = string_of(&self.source, start + 1, self.index);
                let lexeme = value.clone();
                // consume the closing "
                self.next_char();
                return Some(self.add_token(TokenType::String(value), lexeme));
            } else if CharClass::Digit.accepts(c) {
                self.skip_run(CharClass::Digit);
                let fraction = match (self.peek_char(0), self.peek_char(1)) {
                    (Some(dot), Some(digit)) => dot == '.' && CharClass::Digit.accepts(digit),
                    _ => false,
                };
                if fraction {
                    self.next_char();
                    proof {
                        lemma_run_end(self.source(), self.index(), CharClass::Digit);
                    }
                    self.skip_run(CharClass::Digit);
                }
                let value = string_of(&self.source, start, self.index);
                return Some(self.token_from(TokenType::Number(value), start));
            } else if c.is_alphabetic() {
                self.skip_run(CharClass::AlphaNumeric);
                let kind = self.word_type(start, self.index);
                return Some(self.token_from(kind, start));
            }
        }
    }

    /// All the tokens that are still to come, the `Eof` token last.
    pub fn scan_tokens(self) -> (tokens: Vec<Token>)
        requires
            self.wf(),
        ensures
            token_views(tokens@) == self.remaining(),
    {
        let mut scanner = self;
        let mut tokens: Vec<Token> = Vec::new();
        let ghost all = scanner.remaining();
        assert(token_views(tokens@) + scanner.remaining() == all);
        loop
            invariant
                scanner.wf(),
                token_views(tokens@) + scanner.remaining() == all,
            ensures
                token_views(tokens@) == all,
            decreases scanner.remaining().len(),
        {
            proof {
                lemma_scan_advances(scanner.source(), scanner.index(), scanner.line());
            }
            let ghost before = token_views(tokens@);
            match scanner.next_token() {
                Some(token) => {
                    tokens.push(token);
                    assert(token_views(tokens@) == before.push(token@));
                },
                None => {
                    break ;
                },
            }
        }
        tokens
    }
}

} // verus!
