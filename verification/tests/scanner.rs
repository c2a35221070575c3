use lox::scanner::{Scanner, Token, TokenType};

#[test]
fn scanner_test_name() {
    let tokens = Scanner::new("print \"Hello World!\"".to_string());

    assert_eq!(
        tokens.scan_tokens(),
        vec![
            Token {
                kind: TokenType::Print,
                lexeme: "print".to_string(),
                line: 1,
            },
            Token {
                kind: TokenType::String("Hello World!".to_string()),
                lexeme: "Hello World!".to_string(),
                line: 1,
            },
            Token {
                kind: TokenType::Eof,
                lexeme: "".to_string(),
                line: 1
            },
        ]
    );
}

fn kinds(source: &str) -> Vec<TokenType> {
    Scanner::new(source.to_string()).scan_tokens().into_iter().map(|token| token.kind).collect()
}

fn lexemes(source: &str) -> Vec<String> {
    Scanner::new(source.to_string()).scan_tokens().into_iter().map(|token| token.lexeme).collect()
}

#[test]
fn empty_source_gives_eof_only() {
    assert_eq!(
        Scanner::new(String::new()).scan_tokens(),
        vec![Token { kind: TokenType::Eof, lexeme: "".to_string(), line: 1 }]
    );
}

#[test]
fn eof_comes_once_and_then_nothing() {
    let mut scanner = Scanner::new("a".to_string());
    assert_eq!(scanner.next_token().map(|token| token.kind), Some(TokenType::Identifier("a".to_string())));
    assert_eq!(scanner.next_token().map(|token| token.kind), Some(TokenType::Eof));
    assert_eq!(scanner.next_token(), None);
    assert_eq!(scanner.next_token(), None);
}

#[test]
fn punctuation_is_scanned() {
    assert_eq!(
        kinds("(){},.-+;*?:/"),
        vec![
            TokenType::LeftParen,
            TokenType::RightParen,
            TokenType::LeftBrace,
            TokenType::RightBrace,
            TokenType::Comma,
            TokenType::Dot,
            TokenType::Minus,
            TokenType::Plus,
            TokenType::Semicolon,
            TokenType::Star,
            TokenType::Question,
            TokenType::Colon,
            TokenType::Slash,
            TokenType::Eof,
        ]
    );
}

#[test]
fn operators_of_two_characters_are_scanned() {
    assert_eq!(
        kinds("! != = == < <= > >="),
        vec![
            TokenType::Bang,
            TokenType::BangEqual,
            TokenType::Eqal,
            TokenType::EqualEqual,
            TokenType::Less,
            TokenType::LessEqual,
            TokenType::Greater,
            TokenType::GreaterEqual,
            TokenType::Eof,
        ]
    );
    assert_eq!(lexemes("!= == <= >= !"), vec!["!=", "==", "<=", ">=", "!", ""]);
}

#[test]
fn keywords_are_told_from_identifiers() {
    assert_eq!(
        kinds("and class else false fun for if nil or print return super this true var while andy"),
        vec![
            TokenType::And,
            TokenType::Class,
            TokenType::Else,
            TokenType::False,
            TokenType::Fun,
            TokenType::For,
            TokenType::If,
            TokenType::Nil,
            TokenType::Or,
            TokenType::Print,
            TokenType::Return,
            TokenType::Super,
            TokenType::This,
            TokenType::True,
            TokenType::Var,
            TokenType::While,
            TokenType::Identifier("andy".to_string()),
            TokenType::Eof,
        ]
    );
}

#[test]
fn numbers_take_a_fraction_only_before_a_digit() {
    assert_eq!(
        kinds("12 3.25 4. .5"),
        vec![
            TokenType::Number("12".to_string()),
            TokenType::Number("3.25".to_string()),
            TokenType::Number("4".to_string()),
            TokenType::Dot,
            TokenType::Dot,
            TokenType::Number("5".to_string()),
            TokenType::Eof,
        ]
    );
}

#[test]
fn comments_run_to_the_end_of_the_line() {
    assert_eq!(
        Scanner::new("a // b c\nd // e".to_string()).scan_tokens(),
        vec![
            Token { kind: TokenType::Identifier("a".to_string()), lexeme: "a".to_string(), line: 1 },
            Token { kind: TokenType::Identifier("d".to_string()), lexeme: "d".to_string(), line: 2 },
            Token { kind: TokenType::Eof, lexeme: "".to_string(), line: 2 },
        ]
    );
}

#[test]
fn lines_are_counted_from_one() {
    let tokens = Scanner::new("a\n\nb\r\n c".to_string()).scan_tokens();
    let lines: Vec<u32> = tokens.iter().map(|token| token.line).collect();
    assert_eq!(lines, vec![1, 3, 4, 4]);
}

#[test]
fn an_unterminated_string_runs_to_the_end() {
    assert_eq!(
        Scanner::new("\"abc".to_string()).scan_tokens(),
        vec![
            Token { kind: TokenType::String("abc".to_string()), lexeme: "abc".to_string(), line: 1 },
            Token { kind: TokenType::Eof, lexeme: "".to_string(), line: 1 },
        ]
    );
}

#[test]
fn a_line_feed_in_a_string_starts_no_line() {
    let tokens = Scanner::new("\"a\nb\" c".to_string()).scan_tokens();
    assert_eq!(tokens[0].kind, TokenType::String("a\nb".to_string()));
    assert_eq!(tokens[1].line, 1);
}

#[test]
fn characters_that_start_no_token_are_passed_over() {
    assert_eq!(
        kinds("a @ # _ b"),
        vec![
            TokenType::Identifier("a".to_string()),
            TokenType::Identifier("b".to_string()),
            TokenType::Eof
        ]
    );
}

#[test]
fn a_word_starts_with_any_alphabetic_character_and_goes_on_in_ascii() {
    assert_eq!(
        kinds("\u{e9}t\u{e9}"),
        vec![
            TokenType::Identifier("\u{e9}t".to_string()),
            TokenType::Identifier("\u{e9}".to_string()),
            TokenType::Eof
        ]
    );
}

#[test]
fn lexemes_spell_the_source_without_blanks_and_comments() {
    let source = "var a1 = (b + 2.5) * c; // note\nif (a1 >= 3) { f(a1, b); }";
    let expected = "vara1=(b+2.5)*c;if(a1>=3){f(a1,b);}";
    assert_eq!(lexemes(source).concat(), expected);
}

#[test]
fn next_char_if_reads_only_what_is_accepted() {
    let mut scanner = Scanner::new("ab".to_string());
    assert_eq!(scanner.next_char_if(|c| *c == 'b'), None);
    assert_eq!(scanner.next_char_if(|c| *c == 'a'), Some('a'));
    assert_eq!(scanner.next_char_if(|c| *c == 'b'), Some('b'));
    assert_eq!(scanner.next_char_if(|_| true), None);
}
