use std::path::PathBuf;

use hds::lexer::TokenKind as k;
use hds::lexer::{LexError, Lexer, TokenKind};
use hds::HasSpan;

fn mk_tokenizer(s: &str) -> Lexer {
    Lexer::new(s, PathBuf::from("test.hds"))
}

#[test]
fn test_lexer() {
    let path = PathBuf::from("test.hds");
    let mut lexer = Lexer::new("", path);

    let token = lexer.next_token().unwrap();

    assert_eq!(token.kind, TokenKind::EOF);
}

#[test]
fn test_lexer_skips_whitespace() {
    let path = PathBuf::from("test.hds");
    let text = "  \t\n";
    let mut lexer = Lexer::new(text, path);

    let token = lexer.next_token().unwrap();

    assert_eq!(token.kind, TokenKind::EOF);
    assert_eq!(token.start(), 4);
}

#[test]
fn test_tokenizes_fn() {
    let path = PathBuf::from("test.hds");
    let text = "  fn main";
    let mut lexer = Lexer::new(text, path);
    let mut token = lexer.next_token().unwrap();

    assert_eq!(token.text, "fn");
    assert_eq!(token.kind, TokenKind::FN);
    assert_eq!(token.start(), 2);

    token = lexer.next_token().unwrap();

    assert_eq!(token.kind, TokenKind::IDENT);
    assert_eq!(token.text, "main");

    assert_eq!(lexer.next_token().unwrap().kind, TokenKind::EOF);
}

#[test]
fn tokenizes_parens() {
    let mut t = mk_tokenizer("(){};");
    assert_eq!(t.next_token().unwrap().kind, k::LPAREN);
    assert_eq!(t.next_token().unwrap().kind, k::RPAREN);
    assert_eq!(t.next_token().unwrap().kind, k::LBRACE);
    assert_eq!(t.next_token().unwrap().kind, k::RBRACE);
}

#[test]
fn tokenize_function_header_with_no_args() {
    let mut t = mk_tokenizer("fn main() {}");
    assert_eq!(t.next_token().unwrap().kind, k::FN);
    assert_eq!(t.next_token().unwrap().kind, k::IDENT);
    assert_eq!(t.next_token().unwrap().kind, k::LPAREN);
    assert_eq!(t.next_token().unwrap().kind, k::RPAREN);
    assert_eq!(t.next_token().unwrap().kind, k::LBRACE);
    assert_eq!(t.next_token().unwrap().kind, k::RBRACE);
}

#[test]
fn tokenizes_arrow() {
    let mut t = mk_tokenizer("->");
    assert_eq!(t.next_token().unwrap().kind, TokenKind::ARROW);
}

#[test]
fn whitespace_only_gives_one_eof_at_the_end() {
    for text in ["", " ", "  \t\n", "\n\n\r\n   \t", "\u{3000} \u{a0}"] {
        let mut t = mk_tokenizer(text);
        let token = t.next_token().unwrap();
        assert_eq!(token.kind, TokenKind::EOF);
        assert_eq!(token.start(), text.len());
        assert_eq!(token.end(), text.len());
        assert_eq!(token.text, "");
        let again = t.next_token().unwrap();
        assert_eq!(again.kind, TokenKind::EOF);
        assert_eq!(again.start(), text.len());
    }
}

#[test]
fn fn_main_token_sequence() {
    let mut t = mk_tokenizer("fn main() {}");
    let expected = [
        (k::FN, 0, 2, "fn"),
        (k::IDENT, 3, 7, "main"),
        (k::LPAREN, 7, 8, "("),
        (k::RPAREN, 8, 9, ")"),
        (k::LBRACE, 10, 11, "{"),
        (k::RBRACE, 11, 12, "}"),
        (k::EOF, 12, 12, ""),
    ];
    for (kind, start, end, text) in expected {
        let token = t.next_token().unwrap();
        assert_eq!(token.kind, kind);
        assert_eq!(token.start(), start);
        assert_eq!(token.end(), end);
        assert_eq!(token.text, text);
    }
}

#[test]
fn keywords_and_operators() {
    let mut t = mk_tokenizer("pub extern unsafe fnx : :: -> 42 _a1");
    let expected = [
        (k::PUB, "pub"),
        (k::EXTERN, "extern"),
        (k::UNSAFE, "unsafe"),
        (k::IDENT, "fnx"),
        (k::COLON, ":"),
        (k::COLONCOLON, "::"),
        (k::ARROW, "->"),
        (k::INT, "42"),
        (k::IDENT, "_a1"),
        (k::EOF, ""),
    ];
    for (kind, text) in expected {
        let token = t.next_token().unwrap();
        assert_eq!(token.kind, kind);
        assert_eq!(token.text, text);
    }
}

#[test]
fn digits_then_letters_split() {
    let mut t = mk_tokenizer("12ab");
    let int = t.next_token().unwrap();
    assert_eq!(int.kind, TokenKind::INT);
    assert_eq!(int.text, "12");
    let ident = t.next_token().unwrap();
    assert_eq!(ident.kind, TokenKind::IDENT);
    assert_eq!(ident.text, "ab");
    assert_eq!(ident.start(), 2);
}

#[test]
fn non_ascii_identifier_spans_count_bytes() {
    let text = " \u{e9}t\u{e9}2 x";
    let mut t = mk_tokenizer(text);
    let word = t.next_token().unwrap();
    assert_eq!(word.kind, TokenKind::IDENT);
    assert_eq!(word.text, "\u{e9}t\u{e9}2");
    assert_eq!(word.start(), 1);
    assert_eq!(word.end(), 7);
    assert_eq!(&text[word.start()..word.end()], word.text);
    let x = t.next_token().unwrap();
    assert_eq!(x.start(), 8);
    assert_eq!(&text[x.start()..x.end()], "x");
}

#[test]
fn dash_without_arrow_head_is_an_error() {
    let mut t = mk_tokenizer("-x");
    assert_eq!(t.next_token().unwrap_err(), LexError::ExpectedArrowHead { pos: 1 });
    let mut t = mk_tokenizer(" -");
    assert_eq!(t.next_token().unwrap_err(), LexError::ExpectedArrowHead { pos: 2 });
}

#[test]
fn unknown_character_is_an_error() {
    let mut t = mk_tokenizer("fn #");
    assert_eq!(t.next_token().unwrap().kind, TokenKind::FN);
    assert_eq!(
        t.next_token().unwrap_err(),
        LexError::UnexpectedChar { pos: 3, line: 1, column: 4, found: '#' }
    );
}

#[test]
fn unknown_character_reports_line_and_column() {
    let mut t = mk_tokenizer("fn\n  \n #");
    assert_eq!(t.next_token().unwrap().kind, TokenKind::FN);
    assert_eq!(
        t.next_token().unwrap_err(),
        LexError::UnexpectedChar { pos: 7, line: 3, column: 2, found: '#' }
    );
}

#[test]
fn error_positions_count_bytes() {
    let mut t = mk_tokenizer("\u{e9} #");
    assert_eq!(t.next_token().unwrap().text, "\u{e9}");
    assert_eq!(
        t.next_token().unwrap_err(),
        LexError::UnexpectedChar { pos: 3, line: 1, column: 3, found: '#' }
    );
}
