use std::path::PathBuf;

use hds::ast::{
    ExprKind, ForeignItemKind, ItemKind, LitKind, SourceFile, StmtKind, TyKind, Visibility,
};
use hds::buffer::TokenBuffer;
use hds::grammar::ParseError;
use hds::lexer::{LexError, Lexer, TokenKind};
use hds::parser::Parser;
use hds::{HasSpan, Span};

fn parse(text: &str) -> Result<SourceFile, ParseError> {
    Parser::new(text, PathBuf::from("test.hds")).and_then(|p| p.parse_source_file())
}

#[test]
fn test_parse_empty_function() {
    let path = PathBuf::from("test.hds");
    let parser = Parser::new("fn main() -> () {}", path).unwrap();
    parser.parse_source_file().unwrap();
}

#[test]
fn test_token_buffer() {
    let lexer = Lexer::new("fn main() {}", PathBuf::from("test"));
    let mut buffer = TokenBuffer::new(lexer).unwrap();

    assert_eq!(buffer.peek(0).kind, TokenKind::FN);
    assert_eq!(buffer.peek(1).kind, TokenKind::IDENT);
    assert_eq!(buffer.peek(2).kind, TokenKind::LPAREN);
    assert_eq!(buffer.peek(3).kind, TokenKind::RPAREN);

    assert_eq!(buffer.advance().unwrap().kind, TokenKind::FN);
    assert_eq!(buffer.peek(0).kind, TokenKind::IDENT);
}

#[test]
fn test_overflow() {
    let lexer = Lexer::new("fn main() {}", PathBuf::from("test"));
    let mut buffer = TokenBuffer::new(lexer).unwrap();

    assert_eq!(buffer.advance().unwrap().kind, TokenKind::FN);
    assert_eq!(buffer.advance().unwrap().kind, TokenKind::IDENT);
    assert_eq!(buffer.advance().unwrap().kind, TokenKind::LPAREN);
    assert_eq!(buffer.advance().unwrap().kind, TokenKind::RPAREN);
    assert_eq!(buffer.advance().unwrap().kind, TokenKind::LBRACE);
    assert_eq!(buffer.advance().unwrap().kind, TokenKind::RBRACE);
}

#[test]
fn buffer_window_slides_by_one() {
    let lexer = Lexer::new("fn main() {}", PathBuf::from("test"));
    let mut buffer = TokenBuffer::new(lexer).unwrap();
    assert_eq!(buffer.current().kind, TokenKind::FN);
    assert_eq!(buffer.current_kind(), TokenKind::FN);
    let second = buffer.peek(1).span;
    let head = buffer.advance().unwrap();
    assert_eq!(head.kind, TokenKind::FN);
    assert_eq!(buffer.peek(0).span, second);
    assert_eq!(buffer.peek(0).text, "main");
    assert_eq!(buffer.peek(3).kind, TokenKind::LBRACE);
    assert_eq!(buffer.peek(3).span, Span { start: 10, end: 11 });
}

#[test]
fn buffer_reports_a_lex_error_in_its_first_window() {
    let lexer = Lexer::new("fn a b #", PathBuf::from("test"));
    match TokenBuffer::new(lexer) {
        Err(e) => assert_eq!(e, LexError::UnexpectedChar { pos: 7, line: 1, column: 8, found: '#' }),
        Ok(_) => panic!("the fourth token cannot be lexed"),
    }
}

#[test]
fn fn_main_parses_to_one_empty_function() {
    let file = parse("fn main() {}").unwrap();
    assert_eq!(file.path, PathBuf::from("test.hds"));
    assert_eq!(file.items.len(), 1);
    let item = &file.items[0];
    assert_eq!(item.name, "main");
    assert_eq!(item.vis, Visibility::Inherited);
    assert_eq!(*item.span(), Span { start: 0, end: 12 });
    match &item.kind {
        ItemKind::Fn(f) => {
            assert!(f.params.is_empty());
            assert!(f.return_ty.is_none());
            let body = f.body.as_ref().unwrap();
            assert_eq!(body.meta.span, Span { start: 10, end: 12 });
            match &body.kind {
                ExprKind::Block(b) => assert!(b.stmts.is_empty()),
                _ => panic!("the body is a block"),
            }
        }
        _ => panic!("the item is a function"),
    }
}

#[test]
fn arrow_unit_return_type() {
    let file = parse("fn main() -> () {}").unwrap();
    match &file.items[0].kind {
        ItemKind::Fn(f) => {
            let ty = f.return_ty.as_ref().unwrap();
            match &ty.kind {
                TyKind::Tup(v) => assert!(v.is_empty()),
                _ => panic!("the return type is a tuple"),
            }
            assert_eq!(ty.meta.span, Span { start: 13, end: 15 });
        }
        _ => panic!("the item is a function"),
    }
}

#[test]
fn two_parses_give_the_same_tree() {
    let text = "pub fn f(a: T b: ()) -> U { ; g(1 x) unsafe { } }\nextern { fn h(); }";
    let a = parse(text).unwrap();
    let b = parse(text).unwrap();
    assert_eq!(format!("{:?}", a), format!("{:?}", b));
    assert_eq!(parse("fn main(").unwrap_err(), parse("fn main(").unwrap_err());
}

#[test]
fn unterminated_parameter_list_is_a_syntax_error() {
    let err = parse("fn main(").unwrap_err();
    assert_eq!(
        err,
        ParseError::Expected {
            expected: TokenKind::RPAREN,
            found: TokenKind::EOF,
            span: Span { start: 8, end: 8 },
        }
    );
}

#[test]
fn foreign_block_with_one_declaration() {
    let file = parse("extern { fn foo(); }").unwrap();
    assert_eq!(file.items.len(), 1);
    let item = &file.items[0];
    assert_eq!(item.name, "extern");
    assert_eq!(*item.span(), Span { start: 0, end: 20 });
    match &item.kind {
        ItemKind::ForeignMod(m) => {
            assert_eq!(m.items.len(), 1);
            let fi = &m.items[0];
            assert_eq!(fi.name, "foo");
            assert_eq!(fi.vis, Visibility::Inherited);
            assert_eq!(*fi.span(), Span { start: 9, end: 17 });
            match &fi.kind {
                ForeignItemKind::Fn(f) => {
                    assert!(f.body.is_none());
                    assert!(f.params.is_empty());
                    assert_eq!(f.meta.span, Span { start: 9, end: 17 });
                }
            }
        }
        _ => panic!("the item is a foreign block"),
    }
}

#[test]
fn pub_item_span_starts_at_pub() {
    let file = parse("  pub fn f() {}").unwrap();
    let item = &file.items[0];
    assert_eq!(item.vis, Visibility::Public);
    assert_eq!(*item.span(), Span { start: 2, end: 15 });
}

#[test]
fn signature_span_ends_at_return_type_or_paren() {
    let file = parse("extern { pub fn a() -> T; fn b(x: ()); }").unwrap();
    match &file.items[0].kind {
        ItemKind::ForeignMod(m) => {
            assert_eq!(m.items[0].vis, Visibility::Public);
            assert_eq!(*m.items[0].span(), Span { start: 9, end: 24 });
            assert_eq!(*m.items[1].span(), Span { start: 26, end: 37 });
            match &m.items[1].kind {
                ForeignItemKind::Fn(f) => {
                    assert_eq!(f.params.len(), 1);
                    assert_eq!(f.params[0].name, "x");
                    assert_eq!(f.params[0].meta.span, Span { start: 31, end: 36 });
                }
            }
        }
        _ => panic!("the item is a foreign block"),
    }
}

#[test]
fn statements_and_calls() {
    let file = parse("fn main() { ; f(1 y) () unsafe { ; } }").unwrap();
    let ItemKind::Fn(f) = &file.items[0].kind else { panic!("a function") };
    let ExprKind::Block(b) = &f.body.as_ref().unwrap().kind else { panic!("a block") };
    assert_eq!(b.stmts.len(), 4);
    assert!(matches!(b.stmts[0].kind, StmtKind::Semi));
    let StmtKind::Expr(call) = &b.stmts[1].kind else { panic!("an expression") };
    assert_eq!(call.meta.span, Span { start: 14, end: 20 });
    let ExprKind::Call(callee, args) = &call.kind else { panic!("a call") };
    let ExprKind::Var(v) = &callee.kind else { panic!("a variable") };
    assert_eq!(v.name, "f");
    assert_eq!(args.len(), 2);
    let ExprKind::Lit(lit) = &args[0].kind else { panic!("a literal") };
    assert_eq!(lit.kind, LitKind::Integer);
    assert_eq!(lit.text, "1");
    let StmtKind::Expr(unit) = &b.stmts[2].kind else { panic!("an expression") };
    assert!(matches!(unit.kind, ExprKind::Unit));
    assert_eq!(unit.meta.span, Span { start: 21, end: 23 });
    let StmtKind::Expr(block) = &b.stmts[3].kind else { panic!("an expression") };
    assert_eq!(block.meta.span, Span { start: 24, end: 36 });
}

#[test]
fn unexpected_tokens_are_reported() {
    assert_eq!(
        parse("fn main() -> 5 {}").unwrap_err(),
        ParseError::Unexpected { found: TokenKind::INT, span: Span { start: 13, end: 14 } }
    );
    assert_eq!(
        parse("main").unwrap_err(),
        ParseError::Unexpected { found: TokenKind::IDENT, span: Span { start: 0, end: 4 } }
    );
    assert_eq!(
        parse("fn main() { -> }").unwrap_err(),
        ParseError::Unexpected { found: TokenKind::ARROW, span: Span { start: 12, end: 14 } }
    );
}

#[test]
fn missing_body_is_an_error() {
    assert_eq!(
        parse("fn main()").unwrap_err(),
        ParseError::Expected {
            expected: TokenKind::LBRACE,
            found: TokenKind::EOF,
            span: Span { start: 9, end: 9 },
        }
    );
}

#[test]
fn lex_errors_stop_the_parse() {
    assert_eq!(
        parse("fn main() { # }").unwrap_err(),
        ParseError::Lex(LexError::UnexpectedChar { pos: 12, line: 1, column: 13, found: '#' })
    );
    assert_eq!(
        parse("fn - main").unwrap_err(),
        ParseError::Lex(LexError::ExpectedArrowHead { pos: 4 })
    );
}

#[test]
fn empty_text_has_no_items() {
    assert!(parse("").unwrap().items.is_empty());
    assert!(parse(" \n\t ").unwrap().items.is_empty());
}

#[test]
fn top_level_declaration_without_body_is_an_error() {
    assert_eq!(
        parse("fn f();").unwrap_err(),
        ParseError::Expected {
            expected: TokenKind::LBRACE,
            found: TokenKind::SEMI,
            span: Span { start: 6, end: 7 },
        }
    );
}

#[test]
fn new_reports_a_lex_error_in_the_first_window() {
    match Parser::new("fn a @", PathBuf::from("x.hds")) {
        Err(e) => assert_eq!(
            e,
            ParseError::Lex(LexError::UnexpectedChar { pos: 5, line: 1, column: 6, found: '@' })
        ),
        Ok(_) => panic!("the third token cannot be lexed"),
    }
}

#[test]
fn the_file_keeps_the_given_path() {
    let file = Parser::new("fn main() {}", PathBuf::from("dir/a.hds"))
        .unwrap()
        .parse_source_file()
        .unwrap();
    assert_eq!(file.path, PathBuf::from("dir/a.hds"));
}
