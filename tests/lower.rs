use std::path::PathBuf;

use hds::lower::{lower_source_file, LowerError};
use hds::parser::Parser;
use hds::Span;

fn lower(text: &str) -> Result<String, LowerError> {
    let file = Parser::new(text, PathBuf::from("t.hds")).unwrap().parse_source_file().unwrap();
    lower_source_file(file)
}

#[test]
fn foreign_functions_become_declarations() {
    assert_eq!(
        lower("extern { fn foo(); pub fn bar() -> (); }").unwrap(),
        "void foo();void bar();"
    );
}

#[test]
fn functions_with_bodies_write_nothing_yet() {
    assert_eq!(lower("fn main() { f() }").unwrap(), "");
    assert_eq!(lower("").unwrap(), "");
    assert_eq!(
        lower("fn main() {} extern { fn a(); } extern { fn b(); }").unwrap(),
        "void a();void b();"
    );
}

#[test]
fn named_return_type_cannot_be_lowered() {
    assert_eq!(
        lower("extern { fn f() -> T; }").unwrap_err(),
        LowerError::UnsupportedType { span: Span { start: 19, end: 20 } }
    );
}

#[test]
fn foreign_function_with_body_is_refused() {
    assert_eq!(
        lower("extern { fn f() {} }").unwrap_err(),
        LowerError::ForeignBody { span: Span { start: 9, end: 18 } }
    );
}
