use std::cell::RefCell;
use std::path::PathBuf;

use hds::ast::{Block, Expr, ExprKind, Fn, Item, Stmt, StmtKind};
use hds::parser::Parser;
use hds::visit::{walk_block, walk_expr, walk_fn, walk_item, walk_stmt, Visitor};

/// The variables met, in order, and how many nodes of each kind were visited.
#[derive(Default)]
struct Seen {
    vars: Vec<String>,
    blocks: usize,
    fns: usize,
    semis: usize,
}

/// Records into a shared `Seen`; the visitor value itself never changes.
#[derive(Clone, Copy)]
struct Names<'a> {
    seen: &'a RefCell<Seen>,
}

impl<'a> Visitor for Names<'a> {
    fn after_item(&self, _item: &Item) -> Self {
        *self
    }

    fn after_block(&self, _block: &Block) -> Self {
        *self
    }

    fn after_stmt(&self, _stmt: &Stmt) -> Self {
        *self
    }

    fn after_expr(&self, _expr: &Expr) -> Self {
        *self
    }

    fn after_fn(&self, _f: &Fn) -> Self {
        *self
    }

    fn visit_item(&mut self, item: &Item) {
        walk_item(self, item)
    }

    fn visit_block(&mut self, block: &Block) {
        self.seen.borrow_mut().blocks += 1;
        walk_block(self, block)
    }

    fn visit_stmt(&mut self, stmt: &Stmt) {
        match &stmt.kind {
            StmtKind::Expr(e) => self.visit_expr(e),
            _ => {
                self.seen.borrow_mut().semis += 1;
                walk_stmt(self, stmt)
            }
        }
    }

    fn visit_expr(&mut self, expr: &Expr) {
        if let ExprKind::Var(v) = &expr.kind {
            self.seen.borrow_mut().vars.push(v.name.clone());
        }
        walk_expr(self, expr)
    }

    fn visit_fn(&mut self, f: &Fn) {
        self.seen.borrow_mut().fns += 1;
        walk_fn(self, f)
    }
}

#[test]
fn walks_reach_every_node_in_order() {
    let file = Parser::new("fn main() { ; f(a g(b)) unsafe { c } ; }", PathBuf::from("t.hds"))
        .unwrap()
        .parse_source_file()
        .unwrap();
    let seen = RefCell::new(Seen::default());
    let mut names = Names { seen: &seen };
    for item in &file.items {
        names.visit_item(item);
    }
    let seen = seen.into_inner();
    assert_eq!(seen.vars, vec!["f", "a", "g", "b", "c"]);
    assert_eq!(seen.fns, 1);
    assert_eq!(seen.blocks, 2);
    assert_eq!(seen.semis, 2);
}
