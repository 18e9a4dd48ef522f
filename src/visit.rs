use vstd::prelude::*;

use crate::ast::{Block, Expr, ExprKind, Fn, Item, ItemKind, Stmt};

verus! {

/// A pass over the syntax tree: one operation per kind of node. A pass that
/// needs nothing special at a node hands it to the matching `walk_` function,
/// which visits the node's children through the same pass. Each `after_` spec
/// function is the pass's state after the matching visit.
pub trait Visitor: Sized {
    spec fn after_item(&self, item: &Item) -> Self;

    spec fn after_block(&self, block: &Block) -> Self;

    spec fn after_stmt(&self, stmt: &Stmt) -> Self;

    spec fn after_expr(&self, expr: &Expr) -> Self;

    spec fn after_fn(&self, f: &Fn) -> Self;

    fn visit_item(&mut self, item: &Item)
        ensures
            *final(self) == old(self).after_item(item),
    ;

    fn visit_block(&mut self, block: &Block)
        ensures
            *final(self) == old(self).after_block(block),
    ;

    fn visit_stmt(&mut self, stmt: &Stmt)
        ensures
            *final(self) == old(self).after_stmt(stmt),
    ;

    fn visit_expr(&mut self, expr: &Expr)
        ensures
            *final(self) == old(self).after_expr(expr),
    ;

    fn visit_fn(&mut self, f: &Fn)
        ensures
            *final(self) == old(self).after_fn(f),
    ;
}

/// The state of `v` after visiting the expressions of `s` in order.
pub open spec fn after_exprs<V: Visitor>(v: V, s: Seq<Expr>) -> V
    decreases s.len(),
{
    if s.len() == 0 {
        v
    } else {
        after_exprs(v, s.drop_last()).after_expr(&s.last())
    }
}

/// The state of `v` after visiting the statements of `s` in order.
pub open spec fn after_stmts<V: Visitor>(v: V, s: Seq<Stmt>) -> V
    decreases s.len(),
{
    if s.len() == 0 {
        v
    } else {
        after_stmts(v, s.drop_last()).after_stmt(&s.last())
    }
}

/// Visits the block of a block expression, or the callee and then each
/// argument, left to right, of a call; other expressions have no children.
pub fn walk_expr<V: Visitor>(visitor: &mut V, expr: &Expr)
    ensures
        match &expr.kind {
            ExprKind::Block(b) => *final(visitor) == old(visitor).after_block(b),
            ExprKind::Call(callee, args) => *final(visitor) == after_exprs(
                old(visitor).after_expr(callee),
                args@,
            ),
            _ => *final(visitor) == *old(visitor),
        },
{
    match &expr.kind {
        ExprKind::Block(block) => visitor.visit_block(block),
        ExprKind::Unit => {},
        ExprKind::Lit(_) => {},
        ExprKind::Var(_) => {},
        ExprKind::Call(callee, args) => {
            visitor.visit_expr(callee);
            let ghost start = *visitor;
            let mut i: usize = 0;
            assert(args@.subrange(0, 0) =~= Seq::<Expr>::empty());
            while i < args.len()
                invariant
                    i <= args@.len(),
                    *visitor == after_exprs(start, args@.subrange(0, i as int)),
                decreases args@.len() - i,
            {
                visitor.visit_expr(&args[i]);
                assert(args@.subrange(0, i + 1).drop_last() =~= args@.subrange(0, i as int));
                i = i + 1;
            }
            assert(args@.subrange(0, args@.len() as int) =~= args@);
        },
    }
}

/// Visits the statements of a block in order.
pub fn walk_block<V: Visitor>(visitor: &mut V, block: &Block)
    ensures
        *final(visitor) == after_stmts(*old(visitor), block.stmts@),
{
    let ghost start = *visitor;
    let mut i: usize = 0;
    assert(block.stmts@.subrange(0, 0) =~= Seq::<Stmt>::empty());
    while i < block.stmts.len()
        invariant
            i <= block.stmts@.len(),
            *visitor == after_stmts(start, block.stmts@.subrange(0, i as int)),
            start == *old(visitor),
        decreases block.stmts@.len() - i,
    {
        visitor.visit_stmt(&block.stmts[i]);
        assert(block.stmts@.subrange(0, i + 1).drop_last() =~= block.stmts@.subrange(0, i as int));
        i = i + 1;
    }
    assert(block.stmts@.subrange(0, block.stmts@.len() as int) =~= block.stmts@);
}

/// Visits the function of a function item. The walk of a foreign block is
/// not defined.
pub fn walk_item<V: Visitor>(visitor: &mut V, item: &Item)
    requires
        item.kind is Fn,
    ensures
        match &item.kind {
            ItemKind::Fn(f) => *final(visitor) == old(visitor).after_fn(f),
            ItemKind::ForeignMod(_) => false,
        },
{
    match &item.kind {
        ItemKind::Fn(f) => visitor.visit_fn(f),
        ItemKind::ForeignMod(_) => {},
    }
}

/// A `;` statement has nothing to visit. The walk of other statements is not
/// defined: a pass that meets them handles them itself.
pub fn walk_stmt<V: Visitor>(visitor: &mut V, stmt: &Stmt)
    requires
        stmt.kind is Semi,
    ensures
        *final(visitor) == *old(visitor),
{
}

/// Visits the body of a function, if it has one; parameters and the return
/// type are not visited.
pub fn walk_fn<V: Visitor>(visitor: &mut V, f: &Fn)
    ensures
        match &f.body {
            Some(b) => *final(visitor) == old(visitor).after_expr(b),
            None => *final(visitor) == *old(visitor),
        },
{
    if let Some(body) = &f.body {
        visitor.visit_expr(body);
    }
}

} // verus!
