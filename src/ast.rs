use vstd::prelude::*;

use crate::span::{HasMeta, HasSpan, Meta, Span};

verus! {

pub type Ident = String;

/// The root of a syntax tree: one parsed file.
#[derive(Debug)]
pub struct SourceFile {
    pub path: std::path::PathBuf,
    pub items: Vec<Item>,
}

#[derive(Clone, Copy, PartialEq, Eq, Hash, Debug, Structural)]
pub struct NodeId(pub usize);

#[derive(Debug)]
pub struct Item {
    pub meta: Meta,
    pub kind: ItemKind,
    pub vis: Visibility,
    pub name: Ident,
}

#[derive(Debug, Clone, Copy, PartialEq, Eq, Structural)]
pub enum Visibility {
    Public,
    Inherited,
}

/// A function. `body` is absent only for a declaration in a foreign block.
#[derive(Debug)]
pub struct Fn {
    pub meta: Meta,
    pub params: Vec<Param>,
    pub body: Option<Box<Expr>>,
    pub return_ty: Option<Ty>,
}

#[derive(Debug)]
pub struct Param {
    pub meta: Meta,
    pub name: Ident,
    pub ty: Ty,
}

#[derive(Debug)]
pub struct Expr {
    pub meta: Meta,
    pub kind: ExprKind,
}

#[derive(Debug)]
pub enum ExprKind {
    Block(Block),
    Call(Box<Expr>, Vec<Expr>),
    Lit(Lit),
    Var(Var),
    Unit,
}

#[derive(Debug)]
pub struct Var {
    pub name: Ident,
}

#[derive(Debug)]
pub struct Lit {
    pub kind: LitKind,
    pub text: String,
}

#[derive(Debug, Clone, Copy, PartialEq, Eq, Structural)]
pub enum LitKind {
    Integer,
}

#[derive(Debug)]
pub struct Block {
    pub meta: Meta,
    pub stmts: Vec<Stmt>,
}

#[derive(Debug)]
pub enum ItemKind {
    Fn(Box<Fn>),
    ForeignMod(ForeignMod),
}

/// The declarations of a foreign block.
#[derive(Debug)]
pub struct ForeignMod {
    pub items: Vec<ForeignItem>,
}

#[derive(Debug)]
pub struct ForeignItem {
    pub meta: Meta,
    pub name: Ident,
    pub vis: Visibility,
    pub kind: ForeignItemKind,
}

#[derive(Debug)]
pub enum ForeignItemKind {
    Fn(Fn),
}

#[derive(Debug)]
pub struct Stmt {
    pub meta: Meta,
    pub kind: StmtKind,
}

#[derive(Debug)]
pub enum StmtKind {
    Item(Item),
    Semi,
    Expr(Box<Expr>),
}

#[derive(Debug)]
pub struct Ty {
    pub meta: Meta,
    pub kind: TyKind,
}

/// A type: a tuple of types (`()` is the unit type), or a name that a later
/// pass resolves.
#[derive(Debug)]
pub enum TyKind {
    Tup(Vec<Ty>),
    Var(Ident),
}

// The mathematical model of the tree: the same shape, with sequences for
// vectors and character sequences for strings.
pub struct TyV {
    pub span: Span,
    pub kind: TyKindV,
}

pub enum TyKindV {
    Tup(Seq<TyV>),
    Var(Seq<char>),
}

pub struct ExprV {
    pub span: Span,
    pub kind: ExprKindV,
}

pub enum ExprKindV {
    Block(BlockV),
    Call(Box<ExprV>, Seq<ExprV>),
    Lit(LitKind, Seq<char>),
    Var(Seq<char>),
    Unit,
}

pub struct BlockV {
    pub span: Span,
    pub stmts: Seq<StmtV>,
}

pub struct StmtV {
    pub span: Span,
    pub kind: StmtKindV,
}

pub enum StmtKindV {
    Item(Box<ItemV>),
    Semi,
    Expr(ExprV),
}

pub struct ParamV {
    pub span: Span,
    pub name: Seq<char>,
    pub ty: TyV,
}

pub struct FnV {
    pub span: Span,
    pub params: Seq<ParamV>,
    pub body: Option<ExprV>,
    pub return_ty: Option<TyV>,
}

pub struct ForeignItemV {
    pub span: Span,
    pub name: Seq<char>,
    pub vis: Visibility,
    pub func: FnV,
}

pub enum ItemKindV {
    Fn(FnV),
    ForeignMod(Seq<ForeignItemV>),
}

pub struct ItemV {
    pub span: Span,
    pub kind: ItemKindV,
    pub vis: Visibility,
    pub name: Seq<char>,
}

pub open spec fn ty_view(t: &Ty) -> TyV
    decreases t,
{
    TyV {
        span: t.meta.span,
        kind: match &t.kind {
            TyKind::Tup(v) => TyKindV::Tup(tys_view(v@)),
            TyKind::Var(n) => TyKindV::Var(n@),
        },
    }
}

pub open spec fn tys_view(s: Seq<Ty>) -> Seq<TyV>
    decreases s,
{
    if s.len() == 0 {
        seq![]
    } else {
        tys_view(s.drop_last()).push(ty_view(&s.last()))
    }
}

pub open spec fn param_view(p: &Param) -> ParamV {
    ParamV { span: p.meta.span, name: p.name@, ty: ty_view(&p.ty) }
}

pub open spec fn params_view(s: Seq<Param>) -> Seq<ParamV> {
    s.map_values(|p: Param| param_view(&p))
}

pub open spec fn expr_view(e: &Expr) -> ExprV
    decreases e,
{
    ExprV {
        span: e.meta.span,
        kind: match &e.kind {
            ExprKind::Block(b) => ExprKindV::Block(block_view(b)),
            ExprKind::Call(callee, args) => ExprKindV::Call(
                Box::new(expr_view(callee)),
                exprs_view(args@),
            ),
            ExprKind::Lit(l) => ExprKindV::Lit(l.kind, l.text@),
            ExprKind::Var(v) => ExprKindV::Var(v.name@),
            ExprKind::Unit => ExprKindV::Unit,
        },
    }
}

pub open spec fn exprs_view(s: Seq<Expr>) -> Seq<ExprV>
    decreases s,
{
    if s.len() == 0 {
        seq![]
    } else {
        exprs_view(s.drop_last()).push(expr_view(&s.last()))
    }
}

pub open spec fn block_view(b: &Block) -> BlockV
    decreases b,
{
    BlockV { span: b.meta.span, stmts: stmts_view(b.stmts@) }
}

pub open spec fn stmts_view(s: Seq<Stmt>) -> Seq<StmtV>
    decreases s,
{
    if s.len() == 0 {
        seq![]
    } else {
        stmts_view(s.drop_last()).push(stmt_view(&s.last()))
    }
}

pub open spec fn stmt_view(s: &Stmt) -> StmtV
    decreases s,
{
    StmtV {
        span: s.meta.span,
        kind: match &s.kind {
            StmtKind::Item(i) => StmtKindV::Item(Box::new(item_view(i))),
            StmtKind::Semi => StmtKindV::Semi,
            StmtKind::Expr(e) => StmtKindV::Expr(expr_view(e)),
        },
    }
}

pub open spec fn fn_view(f: &Fn) -> FnV
    decreases f,
{
    FnV {
        span: f.meta.span,
        params: params_view(f.params@),
        body: match &f.body {
            Some(b) => Some(expr_view(b)),
            None => None,
        },
        return_ty: match &f.return_ty {
            Some(t) => Some(ty_view(t)),
            None => None,
        },
    }
}

pub open spec fn foreign_item_view(i: &ForeignItem) -> ForeignItemV
    decreases i,
{
    ForeignItemV {
        span: i.meta.span,
        name: i.name@,
        vis: i.vis,
        func: match &i.kind {
            ForeignItemKind::Fn(f) => fn_view(f),
        },
    }
}

pub open spec fn foreign_items_view(s: Seq<ForeignItem>) -> Seq<ForeignItemV>
    decreases s,
{
    if s.len() == 0 {
        seq![]
    } else {
        foreign_items_view(s.drop_last()).push(foreign_item_view(&s.last()))
    }
}

pub open spec fn item_view(i: &Item) -> ItemV
    decreases i,
{
    ItemV {
        span: i.meta.span,
        kind: match &i.kind {
            ItemKind::Fn(f) => ItemKindV::Fn(fn_view(f)),
            ItemKind::ForeignMod(m) => ItemKindV::ForeignMod(foreign_items_view(m.items@)),
        },
        vis: i.vis,
        name: i.name@,
    }
}

pub open spec fn items_view(s: Seq<Item>) -> Seq<ItemV>
    decreases s,
{
    if s.len() == 0 {
        seq![]
    } else {
        items_view(s.drop_last()).push(item_view(&s.last()))
    }
}

impl View for SourceFile {
    type V = Seq<ItemV>;

    /// The items of the file; the path is not part of the tree.
    open spec fn view(&self) -> Seq<ItemV> {
        items_view(self.items@)
    }
}

impl HasMeta for Item {
    open spec fn spec_meta(&self) -> Meta {
        self.meta
    }

    fn meta(&self) -> (r: &Meta) {
        &self.meta
    }
}

impl HasSpan for Item {
    open spec fn spec_span(&self) -> Span {
        self.meta.span
    }

    fn span(&self) -> (r: &Span) {
        &self.meta.span
    }
}

impl HasMeta for Fn {
    open spec fn spec_meta(&self) -> Meta {
        self.meta
    }

    fn meta(&self) -> (r: &Meta) {
        &self.meta
    }
}

impl HasSpan for Fn {
    open spec fn spec_span(&self) -> Span {
        self.meta.span
    }

    fn span(&self) -> (r: &Span) {
        &self.meta.span
    }
}

impl HasMeta for Param {
    open spec fn spec_meta(&self) -> Meta {
        self.meta
    }

    fn meta(&self) -> (r: &Meta) {
        &self.meta
    }
}

impl HasSpan for Param {
    open spec fn spec_span(&self) -> Span {
        self.meta.span
    }

    fn span(&self) -> (r: &Span) {
        &self.meta.span
    }
}

impl HasMeta for Expr {
    open spec fn spec_meta(&self) -> Meta {
        self.meta
    }

    fn meta(&self) -> (r: &Meta) {
        &self.meta
    }
}

impl HasSpan for Expr {
    open spec fn spec_span(&self) -> Span {
        self.meta.span
    }

    fn span(&self) -> (r: &Span) {
        &self.meta.span
    }
}

impl HasMeta for Block {
    open spec fn spec_meta(&self) -> Meta {
        self.meta
    }

    fn meta(&self) -> (r: &Meta) {
        &self.meta
    }
}

impl HasSpan for Block {
    open spec fn spec_span(&self) -> Span {
        self.meta.span
    }

    fn span(&self) -> (r: &Span) {
        &self.meta.span
    }
}

impl HasMeta for ForeignItem {
    open spec fn spec_meta(&self) -> Meta {
        self.meta
    }

    fn meta(&self) -> (r: &Meta) {
        &self.meta
    }
}

impl HasSpan for ForeignItem {
    open spec fn spec_span(&self) -> Span {
        self.meta.span
    }

    fn span(&self) -> (r: &Span) {
        &self.meta.span
    }
}

impl HasMeta for Stmt {
    open spec fn spec_meta(&self) -> Meta {
        self.meta
    }

    fn meta(&self) -> (r: &Meta) {
        &self.meta
    }
}

impl HasSpan for Stmt {
    open spec fn spec_span(&self) -> Span {
        self.meta.span
    }

    fn span(&self) -> (r: &Span) {
        &self.meta.span
    }
}

impl HasMeta for Ty {
    open spec fn spec_meta(&self) -> Meta {
        self.meta
    }

    fn meta(&self) -> (r: &Meta) {
        &self.meta
    }
}

impl HasSpan for Ty {
    open spec fn spec_span(&self) -> Span {
        self.meta.span
    }

    fn span(&self) -> (r: &Span) {
        &self.meta.span
    }
}

} // verus!
