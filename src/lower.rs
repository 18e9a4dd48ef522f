use vstd::prelude::*;

use crate::ast::{
    foreign_item_view, ty_view, ForeignItem, ForeignItemKind, Item, ItemKind, SourceFile, Ty,
    TyKind, TyKindV, TyV,
};
use crate::span::Span;

verus! {

use vstd::string::StringExecFns;

/// Why a tree could not be lowered to the target language.
#[derive(Debug, Clone, Copy, PartialEq, Eq, Structural)]
pub enum LowerError {
    /// A type that has no spelling in the target language yet.
    UnsupportedType { span: Span },
    /// A declaration in a foreign block that has a body.
    ForeignBody { span: Span },
}

pub open spec fn void_text() -> Seq<char> {
    seq!['v', 'o', 'i', 'd']
}

/// The target spelling of a type: only the unit type has one.
pub open spec fn ty_text(ty: TyV) -> Result<Seq<char>, LowerError> {
    match ty.kind {
        TyKindV::Tup(items) => if items.len() == 0 {
            Ok(void_text())
        } else {
            Err(LowerError::UnsupportedType { span: ty.span })
        },
        TyKindV::Var(_) => Err(LowerError::UnsupportedType { span: ty.span }),
    }
}

/// The target declaration of a foreign function: `<return type> <name>();`,
/// with `void` when no return type is given.
pub open spec fn foreign_decl_text(i: &ForeignItem) -> Result<Seq<char>, LowerError> {
    let v = foreign_item_view(i);
    let ret = match v.func.return_ty {
        Some(t) => ty_text(t),
        None => Ok(void_text()),
    };
    match ret {
        Err(e) => Err(e),
        Ok(r) => if v.func.body is Some {
            Err(LowerError::ForeignBody { span: v.span })
        } else {
            Ok(r + seq![' '] + v.name + seq!['(', ')', ';'])
        },
    }
}

/// `acc` followed by the declarations of the foreign items `s[i..]`.
pub open spec fn foreign_decls_text(s: Seq<ForeignItem>, i: int, acc: Seq<char>) -> Result<
    Seq<char>,
    LowerError,
>
    decreases s.len() - i,
{
    if i < 0 || i >= s.len() {
        Ok(acc)
    } else {
        match foreign_decl_text(&s[i]) {
            Err(e) => Err(e),
            Ok(d) => foreign_decls_text(s, i + 1, acc + d),
        }
    }
}

/// `acc` followed by the declarations of every foreign block among `s[i..]`;
/// functions with bodies are left to the other pass.
pub open spec fn interface_text(s: Seq<Item>, i: int, acc: Seq<char>) -> Result<
    Seq<char>,
    LowerError,
>
    decreases s.len() - i,
{
    if i < 0 || i >= s.len() {
        Ok(acc)
    } else {
        match &s[i].kind {
            ItemKind::ForeignMod(m) => match foreign_decls_text(m.items@, 0, acc) {
                Err(e) => Err(e),
                Ok(a) => interface_text(s, i + 1, a),
            },
            ItemKind::Fn(_) => interface_text(s, i + 1, acc),
        }
    }
}

/// The target spelling of a type.
fn lower_ty(ty: &Ty) -> (r: Result<String, LowerError>)
    ensures
        match ty_text(ty_view(ty)) {
            Ok(s) => r matches Ok(x) && x@ == s,
            Err(e) => r == Err::<String, LowerError>(e),
        },
{
    match &ty.kind {
        TyKind::Tup(items) => {
            if items.len() == 0 {
                proof {
                    reveal_strlit("void");
                }
                let r = "void".to_owned();
                assert(r@ =~= void_text());
                Ok(r)
            } else {
                Err(LowerError::UnsupportedType { span: ty.meta.span })
            }
        },
        TyKind::Var(_) => Err(LowerError::UnsupportedType { span: ty.meta.span }),
    }
}

/// The pass that writes the declarations of foreign functions.
struct LowerInterfaceCtx {
    buffer: String,
}

impl LowerInterfaceCtx {
    fn new(buffer: String) -> (r: LowerInterfaceCtx)
        ensures
            r.buffer == buffer,
    {
        LowerInterfaceCtx { buffer }
    }

    fn lower(self, source_file: &SourceFile) -> (r: Result<String, LowerError>)
        ensures
            match interface_text(source_file.items@, 0, self.buffer@) {
                Ok(s) => r matches Ok(x) && x@ == s,
                Err(e) => r == Err::<String, LowerError>(e),
            },
    {
        let mut ctx = self;
        let ghost total = interface_text(source_file.items@, 0, ctx.buffer@);
        let mut i: usize = 0;
        while i < source_file.items.len()
            invariant
                i <= source_file.items@.len(),
                total == interface_text(source_file.items@, 0, self.buffer@),
                total == interface_text(source_file.items@, i as int, ctx.buffer@),
            decreases source_file.items@.len() - i,
        {
            match &source_file.items[i].kind {
                ItemKind::ForeignMod(m) => {
                    let ghost before = ctx.buffer@;
                    let mut j: usize = 0;
                    while j < m.items.len()
                        invariant
                            j <= m.items@.len(),
                            i < source_file.items@.len(),
                            total == interface_text(source_file.items@, 0, self.buffer@),
                            source_file.items@[i as int].kind == ItemKind::ForeignMod(*m),
                            foreign_decls_text(m.items@, 0, before) == foreign_decls_text(
                                m.items@,
                                j as int,
                                ctx.buffer@,
                            ),
                            total == match foreign_decls_text(m.items@, 0, before) {
                                Err(e) => Err(e),
                                Ok(a) => interface_text(source_file.items@, i + 1, a),
                            },
                        decreases m.items@.len() - j,
                    {
                        let item = &m.items[j];
                        match &item.kind {
                            ForeignItemKind::Fn(f) => match ctx.lower_foreign_fn(item, f) {
                                Ok(()) => {},
                                Err(e) => return Err(e),
                            },
                        }
                        j = j + 1;
                    }
                },
                ItemKind::Fn(_) => {},
            }
            i = i + 1;
        }
        Ok(ctx.buffer)
    }

    /// Writes the declaration of one foreign function.
    fn lower_foreign_fn(&mut self, item: &ForeignItem, f: &crate::ast::Fn) -> (r: Result<
        (),
        LowerError,
    >)
        requires
            item.kind == ForeignItemKind::Fn(*f),
        ensures
            match foreign_decl_text(item) {
                Ok(d) => r is Ok && final(self).buffer@ == old(self).buffer@ + d,
                Err(e) => r == Err::<(), LowerError>(e) && final(self).buffer@ == old(self).buffer@,
            },
    {
        let return_ty = match &f.return_ty {
            Some(ty) => match lower_ty(ty) {
                Ok(s) => s,
                Err(e) => return Err(e),
            },
            None => {
                proof {
                    reveal_strlit("void");
                }
                let r = "void".to_owned();
                assert(r@ =~= void_text());
                r
            },
        };
        if f.body.is_some() {
            return Err(LowerError::ForeignBody { span: item.meta.span });
        }
        proof {
            reveal_strlit(" ");
            reveal_strlit("();");
        }
        self.buffer.append(return_ty.as_str());
        self.buffer.append(" ");
        self.buffer.append(item.name.as_str());
        self.buffer.append("();");
        assert(self.buffer@ =~= old(self).buffer@ + (return_ty@ + seq![' '] + item.name@ + seq![
            '(',
            ')',
            ';',
        ]));
        Ok(())
    }
}

/// The pass that writes function bodies; it writes nothing yet.
struct LowerImplCtx {
    buffer: String,
}

impl LowerImplCtx {
    fn new(buffer: String) -> (r: LowerImplCtx)
        ensures
            r.buffer == buffer,
    {
        LowerImplCtx { buffer }
    }

    fn lower(self, source_file: SourceFile) -> (r: String)
        ensures
            r@ == self.buffer@,
    {
        self.buffer
    }
}

/// Lowers a file to the target language: the declarations of its foreign
/// functions, in order, then its function bodies (none are written yet).
pub fn lower_source_file(source_file: SourceFile) -> (r: Result<String, LowerError>)
    ensures
        match interface_text(source_file.items@, 0, seq![]) {
            Ok(s) => r matches Ok(x) && x@ == s,
            Err(e) => r == Err::<String, LowerError>(e),
        },
{
    let buffer = String::new();
    let lowerer = LowerInterfaceCtx::new(buffer);
    let buffer = match lowerer.lower(&source_file) {
        Ok(b) => b,
        Err(e) => return Err(e),
    };
    let lowerer = LowerImplCtx::new(buffer);
    Ok(lowerer.lower(source_file))
}

} // verus!
