use vstd::prelude::*;

use crate::ast::{
    block_view, expr_view, exprs_view, fn_view, foreign_item_view, foreign_items_view, item_view,
    items_view, param_view, params_view, stmt_view, stmts_view, ty_view, tys_view, Block, Expr,
    ExprKind, Fn, ForeignItem, ForeignItemKind, ForeignMod, Ident, Item, ItemKind, Lit, LitKind,
    Param, SourceFile, Stmt, StmtKind, Ty, TyKind, Var, Visibility,
};
use crate::buffer::TokenBuffer;
use crate::grammar::{
    args_from, block_at, bump, expect_at, expr_at, expr_tail_at, fn_at,
    foreign_item_at, foreign_items_from, foreign_mod_at, foreign_mod_name, item_at,
    items_from, join, kind_at, lemma_progress, param_list_at, params_from, parse_text, remaining,
    return_ty_at, span_at, stmt_at, stmts_from, text_at, tok, ty_at, unexpected, vis_at,
    ParseError,
};
use crate::lexer::{token_is, Lexer, Token, TokenKind};
use crate::span::{Meta, Span};

verus! {

/// Whether `x` is the `n`th token of the text `t`.
pub open spec fn is_token_at(x: &Token, t: Seq<char>, n: nat) -> bool {
    &&& tok(t, n) is Ok
    &&& token_is(x, t, tok(t, n)->Ok_0)
}

pub proof fn lemma_token_at(x: &Token, t: Seq<char>, n: nat)
    requires
        is_token_at(x, t, n),
    ensures
        x.kind == kind_at(t, n),
        x.span == span_at(t, n),
        x.text@ == text_at(t, n),
{
}

/// Whether `r` is what parsing the text `t` of the file at `path` yields: the
/// items that the grammar gives, or the error at which it stops.
pub open spec fn parsed_as(
    t: Seq<char>,
    path: std::path::PathBuf,
    r: &Result<SourceFile, ParseError>,
) -> bool {
    match parse_text(t) {
        Ok(items) => r matches Ok(f) && f@ == items && f.path == path,
        Err(e) => *r == Err::<SourceFile, ParseError>(e),
    }
}

/// Parsing is a function of the text and path alone: two parses of the same
/// text and path both succeed with the same path and items, or both fail with
/// the same error.
pub proof fn lemma_parse_is_deterministic(
    t: Seq<char>,
    path: std::path::PathBuf,
    a: Result<SourceFile, ParseError>,
    b: Result<SourceFile, ParseError>,
)
    requires
        parsed_as(t, path, &a),
        parsed_as(t, path, &b),
    ensures
        a is Ok <==> b is Ok,
        a is Ok && b is Ok ==> a->Ok_0@ == b->Ok_0@ && a->Ok_0.path == b->Ok_0.path,
        a is Err ==> a == b,
{
}

/// A recursive-descent parser over a text.
pub struct Parser {
    state: ParseState,
}

/// The parser at work: its token buffer, positioned at the next token to read.
struct ParseState {
    tokens: TokenBuffer,
}

impl ParseState {
    spec fn wf(&self) -> bool {
        &&& self.tokens.wf()
        &&& self.tokens.base() == 0
    }

    spec fn text(&self) -> Seq<char> {
        self.tokens.text()
    }

    spec fn pos(&self) -> nat {
        self.tokens.consumed()
    }

    spec fn path(&self) -> std::path::PathBuf {
        self.tokens.path()
    }

    fn current_kind(&self) -> (r: TokenKind)
        requires
            self.wf(),
        ensures
            r == kind_at(self.text(), self.pos()),
            tok(self.text(), self.pos()) is Ok,
    {
        self.tokens.current_kind()
    }

    fn at(&self, kind: TokenKind) -> (r: bool)
        requires
            self.wf(),
        ensures
            r == (kind_at(self.text(), self.pos()) == kind),
            tok(self.text(), self.pos()) is Ok,
    {
        self.current_kind() == kind
    }

    fn eof(&self) -> (r: bool)
        requires
            self.wf(),
        ensures
            r == (kind_at(self.text(), self.pos()) == TokenKind::EOF),
            tok(self.text(), self.pos()) is Ok,
    {
        self.current_kind() == TokenKind::EOF
    }

    /// The error for a current token that no rule can start with.
    fn unexpected(&self) -> (r: ParseError)
        requires
            self.wf(),
        ensures
            r == unexpected(self.text(), self.pos()),
    {
        let cur = self.tokens.current();
        ParseError::Unexpected { found: cur.kind, span: cur.span }
    }

    fn advance(&mut self) -> (r: Result<Token, ParseError>)
        requires
            old(self).wf(),
        ensures
            final(self).text() == old(self).text(),
            final(self).path() == old(self).path(),
            match bump(old(self).text(), old(self).pos()) {
                Ok(n1) => r matches Ok(x) && is_token_at(&x, old(self).text(), old(self).pos())
                    && final(self).wf() && final(self).pos() == n1,
                Err(e) => r == Err::<Token, ParseError>(e),
            },
    {
        match self.tokens.advance() {
            Ok(x) => Ok(x),
            Err(e) => Err(ParseError::Lex(e)),
        }
    }

    /// Consumes the current token, which must be of kind `kind`.
    fn expect(&mut self, kind: TokenKind) -> (r: Result<Token, ParseError>)
        requires
            old(self).wf(),
        ensures
            final(self).text() == old(self).text(),
            final(self).path() == old(self).path(),
            match expect_at(old(self).text(), old(self).pos(), kind) {
                Ok(n1) => r matches Ok(x) && is_token_at(&x, old(self).text(), old(self).pos())
                    && final(self).wf() && final(self).pos() == n1,
                Err(e) => r == Err::<Token, ParseError>(e),
            },
            // A token of another kind is consumed all the same.
            bump(old(self).text(), old(self).pos()) matches Ok(n1) ==> final(self).wf()
                && final(self).pos() == n1,
    {
        let ghost t = self.text();
        let ghost n = self.pos();
        let token = match self.advance() {
            Ok(x) => x,
            Err(e) => return Err(e),
        };
        proof {
            lemma_token_at(&token, t, n);
        }
        if token.kind != kind {
            return Err(ParseError::Expected { expected: kind, found: token.kind, span: token.span });
        }
        Ok(token)
    }

    fn parse_ty(&mut self) -> (r: Result<Ty, ParseError>)
        requires
            old(self).wf(),
        ensures
            final(self).text() == old(self).text(),
            final(self).path() == old(self).path(),
            match ty_at(old(self).text(), old(self).pos()) {
                Ok((v, n)) => r matches Ok(x) && ty_view(&x) == v && final(self).wf()
                    && final(self).pos() == n && n > old(self).pos(),
                Err(e) => r == Err::<Ty, ParseError>(e),
            },
    {
        let ghost t = self.text();
        let ghost n = self.pos();
        let k = self.current_kind();
        if k == TokenKind::LPAREN {
            let start = match self.expect(TokenKind::LPAREN) {
                Ok(x) => x,
                Err(e) => return Err(e),
            };
            let end = match self.expect(TokenKind::RPAREN) {
                Ok(x) => x,
                Err(e) => return Err(e),
            };
            proof {
                lemma_token_at(&start, t, n);
                lemma_token_at(&end, t, n + 1);
            }
            let r = Ty {
                meta: Meta { span: Span::between(&start, &end) },
                kind: TyKind::Tup(Vec::new()),
            };
            assert(tys_view(Seq::<Ty>::empty()) =~= seq![]);
            Ok(r)
        } else if k == TokenKind::IDENT {
            let token = match self.advance() {
                Ok(x) => x,
                Err(e) => return Err(e),
            };
            proof {
                lemma_token_at(&token, t, n);
            }
            Ok(Ty { meta: Meta { span: token.span }, kind: TyKind::Var(token.text) })
        } else {
            Err(self.unexpected())
        }
    }

    /// A parenthesised parameter list, and its closing parenthesis.
    fn parse_params(&mut self) -> (r: Result<(Vec<Param>, Token), ParseError>)
        requires
            old(self).wf(),
        ensures
            final(self).text() == old(self).text(),
            final(self).path() == old(self).path(),
            match param_list_at(old(self).text(), old(self).pos()) {
                Ok((ps, rp, n)) => r matches Ok(x) && params_view(x.0@) == ps && x.1.span == rp
                    && is_token_at(&x.1, old(self).text(), (n - 1) as nat)
                    && final(self).wf() && final(self).pos() == n && n > old(self).pos(),
                Err(e) => r == Err::<(Vec<Param>, Token), ParseError>(e),
            },
    {
        let ghost t = self.text();
        let ghost n = self.pos();
        match self.expect(TokenKind::LPAREN) {
            Ok(_) => {},
            Err(e) => return Err(e),
        }
        let mut params: Vec<Param> = Vec::new();
        assert(params_view(params@) =~= seq![]);
        while !self.at(TokenKind::RPAREN) && !self.eof()
            invariant
                self.wf(),
                self.text() == t,
                t == old(self).text(),
                self.path() == old(self).path(),
                n == old(self).pos(),
                self.pos() > n,
                params_from(t, n + 1, seq![]) == params_from(t, self.pos(), params_view(params@)),
                expect_at(t, n, TokenKind::LPAREN) == Ok::<nat, ParseError>(n + 1),
            decreases remaining(t, self.pos()),
        {
            let ghost m = self.pos();
            let ghost before = params_view(params@);
            let name = match self.expect(TokenKind::IDENT) {
                Ok(x) => x,
                Err(e) => return Err(e),
            };
            match self.expect(TokenKind::COLON) {
                Ok(_) => {},
                Err(e) => return Err(e),
            }
            let ty = match self.parse_ty() {
                Ok(x) => x,
                Err(e) => return Err(e),
            };
            proof {
                lemma_token_at(&name, t, m);
                lemma_progress(t, m, self.pos());
            }
            let span = Span::between(&name, &ty);
            let param = Param { meta: Meta { span }, name: name.text, ty };
            params.push(param);
            assert(params_view(params@) =~= before.push(param_view(&param)));
        }
        let rparen = match self.expect(TokenKind::RPAREN) {
            Ok(x) => x,
            Err(e) => return Err(e),
        };
        proof {
            lemma_token_at(&rparen, t, (self.pos() - 1) as nat);
        }
        Ok((params, rparen))
    }

    fn parse_block(&mut self) -> (r: Result<Block, ParseError>)
        requires
            old(self).wf(),
        ensures
            final(self).text() == old(self).text(),
            final(self).path() == old(self).path(),
            match block_at(old(self).text(), old(self).pos()) {
                Ok((v, n)) => r matches Ok(x) && block_view(&x) == v && final(self).wf()
                    && final(self).pos() == n && n > old(self).pos(),
                Err(e) => r == Err::<Block, ParseError>(e),
            },
        decreases remaining(old(self).text(), old(self).pos()), 0nat,
    {
        let ghost t = self.text();
        let ghost n = self.pos();
        let start = match self.expect(TokenKind::LBRACE) {
            Ok(x) => x,
            Err(e) => return Err(e),
        };
        proof {
            lemma_token_at(&start, t, n);
            lemma_progress(t, n, n + 1);
        }
        let mut stmts: Vec<Stmt> = Vec::new();
        assert(stmts_view(stmts@) =~= seq![]);
        while self.current_kind() != TokenKind::RBRACE && !self.eof()
            invariant
                self.wf(),
                self.text() == t,
                t == old(self).text(),
                self.path() == old(self).path(),
                n == old(self).pos(),
                self.pos() > n,
                remaining(t, self.pos()) < remaining(t, n),
                tok(t, n) matches Ok(x) && x.0 == TokenKind::LBRACE,
                stmts_from(t, n + 1, seq![]) == stmts_from(t, self.pos(), stmts_view(stmts@)),
                expect_at(t, n, TokenKind::LBRACE) == Ok::<nat, ParseError>(n + 1),
                remaining(t, n + 1) < remaining(t, n),
            decreases remaining(t, self.pos()),
        {
            let ghost m = self.pos();
            let ghost before = stmts_view(stmts@);
            let stmt = match self.parse_stmt() {
                Ok(x) => x,
                Err(e) => return Err(e),
            };
            proof {
                lemma_progress(t, m, self.pos());
                lemma_progress(t, n, self.pos());
            }
            let ghost prev = stmts@;
            stmts.push(stmt);
            assert(stmts@.drop_last() =~= prev);
            assert(stmts_view(stmts@) =~= before.push(stmt_view(&stmt)));
        }
        let ghost close = self.pos();
        let end = match self.expect(TokenKind::RBRACE) {
            Ok(x) => x,
            Err(e) => return Err(e),
        };
        proof {
            lemma_token_at(&end, t, close);
        }
        Ok(Block { meta: Meta { span: Span::between(&start, &end) }, stmts })
    }

    fn parse_stmt(&mut self) -> (r: Result<Stmt, ParseError>)
        requires
            old(self).wf(),
        ensures
            final(self).text() == old(self).text(),
            final(self).path() == old(self).path(),
            match stmt_at(old(self).text(), old(self).pos()) {
                Ok((v, n)) => r matches Ok(x) && stmt_view(&x) == v && final(self).wf()
                    && final(self).pos() == n && n > old(self).pos(),
                Err(e) => r == Err::<Stmt, ParseError>(e),
            },
        decreases remaining(old(self).text(), old(self).pos()), 2nat,
    {
        let ghost t = self.text();
        let ghost n = self.pos();
        if self.current_kind() == TokenKind::SEMI {
            let token = match self.advance() {
                Ok(x) => x,
                Err(e) => return Err(e),
            };
            proof {
                lemma_token_at(&token, t, n);
            }
            return Ok(Stmt { meta: Meta { span: token.span }, kind: StmtKind::Semi });
        }
        let expr = match self.parse_expr() {
            Ok(x) => x,
            Err(e) => return Err(e),
        };
        Ok(Stmt { meta: Meta { span: expr.meta.span }, kind: StmtKind::Expr(Box::new(expr)) })
    }

    fn parse_expr(&mut self) -> (r: Result<Expr, ParseError>)
        requires
            old(self).wf(),
        ensures
            final(self).text() == old(self).text(),
            final(self).path() == old(self).path(),
            match expr_at(old(self).text(), old(self).pos()) {
                Ok((v, n)) => r matches Ok(x) && expr_view(&x) == v && final(self).wf()
                    && final(self).pos() == n && n > old(self).pos(),
                Err(e) => r == Err::<Expr, ParseError>(e),
            },
        decreases remaining(old(self).text(), old(self).pos()), 1nat,
    {
        let ghost t = self.text();
        let ghost n = self.pos();
        let k = self.current_kind();
        let head = if k == TokenKind::IDENT {
            let token = match self.advance() {
                Ok(x) => x,
                Err(e) => return Err(e),
            };
            proof {
                lemma_token_at(&token, t, n);
            }
            Expr { meta: Meta { span: token.span }, kind: ExprKind::Var(Var { name: token.text }) }
        } else if k == TokenKind::LPAREN {
            let start = match self.advance() {
                Ok(x) => x,
                Err(e) => return Err(e),
            };
            let end = match self.expect(TokenKind::RPAREN) {
                Ok(x) => x,
                Err(e) => return Err(e),
            };
            proof {
                lemma_token_at(&start, t, n);
                lemma_token_at(&end, t, n + 1);
            }
            Expr { meta: Meta { span: Span::between(&start, &end) }, kind: ExprKind::Unit }
        } else if k == TokenKind::UNSAFE {
            let start = match self.advance() {
                Ok(x) => x,
                Err(e) => return Err(e),
            };
            proof {
                lemma_token_at(&start, t, n);
                lemma_progress(t, n, n + 1);
            }
            let block = match self.parse_block() {
                Ok(x) => x,
                Err(e) => return Err(e),
            };
            Expr { meta: Meta { span: Span::between(&start, &block) }, kind: ExprKind::Block(block) }
        } else if k == TokenKind::INT {
            let token = match self.advance() {
                Ok(x) => x,
                Err(e) => return Err(e),
            };
            proof {
                lemma_token_at(&token, t, n);
            }
            Expr {
                meta: Meta { span: token.span },
                kind: ExprKind::Lit(Lit { kind: LitKind::Integer, text: token.text }),
            }
        } else {
            return Err(self.unexpected());
        };
        proof {
            lemma_progress(t, n, self.pos());
        }
        self.parse_expr_tail(head)
    }

    /// An argument list after `head`, if one follows.
    fn parse_expr_tail(&mut self, head: Expr) -> (r: Result<Expr, ParseError>)
        requires
            old(self).wf(),
        ensures
            final(self).text() == old(self).text(),
            final(self).path() == old(self).path(),
            match expr_tail_at(old(self).text(), old(self).pos(), expr_view(&head)) {
                Ok((v, n)) => r matches Ok(x) && expr_view(&x) == v && final(self).wf()
                    && final(self).pos() == n && n >= old(self).pos(),
                Err(e) => r == Err::<Expr, ParseError>(e),
            },
        decreases remaining(old(self).text(), old(self).pos()), 0nat,
    {
        let ghost t = self.text();
        let ghost n = self.pos();
        if self.current_kind() == TokenKind::LPAREN {
            match self.advance() {
                Ok(_) => {},
                Err(e) => return Err(e),
            }
            proof {
                lemma_progress(t, n, n + 1);
            }
            let mut exprs: Vec<Expr> = Vec::new();
            assert(exprs_view(exprs@) =~= seq![]);
            while self.current_kind() != TokenKind::RPAREN && self.current_kind() != TokenKind::EOF
                invariant
                    self.wf(),
                    self.text() == t,
                    t == old(self).text(),
                    self.path() == old(self).path(),
                    n == old(self).pos(),
                    self.pos() > n,
                    remaining(t, self.pos()) < remaining(t, n),
                    tok(t, n) matches Ok(x) && x.0 == TokenKind::LPAREN,
                    args_from(t, n + 1, seq![]) == args_from(t, self.pos(), exprs_view(exprs@)),
                    bump(t, n) == Ok::<nat, ParseError>(n + 1),
                    kind_at(t, n) == TokenKind::LPAREN,
                    remaining(t, n + 1) < remaining(t, n),
                decreases remaining(t, self.pos()),
            {
                let ghost m = self.pos();
                let ghost before = exprs_view(exprs@);
                let e = match self.parse_expr() {
                    Ok(x) => x,
                    Err(e) => return Err(e),
                };
                proof {
                    lemma_progress(t, m, self.pos());
                    lemma_progress(t, n, self.pos());
                }
                let ghost prev = exprs@;
                exprs.push(e);
                assert(exprs@.drop_last() =~= prev);
                assert(exprs_view(exprs@) =~= before.push(expr_view(&e)));
            }
            let ghost close = self.pos();
            let end = match self.expect(TokenKind::RPAREN) {
                Ok(x) => x,
                Err(e) => return Err(e),
            };
            proof {
                lemma_token_at(&end, t, close);
            }
            Ok(
                Expr {
                    meta: Meta { span: Span::between(&head, &end) },
                    kind: ExprKind::Call(Box::new(head), exprs),
                },
            )
        } else {
            Ok(head)
        }
    }

    fn parse_block_expr(&mut self) -> (r: Result<Expr, ParseError>)
        requires
            old(self).wf(),
        ensures
            final(self).text() == old(self).text(),
            final(self).path() == old(self).path(),
            match block_at(old(self).text(), old(self).pos()) {
                Ok((v, n)) => r matches Ok(x) && expr_view(&x) == (crate::ast::ExprV {
                    span: v.span,
                    kind: crate::ast::ExprKindV::Block(v),
                }) && final(self).wf() && final(self).pos() == n && n > old(self).pos(),
                Err(e) => r == Err::<Expr, ParseError>(e),
            },
    {
        let block = match self.parse_block() {
            Ok(x) => x,
            Err(e) => return Err(e),
        };
        Ok(Expr { meta: Meta { span: block.meta.span }, kind: ExprKind::Block(block) })
    }

    fn parse_visibility(&mut self) -> (r: Result<(Visibility, Option<Token>), ParseError>)
        requires
            old(self).wf(),
        ensures
            final(self).text() == old(self).text(),
            final(self).path() == old(self).path(),
            match vis_at(old(self).text(), old(self).pos()) {
                Ok((vis, vs, n)) => r matches Ok(x) && x.0 == vis && match x.1 {
                    Some(tk) => vs == Some(tk.span) && is_token_at(&tk, old(self).text(), old(self).pos()),
                    None => vs is None,
                } && final(self).wf() && final(self).pos() == n && n >= old(self).pos(),
                Err(e) => r == Err::<(Visibility, Option<Token>), ParseError>(e),
            },
    {
        let ghost t = self.text();
        let ghost n = self.pos();
        if self.current_kind() == TokenKind::PUB {
            let token = match self.advance() {
                Ok(x) => x,
                Err(e) => return Err(e),
            };
            proof {
                lemma_token_at(&token, t, n);
            }
            Ok((Visibility::Public, Some(token)))
        } else {
            Ok((Visibility::Inherited, None))
        }
    }

    /// A function, with its name.
    fn parse_fn(&mut self, decl: bool) -> (r: Result<(Fn, Ident), ParseError>)
        requires
            old(self).wf(),
        ensures
            final(self).text() == old(self).text(),
            final(self).path() == old(self).path(),
            match fn_at(old(self).text(), old(self).pos(), decl) {
                Ok((v, name, n)) => r matches Ok(x) && fn_view(&x.0) == v && x.1@ == name
                    && final(self).wf() && final(self).pos() == n && n > old(self).pos(),
                Err(e) => r == Err::<(Fn, Ident), ParseError>(e),
            },
    {
        let ghost t = self.text();
        let ghost n = self.pos();
        let start = match self.expect(TokenKind::FN) {
            Ok(x) => x,
            Err(e) => return Err(e),
        };
        let name_token = match self.expect(TokenKind::IDENT) {
            Ok(x) => x,
            Err(e) => return Err(e),
        };
        proof {
            lemma_token_at(&start, t, n);
            lemma_token_at(&name_token, t, n + 1);
        }
        let name = name_token.text;
        let (params, rparen) = match self.parse_params() {
            Ok(x) => x,
            Err(e) => return Err(e),
        };
        let ghost n3 = self.pos();
        let return_ty = if self.current_kind() == TokenKind::ARROW {
            match self.advance() {
                Ok(_) => {},
                Err(e) => return Err(e),
            }
            match self.parse_ty() {
                Ok(x) => Some(x),
                Err(e) => return Err(e),
            }
        } else {
            None
        };
        assert(return_ty_at(t, n3) matches Ok(rt) && rt.1 == self.pos() && rt.0 == match return_ty {
            Some(x) => Some(ty_view(&x)),
            None => None::<crate::ast::TyV>,
        });
        let ghost n4 = self.pos();
        let body = if self.at(TokenKind::LBRACE) {
            match self.parse_block_expr() {
                Ok(x) => Some(Box::new(x)),
                Err(e) => return Err(e),
            }
        } else if decl {
            match self.expect(TokenKind::SEMI) {
                Ok(_) => {},
                Err(e) => return Err(e),
            }
            None
        } else {
            let cur = self.tokens.current();
            return Err(
                ParseError::Expected { expected: TokenKind::LBRACE, found: cur.kind, span: cur.span },
            );
        };
        let end: Span = match &body {
            Some(b) => b.meta.span,
            None => match &return_ty {
                Some(ty) => ty.meta.span,
                None => rparen.span,
            },
        };
        let f = Fn {
            meta: Meta { span: Span::between(&start, &end) },
            params,
            body,
            return_ty,
        };
        Ok((f, name))
    }

    fn parse_foreign_item(&mut self) -> (r: Result<ForeignItem, ParseError>)
        requires
            old(self).wf(),
        ensures
            final(self).text() == old(self).text(),
            final(self).path() == old(self).path(),
            match foreign_item_at(old(self).text(), old(self).pos()) {
                Ok((v, n)) => r matches Ok(x) && foreign_item_view(&x) == v && final(self).wf()
                    && final(self).pos() == n && n > old(self).pos(),
                Err(e) => r == Err::<ForeignItem, ParseError>(e),
            },
    {
        let (visibility, vis_token) = match self.parse_visibility() {
            Ok(x) => x,
            Err(e) => return Err(e),
        };
        let (f, name) = match self.parse_fn(true) {
            Ok(x) => x,
            Err(e) => return Err(e),
        };
        let start: Span = match &vis_token {
            Some(tk) => tk.span,
            None => f.meta.span,
        };
        Ok(
            ForeignItem {
                meta: Meta { span: Span::between(&start, &f) },
                name,
                vis: visibility,
                kind: ForeignItemKind::Fn(f),
            },
        )
    }

    /// A foreign block: its keyword, its declarations and its closing brace.
    fn parse_foreign_mod(&mut self) -> (r: Result<(Token, ForeignMod, Token), ParseError>)
        requires
            old(self).wf(),
        ensures
            final(self).text() == old(self).text(),
            final(self).path() == old(self).path(),
            match foreign_mod_at(old(self).text(), old(self).pos()) {
                Ok((items, sp, n)) => r matches Ok(x) && foreign_items_view(x.1.items@) == items
                    && join(x.0.span, x.2.span) == sp && final(self).wf() && final(self).pos() == n
                    && is_token_at(&x.0, old(self).text(), old(self).pos())
                    && is_token_at(&x.2, old(self).text(), (n - 1) as nat)
                    && n > old(self).pos(),
                Err(e) => r == Err::<(Token, ForeignMod, Token), ParseError>(e),
            },
    {
        let ghost t = self.text();
        let ghost n = self.pos();
        let start = match self.expect(TokenKind::EXTERN) {
            Ok(x) => x,
            Err(e) => return Err(e),
        };
        match self.expect(TokenKind::LBRACE) {
            Ok(_) => {},
            Err(e) => return Err(e),
        }
        proof {
            lemma_token_at(&start, t, n);
        }
        let mut items: Vec<ForeignItem> = Vec::new();
        assert(foreign_items_view(items@) =~= seq![]);
        while !self.at(TokenKind::RBRACE) && !self.at(TokenKind::EOF)
            invariant
                self.wf(),
                self.text() == t,
                t == old(self).text(),
                self.path() == old(self).path(),
                n == old(self).pos(),
                self.pos() > n + 1,
                start.span == span_at(t, n),
                is_token_at(&start, t, n),
                foreign_items_from(t, n + 2, seq![]) == foreign_items_from(
                    t,
                    self.pos(),
                    foreign_items_view(items@),
                ),
                expect_at(t, n, TokenKind::EXTERN) == Ok::<nat, ParseError>(n + 1),
                expect_at(t, n + 1, TokenKind::LBRACE) == Ok::<nat, ParseError>(n + 2),
            decreases remaining(t, self.pos()),
        {
            let ghost m = self.pos();
            let ghost before = foreign_items_view(items@);
            let item = match self.parse_foreign_item() {
                Ok(x) => x,
                Err(e) => return Err(e),
            };
            proof {
                lemma_progress(t, m, self.pos());
            }
            let ghost prev = items@;
            items.push(item);
            assert(items@.drop_last() =~= prev);
            assert(foreign_items_view(items@) =~= before.push(foreign_item_view(&item)));
        }
        let ghost close = self.pos();
        let rbrace = match self.expect(TokenKind::RBRACE) {
            Ok(x) => x,
            Err(e) => return Err(e),
        };
        proof {
            lemma_token_at(&rbrace, t, close);
        }
        Ok((start, ForeignMod { items }, rbrace))
    }

    #[verifier::rlimit(30)]
    fn parse_item(&mut self) -> (r: Result<Item, ParseError>)
        requires
            old(self).wf(),
        ensures
            final(self).text() == old(self).text(),
            final(self).path() == old(self).path(),
            match item_at(old(self).text(), old(self).pos()) {
                Ok((v, n)) => r matches Ok(x) && item_view(&x) == v && final(self).wf()
                    && final(self).pos() == n && n > old(self).pos(),
                Err(e) => r == Err::<Item, ParseError>(e),
            },
    {
        proof {
            reveal(item_at);
        }
        let (vis, vis_token) = match self.parse_visibility() {
            Ok(x) => x,
            Err(e) => return Err(e),
        };
        let k = self.current_kind();
        if k == TokenKind::FN {
            let (func, name) = match self.parse_fn(false) {
                Ok(x) => x,
                Err(e) => return Err(e),
            };
            let start: Span = match &vis_token {
                Some(tk) => tk.span,
                None => func.meta.span,
            };
            Ok(
                Item {
                    meta: Meta { span: Span::between(&start, &func) },
                    name,
                    vis,
                    kind: ItemKind::Fn(Box::new(func)),
                },
            )
        } else if k == TokenKind::EXTERN {
            let (start, foreign_mod, rbrace) = match self.parse_foreign_mod() {
                Ok(x) => x,
                Err(e) => return Err(e),
            };
            let name = "extern".to_owned();
            proof {
                reveal_strlit("extern");
                assert(name@ =~= foreign_mod_name());
            }
            Ok(
                Item {
                    meta: Meta { span: Span::between(&start, &rbrace) },
                    name,
                    vis,
                    kind: ItemKind::ForeignMod(foreign_mod),
                },
            )
        } else {
            Err(self.unexpected())
        }
    }
}

impl Parser {
    /// The text to be parsed.
    pub closed spec fn text(&self) -> Seq<char> {
        self.state.text()
    }

    /// The path of the file whose text is parsed.
    pub closed spec fn path(&self) -> std::path::PathBuf {
        self.state.path()
    }

    pub closed spec fn wf(&self) -> bool {
        &&& self.state.wf()
        &&& self.state.pos() == 0
    }

    /// A parser for `text`, the contents of the file at `path`. Its buffer is
    /// filled at once, so a lexical error among the first `MAX_LOOKAHEAD` tokens
    /// is reported here.
    pub fn new(text: &str, path: std::path::PathBuf) -> (r: Result<Parser, ParseError>)
        ensures
            match tok(text@, 3) {
                Ok(_) => r matches Ok(p) && p.wf() && p.text() == text@ && p.path() == path,
                Err(e) => r == Err::<Parser, ParseError>(ParseError::Lex(e)),
            },
    {
        let lexer = Lexer::new(text, path);
        match TokenBuffer::new(lexer) {
            Ok(tokens) => Ok(Parser { state: ParseState { tokens } }),
            Err(e) => Err(ParseError::Lex(e)),
        }
    }

    /// Parses the whole text into a source file, or stops at the first error.
    pub fn parse_source_file(self) -> (r: Result<SourceFile, ParseError>)
        requires
            self.wf(),
        ensures
            parsed_as(self.text(), self.path(), &r),
    {
        let ghost t = self.text();
        let ghost p = self.path();
        let mut st = self.state;
        let mut items: Vec<Item> = Vec::new();
        assert(items_view(items@) =~= seq![]);
        while st.current_kind() != TokenKind::EOF
            invariant
                st.wf(),
                st.text() == t,
                st.path() == p,
                t == self.text(),
                p == self.path(),
                tok(t, 3) is Ok,
                items_from(t, 0, seq![]) == items_from(t, st.pos(), items_view(items@)),
            decreases remaining(t, st.pos()),
        {
            let ghost m = st.pos();
            let ghost before = items_view(items@);
            let item = match st.parse_item() {
                Ok(x) => x,
                Err(e) => return Err(e),
            };
            proof {
                lemma_progress(t, m, st.pos());
            }
            let ghost prev = items@;
            items.push(item);
            assert(items@.drop_last() =~= prev);
            assert(items_view(items@) =~= before.push(item_view(&item)));
        }
        let path = st.tokens.into_path();
        Ok(SourceFile { path, items })
    }
}

} // verus!
