use vstd::prelude::*;

use crate::ast::{
    BlockV, ExprKindV, ExprV, FnV, ForeignItemV, ItemKindV, ItemV, LitKind, ParamV, StmtKindV,
    StmtV, TyKindV, TyV, Visibility,
};
use crate::lexer::{lemma_lex_pos_bounds, lemma_scan_bounds};
use crate::lexer::{byte_offset, lex_pos, nth_token, scan, LexError, TokenKind};
use crate::span::Span;

verus! {

/// Why a text could not be parsed.
#[derive(Debug, Clone, Copy, PartialEq, Eq, Structural)]
pub enum ParseError {
    /// The text could not be split into tokens.
    Lex(LexError),
    /// The grammar demanded one kind of token and found another.
    Expected { expected: TokenKind, found: TokenKind, span: Span },
    /// A token that no rule of the grammar can start with where it stands.
    Unexpected { found: TokenKind, span: Span },
}

/// The `n`th token of the text's token stream.
pub open spec fn tok(t: Seq<char>, n: nat) -> Result<(TokenKind, int, int), LexError> {
    nth_token(t, 0, n)
}

pub open spec fn kind_at(t: Seq<char>, n: nat) -> TokenKind {
    match tok(t, n) {
        Ok(m) => m.0,
        Err(_) => TokenKind::EOF,
    }
}

pub open spec fn span_at(t: Seq<char>, n: nat) -> Span {
    match tok(t, n) {
        Ok(m) => Span { start: byte_offset(t, m.1) as usize, end: byte_offset(t, m.2) as usize },
        Err(_) => Span { start: 0, end: 0 },
    }
}

pub open spec fn text_at(t: Seq<char>, n: nat) -> Seq<char> {
    match tok(t, n) {
        Ok(m) => t.subrange(m.1, m.2),
        Err(_) => seq![],
    }
}

/// From the start of `a` to the end of `b`.
pub open spec fn join(a: Span, b: Span) -> Span {
    Span { start: a.start, end: b.end }
}

/// The offset in the text reached after `n` tokens (the end of the text once
/// lexing has failed).
pub open spec fn cursor(t: Seq<char>, n: nat) -> int {
    match lex_pos(t, 0, n) {
        Ok(p) => if 0 <= p <= t.len() {
            p
        } else {
            t.len() as int
        },
        Err(_) => t.len() as int,
    }
}

/// How much text is left after `n` tokens; it shrinks with every token that
/// is not `EOF`.
pub open spec fn remaining(t: Seq<char>, n: nat) -> int {
    t.len() - cursor(t, n)
}

/// Consuming token `n`: the parser's buffer then lexes the token four places
/// further on, and fails if that token cannot be lexed.
pub open spec fn bump(t: Seq<char>, n: nat) -> Result<nat, ParseError> {
    match tok(t, n + 4) {
        Ok(_) => Ok(n + 1),
        Err(e) => Err(ParseError::Lex(e)),
    }
}

/// Consuming token `n`, which must be of kind `k`.
pub open spec fn expect_at(t: Seq<char>, n: nat, k: TokenKind) -> Result<nat, ParseError> {
    match bump(t, n) {
        Err(e) => Err(e),
        Ok(n1) => if kind_at(t, n) == k {
            Ok(n1)
        } else {
            Err(ParseError::Expected { expected: k, found: kind_at(t, n), span: span_at(t, n) })
        },
    }
}

pub open spec fn unexpected(t: Seq<char>, n: nat) -> ParseError {
    ParseError::Unexpected { found: kind_at(t, n), span: span_at(t, n) }
}

pub proof fn lemma_cursor_step(t: Seq<char>, n: nat)
    ensures
        cursor(t, n) <= cursor(t, n + 1),
        (tok(t, n) matches Ok(m) && m.0 != TokenKind::EOF) ==> cursor(t, n) < cursor(t, n + 1),
{
    lemma_lex_pos_bounds(t, 0, n);
    assert(lex_pos(t, 0, n + 1) == match lex_pos(t, 0, n) {
        Ok(p) => match scan(t, p) {
            Ok(m) => Ok(m.2),
            Err(e) => Err(e),
        },
        Err(e) => Err::<int, LexError>(e),
    });
    if let Ok(p) = lex_pos(t, 0, n) {
        lemma_scan_bounds(t, p);
    }
}

pub proof fn lemma_cursor_monotone(t: Seq<char>, n: nat, m: nat)
    requires
        n <= m,
    ensures
        cursor(t, n) <= cursor(t, m),
    decreases m - n,
{
    if n < m {
        lemma_cursor_step(t, n);
        lemma_cursor_monotone(t, n + 1, m);
    }
}

/// Consuming a token that is not `EOF` leaves less text to read.
pub proof fn lemma_progress(t: Seq<char>, n: nat, m: nat)
    requires
        tok(t, n) matches Ok(x) && x.0 != TokenKind::EOF,
        n < m,
    ensures
        0 <= remaining(t, m) < remaining(t, n),
{
    lemma_cursor_step(t, n);
    lemma_cursor_monotone(t, n + 1, m);
}

/// The type that starts at token `n`, and the token after it.
pub open spec fn ty_at(t: Seq<char>, n: nat) -> Result<(TyV, nat), ParseError> {
    if kind_at(t, n) == TokenKind::LPAREN {
        match expect_at(t, n, TokenKind::LPAREN) {
            Err(e) => Err(e),
            Ok(n1) => match expect_at(t, n1, TokenKind::RPAREN) {
                Err(e) => Err(e),
                Ok(n2) => Ok(
                    (TyV { span: join(span_at(t, n), span_at(t, n1)), kind: TyKindV::Tup(seq![]) }, n2),
                ),
            },
        }
    } else if kind_at(t, n) == TokenKind::IDENT {
        match bump(t, n) {
            Err(e) => Err(e),
            Ok(n1) => Ok((TyV { span: span_at(t, n), kind: TyKindV::Var(text_at(t, n)) }, n1)),
        }
    } else {
        Err(unexpected(t, n))
    }
}

/// The parameters from token `n` up to the closing parenthesis, after `acc`.
pub open spec fn params_from(t: Seq<char>, n: nat, acc: Seq<ParamV>) -> Result<
    (Seq<ParamV>, nat),
    ParseError,
>
    decreases remaining(t, n),
{
    if kind_at(t, n) == TokenKind::RPAREN || kind_at(t, n) == TokenKind::EOF {
        Ok((acc, n))
    } else {
        match expect_at(t, n, TokenKind::IDENT) {
            Err(e) => Err(e),
            Ok(n1) => match expect_at(t, n1, TokenKind::COLON) {
                Err(e) => Err(e),
                Ok(n2) => match ty_at(t, n2) {
                    Err(e) => Err(e),
                    Ok((ty, n3)) => {
                        let p = ParamV { span: join(span_at(t, n), ty.span), name: text_at(t, n), ty };
                        if remaining(t, n3) < remaining(t, n) {
                            params_from(t, n3, acc.push(p))
                        } else {
                            Err(unexpected(t, n3))
                        }
                    },
                },
            },
        }
    }
}

/// A parenthesised parameter list at token `n`: the parameters, the span of the
/// closing parenthesis, and the token after it.
pub open spec fn param_list_at(t: Seq<char>, n: nat) -> Result<(Seq<ParamV>, Span, nat), ParseError> {
    match expect_at(t, n, TokenKind::LPAREN) {
        Err(e) => Err(e),
        Ok(n1) => match params_from(t, n1, seq![]) {
            Err(e) => Err(e),
            Ok((ps, n2)) => match expect_at(t, n2, TokenKind::RPAREN) {
                Err(e) => Err(e),
                Ok(n3) => Ok((ps, span_at(t, n2), n3)),
            },
        },
    }
}

/// The block that starts at token `n`.
pub open spec fn block_at(t: Seq<char>, n: nat) -> Result<(BlockV, nat), ParseError>
    decreases remaining(t, n), 0nat,
{
    match expect_at(t, n, TokenKind::LBRACE) {
        Err(e) => Err(e),
        Ok(n1) => if remaining(t, n1) < remaining(t, n) {
            match stmts_from(t, n1, seq![]) {
                Err(e) => Err(e),
                Ok((ss, n2)) => match expect_at(t, n2, TokenKind::RBRACE) {
                    Err(e) => Err(e),
                    Ok(n3) => Ok((BlockV { span: join(span_at(t, n), span_at(t, n2)), stmts: ss }, n3)),
                },
            }
        } else {
            Err(unexpected(t, n1))
        },
    }
}

/// The statements from token `n` up to the closing brace, after `acc`.
pub open spec fn stmts_from(t: Seq<char>, n: nat, acc: Seq<StmtV>) -> Result<
    (Seq<StmtV>, nat),
    ParseError,
>
    decreases remaining(t, n), 3nat,
{
    if kind_at(t, n) == TokenKind::RBRACE || kind_at(t, n) == TokenKind::EOF {
        Ok((acc, n))
    } else {
        match stmt_at(t, n) {
            Err(e) => Err(e),
            Ok((s, n1)) => if remaining(t, n1) < remaining(t, n) {
                stmts_from(t, n1, acc.push(s))
            } else {
                Err(unexpected(t, n1))
            },
        }
    }
}

/// The statement that starts at token `n`: a lone `;`, or an expression.
pub open spec fn stmt_at(t: Seq<char>, n: nat) -> Result<(StmtV, nat), ParseError>
    decreases remaining(t, n), 2nat,
{
    if kind_at(t, n) == TokenKind::SEMI {
        match bump(t, n) {
            Err(e) => Err(e),
            Ok(n1) => Ok((StmtV { span: span_at(t, n), kind: StmtKindV::Semi }, n1)),
        }
    } else {
        match expr_at(t, n) {
            Err(e) => Err(e),
            Ok((x, n1)) => Ok((StmtV { span: x.span, kind: StmtKindV::Expr(x) }, n1)),
        }
    }
}

/// The expression that starts at token `n`: a primary expression, perhaps
/// followed by one argument list.
pub open spec fn expr_at(t: Seq<char>, n: nat) -> Result<(ExprV, nat), ParseError>
    decreases remaining(t, n), 1nat,
{
    let k = kind_at(t, n);
    let head: Result<(ExprV, nat), ParseError> = if k == TokenKind::IDENT {
        match bump(t, n) {
            Err(e) => Err(e),
            Ok(n1) => Ok((ExprV { span: span_at(t, n), kind: ExprKindV::Var(text_at(t, n)) }, n1)),
        }
    } else if k == TokenKind::LPAREN {
        match bump(t, n) {
            Err(e) => Err(e),
            Ok(n1) => match expect_at(t, n1, TokenKind::RPAREN) {
                Err(e) => Err(e),
                Ok(n2) => Ok(
                    (ExprV { span: join(span_at(t, n), span_at(t, n1)), kind: ExprKindV::Unit }, n2),
                ),
            },
        }
    } else if k == TokenKind::UNSAFE {
        match bump(t, n) {
            Err(e) => Err(e),
            Ok(n1) => if remaining(t, n1) < remaining(t, n) {
                match block_at(t, n1) {
                    Err(e) => Err(e),
                    Ok((b, n2)) => Ok(
                        (ExprV { span: join(span_at(t, n), b.span), kind: ExprKindV::Block(b) }, n2),
                    ),
                }
            } else {
                Err(unexpected(t, n1))
            },
        }
    } else if k == TokenKind::INT {
        match bump(t, n) {
            Err(e) => Err(e),
            Ok(n1) => Ok(
                (
                    ExprV { span: span_at(t, n), kind: ExprKindV::Lit(LitKind::Integer, text_at(t, n)) },
                    n1,
                ),
            ),
        }
    } else {
        Err(unexpected(t, n))
    };
    match head {
        Err(e) => Err(e),
        Ok((h, n1)) => if remaining(t, n1) < remaining(t, n) {
            expr_tail_at(t, n1, h)
        } else {
            Err(unexpected(t, n1))
        },
    }
}

/// `head` followed, from token `n`, by an argument list or by nothing.
pub open spec fn expr_tail_at(t: Seq<char>, n: nat, head: ExprV) -> Result<(ExprV, nat), ParseError>
    decreases remaining(t, n), 0nat,
{
    if kind_at(t, n) == TokenKind::LPAREN {
        match bump(t, n) {
            Err(e) => Err(e),
            Ok(n1) => if remaining(t, n1) < remaining(t, n) {
                match args_from(t, n1, seq![]) {
                    Err(e) => Err(e),
                    Ok((args, n2)) => match expect_at(t, n2, TokenKind::RPAREN) {
                        Err(e) => Err(e),
                        Ok(n3) => Ok(
                            (
                                ExprV {
                                    span: join(head.span, span_at(t, n2)),
                                    kind: ExprKindV::Call(Box::new(head), args),
                                },
                                n3,
                            ),
                        ),
                    },
                }
            } else {
                Err(unexpected(t, n1))
            },
        }
    } else {
        Ok((head, n))
    }
}

/// The arguments from token `n` up to the closing parenthesis, after `acc`.
pub open spec fn args_from(t: Seq<char>, n: nat, acc: Seq<ExprV>) -> Result<
    (Seq<ExprV>, nat),
    ParseError,
>
    decreases remaining(t, n), 2nat,
{
    if kind_at(t, n) == TokenKind::RPAREN || kind_at(t, n) == TokenKind::EOF {
        Ok((acc, n))
    } else {
        match expr_at(t, n) {
            Err(e) => Err(e),
            Ok((x, n1)) => if remaining(t, n1) < remaining(t, n) {
                args_from(t, n1, acc.push(x))
            } else {
                Err(unexpected(t, n1))
            },
        }
    }
}

/// An optional `-> type` at token `n`.
pub open spec fn return_ty_at(t: Seq<char>, n: nat) -> Result<(Option<TyV>, nat), ParseError> {
    if kind_at(t, n) == TokenKind::ARROW {
        match bump(t, n) {
            Err(e) => Err(e),
            Ok(n1) => match ty_at(t, n1) {
                Err(e) => Err(e),
                Ok((ty, n2)) => Ok((Some(ty), n2)),
            },
        }
    } else {
        Ok((None, n))
    }
}

/// A function body at token `n`: a block, or, where `decl` allows a body-less
/// declaration (inside a foreign block), `;`.
pub open spec fn body_at(t: Seq<char>, n: nat, decl: bool) -> Result<(Option<ExprV>, nat), ParseError> {
    if kind_at(t, n) == TokenKind::LBRACE {
        match block_at(t, n) {
            Err(e) => Err(e),
            Ok((b, n1)) => Ok((Some(ExprV { span: b.span, kind: ExprKindV::Block(b) }), n1)),
        }
    } else if decl {
        match expect_at(t, n, TokenKind::SEMI) {
            Err(e) => Err(e),
            Ok(n1) => Ok((None, n1)),
        }
    } else {
        Err(ParseError::Expected { expected: TokenKind::LBRACE, found: kind_at(t, n), span: span_at(t, n) })
    }
}

/// The end of a function: its body, else its return type, else its `)`.
pub open spec fn fn_end(body: Option<ExprV>, ret: Option<TyV>, rparen: Span) -> Span {
    match body {
        Some(b) => b.span,
        None => match ret {
            Some(r) => r.span,
            None => rparen,
        },
    }
}

/// The function that starts at token `n`, and its name. Only where `decl`
/// holds may it be a declaration without a body.
pub open spec fn fn_at(t: Seq<char>, n: nat, decl: bool) -> Result<(FnV, Seq<char>, nat), ParseError> {
    match expect_at(t, n, TokenKind::FN) {
        Err(e) => Err(e),
        Ok(n1) => match expect_at(t, n1, TokenKind::IDENT) {
            Err(e) => Err(e),
            Ok(n2) => match param_list_at(t, n2) {
                Err(e) => Err(e),
                Ok((params, rparen, n3)) => match return_ty_at(t, n3) {
                    Err(e) => Err(e),
                    Ok((ret, n4)) => match body_at(t, n4, decl) {
                        Err(e) => Err(e),
                        Ok((body, n5)) => Ok(
                            (
                                FnV {
                                    span: join(span_at(t, n), fn_end(body, ret, rparen)),
                                    params,
                                    body,
                                    return_ty: ret,
                                },
                                text_at(t, n1),
                                n5,
                            ),
                        ),
                    },
                },
            },
        },
    }
}

/// An optional `pub` at token `n`, with its span when present.
pub open spec fn vis_at(t: Seq<char>, n: nat) -> Result<(Visibility, Option<Span>, nat), ParseError> {
    if kind_at(t, n) == TokenKind::PUB {
        match bump(t, n) {
            Err(e) => Err(e),
            Ok(n1) => Ok((Visibility::Public, Some(span_at(t, n)), n1)),
        }
    } else {
        Ok((Visibility::Inherited, None, n))
    }
}

/// Where an item that may start with `pub` starts.
pub open spec fn item_start(vis_span: Option<Span>, f: FnV) -> Span {
    match vis_span {
        Some(s) => s,
        None => f.span,
    }
}

/// The declaration inside a foreign block that starts at token `n`.
pub open spec fn foreign_item_at(t: Seq<char>, n: nat) -> Result<(ForeignItemV, nat), ParseError> {
    match vis_at(t, n) {
        Err(e) => Err(e),
        Ok((vis, vspan, n1)) => match fn_at(t, n1, true) {
            Err(e) => Err(e),
            Ok((f, name, n2)) => Ok(
                (ForeignItemV { span: join(item_start(vspan, f), f.span), name, vis, func: f }, n2),
            ),
        },
    }
}

/// The declarations of a foreign block from token `n` up to its `}`, after `acc`.
pub open spec fn foreign_items_from(t: Seq<char>, n: nat, acc: Seq<ForeignItemV>) -> Result<
    (Seq<ForeignItemV>, nat),
    ParseError,
>
    decreases remaining(t, n),
{
    if kind_at(t, n) == TokenKind::RBRACE || kind_at(t, n) == TokenKind::EOF {
        Ok((acc, n))
    } else {
        match foreign_item_at(t, n) {
            Err(e) => Err(e),
            Ok((i, n1)) => if remaining(t, n1) < remaining(t, n) {
                foreign_items_from(t, n1, acc.push(i))
            } else {
                Err(unexpected(t, n1))
            },
        }
    }
}

/// The foreign block at token `n`: its declarations, and the span from its
/// keyword to its `}`.
pub open spec fn foreign_mod_at(t: Seq<char>, n: nat) -> Result<
    (Seq<ForeignItemV>, Span, nat),
    ParseError,
> {
    match expect_at(t, n, TokenKind::EXTERN) {
        Err(e) => Err(e),
        Ok(n1) => match expect_at(t, n1, TokenKind::LBRACE) {
            Err(e) => Err(e),
            Ok(n2) => match foreign_items_from(t, n2, seq![]) {
                Err(e) => Err(e),
                Ok((items, n3)) => match expect_at(t, n3, TokenKind::RBRACE) {
                    Err(e) => Err(e),
                    Ok(n4) => Ok((items, join(span_at(t, n), span_at(t, n3)), n4)),
                },
            },
        },
    }
}

/// The name given to every foreign block item.
pub open spec fn foreign_mod_name() -> Seq<char> {
    seq!['e', 'x', 't', 'e', 'r', 'n']
}

/// The item that starts at token `n`.
#[verifier::opaque]
pub open spec fn item_at(t: Seq<char>, n: nat) -> Result<(ItemV, nat), ParseError> {
    match vis_at(t, n) {
        Err(e) => Err(e),
        Ok((vis, vspan, n1)) => if kind_at(t, n1) == TokenKind::FN {
            match fn_at(t, n1, false) {
                Err(e) => Err(e),
                Ok((f, name, n2)) => Ok(
                    (
                        ItemV {
                            span: join(item_start(vspan, f), f.span),
                            kind: ItemKindV::Fn(f),
                            vis,
                            name,
                        },
                        n2,
                    ),
                ),
            }
        } else if kind_at(t, n1) == TokenKind::EXTERN {
            match foreign_mod_at(t, n1) {
                Err(e) => Err(e),
                Ok((items, sp, n2)) => Ok(
                    (
                        ItemV {
                            span: sp,
                            kind: ItemKindV::ForeignMod(items),
                            vis,
                            name: foreign_mod_name(),
                        },
                        n2,
                    ),
                ),
            }
        } else {
            Err(unexpected(t, n1))
        },
    }
}

/// The items from token `n` to the end of the text, after `acc`.
pub open spec fn items_from(t: Seq<char>, n: nat, acc: Seq<ItemV>) -> Result<Seq<ItemV>, ParseError>
    decreases remaining(t, n),
{
    if kind_at(t, n) == TokenKind::EOF {
        Ok(acc)
    } else {
        match item_at(t, n) {
            Err(e) => Err(e),
            Ok((i, n1)) => if remaining(t, n1) < remaining(t, n) {
                items_from(t, n1, acc.push(i))
            } else {
                Err(unexpected(t, n1))
            },
        }
    }
}

/// The items of the source text `t`, or the error that stops its parse.
pub open spec fn parse_text(t: Seq<char>) -> Result<Seq<ItemV>, ParseError> {
    match tok(t, 3) {
        Err(e) => Err(ParseError::Lex(e)),
        Ok(_) => items_from(t, 0, seq![]),
    }
}

} // verus!
