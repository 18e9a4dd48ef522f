use vstd::prelude::*;

use crate::lexer::{nth_token, lex_pos, scan, token_is, LexError, Lexer, Token, TokenKind};
use crate::lexer::lemma_lex_pos_bounds;

verus! {

/// How many tokens the parser can see ahead of its position.
pub const MAX_LOOKAHEAD: usize = 4;

/// A ring of `MAX_LOOKAHEAD` tokens over a lexer: the parser peeks into it and
/// consumes from its head, and each consumed token is replaced by a freshly
/// lexed one.
pub struct TokenBuffer {
    start: usize,
    tokens: Vec<Token>,
    lexer: Lexer,
    /// Where the lexer stood when the buffer was made.
    base: Ghost<int>,
    /// How many tokens have been consumed.
    consumed: Ghost<nat>,
}

/// Once lexing fails, every later token of the stream carries the same error.
pub proof fn lemma_lex_error_persists(t: Seq<char>, p0: int, i: nat, m: nat, e: LexError)
    requires
        nth_token(t, p0, i) == Err::<(TokenKind, int, int), LexError>(e),
        i <= m,
    ensures
        nth_token(t, p0, m) == Err::<(TokenKind, int, int), LexError>(e),
    decreases m - i,
{
    if i < m {
        assert(lex_pos(t, p0, i + 1) == Err::<int, LexError>(e));
        lemma_lex_error_persists(t, p0, i + 1, m, e);
    }
}

impl TokenBuffer {
    pub closed spec fn text(&self) -> Seq<char> {
        self.lexer.text()
    }

    /// The path of the file whose text is being lexed.
    pub closed spec fn path(&self) -> std::path::PathBuf {
        self.lexer.path()
    }

    pub closed spec fn base(&self) -> int {
        self.base@
    }

    pub closed spec fn consumed(&self) -> nat {
        self.consumed@
    }

    /// The tokens in view, the head first.
    pub closed spec fn window(&self) -> Seq<Token> {
        Seq::new(4, |i: int| self.tokens@[(self.start + i) % 4])
    }

    pub closed spec fn inv(&self) -> bool {
        &&& self.tokens@.len() == 4
        &&& self.start < 4
        &&& self.lexer.wf()
        &&& 0 <= self.base@ <= self.text().len()
        &&& lex_pos(self.text(), self.base@, self.consumed@ + 4) == Ok::<int, LexError>(
            self.lexer.pos(),
        )
    }

    /// The `i`th token in view is the token of the stream that follows the
    /// consumed ones by `i`.
    pub open spec fn slot_ok(&self, i: int) -> bool {
        &&& nth_token(self.text(), self.base(), (self.consumed() + i) as nat) is Ok
        &&& token_is(
            &self.window()[i],
            self.text(),
            nth_token(self.text(), self.base(), (self.consumed() + i) as nat)->Ok_0,
        )
    }

    pub open spec fn wf(&self) -> bool {
        &&& self.inv()
        &&& self.window().len() == 4
        &&& self.slot_ok(0)
        &&& self.slot_ok(1)
        &&& self.slot_ok(2)
        &&& self.slot_ok(3)
    }

    /// Fills the buffer with the first `MAX_LOOKAHEAD` tokens that `lexer` yields.
    pub fn new(lexer: Lexer) -> (r: Result<TokenBuffer, LexError>)
        requires
            lexer.wf(),
        ensures
            match nth_token(lexer.text(), lexer.pos(), 3) {
                Ok(_) => r matches Ok(b) && b.wf() && b.text() == lexer.text() && b.path() == lexer.path() && b.base()
                    == lexer.pos() && b.consumed() == 0,
                Err(e) => r == Err::<TokenBuffer, LexError>(e),
            },
    {
        let ghost t = lexer.text();
        let ghost p0 = lexer.pos();
        let mut lx = lexer;
        let mut tokens: Vec<Token> = Vec::new();
        let mut i: usize = 0;
        proof {
            lemma_lex_pos_bounds(t, p0, 0);
        }
        while i < MAX_LOOKAHEAD
            invariant
                lx.wf(),
                lx.text() == t,
                t == lexer.text(),
                lx.path() == lexer.path(),
                p0 == lexer.pos(),
                0 <= p0 <= t.len(),
                i <= 4,
                tokens@.len() == i,
                lex_pos(t, p0, i as nat) == Ok::<int, LexError>(lx.pos()),
                forall|j: int|
                    0 <= j < i ==> #[trigger] nth_token(t, p0, j as nat) is Ok && token_is(
                        &tokens@[j],
                        t,
                        nth_token(t, p0, j as nat)->Ok_0,
                    ),
            decreases 4 - i,
        {
            let ghost before = lx.pos();
            match lx.next_token() {
                Ok(tok) => {
                    tokens.push(tok);
                    assert(lex_pos(t, p0, (i + 1) as nat) == Ok::<int, LexError>(lx.pos()));
                    i = i + 1;
                },
                Err(e) => {
                    proof {
                        assert(nth_token(t, p0, i as nat) == scan(t, before));
                        lemma_lex_error_persists(t, p0, i as nat, 3, e);
                    }
                    return Err(e);
                },
            }
        }
        let r = TokenBuffer {
            start: 0,
            tokens,
            lexer: lx,
            base: Ghost(p0),
            consumed: Ghost(0),
        };
        assert(nth_token(t, p0, 0) is Ok);
        assert(nth_token(t, p0, 1) is Ok);
        assert(nth_token(t, p0, 2) is Ok);
        assert(nth_token(t, p0, 3) is Ok);
        assert(r.window()[1] == tokens@[1]);
        assert(r.window()[2] == tokens@[2]);
        assert(r.window()[3] == tokens@[3]);
        Ok(r)
    }

    /// The token `offset` places after the head. Looking further ahead than the
    /// buffer holds is a mistake in the grammar.
    pub fn peek(&self, offset: usize) -> (r: &Token)
        requires
            self.wf(),
            offset < MAX_LOOKAHEAD,
        ensures
            *r == self.window()[offset as int],
    {
        &self.tokens[(self.start + offset) % MAX_LOOKAHEAD]
    }

    /// The head of the buffer: the next token to be consumed.
    pub fn current(&self) -> (r: &Token)
        requires
            self.wf(),
        ensures
            *r == self.window()[0],
    {
        self.peek(0)
    }

    pub fn current_kind(&self) -> (r: TokenKind)
        requires
            self.wf(),
        ensures
            r == self.window()[0].kind,
    {
        self.current().kind
    }

    /// Consumes the head and hands it over; the lexer's next token takes its
    /// place at the back of the window.
    pub fn advance(&mut self) -> (r: Result<Token, LexError>)
        requires
            old(self).wf(),
        ensures
            final(self).text() == old(self).text(),
            final(self).path() == old(self).path(),
            final(self).base() == old(self).base(),
            match nth_token(old(self).text(), old(self).base(), old(self).consumed() + 4) {
                Ok(m) => r matches Ok(tok) && tok == old(self).window()[0] && final(self).wf()
                    && final(self).consumed() == old(self).consumed() + 1
                    && final(self).window().subrange(0, 3) == old(self).window().subrange(1, 4)
                    && token_is(&final(self).window()[3], old(self).text(), m),
                Err(e) => r == Err::<Token, LexError>(e),
            },
    {
        let ghost t = self.text();
        let ghost old_window = self.window();
        let ghost n = self.consumed@;
        let t_new = match self.lexer.next_token() {
            Ok(tok) => tok,
            Err(e) => return Err(e),
        };
        let s = self.start;
        let head = self.tokens.remove(s);
        self.tokens.insert(s, t_new);
        self.start = (s + 1) % MAX_LOOKAHEAD;
        self.consumed = Ghost(n + 1);
        proof {
            assert(lex_pos(t, self.base@, n + 5) == Ok::<int, LexError>(self.lexer.pos()));
            assert(self.window()[0] == old_window[1]);
            assert(self.window()[1] == old_window[2]);
            assert(self.window()[2] == old_window[3]);
            assert(self.window().subrange(0, 3) =~= old_window.subrange(1, 4));
        }
        Ok(head)
    }

    /// Gives up the lexer's file path.
    pub fn into_path(self) -> (r: std::path::PathBuf)
        ensures
            r == self.path(),
    {
        self.lexer.into_path()
    }
}

} // verus!
