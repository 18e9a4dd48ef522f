use vstd::prelude::*;

use crate::span::{HasSpan, Span};

verus! {

use vstd::std_specs::iter::IteratorSpec;
use vstd::utf8::{encode_scalar, encode_utf8};

#[verifier::external_type_specification]
#[verifier::external_body]
pub struct ExPathBuf(std::path::PathBuf);

#[derive(PartialEq, Eq, Debug, Clone, Copy, Structural)]
pub enum TokenKind {
    IDENT,
    INT,
    // Keywords
    FN,
    PUB,
    EXTERN,
    UNSAFE,
    // Punctuation
    LPAREN,
    RPAREN,
    LBRACE,
    RBRACE,
    SEMI,
    // Operators that are not single punctuation characters
    ARROW,
    COLON,
    COLONCOLON,
    EOF,
}

/// One lexeme of the source text: its kind, where it stands, and its exact text.
#[derive(Debug)]
pub struct Token {
    pub kind: TokenKind,
    pub span: Span,
    pub text: String,
}

impl HasSpan for Token {
    open spec fn spec_span(&self) -> Span {
        self.span
    }

    fn span(&self) -> (r: &Span) {
        &self.span
    }
}

/// Why the text could not be split into tokens. `pos` is the character offset
/// at which the problem was found.
#[derive(Debug, Clone, Copy, PartialEq, Eq, Structural)]
pub enum LexError {
    /// A character that starts no token, with its 1-based line and column.
    UnexpectedChar { pos: usize, line: usize, column: usize, found: char },
    /// A `-` that is not followed by `>`.
    ExpectedArrowHead { pos: usize },
}

/// The characters with the Unicode White_Space property, which
/// `char::is_whitespace` tests.
pub open spec fn is_whitespace_char(c: char) -> bool {
    ||| '\u{9}' <= c && c <= '\u{d}'
    ||| c == ' '
    ||| c == '\u{85}'
    ||| c == '\u{a0}'
    ||| c == '\u{1680}'
    ||| '\u{2000}' <= c && c <= '\u{200a}'
    ||| c == '\u{2028}'
    ||| c == '\u{2029}'
    ||| c == '\u{202f}'
    ||| c == '\u{205f}'
    ||| c == '\u{3000}'
}

/// What `char::is_alphabetic` says of a character (the Unicode Alphabetic property).
pub uninterp spec fn is_alphabetic_char(c: char) -> bool;

/// What `char::is_numeric` says of a character (the Unicode numeric general categories).
pub uninterp spec fn is_numeric_char(c: char) -> bool;

/// Whether `c` is whitespace, in the sense of `char::is_whitespace`.
fn is_whitespace(c: char) -> (r: bool)
    ensures
        r == is_whitespace_char(c),
{
    ('\u{9}' <= c && c <= '\u{d}') || c == ' ' || c == '\u{85}' || c == '\u{a0}' || c == '\u{1680}'
        || ('\u{2000}' <= c && c <= '\u{200a}') || c == '\u{2028}' || c == '\u{2029}'
        || c == '\u{202f}' || c == '\u{205f}' || c == '\u{3000}'
}

/// Relies on `char::is_alphabetic`, to find identifiers.
#[verifier::external_body]
fn is_alphabetic(c: char) -> (r: bool)
    ensures
        r == is_alphabetic_char(c),
        c <= '\u{7f}' ==> (r <==> ('a' <= c && c <= 'z') || ('A' <= c && c <= 'Z')),
{
    c.is_alphabetic()
}

/// Relies on `char::is_numeric`, to find the rest of an identifier.
#[verifier::external_body]
fn is_numeric(c: char) -> (r: bool)
    ensures
        r == is_numeric_char(c),
        c <= '\u{7f}' ==> (r <==> ('0' <= c && c <= '9')),
{
    c.is_numeric()
}

/// Relies on `String::push`, which appends one character.
#[verifier::external_body]
fn push_char(s: &mut String, c: char)
    ensures
        final(s)@ == old(s)@.push(c),
{
    s.push(c)
}

pub open spec fn is_decimal_digit(c: char) -> bool {
    '0' <= c && c <= '9'
}

/// Whether `c` is alphabetic: among ASCII characters, the letters.
pub open spec fn alphabetic(c: char) -> bool {
    if c <= '\u{7f}' {
        ('a' <= c && c <= 'z') || ('A' <= c && c <= 'Z')
    } else {
        is_alphabetic_char(c)
    }
}

/// Whether `c` is numeric: among ASCII characters, the decimal digits.
pub open spec fn numeric(c: char) -> bool {
    if c <= '\u{7f}' {
        is_decimal_digit(c)
    } else {
        is_numeric_char(c)
    }
}

pub open spec fn ident_starter(c: char) -> bool {
    alphabetic(c) || c == '_'
}

pub open spec fn ident_char(c: char) -> bool {
    ident_starter(c) || numeric(c)
}

/// The first offset at or after `p` that is not whitespace.
pub open spec fn skip_whitespace_from(t: Seq<char>, p: int) -> int
    decreases t.len() - p,
{
    if 0 <= p < t.len() && is_whitespace_char(t[p]) {
        skip_whitespace_from(t, p + 1)
    } else {
        p
    }
}

/// The end of the run of decimal digits that starts at `p`.
pub open spec fn digits_end(t: Seq<char>, p: int) -> int
    decreases t.len() - p,
{
    if 0 <= p < t.len() && is_decimal_digit(t[p]) {
        digits_end(t, p + 1)
    } else {
        p
    }
}

/// The end of the run of identifier characters that starts at `p`.
pub open spec fn ident_end(t: Seq<char>, p: int) -> int
    decreases t.len() - p,
{
    if 0 <= p < t.len() && ident_char(t[p]) {
        ident_end(t, p + 1)
    } else {
        p
    }
}

/// The kind of a word: one of the four keywords, else an identifier.
pub open spec fn word_kind(w: Seq<char>) -> TokenKind {
    if w == seq!['f', 'n'] {
        TokenKind::FN
    } else if w == seq!['p', 'u', 'b'] {
        TokenKind::PUB
    } else if w == seq!['e', 'x', 't', 'e', 'r', 'n'] {
        TokenKind::EXTERN
    } else if w == seq!['u', 'n', 's', 'a', 'f', 'e'] {
        TokenKind::UNSAFE
    } else {
        TokenKind::IDENT
    }
}

/// The kind of a one-character punctuation token, if `c` is one.
pub open spec fn punct_kind(c: char) -> Option<TokenKind> {
    if c == '(' {
        Some(TokenKind::LPAREN)
    } else if c == ')' {
        Some(TokenKind::RPAREN)
    } else if c == '{' {
        Some(TokenKind::LBRACE)
    } else if c == '}' {
        Some(TokenKind::RBRACE)
    } else if c == ';' {
        Some(TokenKind::SEMI)
    } else {
        None
    }
}

/// The 1-based line on which offset `p` of `t` stands.
pub open spec fn line_of(t: Seq<char>, p: int) -> int
    decreases p,
{
    if p <= 0 || p > t.len() {
        1
    } else if t[p - 1] == '\n' {
        line_of(t, p - 1) + 1
    } else {
        line_of(t, p - 1)
    }
}

/// The 1-based column at which offset `p` of `t` stands.
pub open spec fn column_of(t: Seq<char>, p: int) -> int
    decreases p,
{
    if p <= 0 || p > t.len() {
        1
    } else if t[p - 1] == '\n' {
        1
    } else {
        column_of(t, p - 1) + 1
    }
}

pub proof fn lemma_line_column_bounds(t: Seq<char>, p: int)
    requires
        0 <= p <= t.len(),
    ensures
        1 <= line_of(t, p) <= p + 1,
        1 <= column_of(t, p) <= p + 1,
    decreases p,
{
    if p > 0 {
        lemma_line_column_bounds(t, p - 1);
    }
}

/// The token that lexing `t` from offset `p` yields: its kind, start and end,
/// or the error that stops lexing there.
pub open spec fn scan(t: Seq<char>, p: int) -> Result<(TokenKind, int, int), LexError> {
    let s = skip_whitespace_from(t, p);
    if s >= t.len() {
        Ok((TokenKind::EOF, s, s))
    } else {
        let c = t[s];
        if c == '-' {
            if s + 1 < t.len() && t[s + 1] == '>' {
                Ok((TokenKind::ARROW, s, s + 2))
            } else {
                Err(LexError::ExpectedArrowHead { pos: byte_offset(t, s + 1) as usize })
            }
        } else if c == ':' {
            if s + 1 < t.len() && t[s + 1] == ':' {
                Ok((TokenKind::COLONCOLON, s, s + 2))
            } else {
                Ok((TokenKind::COLON, s, s + 1))
            }
        } else if is_decimal_digit(c) {
            Ok((TokenKind::INT, s, digits_end(t, s)))
        } else if ident_starter(c) {
            let e = ident_end(t, s);
            Ok((word_kind(t.subrange(s, e)), s, e))
        } else if punct_kind(c) is Some {
            Ok((punct_kind(c)->0, s, s + 1))
        } else {
            Err(
                LexError::UnexpectedChar {
                    pos: byte_offset(t, s) as usize,
                    line: line_of(t, s) as usize,
                    column: column_of(t, s) as usize,
                    found: c,
                },
            )
        }
    }
}

/// The offset at which lexing from `p0` stands after `n` tokens, or the first
/// error met on the way.
pub open spec fn lex_pos(t: Seq<char>, p0: int, n: nat) -> Result<int, LexError>
    decreases n,
{
    if n == 0 {
        Ok(p0)
    } else {
        match lex_pos(t, p0, (n - 1) as nat) {
            Ok(p) => match scan(t, p) {
                Ok(tok) => Ok(tok.2),
                Err(e) => Err(e),
            },
            Err(e) => Err(e),
        }
    }
}

/// The `n`th token (from zero) of the stream that lexing `t` from `p0` yields.
/// Past the end of the text the stream goes on with `EOF` tokens.
pub open spec fn nth_token(t: Seq<char>, p0: int, n: nat) -> Result<(TokenKind, int, int), LexError> {
    match lex_pos(t, p0, n) {
        Ok(p) => scan(t, p),
        Err(e) => Err(e),
    }
}

/// The offset in bytes, in the UTF-8 encoding of `t`, of the character at index `i`.
#[verifier::opaque]
pub open spec fn byte_offset(t: Seq<char>, i: int) -> int {
    encode_utf8(t.subrange(0, i)).len() as int
}

proof fn lemma_encode_append(a: Seq<char>, b: Seq<char>)
    ensures
        encode_utf8(a + b) == encode_utf8(a) + encode_utf8(b),
    decreases a.len(),
{
    if a.len() == 0 {
        assert(a + b =~= b);
        assert(encode_utf8(a) =~= Seq::<u8>::empty());
        assert(encode_utf8(a) + encode_utf8(b) =~= encode_utf8(b));
    } else {
        lemma_encode_append(a.drop_first(), b);
        assert((a + b).drop_first() =~= a.drop_first() + b);
        assert((a + b)[0] == a[0]);
        assert(encode_utf8(a + b) =~= encode_utf8(a) + encode_utf8(b));
    }
}

/// Each character adds the width of its encoding to the byte offset.
pub proof fn lemma_byte_offset_step(t: Seq<char>, i: int)
    requires
        0 <= i < t.len(),
    ensures
        byte_offset(t, i + 1) == byte_offset(t, i) + encode_scalar(t[i] as u32).len(),
        1 <= encode_scalar(t[i] as u32).len() <= 4,
{
    reveal(byte_offset);
    let c = t[i];
    lemma_encode_append(t.subrange(0, i), seq![c]);
    assert(t.subrange(0, i + 1) =~= t.subrange(0, i) + seq![c]);
    assert(seq![c].drop_first() =~= Seq::<char>::empty());
    assert(encode_utf8(Seq::<char>::empty()) =~= Seq::<u8>::empty());
    assert(encode_utf8(seq![c]) =~= encode_scalar(c as u32));
}

pub proof fn lemma_byte_offset_monotone(t: Seq<char>, i: int, j: int)
    requires
        0 <= i <= j <= t.len(),
    ensures
        byte_offset(t, i) <= byte_offset(t, j),
    decreases j - i,
{
    if i < j {
        lemma_byte_offset_step(t, i);
        lemma_byte_offset_monotone(t, i + 1, j);
    }
}

/// The number of bytes that encode `c` in UTF-8.
fn utf8_width(c: char) -> (r: usize)
    ensures
        r == encode_scalar(c as u32).len(),
{
    proof {
        vstd::utf8::char_is_scalar(c);
    }
    let v = c as u32;
    if v <= 0x7F {
        1
    } else if v <= 0x7FF {
        2
    } else if v <= 0xFFFF {
        3
    } else {
        4
    }
}

/// Whether `tok` is the token `(kind, start, end)` of the text `t`, where the
/// start and end are character indices and the span holds their byte offsets.
pub open spec fn token_is(tok: &Token, t: Seq<char>, m: (TokenKind, int, int)) -> bool {
    &&& tok.kind == m.0
    &&& tok.span.start == byte_offset(t, m.1)
    &&& tok.span.end == byte_offset(t, m.2)
    &&& tok.text@ == t.subrange(m.1, m.2)
}

pub proof fn lemma_skip_whitespace_bounds(t: Seq<char>, p: int)
    requires
        0 <= p <= t.len(),
    ensures
        p <= skip_whitespace_from(t, p) <= t.len(),
    decreases t.len() - p,
{
    if p < t.len() && is_whitespace_char(t[p]) {
        lemma_skip_whitespace_bounds(t, p + 1);
    }
}

pub proof fn lemma_digits_end_bounds(t: Seq<char>, p: int)
    requires
        0 <= p <= t.len(),
    ensures
        p <= digits_end(t, p) <= t.len(),
    decreases t.len() - p,
{
    if p < t.len() && is_decimal_digit(t[p]) {
        lemma_digits_end_bounds(t, p + 1);
    }
}

pub proof fn lemma_ident_end_bounds(t: Seq<char>, p: int)
    requires
        0 <= p <= t.len(),
    ensures
        p <= ident_end(t, p) <= t.len(),
    decreases t.len() - p,
{
    if p < t.len() && ident_char(t[p]) {
        lemma_ident_end_bounds(t, p + 1);
    }
}

/// A token found from `p` lies within `[p, len]`, and only `EOF` is empty.
pub proof fn lemma_scan_bounds(t: Seq<char>, p: int)
    requires
        0 <= p <= t.len(),
    ensures
        scan(t, p) matches Ok(tok) ==> {
            &&& p <= tok.1 <= tok.2 <= t.len()
            &&& tok.0 == TokenKind::EOF <==> tok.1 == tok.2
            &&& tok.0 == TokenKind::EOF ==> tok.2 == t.len()
        },
{
    lemma_skip_whitespace_bounds(t, p);
    let s = skip_whitespace_from(t, p);
    if s < t.len() {
        lemma_digits_end_bounds(t, s);
        lemma_ident_end_bounds(t, s);
        if is_decimal_digit(t[s]) {
            lemma_digits_end_bounds(t, s + 1);
        } else if ident_starter(t[s]) {
            lemma_ident_end_bounds(t, s + 1);
        }
    }
}

/// Lexing never moves backwards nor past the end of the text.
pub proof fn lemma_lex_pos_bounds(t: Seq<char>, p0: int, n: nat)
    requires
        0 <= p0 <= t.len(),
    ensures
        lex_pos(t, p0, n) matches Ok(p) ==> p0 <= p <= t.len(),
    decreases n,
{
    if n > 0 {
        lemma_lex_pos_bounds(t, p0, (n - 1) as nat);
        if let Ok(p) = lex_pos(t, p0, (n - 1) as nat) {
            lemma_scan_bounds(t, p);
        }
    }
}

proof fn lemma_skip_all_whitespace(t: Seq<char>, p: int)
    requires
        0 <= p <= t.len(),
        forall|i: int| 0 <= i < t.len() ==> is_whitespace_char(#[trigger] t[i]),
    ensures
        skip_whitespace_from(t, p) == t.len(),
    decreases t.len() - p,
{
    if p < t.len() {
        lemma_skip_all_whitespace(t, p + 1);
    }
}

/// A text of whitespace only lexes to a single `EOF` token, which starts and
/// ends at the end of the text (whose byte offset is the length of the text's
/// UTF-8 encoding), and the stream stays at `EOF` from there on.
pub proof fn lemma_whitespace_only_lexes_to_eof(t: Seq<char>)
    requires
        forall|i: int| 0 <= i < t.len() ==> is_whitespace_char(#[trigger] t[i]),
    ensures
        scan(t, 0) == Ok::<(TokenKind, int, int), LexError>(
            (TokenKind::EOF, t.len() as int, t.len() as int),
        ),
        scan(t, t.len() as int) == scan(t, 0),
        byte_offset(t, t.len() as int) == encode_utf8(t).len(),
{
    reveal(byte_offset);
    assert(t.subrange(0, t.len() as int) =~= t);
    lemma_skip_all_whitespace(t, 0);
    lemma_skip_all_whitespace(t, t.len() as int);
}

/// A lexer over a text held as a sequence of characters. Spans and error
/// positions are byte offsets into the text's UTF-8 encoding.
#[derive(Debug)]
pub struct Lexer {
    chars: Vec<char>,
    position: usize,
    /// The line of the position, counted from zero.
    line: usize,
    /// The column of the position, counted from zero.
    column: usize,
    /// The byte offset of the position in the text's UTF-8 encoding.
    byte_position: usize,
    path: std::path::PathBuf,
}

impl Lexer {
    pub open spec fn wf(&self) -> bool {
        &&& 0 <= self.pos() <= self.text().len()
        &&& self.counters_ok()
    }

    /// The line and column counters follow the position.
    pub closed spec fn counters_ok(&self) -> bool {
        &&& self.line + 1 == line_of(self.chars@, self.position as int)
        &&& self.column + 1 == column_of(self.chars@, self.position as int)
        &&& self.byte_position == byte_offset(self.chars@, self.position as int)
        &&& byte_offset(self.chars@, self.chars@.len() as int) <= usize::MAX
    }

    /// The path of the file being lexed.
    pub closed spec fn path(&self) -> std::path::PathBuf {
        self.path
    }

    /// The text being lexed.
    pub closed spec fn text(&self) -> Seq<char> {
        self.chars@
    }

    /// The offset from which the next token is looked for.
    pub closed spec fn pos(&self) -> int {
        self.position as int
    }

    /// A lexer at the start of `text`.
    pub fn new(text: &str, path: std::path::PathBuf) -> (r: Lexer)
        ensures
            r.wf(),
            r.text() == text@,
            r.pos() == 0,
            r.path() == path,
    {
        broadcast use vstd::string::axiom_spec_iter, vstd::string::next_postcondition;

        let mut chars: Vec<char> = Vec::new();
        let mut it = text.chars();
        assert(it.remaining() == text@);
        loop
            invariant
                chars@ + it.remaining() == text@,
            ensures
                chars@ == text@,
            decreases text@.len() - chars@.len(),
        {
            match it.next() {
                Some(c) => {
                    chars.push(c);
                    assert(chars@ + it.remaining() =~= text@);
                },
                None => {
                    assert(chars@ =~= text@);
                    break;
                },
            }
        }
        // The encoding's length is a slice length, so it fits in a usize.
        let bytes = text.as_bytes();
        let _n = bytes.len();
        proof {
            reveal(byte_offset);
        }
        assert(chars@.subrange(0, chars@.len() as int) =~= chars@);
        assert(chars@.subrange(0, 0) =~= Seq::<char>::empty());
        assert(encode_utf8(Seq::<char>::empty()) =~= Seq::<u8>::empty());
        Lexer { chars, position: 0, line: 0, column: 0, byte_position: 0, path }
    }

    /// Gives up the lexer's file path.
    pub fn into_path(self) -> (r: std::path::PathBuf)
        ensures
            r == self.path(),
    {
        self.path
    }

    /// Moves past the current character, keeping the line and column counters.
    fn advance(&mut self)
        requires
            old(self).wf(),
            old(self).pos() < old(self).text().len(),
        ensures
            final(self).wf(),
            final(self).text() == old(self).text(),
            final(self).path() == old(self).path(),
            final(self).pos() == old(self).pos() + 1,
    {
        proof {
            lemma_line_column_bounds(self.chars@, self.position as int);
            lemma_byte_offset_step(self.chars@, self.position as int);
            lemma_byte_offset_monotone(
                self.chars@,
                self.position + 1,
                self.chars@.len() as int,
            );
        }
        // The length is read so that the position's successor is known to fit.
        let _len = self.chars.len();
        let c = self.chars[self.position];
        self.position = self.position + 1;
        self.byte_position = self.byte_position + utf8_width(c);
        if c == '\n' {
            self.line = self.line + 1;
            self.column = 0;
        } else {
            self.column = self.column + 1;
        }
    }

    fn current(&self) -> (r: Option<char>)
        requires
            self.wf(),
        ensures
            self.position < self.chars@.len() ==> r == Some(self.chars@[self.pos()]),
            self.position >= self.chars@.len() ==> r is None,
    {
        if self.position < self.chars.len() {
            Some(self.chars[self.position])
        } else {
            None
        }
    }

    fn skip_whitespace(&mut self)
        requires
            old(self).wf(),
        ensures
            final(self).wf(),
            final(self).text() == old(self).text(),
            final(self).path() == old(self).path(),
            final(self).pos() == skip_whitespace_from(old(self).text(), old(self).pos()),
    {
        while self.position < self.chars.len() && is_whitespace(self.chars[self.position])
            invariant
                self.wf(),
                self.text() == old(self).text(),
                self.path() == old(self).path(),
                skip_whitespace_from(self.text(), self.pos()) == skip_whitespace_from(
                    old(self).text(),
                    old(self).pos(),
                ),
            decreases self.chars@.len() - self.position,
        {
            self.advance();
        }
    }

    /// The token whose text is `[start, position)`.
    fn make_token(&self, kind: TokenKind, start: usize, start_byte: usize) -> (r: Token)
        requires
            self.wf(),
            start <= self.position,
            start_byte == byte_offset(self.text(), start as int),
        ensures
            token_is(&r, self.text(), (kind, start as int, self.pos())),
    {
        let mut text = String::new();
        let mut i = start;
        while i < self.position
            invariant
                self.wf(),
                start <= i <= self.position,
                text@ == self.chars@.subrange(start as int, i as int),
            decreases self.position - i,
        {
            push_char(&mut text, self.chars[i]);
            assert(text@ =~= self.chars@.subrange(start as int, i + 1));
            i = i + 1;
        }
        Token { kind, span: Span { start: start_byte, end: self.byte_position }, text }
    }

    fn integer(&mut self) -> (r: Token)
        requires
            old(self).wf(),
            old(self).pos() < old(self).text().len(),
            is_decimal_digit(old(self).text()[old(self).pos()]),
        ensures
            final(self).wf(),
            final(self).text() == old(self).text(),
            final(self).path() == old(self).path(),
            final(self).pos() == digits_end(old(self).text(), old(self).pos()),
            token_is(&r, old(self).text(), (TokenKind::INT, old(self).pos(), final(self).pos())),
    {
        let start = self.position;
        let start_byte = self.byte_position;
        while self.position < self.chars.len() && '0' <= self.chars[self.position]
            && self.chars[self.position] <= '9'
            invariant
                self.wf(),
                self.text() == old(self).text(),
                self.path() == old(self).path(),
                start <= self.position,
                digits_end(self.text(), self.pos()) == digits_end(old(self).text(), start as int),
            decreases self.chars@.len() - self.position,
        {
            self.advance();
        }
        self.make_token(TokenKind::INT, start, start_byte)
    }

    fn ident_or_keyword(&mut self) -> (r: Token)
        requires
            old(self).wf(),
            old(self).pos() < old(self).text().len(),
            ident_starter(old(self).text()[old(self).pos()]),
        ensures
            final(self).wf(),
            final(self).text() == old(self).text(),
            final(self).path() == old(self).path(),
            final(self).pos() == ident_end(old(self).text(), old(self).pos()),
            token_is(
                &r,
                old(self).text(),
                (
                    word_kind(old(self).text().subrange(old(self).pos(), final(self).pos())),
                    old(self).pos(),
                    final(self).pos(),
                ),
            ),
    {
        let start = self.position;
        let start_byte = self.byte_position;
        while self.position < self.chars.len() && is_ident_char(self.chars[self.position])
            invariant
                self.wf(),
                self.text() == old(self).text(),
                self.path() == old(self).path(),
                start <= self.position,
                ident_end(self.text(), self.pos()) == ident_end(old(self).text(), start as int),
            decreases self.chars@.len() - self.position,
        {
            self.advance();
        }
        let kind = word_kind_of(&self.chars, start, self.position);
        self.make_token(kind, start, start_byte)
    }

    /// Lexes the next token. At the end of the text this is an `EOF` token,
    /// again on every later call.
    pub fn next_token(&mut self) -> (r: Result<Token, LexError>)
        requires
            old(self).wf(),
        ensures
            final(self).wf(),
            final(self).text() == old(self).text(),
            final(self).path() == old(self).path(),
            match scan(old(self).text(), old(self).pos()) {
                Ok(m) => r matches Ok(tok) && token_is(&tok, old(self).text(), m)
                    && final(self).pos() == m.2,
                Err(e) => r == Err::<Token, LexError>(e),
            },
    {
        proof {
            lemma_skip_whitespace_bounds(self.text(), self.pos());
        }
        self.skip_whitespace();
        // The length is read so that the position's successor is known to fit.
        let _len = self.chars.len();
        let start = self.position;
        let start_byte = self.byte_position;
        match self.current() {
            None => Ok(self.make_token(TokenKind::EOF, start, start_byte)),
            Some(c) => {
                if c == '-' {
                    self.advance();
                    if self.position < self.chars.len() && self.chars[self.position] == '>' {
                        self.advance();
                        Ok(self.make_token(TokenKind::ARROW, start, start_byte))
                    } else {
                        Err(LexError::ExpectedArrowHead { pos: self.byte_position })
                    }
                } else if c == ':' {
                    self.advance();
                    if self.position < self.chars.len() && self.chars[self.position] == ':' {
                        self.advance();
                        Ok(self.make_token(TokenKind::COLONCOLON, start, start_byte))
                    } else {
                        Ok(self.make_token(TokenKind::COLON, start, start_byte))
                    }
                } else if '0' <= c && c <= '9' {
                    Ok(self.integer())
                } else if is_ident_starter(c) {
                    Ok(self.ident_or_keyword())
                } else {
                    match single_char_kind(c) {
                        Some(kind) => {
                            self.advance();
                            Ok(self.make_token(kind, start, start_byte))
                        },
                        None => {
                            proof {
                                lemma_line_column_bounds(self.text(), self.pos());
                            }
                            Err(
                                LexError::UnexpectedChar {
                                    pos: start_byte,
                                    line: self.line + 1,
                                    column: self.column + 1,
                                    found: c,
                                },
                            )
                        },
                    }
                }
            },
        }
    }
}

fn single_char_kind(c: char) -> (r: Option<TokenKind>)
    ensures
        r == punct_kind(c),
{
    if c == '(' {
        Some(TokenKind::LPAREN)
    } else if c == ')' {
        Some(TokenKind::RPAREN)
    } else if c == '{' {
        Some(TokenKind::LBRACE)
    } else if c == '}' {
        Some(TokenKind::RBRACE)
    } else if c == ';' {
        Some(TokenKind::SEMI)
    } else {
        None
    }
}

/// Whether the characters `chars[s..e]` are exactly `w`.
fn chars_are(chars: &Vec<char>, s: usize, e: usize, w: &[char]) -> (r: bool)
    requires
        s <= e <= chars@.len(),
    ensures
        r == (chars@.subrange(s as int, e as int) == w@),
{
    if e - s != w.len() {
        assert(chars@.subrange(s as int, e as int).len() != w@.len());
        return false;
    }
    let mut i: usize = 0;
    while i < w.len()
        invariant
            s <= e <= chars@.len(),
            e - s == w@.len(),
            0 <= i <= w@.len(),
            forall|j: int| 0 <= j < i ==> chars@[s + j] == w@[j],
        decreases w@.len() - i,
    {
        if chars[s + i] != w[i] {
            assert(chars@.subrange(s as int, e as int)[i as int] != w@[i as int]);
            return false;
        }
        i = i + 1;
    }
    assert(chars@.subrange(s as int, e as int) =~= w@);
    true
}

fn word_kind_of(chars: &Vec<char>, s: usize, e: usize) -> (r: TokenKind)
    requires
        s <= e <= chars@.len(),
    ensures
        r == word_kind(chars@.subrange(s as int, e as int)),
{
    let fn_word: [char; 2] = ['f', 'n'];
    let pub_word: [char; 3] = ['p', 'u', 'b'];
    let foreign_word: [char; 6] = ['e', 'x', 't', 'e', 'r', 'n'];
    let unchecked_word: [char; 6] = ['u', 'n', 's', 'a', 'f', 'e'];
    assert(fn_word@ =~= seq!['f', 'n']);
    assert(pub_word@ =~= seq!['p', 'u', 'b']);
    assert(foreign_word@ =~= seq!['e', 'x', 't', 'e', 'r', 'n']);
    assert(unchecked_word@ =~= seq!['u', 'n', 's', 'a', 'f', 'e']);
    if chars_are(chars, s, e, &fn_word) {
        TokenKind::FN
    } else if chars_are(chars, s, e, &pub_word) {
        TokenKind::PUB
    } else if chars_are(chars, s, e, &foreign_word) {
        TokenKind::EXTERN
    } else if chars_are(chars, s, e, &unchecked_word) {
        TokenKind::UNSAFE
    } else {
        TokenKind::IDENT
    }
}

/// Whether `c` can start an identifier: a letter or `_`.
pub fn is_ident_starter(c: char) -> (r: bool)
    ensures
        r == ident_starter(c),
{
    is_alphabetic(c) || c == '_'
}

/// Whether `c` can continue an identifier: a letter, a digit or `_`.
pub fn is_ident_char(c: char) -> (r: bool)
    ensures
        r == ident_char(c),
{
    is_ident_starter(c) || is_numeric(c)
}

} // verus!
