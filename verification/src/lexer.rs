//! The lexer: a single pass over a sequence of Unicode scalar values that
//! produces tokens with their source positions, skipping whitespace and line
//! comments and synthesizing an implicit semicolon when a newline follows a
//! statement-terminating token.
//!
//! The whole tokenization is specified by the function `spec_lex`, a
//! mathematical state machine over the character sequence; `Lexer::next_token`
//! is proved to emit exactly that token stream.

use vstd::prelude::*;

use crate::token::{is_terminator, terminates_statement, Token, TokenType, TokenTypeV, TokenV};

verus! {

// ---------------------------------------------------------------------------
// Character classes, relied on from the standard library
// ---------------------------------------------------------------------------

pub uninterp spec fn is_whitespace_char(c: char) -> bool;

pub uninterp spec fn is_numeric_char(c: char) -> bool;

pub uninterp spec fn is_alphabetic_char(c: char) -> bool;

/// Relies on char::is_whitespace: whether the character has the Unicode
/// White_Space property, a function of the character alone.
#[verifier::external_body]
fn char_is_whitespace(c: char) -> (r: bool)
    ensures
        r == is_whitespace_char(c),
{
    c.is_whitespace()
}

/// Relies on char::is_numeric: whether the character has a Unicode numeric
/// general category, a function of the character alone.
#[verifier::external_body]
fn char_is_numeric(c: char) -> (r: bool)
    ensures
        r == is_numeric_char(c),
{
    c.is_numeric()
}

/// Relies on char::is_alphabetic: whether the character is in the Unicode
/// Alphabetic category, a function of the character alone.
#[verifier::external_body]
fn char_is_alphabetic(c: char) -> (r: bool)
    ensures
        r == is_alphabetic_char(c),
{
    c.is_alphabetic()
}

/// Relies on char::is_alphanumeric, documented as the disjunction of
/// char::is_alphabetic and char::is_numeric.
#[verifier::external_body]
fn char_is_alphanumeric(c: char) -> (r: bool)
    ensures
        r == (is_alphabetic_char(c) || is_numeric_char(c)),
{
    c.is_alphanumeric()
}

/// Relies on String's FromIterator<char> implementation: collecting characters
/// yields the string of exactly those characters in order.
#[verifier::external_body]
fn chars_to_string(v: &Vec<char>) -> (r: String)
    ensures
        r@ == v@,
{
    v.iter().collect()
}

// ---------------------------------------------------------------------------
// The specification-level lexer
// ---------------------------------------------------------------------------

/// The lexer's abstract state between characters.
pub struct LexSt {
    /// Current line, counting from 1.
    pub line: int,
    /// Column of the most recently consumed character (0 at a line start).
    pub col: int,
    /// True until the first character after a line break is consumed.
    pub fresh: bool,
    /// Whether the most recently produced token ends a statement.
    pub term: bool,
    /// A synthesized semicolon waiting to be delivered before the next token.
    pub held: Option<TokenV>,
}

/// First index `>= i` that holds the closing quote or a newline, or the length.
pub open spec fn str_body_end(cs: Seq<char>, i: int) -> int
    decreases cs.len() - i,
{
    if i < 0 || i >= cs.len() {
        cs.len() as int
    } else if cs[i] == '"' || cs[i] == '\n' {
        i
    } else {
        str_body_end(cs, i + 1)
    }
}

/// First index `>= i` that holds a newline, or the length.
pub open spec fn comment_end(cs: Seq<char>, i: int) -> int
    decreases cs.len() - i,
{
    if i < 0 || i >= cs.len() {
        cs.len() as int
    } else if cs[i] == '\n' {
        i
    } else {
        comment_end(cs, i + 1)
    }
}

/// First index `>= i` whose character no longer extends an identifier, or the
/// length.
pub open spec fn letters_end(cs: Seq<char>, i: int) -> int
    decreases cs.len() - i,
{
    if i < 0 || i >= cs.len() {
        cs.len() as int
    } else if is_alphabetic_char(cs[i]) || is_numeric_char(cs[i]) || cs[i] == '_' {
        letters_end(cs, i + 1)
    } else {
        i
    }
}

/// How a numeric literal ended.
pub enum NumberShape {
    /// Digits only: an integer literal.
    Whole,
    /// A dot or a trailing `f` was seen: a float literal.
    Fractional,
    /// A second dot was seen: the literal is illegal.
    Malformed,
}

/// Result of scanning the continuation of a numeric literal.
pub struct DigScan {
    /// The characters that extend the literal (the first digit not included).
    pub lit: Seq<char>,
    /// The index of the first character after the literal.
    pub end: int,
    /// The literal's shape.
    pub shape: NumberShape,
}

/// Scans the continuation of a numeric literal from index `i`; `fractional`
/// says whether a dot has been seen already. A `f` ends the literal as a
/// float without joining the text; a second dot joins the text and makes the
/// literal illegal.
pub open spec fn digits_scan(cs: Seq<char>, i: int, fractional: bool) -> DigScan
    decreases cs.len() - i,
{
    if i < 0 || i >= cs.len() {
        DigScan {
            lit: Seq::empty(),
            end: cs.len() as int,
            shape: if fractional { NumberShape::Fractional } else { NumberShape::Whole },
        }
    } else if cs[i] == 'f' {
        DigScan { lit: Seq::empty(), end: i + 1, shape: NumberShape::Fractional }
    } else if cs[i] == '.' {
        if fractional {
            DigScan { lit: seq!['.'], end: i + 1, shape: NumberShape::Malformed }
        } else {
            let r = digits_scan(cs, i + 1, true);
            DigScan { lit: seq!['.'] + r.lit, end: r.end, shape: r.shape }
        }
    } else if is_numeric_char(cs[i]) {
        let r = digits_scan(cs, i + 1, fractional);
        DigScan { lit: seq![cs[i]] + r.lit, end: r.end, shape: r.shape }
    } else {
        DigScan {
            lit: Seq::empty(),
            end: i,
            shape: if fractional { NumberShape::Fractional } else { NumberShape::Whole },
        }
    }
}

/// The reserved-word table: an exact, case-sensitive match maps a spelling to
/// its keyword kind; anything else is a user identifier.
pub open spec fn keyword_kind(s: Seq<char>) -> TokenTypeV {
    if s == seq!['t', 'r', 'u', 'e'] {
        TokenTypeV::True
    } else if s == seq!['f', 'a', 'l', 's', 'e'] {
        TokenTypeV::False
    } else if s == seq!['f', 'u', 'n'] {
        TokenTypeV::Fun
    } else if s == seq!['l', 'o', 'o', 'p'] {
        TokenTypeV::Loop
    } else if s == seq!['i', 'f'] {
        TokenTypeV::If
    } else if s == seq!['e', 'l', 's', 'e'] {
        TokenTypeV::Else
    } else if s == seq!['p', 'r', 'i', 'n', 't'] {
        TokenTypeV::Print
    } else if s == seq!['r', 'e', 't', 'u', 'r', 'n'] {
        TokenTypeV::Return
    } else if s == seq!['v', 'a', 'l'] {
        TokenTypeV::Val
    } else if s == seq!['v', 'a', 'r'] {
        TokenTypeV::Var
    } else if s == seq!['b', 'r', 'e', 'a', 'k'] {
        TokenTypeV::Break
    } else if s == seq!['c', 'o', 'n', 't', 'i', 'n', 'u', 'e'] {
        TokenTypeV::Continue
    } else {
        TokenTypeV::Identifier(s)
    }
}

/// Result of scanning one token whose first character stands at index `i`.
pub struct ScanOut {
    /// The token's kind, literal text included.
    pub kind: TokenTypeV,
    /// The index of the first character after the token.
    pub end: int,
    /// Line after the token (changes only when a string literal meets a
    /// newline).
    pub line: int,
    /// Column of the token's last consumed character.
    pub col: int,
    /// Whether the next character is the first of its line.
    pub fresh: bool,
    /// The pending synthesized semicolon after the token, if any.
    pub held: Option<TokenV>,
}

/// Scans the token that starts at index `i`, whose first character has column
/// `col0` on line `line`; `term` and `held` are the statement-termination
/// flag and the pending semicolon before the token. The caller has already
/// ruled out newline, whitespace and comments.
pub open spec fn scan_token(
    cs: Seq<char>,
    i: int,
    col0: int,
    line: int,
    term: bool,
    held: Option<TokenV>,
) -> ScanOut {
    let c = cs[i];
    if c == ';' {
        ScanOut { kind: TokenTypeV::Semicolon, end: i + 1, line, col: col0, fresh: false, held }
    } else if c == '(' {
        ScanOut { kind: TokenTypeV::LeftParen, end: i + 1, line, col: col0, fresh: false, held }
    } else if c == ')' {
        ScanOut { kind: TokenTypeV::RightParen, end: i + 1, line, col: col0, fresh: false, held }
    } else if c == '{' {
        ScanOut { kind: TokenTypeV::LeftBrace, end: i + 1, line, col: col0, fresh: false, held }
    } else if c == '}' {
        ScanOut { kind: TokenTypeV::RightBrace, end: i + 1, line, col: col0, fresh: false, held }
    } else if c == ',' {
        ScanOut { kind: TokenTypeV::Comma, end: i + 1, line, col: col0, fresh: false, held }
    } else if c == '-' {
        ScanOut { kind: TokenTypeV::Minus, end: i + 1, line, col: col0, fresh: false, held }
    } else if c == '+' {
        ScanOut { kind: TokenTypeV::Plus, end: i + 1, line, col: col0, fresh: false, held }
    } else if c == '*' {
        ScanOut { kind: TokenTypeV::Star, end: i + 1, line, col: col0, fresh: false, held }
    } else if c == '<' {
        pair_scan(cs, i, TokenTypeV::Less, TokenTypeV::LessEqual, col0, line, held)
    } else if c == '>' {
        pair_scan(cs, i, TokenTypeV::Greater, TokenTypeV::GreaterEqual, col0, line, held)
    } else if c == '=' {
        pair_scan(cs, i, TokenTypeV::Equal, TokenTypeV::EqualEqual, col0, line, held)
    } else if c == '!' {
        pair_scan(cs, i, TokenTypeV::Bang, TokenTypeV::BangEqual, col0, line, held)
    } else if c == '/' {
        ScanOut { kind: TokenTypeV::Slash, end: i + 1, line, col: col0, fresh: false, held }
    } else if c == '"' {
        let e = str_body_end(cs, i + 1);
        if e >= cs.len() {
            ScanOut {
                kind: TokenTypeV::Illegal(cs.subrange(i + 1, e)),
                end: cs.len() as int,
                line,
                col: col0 + (e - i - 1),
                fresh: false,
                held,
            }
        } else if cs[e] == '"' {
            ScanOut {
                kind: TokenTypeV::String(cs.subrange(i + 1, e)),
                end: e + 1,
                line,
                col: col0 + (e - i),
                fresh: false,
                held,
            }
        } else {
            // A raw newline ends the literal: the token is illegal, the
            // newline still moves the position and may synthesize a
            // semicolon after the previous token.
            ScanOut {
                kind: TokenTypeV::Illegal(cs.subrange(i + 1, e)),
                end: e + 1,
                line: line + 1,
                col: 0,
                fresh: true,
                held: if term {
                    Some(TokenV { token_type: TokenTypeV::Semicolon, char: col0 + (e - i - 1), line })
                } else {
                    held
                },
            }
        }
    } else if is_numeric_char(c) {
        let d = digits_scan(cs, i + 1, false);
        let lit = seq![c] + d.lit;
        ScanOut {
            kind: match d.shape {
                NumberShape::Whole => TokenTypeV::Int(lit),
                NumberShape::Fractional => TokenTypeV::Float(lit),
                NumberShape::Malformed => TokenTypeV::Illegal(lit),
            },
            end: d.end,
            line,
            col: col0 + (d.end - i - 1),
            fresh: false,
            held,
        }
    } else if is_alphabetic_char(c) || c == '_' {
        let e = letters_end(cs, i + 1);
        ScanOut {
            kind: keyword_kind(cs.subrange(i, e)),
            end: e,
            line,
            col: col0 + (e - i - 1),
            fresh: false,
            held,
        }
    } else {
        ScanOut { kind: TokenTypeV::Illegal(seq![c]), end: i + 1, line, col: col0, fresh: false, held }
    }
}

/// One-character operator that pairs with a following `=`.
pub open spec fn pair_scan(
    cs: Seq<char>,
    i: int,
    bare: TokenTypeV,
    paired: TokenTypeV,
    col0: int,
    line: int,
    held: Option<TokenV>,
) -> ScanOut {
    if i + 1 < cs.len() && cs[i + 1] == '=' {
        ScanOut { kind: paired, end: i + 2, line, col: col0 + 1, fresh: false, held }
    } else {
        ScanOut { kind: bare, end: i + 1, line, col: col0, fresh: false, held }
    }
}

/// The token stream that lexing the characters of `cs` from index `i` in state
/// `st` produces. This is the lexer's full specification.
pub open spec fn spec_lex(cs: Seq<char>, i: int, st: LexSt) -> Seq<TokenV>
    decreases cs.len() - i,
{
    if i < 0 || i >= cs.len() {
        match st.held {
            Some(h) => seq![h],
            None => Seq::empty(),
        }
    } else {
        let c = cs[i];
        if c == '\n' {
            spec_lex(
                cs,
                i + 1,
                LexSt {
                    line: st.line + 1,
                    col: 0,
                    fresh: true,
                    term: st.term,
                    held: if st.term {
                        Some(TokenV { token_type: TokenTypeV::Semicolon, char: st.col, line: st.line })
                    } else {
                        st.held
                    },
                },
            )
        } else if is_whitespace_char(c) {
            spec_lex(
                cs,
                i + 1,
                LexSt { col: if st.fresh { st.col } else { st.col + 1 }, fresh: false, ..st },
            )
        } else if c == '/' && i + 1 < cs.len() && cs[i + 1] == '/' {
            let col0 = if st.fresh { st.col } else { st.col + 1 };
            let e = comment_end(cs, i + 1);
            let j = if e <= i + 1 { i + 2 } else if e > cs.len() { cs.len() as int } else { e };
            spec_lex(cs, j, LexSt { col: col0 + (j - i - 1), fresh: false, ..st })
        } else {
            let col0 = if st.fresh { st.col } else { st.col + 1 };
            let o = scan_token(cs, i, col0, st.line, st.term, st.held);
            let j = if o.end <= i { i + 1 } else if o.end > cs.len() { cs.len() as int } else { o.end };
            let tok = TokenV { token_type: o.kind, char: o.col, line: o.line };
            let produced = match o.held {
                Some(h) => seq![h, tok],
                None => seq![tok],
            };
            produced + spec_lex(
                cs,
                j,
                LexSt { line: o.line, col: o.col, fresh: o.fresh, term: is_terminator(o.kind), held: None },
            )
        }
    }
}

/// The lexer's starting state: line 1, column 0, nothing pending, and the
/// last-token kind treated as non-terminating.
pub open spec fn initial_lex_state() -> LexSt {
    LexSt { line: 1, col: 0, fresh: true, term: false, held: None }
}

/// The token stream of a whole input.
pub open spec fn tokens_of(cs: Seq<char>) -> Seq<TokenV> {
    spec_lex(cs, 0, initial_lex_state())
}

// ---------------------------------------------------------------------------
// The executable lexer
// ---------------------------------------------------------------------------

/// A pull-based, single-pass, forward-only tokenizer over a character
/// sequence.
pub struct Lexer {
    input: Vec<char>,
    pos: usize,
    char: usize,
    line: usize,
    newline: bool,
    last_term: bool,
    held_token: Option<Token>,
}

impl Lexer {
    /// Internal consistency: the position stays inside the input and the
    /// recorded line and column cannot outrun it.
    pub closed spec fn wf(&self) -> bool {
        &&& self.pos <= self.input@.len()
        &&& self.input@.len() < usize::MAX
        &&& self.char <= self.pos
        &&& self.line <= self.pos + 1
    }

    /// The characters this lexer was created over.
    pub closed spec fn source(&self) -> Seq<char> {
        self.input@
    }

    /// The abstract state with no pending token.
    pub closed spec fn lex_state(&self) -> LexSt {
        LexSt {
            line: self.line as int,
            col: self.char as int,
            fresh: self.newline,
            term: self.last_term,
            held: None,
        }
    }

    /// The abstract state, pending token included.
    closed spec fn full_state(&self) -> LexSt {
        LexSt {
            line: self.line as int,
            col: self.char as int,
            fresh: self.newline,
            term: self.last_term,
            held: self.held_token.deep_view(),
        }
    }

    /// The tokens this lexer has yet to deliver.
    pub closed spec fn stream(&self) -> Seq<TokenV> {
        (match self.held_token {
            Some(h) => seq![h.deep_view()],
            None => Seq::empty(),
        }) + spec_lex(self.input@, self.pos as int, self.lex_state())
    }

    /// Strictly decreases with each delivered token.
    pub closed spec fn remaining(&self) -> int {
        2 * (self.input@.len() - self.pos) + (if self.held_token is Some { 1int } else { 0 })
    }

    pub fn new(input: Vec<char>) -> (r: Lexer)
        requires
            input@.len() < usize::MAX,
        ensures
            r.wf(),
            r.stream() == tokens_of(input@),
    {
        let l = Lexer {
            input,
            pos: 0,
            char: 0,
            line: 1,
            newline: true,
            last_term: false,
            held_token: None,
        };
        proof {
            assert(l.stream() =~= tokens_of(l.input@));
        }
        l
    }

    /// Delivers the next token, or `None` once the input is exhausted and
    /// nothing is pending. The stream of delivered tokens is exactly
    /// `tokens_of` the input.
    #[verifier::rlimit(100)]
    #[verifier::spinoff_prover]
    #[verifier::loop_isolation(false)]
    pub fn next_token(&mut self) -> (r: Option<Token>)
        requires
            old(self).wf(),
        ensures
            final(self).wf(),
            final(self).source() == old(self).source(),
            match r {
                Some(t) => old(self).stream() == seq![t.deep_view()] + final(self).stream()
                    && final(self).remaining() < old(self).remaining(),
                None => old(self).stream() == Seq::<TokenV>::empty()
                    && final(self).stream() == old(self).stream(),
            },
    {
        let pending = self.held_token.take();
        if let Some(t) = pending {
            proof {
                assert(old(self).stream() =~= seq![t.deep_view()] + self.stream());
            }
            return Some(t);
        }
        let ghost cs = self.input@;
        let ghost st0 = old(self).lex_state();
        let ghost p0 = old(self).pos as int;
        loop
            invariant
                self.wf(),
                self.input == old(self).input,
                self.input@ == cs,
                spec_lex(cs, p0, st0) == spec_lex(cs, self.pos as int, self.full_state()),
                self.held_token is Some ==> self.pos > old(self).pos,
                self.pos >= old(self).pos,
            decreases cs.len() - self.pos,
        {
            if self.pos == self.input.len() {
                let h = self.held_token.take();
                proof {
                    if h is Some {
                        assert(old(self).stream() =~= seq![h->Some_0.deep_view()] + self.stream());
                    } else {
                        assert(old(self).stream() =~= Seq::<TokenV>::empty());
                        assert(self.stream() =~= old(self).stream());
                    }
                }
                return h;
            }
            let c = self.input[self.pos];
            if c == '\n' {
                if self.last_term {
                    self.held_token = Some(
                        Token { token_type: TokenType::Semicolon, char: self.char, line: self.line },
                    );
                }
                self.line = self.line + 1;
                self.char = 0;
                self.newline = true;
                self.pos = self.pos + 1;
            } else if char_is_whitespace(c) {
                if self.newline {
                    self.newline = false;
                } else {
                    self.char = self.char + 1;
                }
                self.pos = self.pos + 1;
            } else if c == '/' && self.pos + 1 < self.input.len() && self.input[self.pos + 1]
                == '/' {
                // consume the first slash, then the comment up to the newline
                let ghost p = self.pos as int;
                if self.newline {
                    self.newline = false;
                } else {
                    self.char = self.char + 1;
                }
                self.pos = self.pos + 1;
                self.line_comment();
                proof {
                    lemma_comment_end_bounds(cs, p + 2);
                    assert(comment_end(cs, p + 1) == comment_end(cs, p + 2));
                }
            } else {
                // A token starts here: consume its first character.
                let ghost p = self.pos as int;
                let ghost stp = self.full_state();
                let ghost col0 = if stp.fresh { stp.col } else { stp.col + 1 };
                let ghost o = scan_token(cs, p, col0, stp.line, stp.term, stp.held);
                if self.newline {
                    self.newline = false;
                } else {
                    self.char = self.char + 1;
                }
                self.pos = self.pos + 1;
                let kind: TokenType = self.scan_started_token(c);
                proof {
                    assert(kind.deep_view() == o.kind);
                    assert(self.pos as int == o.end);
                    assert(self.char as int == o.col);
                    assert(self.line as int == o.line);
                    assert(self.newline == o.fresh);
                    assert(self.held_token.deep_view() == o.held);
                }
                self.last_term = terminates_statement(&kind);
                let tok = Token { token_type: kind, char: self.char, line: self.line };
                proof {
                    let j = self.pos as int;
                    let st2 = LexSt {
                        line: o.line,
                        col: o.col,
                        fresh: o.fresh,
                        term: is_terminator(o.kind),
                        held: None,
                    };
                    assert(spec_lex(cs, p, stp) == (match o.held {
                        Some(h) => seq![h, tok.deep_view()],
                        None => seq![tok.deep_view()],
                    }) + spec_lex(cs, j, st2));
                }
                let prev = self.held_token.take();
                if let Some(h) = prev {
                    self.held_token = Some(tok);
                    proof {
                        assert(old(self).stream() =~= seq![h.deep_view()] + self.stream());
                    }
                    return Some(h);
                } else {
                    proof {
                        assert(old(self).stream() =~= seq![tok.deep_view()] + self.stream());
                    }
                    return Some(tok);
                }
            }
        }
    }

    /// Finishes the token whose first character `c` was just consumed,
    /// dispatching on `c` exactly as `scan_token` does.
    #[verifier::rlimit(60)]
    fn scan_started_token(&mut self, c: char) -> (r: TokenType)
        requires
            old(self).wf(),
            old(self).pos >= 1,
            old(self).newline == false,
            old(self).input@[old(self).pos - 1] == c,
        ensures
            final(self).wf(),
            final(self).input == old(self).input,
            final(self).last_term == old(self).last_term,
            ({
                let cs = old(self).input@;
                let i = old(self).pos - 1;
                let o = scan_token(
                    cs,
                    i,
                    old(self).char as int,
                    old(self).line as int,
                    old(self).last_term,
                    old(self).held_token.deep_view(),
                );
                &&& r.deep_view() == o.kind
                &&& i < o.end <= cs.len()
                &&& final(self).pos as int == o.end
                &&& final(self).char as int == o.col
                &&& final(self).line as int == o.line
                &&& final(self).newline == o.fresh
                &&& final(self).held_token.deep_view() == o.held
            }),
    {
        let ghost cs = self.input@;
        let ghost p = self.pos as int;
        if c == ';' {
            TokenType::Semicolon
        } else if c == '(' {
            TokenType::LeftParen
        } else if c == ')' {
            TokenType::RightParen
        } else if c == '{' {
            TokenType::LeftBrace
        } else if c == '}' {
            TokenType::RightBrace
        } else if c == ',' {
            TokenType::Comma
        } else if c == '-' {
            TokenType::Minus
        } else if c == '+' {
            TokenType::Plus
        } else if c == '*' {
            TokenType::Star
        } else if c == '<' {
            self.pair_token(TokenType::Less, TokenType::LessEqual)
        } else if c == '>' {
            self.pair_token(TokenType::Greater, TokenType::GreaterEqual)
        } else if c == '=' {
            self.pair_token(TokenType::Equal, TokenType::EqualEqual)
        } else if c == '!' {
            self.pair_token(TokenType::Bang, TokenType::BangEqual)
        } else if c == '/' {
            TokenType::Slash
        } else if c == '"' {
            self.handle_string()
        } else if char_is_numeric(c) {
            self.handle_digits(c)
        } else if char_is_alphabetic(c) || c == '_' {
            let k = self.handle_letters(c);
            proof {
                let e = letters_end(cs, p);
                assert(seq![c] + cs.subrange(p, e) =~= cs.subrange(p - 1, e));
            }
            k
        } else {
            let mut v: Vec<char> = Vec::new();
            v.push(c);
            let lit = chars_to_string(&v);
            proof {
                assert(lit@ =~= seq![c]);
            }
            TokenType::Illegal(lit)
        }
    }

    /// Resolves a one-character operator against a following `=`, consuming
    /// the `=` when it is there.
    fn pair_token(&mut self, bare: TokenType, paired: TokenType) -> (r: TokenType)
        requires
            old(self).wf(),
            old(self).pos >= 1,
            old(self).newline == false,
        ensures
            final(self).wf(),
            final(self).input == old(self).input,
            final(self).line == old(self).line,
            final(self).newline == false,
            final(self).last_term == old(self).last_term,
            final(self).held_token == old(self).held_token,
            ({
                let cs = old(self).input@;
                let i0 = old(self).pos as int;
                if i0 < cs.len() && cs[i0] == '=' {
                    &&& r == paired
                    &&& final(self).pos as int == i0 + 1
                    &&& final(self).char as int == old(self).char + 1
                } else {
                    &&& r == bare
                    &&& final(self).pos == old(self).pos
                    &&& final(self).char == old(self).char
                }
            }),
    {
        if self.pos < self.input.len() {
            let d = self.input[self.pos];
            if d == '=' {
                self.pos = self.pos + 1;
                self.char = self.char + 1;
                return paired;
            }
        }
        bare
    }

    /// Consumes characters up to, but not including, the next newline.
    #[verifier::loop_isolation(false)]
    fn line_comment(&mut self)
        requires
            old(self).wf(),
            old(self).newline == false,
        ensures
            final(self).wf(),
            final(self).input == old(self).input,
            final(self).line == old(self).line,
            final(self).newline == false,
            final(self).last_term == old(self).last_term,
            final(self).held_token == old(self).held_token,
            final(self).pos as int == comment_end(old(self).input@, old(self).pos as int),
            final(self).char as int == old(self).char + (final(self).pos - old(self).pos),
    {
        let ghost cs = self.input@;
        let ghost i0 = self.pos as int;
        loop
            invariant
                self.wf(),
                self.input == old(self).input,
                self.line == old(self).line,
                self.newline == false,
                self.last_term == old(self).last_term,
                self.held_token == old(self).held_token,
                i0 <= self.pos as int <= cs.len(),
                self.char as int == old(self).char + (self.pos - i0),
                comment_end(cs, i0) == comment_end(cs, self.pos as int),
            decreases cs.len() - self.pos,
        {
            if self.pos == self.input.len() {
                proof {
                    assert(comment_end(cs, self.pos as int) == cs.len() as int);
                }
                return;
            }
            let ch = self.input[self.pos];
            if ch == '\n' {
                proof {
                    assert(comment_end(cs, self.pos as int) == self.pos as int);
                }
                return;
            }
            self.pos = self.pos + 1;
            self.char = self.char + 1;
        }
    }

    /// Scans a string literal after its opening quote: up to a closing quote
    /// (a string token), a raw newline or the end of input (an illegal
    /// token). No escape sequences are processed.
    #[verifier::loop_isolation(false)]
    fn handle_string(&mut self) -> (r: TokenType)
        requires
            old(self).wf(),
            old(self).newline == false,
        ensures
            final(self).wf(),
            final(self).input == old(self).input,
            final(self).last_term == old(self).last_term,
            ({
                let cs = old(self).input@;
                let i0 = old(self).pos as int;
                let e = str_body_end(cs, i0);
                &&& i0 <= e <= cs.len()
                &&& if e >= cs.len() {
                    &&& r.deep_view() == TokenTypeV::Illegal(cs.subrange(i0, e))
                    &&& final(self).pos == cs.len()
                    &&& final(self).char as int == old(self).char + (e - i0)
                    &&& final(self).line == old(self).line
                    &&& final(self).newline == false
                    &&& final(self).held_token == old(self).held_token
                } else if cs[e] == '"' {
                    &&& r.deep_view() == TokenTypeV::String(cs.subrange(i0, e))
                    &&& final(self).pos as int == e + 1
                    &&& final(self).char as int == old(self).char + (e + 1 - i0)
                    &&& final(self).line == old(self).line
                    &&& final(self).newline == false
                    &&& final(self).held_token == old(self).held_token
                } else {
                    &&& r.deep_view() == TokenTypeV::Illegal(cs.subrange(i0, e))
                    &&& final(self).pos as int == e + 1
                    &&& final(self).char == 0
                    &&& final(self).line as int == old(self).line + 1
                    &&& final(self).newline == true
                    &&& final(self).held_token.deep_view() == (if old(self).last_term {
                        Some(
                            TokenV {
                                token_type: TokenTypeV::Semicolon,
                                char: old(self).char + (e - i0),
                                line: old(self).line as int,
                            },
                        )
                    } else {
                        old(self).held_token.deep_view()
                    })
                }
            }),
    {
        let ghost cs = self.input@;
        let ghost i0 = self.pos as int;
        let mut literal: Vec<char> = Vec::new();
        loop
            invariant
                self.wf(),
                self.input == old(self).input,
                self.line == old(self).line,
                self.newline == false,
                self.last_term == old(self).last_term,
                self.held_token == old(self).held_token,
                i0 <= self.pos as int <= cs.len(),
                self.char as int == old(self).char + (self.pos - i0),
                literal@ == cs.subrange(i0, self.pos as int),
                str_body_end(cs, i0) == str_body_end(cs, self.pos as int),
            decreases cs.len() - self.pos,
        {
            if self.pos == self.input.len() {
                proof {
                    assert(str_body_end(cs, self.pos as int) == cs.len() as int);
                }
                let lit = chars_to_string(&literal);
                return TokenType::Illegal(lit);
            }
            let ch = self.input[self.pos];
            if ch == '\n' {
                proof {
                    assert(str_body_end(cs, self.pos as int) == self.pos as int);
                }
                // the newline is consumed; it may synthesize a semicolon
                // after the previous token
                if self.last_term {
                    self.held_token = Some(
                        Token { token_type: TokenType::Semicolon, char: self.char, line: self.line },
                    );
                }
                self.pos = self.pos + 1;
                self.char = 0;
                self.line = self.line + 1;
                self.newline = true;
                let lit = chars_to_string(&literal);
                return TokenType::Illegal(lit);
            }
            if ch == '"' {
                proof {
                    assert(str_body_end(cs, self.pos as int) == self.pos as int);
                }
                self.pos = self.pos + 1;
                self.char = self.char + 1;
                let lit = chars_to_string(&literal);
                return TokenType::String(lit);
            }
            literal.push(ch);
            proof {
                assert(cs.subrange(i0, self.pos + 1) =~= cs.subrange(i0, self.pos as int).push(
                    cs[self.pos as int],
                ));
            }
            self.pos = self.pos + 1;
            self.char = self.char + 1;
        }
    }

    /// Scans the continuation of a numeric literal whose first digit `c` was
    /// just consumed. A single dot promotes the literal to a float, a second
    /// dot makes it illegal, a trailing `f` forces a float.
    #[verifier::loop_isolation(false)]
    fn handle_digits(&mut self, c: char) -> (r: TokenType)
        requires
            old(self).wf(),
            old(self).newline == false,
        ensures
            final(self).wf(),
            final(self).input == old(self).input,
            final(self).line == old(self).line,
            final(self).newline == false,
            final(self).last_term == old(self).last_term,
            final(self).held_token == old(self).held_token,
            ({
                let cs = old(self).input@;
                let i0 = old(self).pos as int;
                let d = digits_scan(cs, i0, false);
                let lit = seq![c] + d.lit;
                &&& i0 <= d.end <= cs.len()
                &&& r.deep_view() == (match d.shape {
                    NumberShape::Whole => TokenTypeV::Int(lit),
                    NumberShape::Fractional => TokenTypeV::Float(lit),
                    NumberShape::Malformed => TokenTypeV::Illegal(lit),
                })
                &&& final(self).pos as int == d.end
                &&& final(self).char as int == old(self).char + (d.end - i0)
            }),
    {
        let ghost cs = self.input@;
        let ghost i0 = self.pos as int;
        let mut literal: Vec<char> = Vec::new();
        literal.push(c);
        let mut is_float = false;
        proof {
            assert(literal@ =~= seq![c]);
        }
        loop
            invariant
                self.wf(),
                self.input == old(self).input,
                self.line == old(self).line,
                self.newline == false,
                self.last_term == old(self).last_term,
                self.held_token == old(self).held_token,
                i0 <= self.pos as int <= cs.len(),
                self.char as int == old(self).char + (self.pos - i0),
                literal@.len() >= 1 && literal@[0] == c,
                ({
                    let d0 = digits_scan(cs, i0, false);
                    let dc = digits_scan(cs, self.pos as int, is_float);
                    &&& d0.lit == literal@.skip(1) + dc.lit
                    &&& d0.end == dc.end
                    &&& d0.shape == dc.shape
                }),
            decreases cs.len() - self.pos,
        {
            let ghost p = self.pos as int;
            if self.pos == self.input.len() {
                let lit = chars_to_string(&literal);
                proof {
                    let dc = digits_scan(cs, p, is_float);
                    assert(dc.lit == Seq::<char>::empty() && dc.end == cs.len() as int);
                    assert(seq![c] + literal@.skip(1) =~= literal@);
                    assert(literal@.skip(1) + Seq::<char>::empty() =~= literal@.skip(1));
                }
                if is_float {
                    return TokenType::Float(lit);
                } else {
                    return TokenType::Int(lit);
                }
            }
            let ch = self.input[self.pos];
            if ch == 'f' {
                self.pos = self.pos + 1;
                self.char = self.char + 1;
                let lit = chars_to_string(&literal);
                proof {
                    let dc = digits_scan(cs, p, is_float);
                    assert(dc.lit == Seq::<char>::empty() && dc.end == p + 1);
                    assert(dc.shape is Fractional);
                    assert(seq![c] + literal@.skip(1) =~= literal@);
                    assert(literal@.skip(1) + Seq::<char>::empty() =~= literal@.skip(1));
                }
                return TokenType::Float(lit);
            } else if ch == '.' {
                if is_float {
                    let ghost litb = literal@;
                    self.pos = self.pos + 1;
                    self.char = self.char + 1;
                    literal.push(ch);
                    let lit = chars_to_string(&literal);
                    proof {
                        let dc = digits_scan(cs, p, is_float);
                        assert(dc.lit == seq!['.'] && dc.end == p + 1);
                        assert(dc.shape is Malformed);
                        assert(literal@.skip(1) =~= litb.skip(1) + seq!['.']);
                        assert(seq![c] + literal@.skip(1) =~= literal@);
                    }
                    return TokenType::Illegal(lit);
                } else {
                    let ghost litb = literal@;
                    is_float = true;
                    literal.push(ch);
                    self.pos = self.pos + 1;
                    self.char = self.char + 1;
                    proof {
                        let r = digits_scan(cs, p + 1, true);
                        let dc = digits_scan(cs, p, false);
                        assert(dc.lit == seq!['.'] + r.lit && dc.end == r.end && dc.shape
                            == r.shape);
                        assert(literal@.skip(1) =~= litb.skip(1) + seq!['.']);
                        assert(litb.skip(1) + (seq!['.'] + r.lit) =~= (litb.skip(1) + seq!['.'])
                            + r.lit);
                    }
                }
            } else if char_is_numeric(ch) {
                let ghost litb = literal@;
                literal.push(ch);
                self.pos = self.pos + 1;
                self.char = self.char + 1;
                proof {
                    let r = digits_scan(cs, p + 1, is_float);
                    let dc = digits_scan(cs, p, is_float);
                    assert(dc.lit == seq![ch] + r.lit && dc.end == r.end && dc.shape == r.shape);
                    assert(literal@.skip(1) =~= litb.skip(1) + seq![ch]);
                    assert(litb.skip(1) + (seq![ch] + r.lit) =~= (litb.skip(1) + seq![ch]) + r.lit);
                }
            } else {
                let lit = chars_to_string(&literal);
                proof {
                    let dc = digits_scan(cs, p, is_float);
                    assert(dc.lit == Seq::<char>::empty() && dc.end == p);
                    assert(seq![c] + literal@.skip(1) =~= literal@);
                    assert(literal@.skip(1) + Seq::<char>::empty() =~= literal@.skip(1));
                }
                if is_float {
                    return TokenType::Float(lit);
                } else {
                    return TokenType::Int(lit);
                }
            }
        }
    }

    /// Scans the continuation of an identifier or keyword whose first
    /// character `c` was just consumed, then resolves the spelling against the
    /// reserved-word table.
    #[verifier::loop_isolation(false)]
    fn handle_letters(&mut self, c: char) -> (r: TokenType)
        requires
            old(self).wf(),
            old(self).newline == false,
        ensures
            final(self).wf(),
            final(self).input == old(self).input,
            final(self).line == old(self).line,
            final(self).newline == false,
            final(self).last_term == old(self).last_term,
            final(self).held_token == old(self).held_token,
            ({
                let cs = old(self).input@;
                let i0 = old(self).pos as int;
                let e = letters_end(cs, i0);
                &&& i0 <= e <= cs.len()
                &&& r.deep_view() == keyword_kind(seq![c] + cs.subrange(i0, e))
                &&& final(self).pos as int == e
                &&& final(self).char as int == old(self).char + (e - i0)
            }),
    {
        let ghost cs = self.input@;
        let ghost i0 = self.pos as int;
        let mut literal: Vec<char> = Vec::new();
        literal.push(c);
        proof {
            assert(literal@ =~= seq![c] + cs.subrange(i0, i0));
        }
        loop
            invariant
                self.wf(),
                self.input == old(self).input,
                self.line == old(self).line,
                self.newline == false,
                self.last_term == old(self).last_term,
                self.held_token == old(self).held_token,
                i0 <= self.pos as int <= cs.len(),
                self.char as int == old(self).char + (self.pos - i0),
                literal@ == seq![c] + cs.subrange(i0, self.pos as int),
                letters_end(cs, i0) == letters_end(cs, self.pos as int),
            decreases cs.len() - self.pos,
        {
            if self.pos == self.input.len() {
                let lit = chars_to_string(&literal);
                return match_keywords(&literal, lit);
            }
            let ch = self.input[self.pos];
            if char_is_alphanumeric(ch) || ch == '_' {
                literal.push(ch);
                proof {
                    assert(seq![c] + cs.subrange(i0, self.pos + 1) =~= (seq![c] + cs.subrange(
                        i0,
                        self.pos as int,
                    )).push(cs[self.pos as int]));
                }
                self.pos = self.pos + 1;
                self.char = self.char + 1;
            } else {
                let lit = chars_to_string(&literal);
                return match_keywords(&literal, lit);
            }
        }
    }

    /// Runs the lexer to the end of its input and collects every token, in
    /// order.
    #[verifier::loop_isolation(false)]
    pub fn tokenize(&mut self) -> (r: Vec<Token>)
        requires
            old(self).wf(),
        ensures
            final(self).wf(),
            r.deep_view() == old(self).stream(),
    {
        let mut out: Vec<Token> = Vec::new();
        proof {
            assert(out.deep_view() + old(self).stream() =~= old(self).stream());
        }
        loop
            invariant
                self.wf(),
                out.deep_view() + self.stream() == old(self).stream(),
            decreases self.remaining(),
        {
            let ghost before_out = out.deep_view();
            let ghost before_stream = self.stream();
            match self.next_token() {
                Some(t) => {
                    out.push(t);
                    proof {
                        assert(out.deep_view() =~= before_out.push(t.deep_view()));
                        assert(out.deep_view() + self.stream() =~= old(self).stream());
                    }
                },
                None => {
                    proof {
                        assert(out.deep_view() =~= out.deep_view() + self.stream());
                    }
                    return out;
                },
            }
        }
    }
}

/// The comment scan never runs past the input.
proof fn lemma_comment_end_bounds(cs: Seq<char>, i: int)
    requires
        0 <= i <= cs.len(),
    ensures
        i <= comment_end(cs, i) <= cs.len(),
    decreases cs.len() - i,
{
    if i < cs.len() && cs[i] != '\n' {
        lemma_comment_end_bounds(cs, i + 1);
    }
}

/// Resolves a scanned spelling against the reserved-word table:
/// `true,false,fun,loop,if,else,print,return,val,var,break,continue` are
/// keywords; everything else is a user identifier.
fn match_keywords(chars: &Vec<char>, lit: String) -> (r: TokenType)
    requires
        lit@ == chars@,
    ensures
        r.deep_view() == keyword_kind(lit@),
{
    let n = chars.len();
    if n == 4 && chars[0] == 't' && chars[1] == 'r' && chars[2] == 'u' && chars[3] == 'e' {
        proof {
            assert(lit@ =~= seq!['t', 'r', 'u', 'e']);
        }
        TokenType::True
    } else if n == 5 && chars[0] == 'f' && chars[1] == 'a' && chars[2] == 'l' && chars[3] == 's'
        && chars[4] == 'e' {
        proof {
            assert(lit@ =~= seq!['f', 'a', 'l', 's', 'e']);
        }
        TokenType::False
    } else if n == 3 && chars[0] == 'f' && chars[1] == 'u' && chars[2] == 'n' {
        proof {
            assert(lit@ =~= seq!['f', 'u', 'n']);
        }
        TokenType::Fun
    } else if n == 4 && chars[0] == 'l' && chars[1] == 'o' && chars[2] == 'o' && chars[3] == 'p' {
        proof {
            assert(lit@ =~= seq!['l', 'o', 'o', 'p']);
        }
        TokenType::Loop
    } else if n == 2 && chars[0] == 'i' && chars[1] == 'f' {
        proof {
            assert(lit@ =~= seq!['i', 'f']);
        }
        TokenType::If
    } else if n == 4 && chars[0] == 'e' && chars[1] == 'l' && chars[2] == 's' && chars[3] == 'e' {
        proof {
            assert(lit@ =~= seq!['e', 'l', 's', 'e']);
        }
        TokenType::Else
    } else if n == 5 && chars[0] == 'p' && chars[1] == 'r' && chars[2] == 'i' && chars[3] == 'n'
        && chars[4] == 't' {
        proof {
            assert(lit@ =~= seq!['p', 'r', 'i', 'n', 't']);
        }
        TokenType::Print
    } else if n == 6 && chars[0] == 'r' && chars[1] == 'e' && chars[2] == 't' && chars[3] == 'u'
        && chars[4] == 'r' && chars[5] == 'n' {
        proof {
            assert(lit@ =~= seq!['r', 'e', 't', 'u', 'r', 'n']);
        }
        TokenType::Return
    } else if n == 3 && chars[0] == 'v' && chars[1] == 'a' && chars[2] == 'l' {
        proof {
            assert(lit@ =~= seq!['v', 'a', 'l']);
        }
        TokenType::Val
    } else if n == 3 && chars[0] == 'v' && chars[1] == 'a' && chars[2] == 'r' {
        proof {
            assert(lit@ =~= seq!['v', 'a', 'r']);
        }
        TokenType::Var
    } else if n == 5 && chars[0] == 'b' && chars[1] == 'r' && chars[2] == 'e' && chars[3] == 'a'
        && chars[4] == 'k' {
        proof {
            assert(lit@ =~= seq!['b', 'r', 'e', 'a', 'k']);
        }
        TokenType::Break
    } else if n == 8 && chars[0] == 'c' && chars[1] == 'o' && chars[2] == 'n' && chars[3] == 't'
        && chars[4] == 'i' && chars[5] == 'n' && chars[6] == 'u' && chars[7] == 'e' {
        proof {
            assert(lit@ =~= seq!['c', 'o', 'n', 't', 'i', 'n', 'u', 'e']);
        }
        TokenType::Continue
    } else {
        TokenType::Identifier(lit)
    }
}

// ---------------------------------------------------------------------------
// Laws of the lexer
// ---------------------------------------------------------------------------

/// Input consisting solely of whitespace lexes to an empty token stream.
pub proof fn lemma_whitespace_lexes_empty(cs: Seq<char>)
    requires
        forall|k: int| 0 <= k < cs.len() ==> cs[k] == '\n' || is_whitespace_char(cs[k]),
    ensures
        tokens_of(cs) == Seq::<TokenV>::empty(),
{
    lemma_whitespace_skip(cs, 0, initial_lex_state());
}

/// Whitespace from `i` on, with nothing pending and the last token
/// non-terminating, produces no token at all.
proof fn lemma_whitespace_skip(cs: Seq<char>, i: int, st: LexSt)
    requires
        st.held is None,
        !st.term,
        forall|k: int| i <= k < cs.len() ==> cs[k] == '\n' || is_whitespace_char(cs[k]),
    ensures
        spec_lex(cs, i, st) == Seq::<TokenV>::empty(),
    decreases cs.len() - i,
{
    if 0 <= i < cs.len() {
        if cs[i] == '\n' {
            lemma_whitespace_skip(
                cs,
                i + 1,
                LexSt { line: st.line + 1, col: 0, fresh: true, term: st.term, held: st.held },
            );
        } else {
            lemma_whitespace_skip(
                cs,
                i + 1,
                LexSt { col: if st.fresh { st.col } else { st.col + 1 }, fresh: false, ..st },
            );
        }
    }
}

/// A newline consumed while the most recently produced token does not end a
/// statement inserts nothing: only the position advances, and the stream
/// continues as if the statement ran on.
pub proof fn lemma_newline_after_nonterminator(cs: Seq<char>, i: int, st: LexSt)
    requires
        0 <= i < cs.len(),
        cs[i] == '\n',
        !st.term,
    ensures
        spec_lex(cs, i, st) == spec_lex(
            cs,
            i + 1,
            LexSt { line: st.line + 1, col: 0, fresh: true, ..st },
        ),
{
}

/// A newline consumed right after a statement-terminating token synthesizes
/// exactly one semicolon, pending delivery before the next real token.
pub proof fn lemma_newline_after_terminator(cs: Seq<char>, i: int, st: LexSt)
    requires
        0 <= i < cs.len(),
        cs[i] == '\n',
        st.term,
    ensures
        spec_lex(cs, i, st) == spec_lex(
            cs,
            i + 1,
            LexSt {
                line: st.line + 1,
                col: 0,
                fresh: true,
                term: st.term,
                held: Some(
                    TokenV { token_type: TokenTypeV::Semicolon, char: st.col, line: st.line },
                ),
            },
        ),
{
}

/// The string-body scan stops at the first closing quote or newline (or the
/// end of the input), never earlier and never later.
proof fn lemma_str_body_end_first(cs: Seq<char>, i: int)
    requires
        0 <= i <= cs.len(),
    ensures
        i <= str_body_end(cs, i) <= cs.len(),
        forall|k: int| i <= k < str_body_end(cs, i) ==> cs[k] != '"' && cs[k] != '\n',
        str_body_end(cs, i) < cs.len() ==> (cs[str_body_end(cs, i)] == '"' || cs[str_body_end(
            cs,
            i,
        )] == '\n'),
    decreases cs.len() - i,
{
    if i < cs.len() && cs[i] != '"' && cs[i] != '\n' {
        lemma_str_body_end_first(cs, i + 1);
    }
}

/// A string literal that meets a raw newline before any closing quote scans
/// to an `Illegal` token whose text is exactly the characters consumed after
/// the opening quote and before the newline. The newline itself is consumed:
/// scanning continues at column 0 of the next line, and a semicolon is
/// synthesized when the token before the literal ended a statement.
pub proof fn lemma_string_with_newline_is_illegal(
    cs: Seq<char>,
    i: int,
    col0: int,
    line: int,
    term: bool,
    held: Option<TokenV>,
)
    requires
        0 <= i < cs.len(),
        cs[i] == '"',
        str_body_end(cs, i + 1) < cs.len(),
        cs[str_body_end(cs, i + 1)] == '\n',
    ensures
        ({
            let e = str_body_end(cs, i + 1);
            let o = scan_token(cs, i, col0, line, term, held);
            &&& o.kind == TokenTypeV::Illegal(cs.subrange(i + 1, e))
            &&& forall|k: int| i + 1 <= k < e ==> cs[k] != '"' && cs[k] != '\n'
            &&& o.end == e + 1
            &&& o.line == line + 1
            &&& o.col == 0
            &&& o.fresh
            &&& o.held == (if term {
                Some(TokenV { token_type: TokenTypeV::Semicolon, char: col0 + (e - i - 1), line })
            } else {
                held
            })
        }),
{
    lemma_str_body_end_first(cs, i + 1);
}

/// A properly closed string literal scans to a `String` token carrying
/// exactly the characters between the quotes, with nothing synthesized and
/// no escape-sequence processing.
pub proof fn lemma_closed_string_lexes_to_string(
    cs: Seq<char>,
    i: int,
    col0: int,
    line: int,
    term: bool,
    held: Option<TokenV>,
)
    requires
        0 <= i < cs.len(),
        cs[i] == '"',
        str_body_end(cs, i + 1) < cs.len(),
        cs[str_body_end(cs, i + 1)] == '"',
    ensures
        ({
            let e = str_body_end(cs, i + 1);
            let o = scan_token(cs, i, col0, line, term, held);
            &&& o.kind == TokenTypeV::String(cs.subrange(i + 1, e))
            &&& forall|k: int| i + 1 <= k < e ==> cs[k] != '"' && cs[k] != '\n'
            &&& o.end == e + 1
            &&& o.line == line
            &&& o.col == col0 + (e - i)
            &&& !o.fresh
            &&& o.held == held
        }),
{
    lemma_str_body_end_first(cs, i + 1);
}

} // verus!
