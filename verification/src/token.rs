//! Lexer for the parenthesized-identifier grammar.
//!
//! A line of text is scanned left to right into a gapless sequence of
//! classified tokens: a maximal run of alphanumeric characters is one
//! `Identifier`, `(` and `)` are single-character tokens, and any other
//! character is a single-character `Other` token. Spans are half-open
//! character-index ranges into the line. End of input is signalled by
//! the absence of a further token, not by a token of its own.

use vstd::prelude::*;

verus! {

/// Whether `c` belongs to an identifier: ASCII letters and digits.
pub open spec fn spec_is_ident_char(c: char) -> bool {
    ('a' <= c && c <= 'z') || ('A' <= c && c <= 'Z') || ('0' <= c && c <= '9')
}

/// Whether `c` belongs to an identifier: ASCII letters and digits.
#[verifier::when_used_as_spec(spec_is_ident_char)]
pub fn is_ident_char(ch: char) -> (r: bool)
    ensures
        r == spec_is_ident_char(ch),
{
    ('a' <= ch && ch <= 'z') || ('A' <= ch && ch <= 'Z') || ('0' <= ch && ch <= '9')
}

/// End of the identifier run that starts at `i`: the first position at
/// or after `i` that is past the line or holds a non-identifier character.
pub open spec fn ident_end(s: Seq<char>, i: int) -> int
    decreases s.len() - i when 0 <= i <= s.len()
{
    if i < s.len() && spec_is_ident_char(s[i]) {
        ident_end(s, i + 1)
    } else {
        i
    }
}

/// The identifier run starting at `i` stays within the line and covers
/// only identifier characters; it is non-empty exactly when `s[i]` is one.
pub proof fn lemma_ident_end_bounds(s: Seq<char>, i: int)
    requires
        0 <= i <= s.len(),
    ensures
        i <= ident_end(s, i) <= s.len(),
        forall|j: int| i <= j < ident_end(s, i) ==> spec_is_ident_char(s[j]),
        ident_end(s, i) == s.len() || !spec_is_ident_char(s[ident_end(s, i)]),
        i < s.len() && spec_is_ident_char(s[i]) ==> ident_end(s, i) > i,
    decreases s.len() - i,
{
    if i < s.len() && spec_is_ident_char(s[i]) {
        lemma_ident_end_bounds(s, i + 1);
    }
}

/// An identifier run ends exactly at the first non-identifier position:
/// if everything from `i` up to `q` is an identifier character and `q`
/// is the line's end or holds something else, the run from `i` stops at `q`.
pub proof fn lemma_ident_end_exact(s: Seq<char>, i: int, q: int)
    requires
        0 <= i <= q <= s.len(),
        forall|j: int| i <= j < q ==> spec_is_ident_char(s[j]),
        q == s.len() || !spec_is_ident_char(s[q]),
    ensures
        ident_end(s, i) == q,
    decreases q - i,
{
    if i < q {
        lemma_ident_end_exact(s, i + 1, q);
    }
}

/// A token's classification, the alphabet the ACTION table is keyed by.
/// `S` is the single nonterminal; the rest are the terminal classes.
#[derive(Clone, Copy, Debug, PartialEq, Eq, Hash, Structural)]
pub enum SymbolId {
    S,
    LeftParent,
    RightParent,
    Identifier,
    Other,
}

/// A grammar symbol as it sits on the symbol stack: either a terminal
/// produced by the lexer (an `Identifier` carries its matched text) or
/// the synthesized nonterminal `S` pushed by a reduction.
#[derive(Clone, Copy, Debug, PartialEq, Eq)]
pub enum Symbol<'a> {
    S,
    LeftParent,
    RightParent,
    Identifier(&'a str),
    Other,
}

impl<'a> Symbol<'a> {
    /// The symbol's class, with the identifier's text stripped.
    pub open spec fn spec_id(&self) -> SymbolId {
        match *self {
            Symbol::S => SymbolId::S,
            Symbol::LeftParent => SymbolId::LeftParent,
            Symbol::RightParent => SymbolId::RightParent,
            Symbol::Identifier(_) => SymbolId::Identifier,
            Symbol::Other => SymbolId::Other,
        }
    }

    /// The symbol's class, with the identifier's text stripped.
    #[verifier::when_used_as_spec(spec_id)]
    pub fn id(&self) -> (r: SymbolId)
        ensures
            r == self.spec_id(),
    {
        match *self {
            Symbol::S => SymbolId::S,
            Symbol::LeftParent => SymbolId::LeftParent,
            Symbol::RightParent => SymbolId::RightParent,
            Symbol::Identifier(_) => SymbolId::Identifier,
            Symbol::Other => SymbolId::Other,
        }
    }
}

/// Class of the token that starts at position `p` of the line.
pub open spec fn token_sym(s: Seq<char>, p: int) -> SymbolId {
    if s[p] == '(' {
        SymbolId::LeftParent
    } else if s[p] == ')' {
        SymbolId::RightParent
    } else if spec_is_ident_char(s[p]) {
        SymbolId::Identifier
    } else {
        SymbolId::Other
    }
}

/// End of the token that starts at position `p` of the line: one past
/// `p` for the single-character tokens, the end of the run for an
/// identifier.
pub open spec fn token_end(s: Seq<char>, p: int) -> int {
    if spec_is_ident_char(s[p]) {
        ident_end(s, p)
    } else {
        p + 1
    }
}

/// A half-open span of character indices into the scanned line.
#[derive(Clone, Copy, Debug, PartialEq, Eq, Structural)]
pub struct Span {
    pub start: usize,
    pub end: usize,
}

/// Single-pass scanner over one line. `pos` is the start of the next
/// token; `len` caches the character length of the line.
pub struct Lex<'a> {
    pub string: &'a str,
    pub pos: usize,
    pub len: usize,
}

/// Scanner over `string`, positioned at its first token.
pub fn lex(string: &str) -> (r: Lex<'_>)
    ensures
        r.wf(),
        r.string@ == string@,
        r.pos == 0,
{
    let len = string.unicode_len();
    Lex { string, pos: 0, len }
}

impl<'a> Lex<'a> {
    /// The scan position lies on the line and `len` is its character count.
    pub open spec fn wf(&self) -> bool {
        &&& self.pos <= self.string@.len()
        &&& self.len == self.string@.len()
    }

    /// The next token, if any: it starts exactly at the old scan
    /// position, ends at `token_end`, carries its class (an identifier
    /// also its matched text), and the scanner moves just past it.
    /// `None` exactly at end of input, with the scanner unmoved.
    pub fn next(&mut self) -> (r: Option<(Span, Symbol<'a>)>)
        requires
            old(self).wf(),
        ensures
            final(self).wf(),
            final(self).string == old(self).string,
            old(self).pos < old(self).string@.len() ==> {
                let s = old(self).string@;
                let p = old(self).pos as int;
                &&& r matches Some((span, sym))
                &&& span.start == p
                &&& span.end == token_end(s, p)
                &&& final(self).pos == token_end(s, p)
                &&& sym.spec_id() == token_sym(s, p)
                &&& (sym matches Symbol::Identifier(text) ==> text@ == s.subrange(
                    p,
                    token_end(s, p),
                ))
            },
            old(self).pos >= old(self).string@.len() ==> r is None && final(self).pos == old(
                self,
            ).pos,
    {
        let ghost s = self.string@;
        if self.pos >= self.len {
            return None;
        }
        let start = self.pos;
        let ch = self.string.get_char(start);
        if ch == '(' {
            self.pos = start + 1;
            Some((Span { start, end: start + 1 }, Symbol::LeftParent))
        } else if ch == ')' {
            self.pos = start + 1;
            Some((Span { start, end: start + 1 }, Symbol::RightParent))
        } else if is_ident_char(ch) {
            let mut end = start + 1;
            proof {
                lemma_ident_end_bounds(s, start as int);
            }
            while end < self.len && is_ident_char(self.string.get_char(end))
                invariant
                    self.wf(),
                    start < end <= s.len(),
                    s == self.string@,
                    ident_end(s, start as int) == ident_end(s, end as int),
                decreases s.len() - end,
            {
                proof {
                    lemma_ident_end_bounds(s, end as int);
                }
                end = end + 1;
            }
            proof {
                assert(ident_end(s, start as int) == end);
            }
            self.pos = end;
            let text = self.string.substring_char(start, end);
            Some((Span { start, end }, Symbol::Identifier(text)))
        } else {
            self.pos = start + 1;
            Some((Span { start, end: start + 1 }, Symbol::Other))
        }
    }
}

} // verus!
