//! Lexer for an arithmetic token alphabet: identifiers, `+`, `*`,
//! parentheses, and a catch-all for anything else. It follows the same
//! scanning discipline as `crate::token` — single pass, maximal
//! alphanumeric runs, one character per remaining token — but yields
//! plain words without spans, an identifier carrying its text.

use vstd::prelude::*;

use crate::token::{ident_end, lemma_ident_end_bounds, spec_is_ident_char};

verus! {

/// Whether `c` belongs to an identifier: ASCII letters and digits.
pub fn is_ident_char(ch: char) -> (r: bool)
    ensures
        r == spec_is_ident_char(ch),
{
    ('a' <= ch && ch <= 'z') || ('A' <= ch && ch <= 'Z') || ('0' <= ch && ch <= '9')
}

/// One lexical word of the arithmetic alphabet.
#[derive(Debug, PartialEq, Eq)]
pub enum Word {
    Id(String),
    Add,
    Mul,
    LeftParent,
    RightParent,
    Other,
}

/// Whether `w` is the word that starts at position `p` of the line:
/// an identifier run carries exactly the run's text, the four operator
/// and parenthesis characters map to their own words, and any other
/// character is `Other`.
pub open spec fn word_matches(w: Word, s: Seq<char>, p: int) -> bool {
    match w {
        Word::Id(text) => spec_is_ident_char(s[p]) && text@ == s.subrange(p, ident_end(s, p)),
        Word::Add => s[p] == '+',
        Word::Mul => s[p] == '*',
        Word::LeftParent => s[p] == '(',
        Word::RightParent => s[p] == ')',
        Word::Other => !spec_is_ident_char(s[p]) && s[p] != '+' && s[p] != '*' && s[p] != '('
            && s[p] != ')',
    }
}

/// End of the word that starts at position `p`: the end of the run for
/// an identifier, one past `p` for every other word.
pub open spec fn word_end(s: Seq<char>, p: int) -> int {
    if spec_is_ident_char(s[p]) {
        ident_end(s, p)
    } else {
        p + 1
    }
}

/// Single-pass word scanner over one line, with one character of
/// lookahead. `pos` is the start of the next word; `len` caches the
/// character length of the line.
pub struct Lexer<'a> {
    pub string: &'a str,
    pub pos: usize,
    pub len: usize,
}

/// Word scanner over `input`, positioned at its first word.
pub fn lexer(input: &str) -> (r: Lexer<'_>)
    ensures
        r.wf(),
        r.string@ == input@,
        r.pos == 0,
{
    let len = input.unicode_len();
    Lexer { string: input, pos: 0, len }
}

impl<'a> Lexer<'a> {
    /// The scan position lies on the line and `len` is its character count.
    pub open spec fn wf(&self) -> bool {
        &&& self.pos <= self.string@.len()
        &&& self.len == self.string@.len()
    }

    /// The next word, if any: it is the word starting at the old scan
    /// position, and the scanner moves just past it. `None` exactly at
    /// end of input, with the scanner unmoved.
    pub fn next(&mut self) -> (r: Option<Word>)
        requires
            old(self).wf(),
        ensures
            final(self).wf(),
            final(self).string == old(self).string,
            old(self).pos < old(self).string@.len() ==> {
                let s = old(self).string@;
                let p = old(self).pos as int;
                &&& r matches Some(w)
                &&& word_matches(w, s, p)
                &&& final(self).pos == word_end(s, p)
            },
            old(self).pos >= old(self).string@.len() ==> r is None && final(self).pos == old(
                self,
            ).pos,
    {
        let ghost s = self.string@;
        if self.pos >= self.len {
            return None;
        }
        let start = self.pos;
        let ch = self.string.get_char(start);
        if is_ident_char(ch) {
            let mut end = start + 1;
            proof {
                lemma_ident_end_bounds(s, start as int);
            }
            while end < self.len && is_ident_char(self.string.get_char(end))
                invariant
                    self.wf(),
                    start < end <= s.len(),
                    s == self.string@,
                    ident_end(s, start as int) == ident_end(s, end as int),
                decreases s.len() - end,
            {
                proof {
                    lemma_ident_end_bounds(s, end as int);
                }
                end = end + 1;
            }
            self.pos = end;
            let text = self.string.substring_char(start, end).to_owned();
            Some(Word::Id(text))
        } else if ch == '+' {
            self.pos = start + 1;
            Some(Word::Add)
        } else if ch == '*' {
            self.pos = start + 1;
            Some(Word::Mul)
        } else if ch == '(' {
            self.pos = start + 1;
            Some(Word::LeftParent)
        } else if ch == ')' {
            self.pos = start + 1;
            Some(Word::RightParent)
        } else {
            self.pos = start + 1;
            Some(Word::Other)
        }
    }
}

} // verus!
