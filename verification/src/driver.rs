//! The two-stack shift-reduce driver.
//!
//! One call parses one line, pulling tokens lazily from the lexer and
//! consulting the ACTION and GOTO tables of `crate::tables`. The whole
//! run is pinned down by the recursive specification `spec_run`, which
//! maps a configuration (scan position and state stack) to the final
//! verdict and to the per-step trace; `parse_line` returns exactly
//! those. Each step the driver either shifts (consuming one token),
//! reduces (popping a production's right-hand side off both stacks and
//! re-entering via GOTO), accepts, or stops with a syntax error, so a
//! parse always terminates; the loop carries a decreases measure that
//! proves it.

use vstd::prelude::*;

use crate::tables::{spec_action, spec_goto, spec_rhs_len, action, goto, rhs_len, Next, State};
use crate::token::{lemma_ident_end_bounds, lex, token_end, token_sym, Lex, Span, Symbol, SymbolId};

verus! {

/// The one error kind a parse can end in. `UnexpectedSymbol` is a miss
/// in the ACTION table before the automaton was ready to accept;
/// `TrailingInput` is a token found while the automaton was in the
/// accepting state, where only end of input is allowed. `pos` is the
/// character index of the offending token's start, or the line length
/// when the error is at end of input.
#[derive(Clone, Copy, Debug, PartialEq, Eq, Structural)]
pub enum SyntaxError {
    UnexpectedSymbol { pos: usize },
    TrailingInput { pos: usize },
}

/// Terminal verdict of one parse.
#[derive(Clone, Copy, Debug, PartialEq, Eq, Structural)]
pub enum Verdict {
    Accepted,
    Rejected(SyntaxError),
}

/// One line of the diagnostic trace: the state on top of the stack, the
/// class of the lookahead (`None` at end of input), and the table's
/// decision for the pair (`None` being a syntax error).
#[derive(Clone, Copy, Debug, PartialEq, Eq)]
pub struct TraceStep {
    pub state: State,
    pub lookahead: Option<SymbolId>,
    pub decision: Option<Next>,
}

/// Class of the lookahead at position `p`: the token starting there, or
/// `None` at end of input.
pub open spec fn spec_lookahead(s: Seq<char>, p: int) -> Option<SymbolId> {
    if p < s.len() {
        Some(token_sym(s, p))
    } else {
        None
    }
}

/// The error reported for an ACTION-table miss: a token in the
/// accepting state is trailing input, anything else an unexpected
/// symbol.
pub open spec fn miss_error(top: State, look: Option<SymbolId>, p: int) -> SyntaxError {
    if top == State::One && look is Some {
        SyntaxError::TrailingInput { pos: p as usize }
    } else {
        SyntaxError::UnexpectedSymbol { pos: p as usize }
    }
}

/// Rank used by the termination measure: the states that reduce without
/// consuming input. A reduction leaves a non-reducing state on top, so
/// at most one reduction runs between shifts for this grammar.
pub open spec fn reduce_rank(st: State) -> int {
    match st {
        State::Three => 1,
        State::Five => 1,
        _ => 0,
    }
}

/// The run of the automaton from a configuration: scan position `p` and
/// state stack `stack` (bottom first, never empty). Yields the final
/// verdict together with the trace of every step taken. A shift moves
/// `p` past the lookahead token; a reduction pops the right-hand side
/// and pushes the GOTO state at the same `p`. The two guard branches
/// (stack too short to pop, GOTO miss) only make the definition total:
/// `crate::laws::lemma_rejection_is_table_miss` proves that they never
/// fire from the initial configuration with this table.
pub open spec fn spec_run(s: Seq<char>, p: int, stack: Seq<State>) -> (Verdict, Seq<TraceStep>)
    decreases s.len() - p, stack.len(), reduce_rank(stack.last())
        when 0 <= p <= s.len() && stack.len() >= 1
        via spec_run_decreases
{
    let look = spec_lookahead(s, p);
    let top = stack.last();
    let step = TraceStep { state: top, lookahead: look, decision: spec_action(top, look) };
    match spec_action(top, look) {
        None => (Verdict::Rejected(miss_error(top, look, p)), seq![step]),
        Some(Next::Accomplished) => (Verdict::Accepted, seq![step]),
        Some(Next::State(st)) => {
            let rest = spec_run(s, token_end(s, p), stack.push(st));
            (rest.0, seq![step] + rest.1)
        },
        Some(Next::Reduce(r)) => {
            let k = spec_rhs_len(r);
            if stack.len() > k {
                let popped = stack.take(stack.len() - k);
                match spec_goto(popped.last(), SymbolId::S) {
                    Some(st) => {
                        let rest = spec_run(s, p, popped.push(st));
                        (rest.0, seq![step] + rest.1)
                    },
                    None => (
                        Verdict::Rejected(SyntaxError::UnexpectedSymbol { pos: p as usize }),
                        seq![step],
                    ),
                }
            } else {
                (Verdict::Rejected(SyntaxError::UnexpectedSymbol { pos: p as usize }), seq![step])
            }
        },
    }
}

#[via_fn]
proof fn spec_run_decreases(s: Seq<char>, p: int, stack: Seq<State>) {
    let look = spec_lookahead(s, p);
    let top = stack.last();
    match spec_action(top, look) {
        Some(Next::State(_)) => {
            assert(p < s.len());
            lemma_ident_end_bounds(s, p);
        },
        _ => {},
    }
}

/// Verdict of a full parse of the line `s`.
pub open spec fn spec_parse(s: Seq<char>) -> Verdict {
    spec_run(s, 0, seq![State::Zero]).0
}

/// Trace of a full parse of the line `s`.
pub open spec fn spec_parse_trace(s: Seq<char>) -> Seq<TraceStep> {
    spec_run(s, 0, seq![State::Zero]).1
}

/// The driver's hold on its lookahead: `cur` is the token starting at
/// position `p` (already pulled, with the scanner just past it), or
/// `None` with the scanner at end of input.
pub open spec fn cursor_ok<'a>(lx: Lex<'a>, cur: Option<(Span, Symbol<'a>)>, p: int) -> bool {
    let s = lx.string@;
    &&& lx.wf()
    &&& 0 <= p <= s.len()
    &&& match cur {
        Some((span, sym)) => {
            &&& p < s.len()
            &&& span.start == p
            &&& span.end == token_end(s, p)
            &&& lx.pos == token_end(s, p)
            &&& sym.spec_id() == token_sym(s, p)
        },
        None => p == s.len() && lx.pos == p,
    }
}

/// Parse one line: run the automaton from state `Zero` over the line's
/// tokens and return the verdict together with the step-by-step trace.
/// Both are functions of the line alone, so parsing the same line twice
/// yields the same verdict and the same trace. The call never panics
/// and always terminates.
pub fn parse_line(string: &str) -> (r: (Verdict, Vec<TraceStep>))
    ensures
        r.0 == spec_parse(string@),
        r.1@ == spec_parse_trace(string@),
{
    let ghost s = string@;
    let mut lx = lex(string);
    let mut stack_state: Vec<State> = Vec::new();
    stack_state.push(State::Zero);
    let mut stack_symbol: Vec<Option<(Span, Symbol)>> = Vec::new();
    let mut trace: Vec<TraceStep> = Vec::new();
    let mut cur = lx.next();
    let ghost mut p: int = 0;
    proof {
        assert(stack_state@ =~= seq![State::Zero]);
    }
    loop
        invariant
            string@ == s,
            lx.string@ == s,
            cursor_ok(lx, cur, p),
            stack_state@.len() >= 1,
            stack_symbol@.len() + 1 == stack_state@.len(),
            spec_run(s, p, stack_state@).0 == spec_parse(s),
            trace@ + spec_run(s, p, stack_state@).1 == spec_parse_trace(s),
        decreases s.len() - p, stack_state@.len(), reduce_rank(stack_state@.last()),
    {
        let top = stack_state[stack_state.len() - 1];
        let look: Option<SymbolId> = match cur {
            Some((_, sym)) => Some(sym.id()),
            None => None,
        };
        let pos = match cur {
            Some((span, _)) => span.start,
            None => lx.len,
        };
        proof {
            assert(look == spec_lookahead(s, p));
            assert(pos == p);
        }
        let act = action(top, look);
        trace.push(TraceStep { state: top, lookahead: look, decision: act });
        match act {
            None => {
                let err = match (top, look) {
                    (State::One, Some(_)) => SyntaxError::TrailingInput { pos },
                    _ => SyntaxError::UnexpectedSymbol { pos },
                };
                return (Verdict::Rejected(err), trace);
            },
            Some(Next::Accomplished) => {
                return (Verdict::Accepted, trace);
            },
            Some(Next::State(st)) => {
                proof {
                    lemma_ident_end_bounds(s, p);
                }
                stack_state.push(st);
                stack_symbol.push(cur);
                cur = lx.next();
                proof {
                    p = token_end(s, p);
                }
            },
            Some(Next::Reduce(red)) => {
                let k = rhs_len(red);
                if stack_state.len() > k {
                    stack_state.truncate(stack_state.len() - k);
                    stack_symbol.truncate(stack_symbol.len() - k);
                    stack_symbol.push(Some((Span { start: 0, end: 0 }, Symbol::S)));
                    let top2 = stack_state[stack_state.len() - 1];
                    match goto(top2, SymbolId::S) {
                        Some(st) => {
                            stack_state.push(st);
                        },
                        None => {
                            return (
                                Verdict::Rejected(SyntaxError::UnexpectedSymbol { pos }),
                                trace,
                            );
                        },
                    }
                } else {
                    return (Verdict::Rejected(SyntaxError::UnexpectedSymbol { pos }), trace);
                }
            },
        }
    }
}

} // verus!
