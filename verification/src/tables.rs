//! The automaton's fixed configuration: ACTION and GOTO tables for the
//! grammar `S' -> S`, `S -> (S)`, `S -> id`.
//!
//! The ACTION table maps the current automaton state and the class of
//! the lookahead (`None` standing for end of input) to a decision:
//! shift to a state, reduce by a production, or accept. A pair with no
//! entry is a definitive syntax error. The GOTO table is consulted only
//! right after a reduction, with the state exposed by the pops and the
//! nonterminal `S`. Both tables are written out as exhaustive matches
//! over the closed state and symbol sets; they are never mutated.

use vstd::prelude::*;

use crate::token::SymbolId;

verus! {

/// An automaton state. `Zero` is the initial state; `One` is the sole
/// accepting state, reached by GOTO from `Zero` on `S`.
#[derive(Clone, Copy, Debug, PartialEq, Eq, Hash, Structural)]
pub enum State {
    Zero,
    One,
    Two,
    Three,
    Four,
    Five,
}

/// A production to reduce by: `One` is `S -> (S)`, `Two` is `S -> id`.
#[derive(Clone, Copy, Debug, PartialEq, Eq, Hash, Structural)]
pub enum Reduce {
    One,
    Two,
}

/// An ACTION table entry: shift to a state, reduce by a production, or
/// accept the input.
#[derive(Clone, Copy, Debug, PartialEq, Eq, Hash, Structural)]
pub enum Next {
    State(State),
    Reduce(Reduce),
    Accomplished,
}

/// Length of a production's right-hand side: how many state/symbol
/// pairs a reduction by it pops.
pub open spec fn spec_rhs_len(r: Reduce) -> int {
    match r {
        Reduce::One => 3,
        Reduce::Two => 1,
    }
}

/// Length of a production's right-hand side: how many state/symbol
/// pairs a reduction by it pops.
pub fn rhs_len(r: Reduce) -> (n: usize)
    ensures
        n == spec_rhs_len(r),
{
    match r {
        Reduce::One => 3,
        Reduce::Two => 1,
    }
}

/// The ACTION table: state 0 and state 2 shift into an `S`; state 3
/// reduces `S -> id` on every lookahead of the grammar's alphabet;
/// state 4 shifts the closing parenthesis; state 5 reduces `S -> (S)`
/// likewise; state 1 accepts exactly at end of input. Every other pair
/// has no entry.
pub open spec fn spec_action(st: State, look: Option<SymbolId>) -> Option<Next> {
    match (st, look) {
        (State::Zero, Some(SymbolId::Identifier)) => Some(Next::State(State::Three)),
        (State::Zero, Some(SymbolId::LeftParent)) => Some(Next::State(State::Two)),
        (State::One, None) => Some(Next::Accomplished),
        (State::Two, Some(SymbolId::Identifier)) => Some(Next::State(State::Three)),
        (State::Two, Some(SymbolId::LeftParent)) => Some(Next::State(State::Two)),
        (State::Three, Some(SymbolId::Identifier)) => Some(Next::Reduce(Reduce::Two)),
        (State::Three, Some(SymbolId::LeftParent)) => Some(Next::Reduce(Reduce::Two)),
        (State::Three, Some(SymbolId::RightParent)) => Some(Next::Reduce(Reduce::Two)),
        (State::Three, None) => Some(Next::Reduce(Reduce::Two)),
        (State::Four, Some(SymbolId::RightParent)) => Some(Next::State(State::Five)),
        (State::Five, Some(SymbolId::Identifier)) => Some(Next::Reduce(Reduce::One)),
        (State::Five, Some(SymbolId::LeftParent)) => Some(Next::Reduce(Reduce::One)),
        (State::Five, Some(SymbolId::RightParent)) => Some(Next::Reduce(Reduce::One)),
        (State::Five, None) => Some(Next::Reduce(Reduce::One)),
        _ => None,
    }
}

/// The ACTION table lookup.
#[verifier::when_used_as_spec(spec_action)]
pub fn action(st: State, look: Option<SymbolId>) -> (r: Option<Next>)
    ensures
        r == spec_action(st, look),
{
    match (st, look) {
        (State::Zero, Some(SymbolId::Identifier)) => Some(Next::State(State::Three)),
        (State::Zero, Some(SymbolId::LeftParent)) => Some(Next::State(State::Two)),
        (State::One, None) => Some(Next::Accomplished),
        (State::Two, Some(SymbolId::Identifier)) => Some(Next::State(State::Three)),
        (State::Two, Some(SymbolId::LeftParent)) => Some(Next::State(State::Two)),
        (State::Three, Some(SymbolId::Identifier)) => Some(Next::Reduce(Reduce::Two)),
        (State::Three, Some(SymbolId::LeftParent)) => Some(Next::Reduce(Reduce::Two)),
        (State::Three, Some(SymbolId::RightParent)) => Some(Next::Reduce(Reduce::Two)),
        (State::Three, None) => Some(Next::Reduce(Reduce::Two)),
        (State::Four, Some(SymbolId::RightParent)) => Some(Next::State(State::Five)),
        (State::Five, Some(SymbolId::Identifier)) => Some(Next::Reduce(Reduce::One)),
        (State::Five, Some(SymbolId::LeftParent)) => Some(Next::Reduce(Reduce::One)),
        (State::Five, Some(SymbolId::RightParent)) => Some(Next::Reduce(Reduce::One)),
        (State::Five, None) => Some(Next::Reduce(Reduce::One)),
        _ => None,
    }
}

/// The GOTO table: only the nonterminal `S` has entries, from the two
/// states that can sit below a freshly recognized `S`.
pub open spec fn spec_goto(st: State, sym: SymbolId) -> Option<State> {
    match (st, sym) {
        (State::Zero, SymbolId::S) => Some(State::One),
        (State::Two, SymbolId::S) => Some(State::Four),
        _ => None,
    }
}

/// The GOTO table lookup.
#[verifier::when_used_as_spec(spec_goto)]
pub fn goto(st: State, sym: SymbolId) -> (r: Option<State>)
    ensures
        r == spec_goto(st, sym),
{
    match (st, sym) {
        (State::Zero, SymbolId::S) => Some(State::One),
        (State::Two, SymbolId::S) => Some(State::Four),
        _ => None,
    }
}

} // verus!
