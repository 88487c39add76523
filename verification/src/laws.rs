//! Proved statements about the language the driver accepts.
//!
//! The driver accepts exactly the lines that consist of one identifier
//! wrapped in zero or more balanced parenthesis pairs: completeness is
//! `lemma_balanced_accepted`, soundness is `lemma_accepted_is_balanced`,
//! and `lemma_unbalanced_rejected` turns soundness around for any line
//! outside that form — in particular any line with unbalanced
//! parentheses. The empty line is rejected (`lemma_empty_rejected`),
//! and every rejection is reported at a missing ACTION entry, never by
//! the run's internal guards (`lemma_rejection_is_table_miss`).

use vstd::prelude::*;

use crate::driver::{reduce_rank, spec_lookahead, spec_parse, spec_parse_trace, spec_run,
    SyntaxError, Verdict};
use crate::tables::{spec_action, spec_goto, spec_rhs_len, Next, Reduce, State};
use crate::token::{
    ident_end,
    SymbolId,
    lemma_ident_end_bounds,
    lemma_ident_end_exact,
    spec_is_ident_char,
    token_end,
};

verus! {

/// `n` left parentheses.
pub open spec fn lparens(n: nat) -> Seq<char> {
    Seq::new(n, |i: int| '(')
}

/// `n` right parentheses.
pub open spec fn rparens(n: nat) -> Seq<char> {
    Seq::new(n, |i: int| ')')
}

/// Every character of `w` is an identifier character.
pub open spec fn all_ident(w: Seq<char>) -> bool {
    forall|j: int| 0 <= j < w.len() ==> spec_is_ident_char(w[j])
}

/// The word `w` wrapped in `n` balanced parenthesis pairs.
pub open spec fn wrapped(n: nat, w: Seq<char>) -> Seq<char> {
    lparens(n) + w + rparens(n)
}

/// `s` is one non-empty identifier wrapped in `n` balanced pairs.
pub open spec fn wrapped_form(s: Seq<char>, n: nat, w: Seq<char>) -> bool {
    s == wrapped(n, w) && w.len() >= 1 && all_ident(w)
}

/// `s` is one non-empty identifier wrapped in some number of balanced
/// parenthesis pairs: the grammar's language.
pub open spec fn balanced_ident(s: Seq<char>) -> bool {
    exists|n: nat, w: Seq<char>| wrapped_form(s, n, w)
}

/// The state stack after shifting `k` opening parentheses: the initial
/// state with `k` copies of state `Two` above it.
pub open spec fn tows(k: nat) -> Seq<State> {
    seq![State::Zero] + Seq::new(k, |i: int| State::Two)
}

/// The state pushed by GOTO on `S` over `k` open parentheses: the
/// accepting state when none are open, otherwise the state that waits
/// for the matching closing parenthesis.
pub open spec fn accept_target(k: nat) -> State {
    if k == 0 {
        State::One
    } else {
        State::Four
    }
}

/// The suffix of `s` from `p` is `j` left parentheses, an identifier,
/// and `k + j` right parentheses.
spec fn tail_form(s: Seq<char>, p: int, k: nat, j: nat, w: Seq<char>) -> bool {
    s.subrange(p, s.len() as int) == lparens(j) + w + rparens((k + j) as nat) && w.len() >= 1
        && all_ident(w)
}

/// From a configuration that has just recognized an `S` below `k` open
/// parentheses, a remainder of exactly `k` closing parentheses drives
/// the automaton to acceptance.
proof fn lemma_close(s: Seq<char>, p: int, k: nat)
    requires
        0 <= p <= s.len(),
        s.len() - p == k,
        forall|j: int| p <= j < s.len() ==> s[j] == ')',
    ensures
        spec_run(s, p, tows(k).push(accept_target(k))).0 == Verdict::Accepted,
    decreases k,
{
    let stack0 = tows(k).push(accept_target(k));
    if k == 0 {
        assert(stack0.last() == State::One);
        assert(spec_run(s, p, stack0).0 == Verdict::Accepted);
    } else {
        assert(s[p] == ')');
        assert(!spec_is_ident_char(')'));
        assert(token_end(s, p) == p + 1);
        let stack1 = stack0.push(State::Five);
        assert(spec_run(s, p, stack0).0 == spec_run(s, p + 1, stack1).0);
        let popped = stack1.take(stack1.len() - 3);
        assert(popped =~= tows((k - 1) as nat));
        assert(popped.last() == accept_target_below((k - 1) as nat));
        let stack2 = popped.push(accept_target((k - 1) as nat));
        assert(spec_run(s, p + 1, stack1).0 == spec_run(s, p + 1, stack2).0);
        lemma_close(s, p + 1, (k - 1) as nat);
    }
}

/// The state under a freshly recognized `S`: the one the GOTO table is
/// consulted with.
spec fn accept_target_below(k: nat) -> State {
    if k == 0 {
        State::Zero
    } else {
        State::Two
    }
}

/// From `k` open parentheses on the stack, a remainder of one
/// identifier and `k` closing parentheses drives the automaton to
/// acceptance: shift the identifier, reduce `S -> id`, then close.
proof fn lemma_ident_then_close(s: Seq<char>, p: int, k: nat)
    requires
        0 <= p < s.len(),
        spec_is_ident_char(s[p]),
        forall|j: int| ident_end(s, p) <= j < s.len() ==> s[j] == ')',
        s.len() - ident_end(s, p) == k,
    ensures
        spec_run(s, p, tows(k)).0 == Verdict::Accepted,
{
    let stack0 = tows(k);
    lemma_ident_end_bounds(s, p);
    let q = ident_end(s, p);
    assert(token_end(s, p) == q);
    assert(stack0.last() == accept_target_below(k));
    let stack1 = stack0.push(State::Three);
    assert(spec_run(s, p, stack0).0 == spec_run(s, q, stack1).0);
    let popped = stack1.take(stack1.len() - 1);
    assert(popped =~= tows(k));
    let stack2 = popped.push(accept_target(k));
    assert(spec_run(s, q, stack1).0 == spec_run(s, q, stack2).0);
    lemma_close(s, q, k);
}

/// Completeness over the opening parentheses: with `j` of the `n` pairs
/// already shifted, the rest of the line drives the automaton to
/// acceptance.
proof fn lemma_open(n: nat, w: Seq<char>, j: int)
    requires
        0 <= j <= n,
        w.len() >= 1,
        all_ident(w),
    ensures
        spec_run(wrapped(n, w), j, tows(j as nat)).0 == Verdict::Accepted,
    decreases n - j,
{
    let s = wrapped(n, w);
    assert(s.len() == n + w.len() + n);
    if j == n {
        assert(spec_is_ident_char(s[j]));
        lemma_ident_end_exact(s, n as int, n + w.len() as int);
        lemma_ident_then_close(s, j, n);
    } else {
        assert(s[j] == '(');
        assert(!spec_is_ident_char('('));
        assert(token_end(s, j) == j + 1);
        let stack1 = tows(j as nat).push(State::Two);
        assert(stack1 =~= tows((j + 1) as nat));
        assert(spec_run(s, j, tows(j as nat)).0 == spec_run(s, j + 1, stack1).0);
        lemma_open(n, w, j + 1);
    }
}

/// Every line consisting of one non-empty identifier wrapped in `n`
/// balanced parenthesis pairs is accepted, with no trailing input.
pub proof fn lemma_balanced_accepted(n: nat, w: Seq<char>)
    requires
        w.len() >= 1,
        all_ident(w),
    ensures
        spec_parse(wrapped(n, w)) == Verdict::Accepted,
{
    assert(tows(0) =~= seq![State::Zero]);
    lemma_open(n, w, 0);
}

/// Soundness over the closing parentheses: once an `S` has been
/// recognized below `k` open parentheses, the run can only accept if
/// the rest of the line is exactly `k` closing parentheses.
proof fn lemma_sound_close(s: Seq<char>, p: int, k: nat)
    requires
        0 <= p <= s.len(),
        spec_run(s, p, tows(k).push(accept_target(k))).0 == Verdict::Accepted,
    ensures
        s.len() - p == k,
        forall|j: int| p <= j < s.len() ==> s[j] == ')',
    decreases s.len() - p,
{
    let stack0 = tows(k).push(accept_target(k));
    if k == 0 {
        assert(stack0.last() == State::One);
        if p < s.len() {
            assert(spec_run(s, p, stack0).0 is Rejected);
        }
    } else {
        assert(stack0.last() == State::Four);
        if p == s.len() {
            assert(spec_run(s, p, stack0).0 is Rejected);
        }
        if s[p] != ')' {
            assert(spec_run(s, p, stack0).0 is Rejected);
        }
        assert(!spec_is_ident_char(')'));
        assert(token_end(s, p) == p + 1);
        let stack1 = stack0.push(State::Five);
        assert(spec_run(s, p, stack0).0 == spec_run(s, p + 1, stack1).0);
        let popped = stack1.take(stack1.len() - 3);
        assert(popped =~= tows((k - 1) as nat));
        assert(popped.last() == accept_target_below((k - 1) as nat));
        let stack2 = popped.push(accept_target((k - 1) as nat));
        if p + 1 < s.len() && !spec_is_ident_char(s[p + 1]) && s[p + 1] != '(' && s[p + 1] != ')' {
            assert(spec_run(s, p + 1, stack1).0 is Rejected);
        }
        assert(spec_run(s, p + 1, stack1).0 == spec_run(s, p + 1, stack2).0);
        lemma_sound_close(s, p + 1, (k - 1) as nat);
    }
}

/// Soundness from a stack of `k` open parentheses: the run can only
/// accept if the rest of the line is some more open parentheses, one
/// identifier, and exactly the matching closing parentheses.
proof fn lemma_sound_main(s: Seq<char>, p: int, k: nat)
    requires
        0 <= p <= s.len(),
        spec_run(s, p, tows(k)).0 == Verdict::Accepted,
    ensures
        exists|j: nat, w: Seq<char>| tail_form(s, p, k, j, w),
    decreases s.len() - p,
{
    let stack0 = tows(k);
    assert(stack0.last() == accept_target_below(k));
    if p == s.len() {
        assert(spec_run(s, p, stack0).0 is Rejected);
    }
    if s[p] == '(' {
        assert(!spec_is_ident_char('('));
        assert(token_end(s, p) == p + 1);
        let stack1 = stack0.push(State::Two);
        assert(stack1 =~= tows((k + 1) as nat));
        assert(spec_run(s, p, stack0).0 == spec_run(s, p + 1, stack1).0);
        lemma_sound_main(s, p + 1, (k + 1) as nat);
        let (j1, w1) = choose|j1: nat, w1: Seq<char>| #[trigger] tail_form(s, p + 1, (k + 1) as nat, j1, w1);
        let t = lparens(j1) + w1 + rparens((k + 1 + j1) as nat);
        assert(s.subrange(p + 1, s.len() as int) == t);
        assert forall|i: int| 1 <= i < s.len() - p implies s[p + i] == #[trigger] t[i - 1] by {
            assert(t[i - 1] == s.subrange(p + 1, s.len() as int)[i - 1]);
        }
        let r = lparens((j1 + 1) as nat) + w1 + rparens((k + j1 + 1) as nat);
        assert(t.len() == j1 + w1.len() + (k + 1 + j1));
        assert(r.len() == (j1 + 1) + w1.len() + (k + j1 + 1));
        assert(s.len() - p == r.len());
        assert forall|i: int| 0 <= i < r.len() implies s.subrange(p, s.len() as int)[i]
            == #[trigger] r[i] by {
            if i == 0 {
                assert(r[0] == '(');
                assert(s.subrange(p, s.len() as int)[0] == s[p]);
            } else {
                assert(s.subrange(p, s.len() as int)[i] == s[p + i]);
                assert(s[p + i] == t[i - 1]);
                if i - 1 < j1 {
                    assert(t[i - 1] == '(');
                    assert(r[i] == '(');
                } else if i - 1 < j1 + w1.len() {
                    assert(t[i - 1] == w1[i - 1 - j1]);
                    assert(r[i] == w1[i - (j1 + 1)]);
                } else {
                    assert(t[i - 1] == ')');
                    assert(r[i] == ')');
                }
            }
        }
        assert(s.subrange(p, s.len() as int) =~= r);
        assert(tail_form(s, p, k, (j1 + 1) as nat, w1));
    } else if spec_is_ident_char(s[p]) {
        lemma_ident_end_bounds(s, p);
        let q = ident_end(s, p);
        assert(token_end(s, p) == q);
        let stack1 = stack0.push(State::Three);
        assert(spec_run(s, p, stack0).0 == spec_run(s, q, stack1).0);
        if q < s.len() && !spec_is_ident_char(s[q]) && s[q] != '(' && s[q] != ')' {
            assert(spec_run(s, q, stack1).0 is Rejected);
        }
        let popped = stack1.take(stack1.len() - 1);
        assert(popped =~= tows(k));
        let stack2 = popped.push(accept_target(k));
        assert(spec_run(s, q, stack1).0 == spec_run(s, q, stack2).0);
        lemma_sound_close(s, q, k);
        let w = s.subrange(p, q);
        assert(s.subrange(p, s.len() as int) =~= lparens(0) + w + rparens(k));
        assert(tail_form(s, p, k, 0, w));
    } else {
        assert(spec_run(s, p, stack0).0 is Rejected);
    }
}

/// Soundness: a line the driver accepts is one non-empty identifier
/// wrapped in some number of balanced parenthesis pairs.
pub proof fn lemma_accepted_is_balanced(s: Seq<char>)
    requires
        spec_parse(s) == Verdict::Accepted,
    ensures
        balanced_ident(s),
{
    assert(tows(0) =~= seq![State::Zero]);
    lemma_sound_main(s, 0, 0);
    let (j, w) = choose|j: nat, w: Seq<char>| #[trigger] tail_form(s, 0, 0, j, w);
    assert(s.subrange(0, s.len() as int) =~= s);
    assert(s == wrapped(j, w));
    assert(wrapped_form(s, j, w));
}

/// Any line outside the grammar's language — in particular one whose
/// parentheses are unbalanced — is rejected with a syntax error.
pub proof fn lemma_unbalanced_rejected(s: Seq<char>)
    requires
        !balanced_ident(s),
    ensures
        spec_parse(s) is Rejected,
{
    if spec_parse(s) == Verdict::Accepted {
        lemma_accepted_is_balanced(s);
    }
}

/// Which states can sit directly on top of which: exactly the pushes
/// the tables can perform. `Two`, `Three` and `Five` are pushed by
/// shifts out of the states that shift them; `One` and `Four` are
/// pushed by GOTO over `Zero` and `Two`; `Zero` is never pushed, it is
/// only the stack's bottom.
pub open spec fn ok_pair(a: State, b: State) -> bool {
    match b {
        State::Zero => false,
        State::One => a == State::Zero,
        State::Two => a == State::Zero || a == State::Two,
        State::Three => a == State::Zero || a == State::Two,
        State::Four => a == State::Two,
        State::Five => a == State::Four,
    }
}

/// A state stack the driver can actually hold: `Zero` at the bottom and
/// every adjacent pair one of the pushes the tables can perform.
pub open spec fn wf_stack(stack: Seq<State>) -> bool {
    &&& stack.len() >= 1
    &&& stack[0] == State::Zero
    &&& forall|i: int| 1 <= i < stack.len() ==> ok_pair(stack[i - 1], #[trigger] stack[i])
}

/// A run's trace is never empty: the step that ends the run is always
/// recorded.
proof fn lemma_run_trace_nonempty(s: Seq<char>, p: int, stack: Seq<State>)
    requires
        0 <= p <= s.len(),
        stack.len() >= 1,
    ensures
        spec_run(s, p, stack).1.len() >= 1,
{
}

/// From a well-formed configuration, a run that rejects does so at a
/// missing ACTION entry: its last trace step records no decision. The
/// guards inside the run's definition — a stack too short for the pops
/// of a reduction, or a reduction whose exposed state has no GOTO entry
/// — never fire, so an implementation with a well-formed stack never
/// faults on them.
proof fn lemma_wf_rejection_is_table_miss(s: Seq<char>, p: int, stack: Seq<State>)
    requires
        0 <= p <= s.len(),
        wf_stack(stack),
        spec_run(s, p, stack).0 is Rejected,
    ensures
        spec_run(s, p, stack).1.last().decision is None,
    decreases s.len() - p, stack.len(), reduce_rank(stack.last()),
{
    let look = spec_lookahead(s, p);
    let top = stack.last();
    assert(top == stack[stack.len() - 1]);
    match spec_action(top, look) {
        None => {},
        Some(Next::Accomplished) => {},
        Some(Next::State(st)) => {
            if p == s.len() {
                assert(false);
            }
            lemma_ident_end_bounds(s, p);
            let stack2 = stack.push(st);
            assert(ok_pair(top, st));
            assert forall|i: int| 1 <= i < stack2.len() implies ok_pair(
                stack2[i - 1],
                #[trigger] stack2[i],
            ) by {
                if i < stack.len() {
                    assert(ok_pair(stack[i - 1], stack[i]));
                }
            }
            lemma_wf_rejection_is_table_miss(s, token_end(s, p), stack2);
            lemma_run_trace_nonempty(s, token_end(s, p), stack2);
        },
        Some(Next::Reduce(r)) => {
            let k = spec_rhs_len(r);
            if r == Reduce::Two {
                assert(top == State::Three);
                assert(stack.len() >= 2);
            } else {
                assert(top == State::Five);
                assert(ok_pair(stack[stack.len() - 2], stack[stack.len() - 1]));
                assert(stack[stack.len() - 2] == State::Four);
                assert(stack.len() >= 3);
                assert(ok_pair(stack[stack.len() - 3], stack[stack.len() - 2]));
                assert(stack[stack.len() - 3] == State::Two);
                assert(stack.len() >= 4);
            }
            assert(stack.len() > k);
            let popped = stack.take(stack.len() - k);
            assert(popped.last() == stack[stack.len() - k - 1]);
            if popped.len() >= 2 {
                assert(ok_pair(stack[stack.len() - k - 2], stack[stack.len() - k - 1]));
            }
            assert(popped.last() == State::Zero || popped.last() == State::Two);
            let st = spec_goto(popped.last(), SymbolId::S).unwrap();
            let stack2 = popped.push(st);
            assert(ok_pair(popped.last(), st));
            assert forall|i: int| 1 <= i < stack2.len() implies ok_pair(
                stack2[i - 1],
                #[trigger] stack2[i],
            ) by {
                if i < popped.len() {
                    assert(ok_pair(stack[i - 1], stack[i]));
                }
            }
            lemma_wf_rejection_is_table_miss(s, p, stack2);
            lemma_run_trace_nonempty(s, p, stack2);
        },
    }
}

/// Every syntax error is reported at a missing ACTION entry: the last
/// step of a rejected parse's trace records no decision. The run's
/// internal guards — popping more than the stack holds, or a missing
/// GOTO entry after a reduction — never fire from the initial
/// configuration, so they are programming-logic safeguards and never
/// the source of a reported error.
pub proof fn lemma_rejection_is_table_miss(s: Seq<char>)
    requires
        spec_parse(s) is Rejected,
    ensures
        spec_parse_trace(s).last().decision is None,
{
    assert(wf_stack(seq![State::Zero]));
    lemma_wf_rejection_is_table_miss(s, 0, seq![State::Zero]);
}

/// The empty line is rejected at once: the ACTION table has no entry
/// for the initial state together with end of input.
pub proof fn lemma_empty_rejected()
    ensures
        spec_parse(Seq::<char>::empty()) == Verdict::Rejected(
            SyntaxError::UnexpectedSymbol { pos: 0 },
        ),
{
    assert(seq![State::Zero].last() == State::Zero);
}

} // verus!

