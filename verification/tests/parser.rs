use lr0::driver::{parse_line, SyntaxError, TraceStep, Verdict};
use lr0::tables::{Next, Reduce, State};
use lr0::token::SymbolId;

fn step(state: State, lookahead: Option<SymbolId>, decision: Option<Next>) -> TraceStep {
    TraceStep { state, lookahead, decision }
}

#[test]
fn accepts_bare_identifier_with_expected_trajectory() {
    let (verdict, trace) = parse_line("id");
    assert_eq!(verdict, Verdict::Accepted);
    let expected = vec![
        step(
            State::Zero,
            Some(SymbolId::Identifier),
            Some(Next::State(State::Three)),
        ),
        step(State::Three, None, Some(Next::Reduce(Reduce::Two))),
        step(State::One, None, Some(Next::Accomplished)),
    ];
    assert_eq!(trace, expected);
}

#[test]
fn accepts_single_wrapped_identifier_with_expected_trajectory() {
    let (verdict, trace) = parse_line("(id)");
    assert_eq!(verdict, Verdict::Accepted);
    let expected = vec![
        step(
            State::Zero,
            Some(SymbolId::LeftParent),
            Some(Next::State(State::Two)),
        ),
        step(
            State::Two,
            Some(SymbolId::Identifier),
            Some(Next::State(State::Three)),
        ),
        step(
            State::Three,
            Some(SymbolId::RightParent),
            Some(Next::Reduce(Reduce::Two)),
        ),
        step(
            State::Four,
            Some(SymbolId::RightParent),
            Some(Next::State(State::Five)),
        ),
        step(State::Five, None, Some(Next::Reduce(Reduce::One))),
        step(State::One, None, Some(Next::Accomplished)),
    ];
    assert_eq!(trace, expected);
}

#[test]
fn accepts_deeply_wrapped_identifiers() {
    assert_eq!(parse_line("((id))").0, Verdict::Accepted);
    assert_eq!(parse_line("(((abc123)))").0, Verdict::Accepted);
    assert_eq!(parse_line("X").0, Verdict::Accepted);
}

#[test]
fn rejects_missing_closing_parenthesis_at_end_of_input() {
    let (verdict, trace) = parse_line("(id");
    assert_eq!(
        verdict,
        Verdict::Rejected(SyntaxError::UnexpectedSymbol { pos: 3 })
    );
    let last = trace.last().unwrap();
    assert_eq!(last.state, State::Four);
    assert_eq!(last.lookahead, None);
    assert_eq!(last.decision, None);
}

#[test]
fn rejects_stray_closing_parenthesis_immediately() {
    let (verdict, trace) = parse_line("))");
    assert_eq!(
        verdict,
        Verdict::Rejected(SyntaxError::UnexpectedSymbol { pos: 0 })
    );
    assert_eq!(
        trace,
        vec![step(State::Zero, Some(SymbolId::RightParent), None)]
    );
}

#[test]
fn rejects_unbalanced_parentheses() {
    assert!(matches!(parse_line("((id)").0, Verdict::Rejected(_)));
    assert!(matches!(parse_line("(id))").0, Verdict::Rejected(_)));
    assert!(matches!(parse_line(")(").0, Verdict::Rejected(_)));
    assert!(matches!(parse_line("()").0, Verdict::Rejected(_)));
}

#[test]
fn rejects_trailing_parenthesis_as_trailing_input() {
    let (verdict, _) = parse_line("id)");
    assert_eq!(
        verdict,
        Verdict::Rejected(SyntaxError::TrailingInput { pos: 2 })
    );
}

#[test]
fn rejects_adjacent_identifiers_at_the_separating_token() {
    // The line `id id` is rejected with a syntax error at the token that
    // follows the first identifier, rather than accepted with trailing
    // input: the separating blank is an `Other` token, and state Three
    // has no entry for it.
    let (verdict, trace) = parse_line("id id");
    assert_eq!(
        verdict,
        Verdict::Rejected(SyntaxError::UnexpectedSymbol { pos: 2 })
    );
    let last = trace.last().unwrap();
    assert_eq!(last.state, State::Three);
    assert_eq!(last.lookahead, Some(SymbolId::Other));
}

#[test]
fn empty_line_is_a_syntax_error() {
    let (verdict, trace) = parse_line("");
    assert_eq!(
        verdict,
        Verdict::Rejected(SyntaxError::UnexpectedSymbol { pos: 0 })
    );
    assert_eq!(trace, vec![step(State::Zero, None, None)]);
}

#[test]
fn parsing_twice_gives_identical_verdicts_and_traces() {
    for line in ["id", "(id)", "(id", "id)", "id id", "", "a+b"] {
        let first = parse_line(line);
        let second = parse_line(line);
        assert_eq!(first.0, second.0);
        assert_eq!(first.1, second.1);
    }
}

#[test]
fn rejects_operator_characters_as_unexpected_symbols() {
    let (verdict, _) = parse_line("a+b");
    assert_eq!(
        verdict,
        Verdict::Rejected(SyntaxError::UnexpectedSymbol { pos: 1 })
    );
}
