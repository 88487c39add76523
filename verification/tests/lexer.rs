use lr0::token::{is_ident_char, lex, Span, Symbol, SymbolId};

fn span(start: usize, end: usize) -> Span {
    Span { start, end }
}

#[test]
fn classifies_identifier_characters() {
    assert!(is_ident_char('a'));
    assert!(is_ident_char('z'));
    assert!(is_ident_char('A'));
    assert!(is_ident_char('Z'));
    assert!(is_ident_char('0'));
    assert!(is_ident_char('9'));
    assert!(!is_ident_char('('));
    assert!(!is_ident_char(')'));
    assert!(!is_ident_char(' '));
    assert!(!is_ident_char('_'));
    assert!(!is_ident_char('+'));
}

#[test]
fn scans_line_into_gapless_spanned_tokens() {
    let mut lx = lex("(ab12)x?");
    assert_eq!(lx.next(), Some((span(0, 1), Symbol::LeftParent)));
    assert_eq!(lx.next(), Some((span(1, 5), Symbol::Identifier("ab12"))));
    assert_eq!(lx.next(), Some((span(5, 6), Symbol::RightParent)));
    assert_eq!(lx.next(), Some((span(6, 7), Symbol::Identifier("x"))));
    assert_eq!(lx.next(), Some((span(7, 8), Symbol::Other)));
    assert_eq!(lx.next(), None);
    assert_eq!(lx.next(), None);
}

#[test]
fn scans_maximal_identifier_run_to_end_of_line() {
    let mut lx = lex("abc123");
    assert_eq!(lx.next(), Some((span(0, 6), Symbol::Identifier("abc123"))));
    assert_eq!(lx.next(), None);
}

#[test]
fn empty_line_yields_no_tokens() {
    let mut lx = lex("");
    assert_eq!(lx.next(), None);
}

#[test]
fn non_ascii_character_is_one_other_token_with_character_span() {
    let mut lx = lex("\u{3bb}a");
    assert_eq!(lx.next(), Some((span(0, 1), Symbol::Other)));
    assert_eq!(lx.next(), Some((span(1, 2), Symbol::Identifier("a"))));
    assert_eq!(lx.next(), None);
}

#[test]
fn symbol_id_strips_the_identifier_payload() {
    assert_eq!(Symbol::S.id(), SymbolId::S);
    assert_eq!(Symbol::LeftParent.id(), SymbolId::LeftParent);
    assert_eq!(Symbol::RightParent.id(), SymbolId::RightParent);
    assert_eq!(Symbol::Identifier("xyz").id(), SymbolId::Identifier);
    assert_eq!(Symbol::Other.id(), SymbolId::Other);
}
