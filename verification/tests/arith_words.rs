use lr0::words::{is_ident_char, lexer, Word};

#[test]
fn scans_arithmetic_expression_into_words() {
    let mut lx = lexer("ab+cd1*(e)");
    assert_eq!(lx.next(), Some(Word::Id(String::from("ab"))));
    assert_eq!(lx.next(), Some(Word::Add));
    assert_eq!(lx.next(), Some(Word::Id(String::from("cd1"))));
    assert_eq!(lx.next(), Some(Word::Mul));
    assert_eq!(lx.next(), Some(Word::LeftParent));
    assert_eq!(lx.next(), Some(Word::Id(String::from("e"))));
    assert_eq!(lx.next(), Some(Word::RightParent));
    assert_eq!(lx.next(), None);
}

#[test]
fn unknown_characters_become_other_words() {
    let mut lx = lexer("a b");
    assert_eq!(lx.next(), Some(Word::Id(String::from("a"))));
    assert_eq!(lx.next(), Some(Word::Other));
    assert_eq!(lx.next(), Some(Word::Id(String::from("b"))));
    assert_eq!(lx.next(), None);
}

#[test]
fn word_classification_matches_the_token_alphabet() {
    assert!(is_ident_char('q'));
    assert!(is_ident_char('7'));
    assert!(!is_ident_char('+'));
    assert!(!is_ident_char('*'));
    let mut lx = lexer("");
    assert_eq!(lx.next(), None);
}
