use todomvc::text::is_blank;

#[test]
fn blank_texts() {
    assert!(is_blank(""));
    assert!(is_blank(" "));
    assert!(is_blank(" \t\r\n"));
    assert!(is_blank("\u{a0}\u{2003}\u{3000}"));
}

#[test]
fn texts_that_are_not_blank() {
    assert!(!is_blank("a"));
    assert!(!is_blank("  a  "));
    assert!(!is_blank("\t-"));
    assert!(!is_blank("\u{200b}"));
    assert!(!is_blank(" é "));
}
