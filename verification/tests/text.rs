use oxi::text::{same_text, trim};

#[test]
fn trim_removes_surrounding_white_space() {
    assert_eq!(trim("  status \n"), "status");
    assert_eq!(trim("\t-H"), "-H");
    assert_eq!(trim("a b"), "a b");
}

#[test]
fn trim_of_blank_text_is_empty() {
    assert_eq!(trim(""), "");
    assert_eq!(trim(" \r\n\t "), "");
    assert_eq!(trim("\u{a0}\u{3000}"), "");
}

#[test]
fn trim_keeps_inner_white_space() {
    assert_eq!(trim(" a \u{2003} b "), "a \u{2003} b");
}

#[test]
fn trim_is_idempotent() {
    for text in ["", " a ", "a", "\n\n", " a b \t"] {
        assert_eq!(trim(trim(text)), trim(text));
    }
}

#[test]
fn trim_leaves_no_white_space_at_either_end() {
    for text in ["  x y  ", "\tx\n", "x", " \u{2028}x\u{205f} "] {
        let kept = trim(text);
        assert!(!kept.starts_with(char::is_whitespace));
        assert!(!kept.ends_with(char::is_whitespace));
        assert!(text.contains(kept));
    }
}

#[test]
fn same_text_compares_character_by_character() {
    assert!(same_text("", ""));
    assert!(same_text("--help", "--help"));
    assert!(!same_text("--help", "--Help"));
    assert!(!same_text("-h", "-h "));
    assert!(!same_text("a", ""));
}
