use string_stupidify::{Case, is_str_made_of_identical_chars};

#[test]
fn case_of_char() {
    assert_eq!(Some(Case::Lower), Case::case_of('a'));
    assert_eq!(Some(Case::Upper), Case::case_of('A'));
    assert_eq!(None, Case::case_of('.'));
}

#[test]
fn opposite_case() {
    assert_eq!(Case::Lower, Case::Upper.opposite());
    assert_eq!(Case::Upper, Case::Lower.opposite());
}

#[test]
fn apply_case() {
    assert_eq!("A", Case::Upper.apply('a'));
    assert_eq!("a", Case::Lower.apply('A'));
}

#[test]
fn apply_case_widening() {
    assert_eq!("SS", Case::Upper.apply('\u{df}'));
    assert_eq!(".", Case::Upper.apply('.'));
}

#[test]
fn str_made_of_identical_chars() {
    assert!(is_str_made_of_identical_chars("aaaaa"));
    assert!(!is_str_made_of_identical_chars("aaada"));
}

#[test]
fn str_made_of_identical_chars_short_inputs() {
    assert!(is_str_made_of_identical_chars(""));
    assert!(is_str_made_of_identical_chars("x"));
}
