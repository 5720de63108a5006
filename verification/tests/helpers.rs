use rustdown::preprocessor::replace_tabs;
use rustdown::text::all_chars_are;
use rustdown::text::all_same;
use rustdown::text::starting_chars;

#[test]
fn test_all_same() {
    assert!(!all_same('-', "- This is a bullet"));
}

#[test]
fn generic_test_starting_chars() {
    assert_eq!(starting_chars("### haha", '#'), Some(("haha".to_string(), 3)));
    assert_eq!(starting_chars("    - bullet", ' '), Some(("- bullet".to_string(), 4)));
}

#[test]
fn text_test_starting_chars() {
    assert_eq!(starting_chars("### haha", '#'), Some(("haha".to_string(), 3)));
    assert_eq!(starting_chars("    - bullet", ' '), Some(("- bullet".to_string(), 4)));
}

#[test]
fn test_all_chars_are_fail() {
    assert!(!all_chars_are('-', "- This is a bullet"));
    assert!(!all_chars_are('-', ""));
    assert!(!all_chars_are('a', "aaaba"));
    assert!(!all_chars_are('a', "aaab"));
    assert!(!all_chars_are('a', "baaa"));
}

#[test]
fn test_all_chars_are_pass() {
    assert!(all_chars_are('-', "------------"));
    assert!(all_chars_are('=', "="));
}

#[test]
fn test_replace_tabs() {
    assert_eq!(replace_tabs(&vec!["Hi".to_string()]), vec!["Hi".to_string()]);
}

#[test]
fn replace_tabs_expands_to_four_spaces() {
    assert_eq!(
        replace_tabs(&vec!["\ta".to_string(), "b\tc\t".to_string()]),
        vec!["    a".to_string(), "b    c    ".to_string()]
    );
}

#[test]
fn starting_chars_without_match() {
    assert_eq!(starting_chars("haha", '#'), None);
    assert_eq!(starting_chars("", '#'), None);
}

#[test]
fn starting_chars_whole_line() {
    assert_eq!(starting_chars("###", '#'), Some(("".to_string(), 3)));
    assert_eq!(starting_chars("#  x y", '#'), Some(("x y".to_string(), 1)));
}
