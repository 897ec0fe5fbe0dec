use guessing_game::parse::{is_space_char, parse_guess, trimmed, ParseFailure};

#[test]
fn plain_number_with_newline() {
    assert_eq!(parse_guess("42\n"), Ok(42));
}

#[test]
fn surrounding_spaces_are_trimmed() {
    assert_eq!(parse_guess("  7  "), Ok(7));
}

#[test]
fn letters_fail_to_parse() {
    assert_eq!(parse_guess("abc"), Err(ParseFailure));
}

#[test]
fn negative_numbers_fail_to_parse() {
    assert_eq!(parse_guess("-3"), Err(ParseFailure));
}

#[test]
fn leading_plus_sign_is_accepted() {
    assert_eq!(parse_guess("+15"), Ok(15));
    assert_eq!(parse_guess("+"), Err(ParseFailure));
}

#[test]
fn empty_and_blank_lines_fail_to_parse() {
    assert_eq!(parse_guess(""), Err(ParseFailure));
    assert_eq!(parse_guess("   \t\n"), Err(ParseFailure));
}

#[test]
fn leading_zeros_are_allowed() {
    assert_eq!(parse_guess("042"), Ok(42));
    assert_eq!(parse_guess("0"), Ok(0));
}

#[test]
fn digits_inside_are_not_a_number() {
    assert_eq!(parse_guess("4 2"), Err(ParseFailure));
    assert_eq!(parse_guess("12a"), Err(ParseFailure));
}

#[test]
fn value_must_fit_in_u32() {
    assert_eq!(parse_guess("4294967295"), Ok(u32::MAX));
    assert_eq!(parse_guess("4294967296"), Err(ParseFailure));
    assert_eq!(parse_guess("99999999999999999999"), Err(ParseFailure));
}

#[test]
fn trimming_removes_exactly_the_surrounding_whitespace() {
    assert_eq!(trimmed("  7  "), "7");
    assert_eq!(trimmed("\t a b \n"), "a b");
    assert_eq!(trimmed("none"), "none");
    assert_eq!(trimmed(" \r\n "), "");
    assert_eq!(trimmed("\u{a0}x\u{3000}"), "x");
}

#[test]
fn whitespace_test_matches_unicode() {
    assert!(is_space_char(' '));
    assert!(is_space_char('\t'));
    assert!(is_space_char('\n'));
    assert!(is_space_char('\u{2028}'));
    assert!(!is_space_char('a'));
    assert!(!is_space_char('0'));
}
