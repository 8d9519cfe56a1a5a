use torrent_search::types::{SelectionError, UserInput};
use torrent_search::utils::{
    get_first_page, get_input_from_dash, get_input_from_spaces, get_last_page, get_next_page,
    get_previous_page, parse_selection,
};

#[test]
fn range_within_bounds() {
    assert_eq!(get_input_from_dash("2-5", 10), Ok(UserInput::Range(2, 5)));
    assert_eq!(parse_selection("2-5", 10, 1, false), Ok(Some(UserInput::Range(2, 5))));
}

#[test]
fn range_errors() {
    assert_eq!(parse_selection("5-2", 10, 1, false), Err(SelectionError::InvalidRange));
    assert_eq!(parse_selection("0-3", 10, 1, false), Err(SelectionError::InvalidRange));
    assert_eq!(parse_selection("3-11", 10, 1, false), Err(SelectionError::InvalidRange));
    assert_eq!(parse_selection("3-3", 10, 1, false), Err(SelectionError::InvalidRange));
    assert_eq!(parse_selection("1-2-3", 10, 1, false), Err(SelectionError::InvalidRange));
    assert_eq!(parse_selection("a-3", 10, 1, false), Err(SelectionError::InvalidRange));
    assert_eq!(parse_selection("1-", 10, 1, false), Err(SelectionError::InvalidRange));
    assert_eq!(parse_selection("1-10", 10, 1, false), Ok(Some(UserInput::Range(1, 10))));
}

#[test]
fn index_set_in_input_order() {
    assert_eq!(parse_selection("1 3 7", 10, 1, false), Ok(Some(UserInput::Space(vec![1, 3, 7]))));
    assert_eq!(get_input_from_spaces("7 1 7", 10), Ok(UserInput::Space(vec![7, 1, 7])));
}

#[test]
fn index_set_errors() {
    assert_eq!(
        parse_selection("1 x 7", 10, 1, false),
        Err(SelectionError::InvalidNumber(String::from("x")))
    );
    assert_eq!(
        parse_selection("1 11 x", 10, 1, false),
        Err(SelectionError::InvalidNumber(String::from("x")))
    );
    assert_eq!(
        parse_selection("1 11 0", 10, 1, false),
        Err(SelectionError::InvalidNumber(String::from("11")))
    );
    assert_eq!(
        get_input_from_spaces("1  2", 10),
        Err(SelectionError::InvalidNumber(String::new()))
    );
    assert_eq!(
        get_input_from_spaces("3", 0),
        Err(SelectionError::InvalidNumber(String::from("3")))
    );
}

#[test]
fn next_on_last_page() {
    assert_eq!(parse_selection("n", 10, 3, true), Err(SelectionError::AlreadyLastPage));
    assert_eq!(parse_selection("n", 10, 3, false), Ok(Some(UserInput::Next(4))));
    assert_eq!(get_next_page(3, false), Ok(UserInput::Next(4)));
}

#[test]
fn page_commands() {
    assert_eq!(parse_selection("p", 10, 1, false), Err(SelectionError::AlreadyFirstPage));
    assert_eq!(parse_selection("p", 10, 4, false), Ok(Some(UserInput::Previous(3))));
    assert_eq!(parse_selection("f", 10, 1, false), Err(SelectionError::AlreadyFirstPage));
    assert_eq!(parse_selection("f", 10, 2, false), Ok(Some(UserInput::First)));
    assert_eq!(parse_selection("l", 10, 2, true), Err(SelectionError::AlreadyLastPage));
    assert_eq!(parse_selection("l", 10, 2, false), Ok(Some(UserInput::Last)));
    assert_eq!(get_previous_page(2), Ok(UserInput::Previous(1)));
    assert_eq!(get_last_page(false), Ok(UserInput::Last));
    assert_eq!(get_first_page(1), Err(SelectionError::AlreadyFirstPage));
}

#[test]
fn blank_input_asks_again() {
    assert_eq!(parse_selection("", 10, 1, false), Ok(None));
    assert_eq!(parse_selection("   \t", 10, 1, false), Ok(None));
}

#[test]
fn surrounding_whitespace_is_ignored() {
    assert_eq!(parse_selection("  3 \n", 10, 1, false), Ok(Some(UserInput::Space(vec![3]))));
    assert_eq!(parse_selection(" n ", 10, 1, false), Ok(Some(UserInput::Next(2))));
}

#[test]
fn last_page_at_the_largest_page_number() {
    assert_eq!(get_next_page(usize::MAX, true), Err(SelectionError::AlreadyLastPage));
    assert_eq!(parse_selection("n", 10, usize::MAX, true), Err(SelectionError::AlreadyLastPage));
}

#[test]
fn unicode_white_space_is_trimmed() {
    assert_eq!(parse_selection("\u{a0}4\u{3000}", 10, 1, false), Ok(Some(UserInput::Space(vec![4]))));
}
