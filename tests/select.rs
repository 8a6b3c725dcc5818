use ballgame_streams::select::{choose_game, parse_selection};

#[test]
fn rejected_selections() {
    for input in ["0", "-1", "abc", "", "4", "1.5", "+", " "] {
        assert_eq!(parse_selection(input, 3), None, "input {:?}", input);
    }
    assert_eq!(parse_selection("1", 0), None);
}

#[test]
fn accepted_selections() {
    for k in 1..=5usize {
        assert_eq!(parse_selection(&k.to_string(), 5), Some(k - 1));
    }
    assert_eq!(parse_selection(" 2\n", 5), Some(1));
    assert_eq!(parse_selection("+3", 5), Some(2));
    assert_eq!(parse_selection("05", 5), Some(4));
}

#[test]
fn trimmed_line_choice() {
    assert_eq!(choose_game("2", 2), Some(1));
    assert_eq!(choose_game(" 2", 2), None);
    assert_eq!(choose_game("3", 2), None);
    assert_eq!(choose_game("99999999999999999999999", 2), None);
}
