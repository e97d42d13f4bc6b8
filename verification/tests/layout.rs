use greek_wordle::layout::{fit, gloss_width, hint_count, truncate, wrap};

#[test]
fn definitions_wrap_between_words_and_keep_separators_on_the_line() {
    assert_eq!(wrap("to be strong, able", 60), ["to be strong, able"]);
    assert_eq!(
        wrap("think, suppose · to think; seem", 16),
        ["think, suppose ·", "to think; seem"]
    );
    assert_eq!(wrap("a verylongword", 5), ["a", "veryl", "ongwo", "rd"]);
    assert!(wrap("", 10).is_empty());
}

#[test]
fn fitting_cuts_the_last_line_with_an_ellipsis() {
    let lines = wrap("one two three four five six seven", 9);
    assert_eq!(lines, ["one two", "three", "four five", "six seven"]);
    assert_eq!(fit(lines.clone(), 9, 9), lines, "room for all");
    assert_eq!(fit(lines, 2, 9), ["one two", "three fo…"]);
}

#[test]
fn hints_drop_from_the_end_to_fit() {
    let keys = [("Enter", "guess"), ("Esc", "quit"), ("Tab", "stats")];
    assert_eq!(hint_count(&keys, 80), 3, "Enter guess · Esc quit · Tab stats");
    assert_eq!(hint_count(&keys, 30), 2, "Enter guess · Esc quit");
    assert_eq!(hint_count(&keys, 3), 1, "the first hint always shows");
}

#[test]
fn the_reading_width_leaves_a_margin_and_caps_at_sixty() {
    assert_eq!(gloss_width(100), 60);
    assert_eq!(gloss_width(37), 33);
    assert_eq!(gloss_width(3), 0);
}

#[test]
fn a_zero_width_still_wraps_one_character_a_line() {
    assert_eq!(wrap("ab c", 0), ["a", "b", "c"]);
    assert_eq!(wrap("  a\tb\n", 3), ["a b"]);
    assert_eq!(wrap("· lone", 10), ["· lone"], "a leading separator stays a word");
}

#[test]
fn truncating_ends_in_an_ellipsis() {
    assert_eq!(truncate("abc", 3), "abc");
    assert_eq!(truncate("abcd", 3), "ab…");
    assert_eq!(truncate("abcd", 1), "…");
    assert_eq!(truncate("abcd", 0), "…");
    assert_eq!(fit(vec!["a".to_string()], 0, 5), Vec::<String>::new());
}
