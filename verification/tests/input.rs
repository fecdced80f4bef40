use typlap::error::TypingError;
use typlap::layout::END_OF_LINE;
use typlap::textgen::IntoIter;
use typlap::tui::{Keystroke, Tui};

fn board(list: &[&str], cols: u16, rows: u16) -> Tui {
    let it = IntoIter::from_words(list.iter().map(|w| String::from(*w)).collect());
    let mut tui = Tui::new(it, cols, rows).unwrap();
    tui.init_text().unwrap();
    tui
}

fn two_lines() -> Tui {
    let first = "a".repeat(25);
    let tui = board(&[&first, "x", "bc"], 45, 24);
    assert_eq!(tui.line_count(), 2);
    tui
}

fn cursor(tui: &Tui) -> (usize, usize) {
    (tui.get_cur_text_line(), tui.cursor_offset())
}

#[test]
fn typing_compares_with_the_expected_character() {
    let mut tui = board(&["ab", "cd"], 100, 24);
    assert_eq!(tui.display_c(&'a'), Ok(Keystroke::Correct));
    assert_eq!(cursor(&tui), (0, 1));
    assert_eq!(tui.display_c(&'x'), Ok(Keystroke::Incorrect));
    assert_eq!(cursor(&tui), (0, 2));
    assert_eq!(tui.display_c(&' '), Ok(Keystroke::Correct));
    assert_eq!(tui.display_c(&'C'), Ok(Keystroke::Incorrect));
    assert_eq!(cursor(&tui), (0, 4));
}

#[test]
fn source_script_characters_are_refused_without_any_change() {
    let mut tui = board(&["你好"], 100, 24);
    assert_eq!(tui.display_c(&'n'), Ok(Keystroke::Correct));
    for c in ['你', '，', '。', '\u{3220}'] {
        assert_eq!(tui.display_c(&c), Err(TypingError::InputMethod));
        assert_eq!(cursor(&tui), (0, 1));
    }
    assert_eq!(tui.display_with_backspace(), Some(true));
    assert_eq!(tui.display_with_backspace(), None);
}

#[test]
fn a_full_line_takes_no_more_characters() {
    let mut tui = board(&["a"], 100, 24);
    assert_eq!(tui.display_c(&'a'), Ok(Keystroke::Correct));
    assert_eq!(tui.display_c(&'z'), Ok(Keystroke::Incorrect));
    assert_eq!(cursor(&tui), (0, 2));
    assert_eq!(tui.display_c(&'q'), Ok(Keystroke::NotApplicable));
    assert_eq!(cursor(&tui), (0, 2));
    assert_eq!(tui.display_with_backspace(), Some(false));
    assert_eq!(tui.display_with_backspace(), Some(true));
}

#[test]
fn typing_without_text_is_not_applicable() {
    let mut tui = Tui::new(IntoIter::from_words(Vec::new()), 100, 24).unwrap();
    assert_eq!(tui.display_c(&'a'), Ok(Keystroke::NotApplicable));
    assert_eq!(tui.display_with_backspace(), None);
    assert_eq!(tui.move_next_line(), (false, Keystroke::NotApplicable));
    assert_eq!(cursor(&tui), (0, 0));
}

#[test]
fn backspace_tells_whether_the_character_was_right() {
    let mut tui = board(&["ab"], 100, 24);
    tui.display_c(&'a').unwrap();
    tui.display_c(&'x').unwrap();
    assert_eq!(tui.display_with_backspace(), Some(false));
    assert_eq!(cursor(&tui), (0, 1));
    assert_eq!(tui.display_with_backspace(), Some(true));
    assert_eq!(cursor(&tui), (0, 0));
    assert_eq!(tui.display_with_backspace(), None);
    assert_eq!(cursor(&tui), (0, 0));
}

#[test]
fn enter_at_the_marker_goes_to_the_next_line() {
    let mut tui = two_lines();
    for _ in 0..25 {
        assert_eq!(tui.display_c(&'a'), Ok(Keystroke::Correct));
    }
    assert_eq!(tui.move_next_line(), (false, Keystroke::Correct));
    assert_eq!(cursor(&tui), (1, 0));
}

#[test]
fn enter_in_mid_line_is_a_wrong_character() {
    let mut tui = two_lines();
    assert_eq!(tui.move_next_line(), (false, Keystroke::Incorrect));
    assert_eq!(cursor(&tui), (0, 1));
}

#[test]
fn enter_on_a_full_line_does_nothing_unless_it_is_the_last() {
    let mut tui = two_lines();
    for _ in 0..26 {
        tui.display_c(&'a').unwrap();
    }
    assert_eq!(cursor(&tui), (0, 26));
    assert_eq!(tui.move_next_line(), (false, Keystroke::NotApplicable));
    assert_eq!(cursor(&tui), (0, 26));
    let mut tui = board(&["ab"], 100, 24);
    for c in ['a', 'b', 'x'] {
        tui.display_c(&c).unwrap();
    }
    assert_eq!(tui.move_next_line(), (true, Keystroke::NotApplicable));
    assert_eq!(cursor(&tui), (0, 3));
}

#[test]
fn enter_at_the_end_of_the_last_line_finishes() {
    let mut tui = board(&["ab"], 100, 24);
    tui.display_c(&'a').unwrap();
    assert_eq!(tui.move_next_line(), (false, Keystroke::Incorrect));
    assert_eq!(tui.move_next_line(), (true, Keystroke::Correct));
    assert_eq!(cursor(&tui), (0, 3));
}

#[test]
fn the_marker_typed_as_a_character_does_not_change_lines() {
    let mut tui = two_lines();
    for _ in 0..25 {
        tui.display_c(&'a').unwrap();
    }
    assert_eq!(tui.display_c(&END_OF_LINE), Ok(Keystroke::Correct));
    assert_eq!(cursor(&tui), (0, 26));
}

#[test]
fn backspace_at_a_line_start_goes_to_the_end_of_the_line_above() {
    let mut tui = two_lines();
    for _ in 0..25 {
        tui.display_c(&'a').unwrap();
    }
    tui.move_next_line();
    tui.display_c(&'b').unwrap();
    assert_eq!(cursor(&tui), (1, 1));
    assert_eq!(tui.display_with_backspace(), Some(true));
    assert_eq!(tui.display_with_backspace(), None);
    assert_eq!(cursor(&tui), (0, 26));
    assert_eq!(tui.display_c(&'q'), Ok(Keystroke::NotApplicable));
    assert_eq!(tui.display_with_backspace(), Some(true));
    assert_eq!(cursor(&tui), (0, 25));
    assert_eq!(tui.display_with_backspace(), Some(true));
    assert_eq!(tui.display_c(&'z'), Ok(Keystroke::Incorrect));
    assert_eq!(tui.move_next_line(), (false, Keystroke::Correct));
    assert_eq!(cursor(&tui), (1, 0));
}

#[test]
fn reset_keeps_the_text_and_homes_the_cursor() {
    let mut tui = two_lines();
    for _ in 0..25 {
        tui.display_c(&'a').unwrap();
    }
    tui.move_next_line();
    tui.display_c(&'b').unwrap();
    tui.reset();
    assert_eq!(cursor(&tui), (0, 0));
    assert_eq!(tui.line_count(), 2);
    assert_eq!(tui.display_with_backspace(), None);
    assert_eq!(tui.display_c(&'a'), Ok(Keystroke::Correct));
}

#[test]
fn count_char_adds_up_the_lines() {
    let tui = two_lines();
    assert_eq!(tui.count_char(), 26 + 3);
}
