use typlap::error::TypingError;
use typlap::layout::{align_token, join, same_chars, END_OF_LINE};
use typlap::textgen::IntoIter;
use typlap::tui::{LinePos, Tui, MIN_HEIGHT, MIN_WIDTH};

fn words(list: &[&str]) -> IntoIter {
    IntoIter::from_words(list.iter().map(|w| String::from(*w)).collect())
}

fn laid_out(list: &[&str], cols: u16, rows: u16) -> Tui {
    let mut tui = Tui::new(words(list), cols, rows).unwrap();
    tui.init_text().unwrap();
    tui
}

fn text(tui: &Tui, i: usize) -> String {
    tui.line(i).iter().collect()
}

fn all_lines(tui: &Tui) -> Vec<String> {
    (0..tui.line_count()).map(|i| text(tui, i)).collect()
}

fn chars(s: &str) -> Vec<char> {
    s.chars().collect()
}

#[test]
fn test_init() {
    let list: Vec<String> = (0..12).map(|i| format!("word{:05}", i)).collect();
    let refs: Vec<&str> = list.iter().map(|w| w.as_str()).collect();
    let mut tui = Tui::new(words(&refs), 100, 24).unwrap();
    tui.init_text().unwrap();
    println!("{}", tui.count_char());
    assert_eq!(tui.line_count(), 2);
    assert_eq!(tui.count_char(), 100);
}

#[test]
fn two_short_tokens_make_one_centred_line() {
    let tui = laid_out(&["ab", "cd"], 100, 24);
    assert_eq!(all_lines(&tui), vec![String::from("ab cd↵")]);
    assert_eq!(tui.line_pos(0), LinePos { col: 47, row: 5 });
    assert_eq!(tui.annotation(0), "");
    assert_eq!(tui.get_cur_text_line(), 0);
    assert_eq!(tui.cursor_offset(), 0);
    assert_eq!(tui.count_char(), 6);
}

#[test]
fn end_of_line_marker_is_the_return_arrow() {
    assert_eq!(END_OF_LINE, '↵');
    let tui = laid_out(&["x"], 100, 24);
    assert_eq!(tui.line(0).last(), Some(&END_OF_LINE));
}

#[test]
fn a_token_that_does_not_fit_closes_the_line_and_is_passed_over() {
    let tui = laid_out(
        &["aaaaaaaaa", "bbbbbbbbb", "ccccccccc", "ddddddddd", "eeeeeeeee", "fffffffff",
            "ggggggggg"],
        45,
        24,
    );
    assert_eq!(
        all_lines(&tui),
        vec![
            String::from("aaaaaaaaa bbbbbbbbb↵"),
            String::from("ddddddddd eeeeeeeee↵"),
            String::from("ggggggggg↵"),
        ]
    );
    assert_eq!(tui.line_pos(0), LinePos { col: 12, row: 5 });
    assert_eq!(tui.line_pos(1), LinePos { col: 12, row: 6 });
    assert_eq!(tui.line_pos(2), LinePos { col: 17, row: 7 });
}

#[test]
fn the_width_test_is_strict() {
    let fits = "a".repeat(25);
    let too_long = "b".repeat(26);
    let tui = laid_out(&["xy", &fits], 45, 24);
    assert_eq!(all_lines(&tui), vec![String::from("xy↵")]);
    let tui = laid_out(&[&fits, "z"], 45, 24);
    assert_eq!(all_lines(&tui), vec![format!("{}↵", fits)]);
    let tui = laid_out(&[&too_long, "z"], 45, 24);
    assert_eq!(all_lines(&tui), vec![format!("{}↵", too_long), String::from("z↵")]);
}

#[test]
fn a_token_wider_than_the_text_area_gets_a_line_of_its_own() {
    let wide = "w".repeat(30);
    let tui = laid_out(&[&wide, "ab", "cd"], 45, 24);
    assert_eq!(all_lines(&tui), vec![format!("{}↵", wide), String::from("ab cd↵")]);
    assert_eq!(tui.line_pos(0), LinePos { col: 7, row: 5 });
    assert_eq!(tui.line_pos(1), LinePos { col: 19, row: 6 });
}

#[test]
fn a_token_wider_than_the_viewport_starts_at_column_zero() {
    let wide = "w".repeat(50);
    let tui = laid_out(&["ab", &wide, "cd", &wide], 45, 24);
    assert_eq!(
        all_lines(&tui),
        vec![String::from("ab↵"), String::from("cd↵")]
    );
    let tui = laid_out(&[&wide], 45, 24);
    assert_eq!(all_lines(&tui), vec![format!("{}↵", wide)]);
    assert_eq!(tui.line_pos(0), LinePos { col: 0, row: 5 });
}

#[test]
fn the_line_count_stops_at_a_quarter_of_the_rows() {
    let list: Vec<String> = (0..40).map(|i| format!("token{:020}", i)).collect();
    let refs: Vec<&str> = list.iter().map(|w| w.as_str()).collect();
    let mut tui = Tui::new(words(&refs), 45, 8).unwrap();
    tui.init_text().unwrap();
    assert_eq!(tui.line_count(), 2);
    assert_eq!(text(&tui, 0), format!("{}↵", list[0]));
    assert_eq!(text(&tui, 1), format!("{}↵", list[2]));
    assert_eq!(tui.line_pos(0), LinePos { col: 9, row: 2 });
    assert_eq!(tui.line_pos(1), LinePos { col: 9, row: 3 });
    tui.init_text().unwrap();
    assert_eq!(text(&tui, 0), format!("{}↵", list[4]));
    assert_eq!(text(&tui, 1), format!("{}↵", list[6]));
}

#[test]
fn an_exhausted_source_gives_no_line() {
    let mut tui = Tui::new(words(&[]), 100, 24).unwrap();
    assert_eq!(tui.init_text(), Ok(()));
    assert_eq!(tui.line_count(), 0);
    assert_eq!(tui.count_char(), 0);
    let mut tui = laid_out(&["ab"], 100, 24);
    assert_eq!(tui.line_count(), 1);
    assert_eq!(tui.init_text(), Ok(()));
    assert_eq!(tui.line_count(), 0);
}

#[test]
fn ideographic_line_has_an_annotation_row_above_it() {
    let tui = laid_out(&["你好", "world"], 100, 24);
    assert_eq!(all_lines(&tui), vec![String::from("nihao world↵")]);
    assert_eq!(
        tui.annotation(0),
        &format!(" 你好{}world↵{}", " ".repeat(6), " ".repeat(3))
    );
    assert_eq!(tui.line_pos(0), LinePos { col: 44, row: 6 });
}

#[test]
fn annotated_lines_take_two_rows() {
    let list = ["中文".repeat(6), String::from("plain"), "中文".repeat(6), "国".repeat(9)];
    let refs: Vec<&str> = list.iter().map(|w| w.as_str()).collect();
    let tui = laid_out(&refs, 45, 40);
    assert_eq!(tui.line_count(), 3);
    assert_eq!(text(&tui, 0), format!("{}↵", "zhongwen".repeat(6)));
    assert_eq!(text(&tui, 1), String::from("plain↵"));
    assert_eq!(text(&tui, 2), format!("{}↵", "guo".repeat(9)));
    assert_eq!(tui.line_pos(0).row, 10);
    assert_eq!(tui.line_pos(1).row, 11);
    assert_eq!(tui.line_pos(2).row, 13);
    assert_eq!(tui.annotation(1), "");
    assert_eq!(
        tui.annotation(2),
        &format!("{}{}↵{}", " ".repeat(9), "国".repeat(9), " ".repeat(10))
    );
}

#[test]
fn two_glyphs_over_eight_letters_get_three_spaces_each_side() {
    assert_eq!(align_token(8, &chars("中国"), 2), chars("   中国   "));
    let tui = laid_out(&["中国", "x"], 100, 24);
    assert_eq!(text(&tui, 0), "zhongguo x↵");
    assert_eq!(tui.annotation(0), &format!("   中国{}x↵ ", " ".repeat(5)));
}

#[test]
fn align_token_splits_an_odd_difference_to_the_right() {
    assert_eq!(align_token(5, &chars("你好"), 2), chars(" 你好  "));
    assert_eq!(align_token(3, &chars("a"), 2), chars("a "));
    assert_eq!(align_token(2, &chars("ab"), 2), chars("ab"));
    assert_eq!(align_token(2, &chars("abc"), 3), chars("abc"));
    assert_eq!(align_token(0, &chars(""), 0), chars(""));
}

#[test]
fn aligning_an_aligned_token_again_changes_nothing() {
    for (len, token, weight) in [(8, "中国", 2), (5, "你好", 2), (2, "ab", 2), (7, "a，b", 1)] {
        let once = align_token(len, &chars(token), weight);
        let twice = align_token(len, &once, once.len());
        assert_eq!(twice, once);
    }
}

#[test]
fn the_same_tokens_and_viewport_give_the_same_layout() {
    let list = vec![
        String::from("你好"),
        String::from("world"),
        String::from("，"),
        String::from("abc"),
        String::from("中文"),
        "x".repeat(70),
    ];
    let refs: Vec<&str> = list.iter().map(|w| w.as_str()).collect();
    let a = laid_out(&refs, 80, 30);
    let b = laid_out(&refs, 80, 30);
    assert_eq!(a.line_count(), b.line_count());
    for i in 0..a.line_count() {
        assert_eq!(a.line(i), b.line(i));
        assert_eq!(a.annotation(i), b.annotation(i));
        assert_eq!(a.line_pos(i), b.line_pos(i));
    }
}

#[test]
fn a_token_without_transliteration_fails_the_layout() {
    let mut tui = Tui::new(words(&["ab", "\u{3220}", "cd"]), 100, 24).unwrap();
    assert_eq!(tui.init_text(), Err(TypingError::Encoding));
    assert_eq!(tui.line_count(), 0);
    assert_eq!(tui.init_text(), Ok(()));
    assert_eq!(all_lines(&tui), vec![String::from("cd↵")]);
}

#[test]
fn a_bad_token_beyond_the_last_line_is_not_read() {
    let first = "a".repeat(30);
    let second = "b".repeat(30);
    let mut tui = Tui::new(words(&[&first, &second, "\u{3220}"]), 45, 8).unwrap();
    assert_eq!(tui.init_text(), Ok(()));
    assert_eq!(tui.line_count(), 2);
    assert_eq!(tui.init_text(), Err(TypingError::Encoding));
}

#[test]
fn join_puts_one_space_between_parts() {
    assert_eq!(join(&vec![chars("ab"), chars("cd"), chars("e")]), chars("ab cd e"));
    assert_eq!(join(&vec![chars("ab")]), chars("ab"));
    assert_eq!(join(&vec![chars(""), chars("")]), chars(" "));
    assert_eq!(join(&Vec::new()), chars(""));
}

#[test]
fn same_chars_compares_by_content() {
    assert!(same_chars(&chars("abc"), &chars("abc")));
    assert!(same_chars(&chars(""), &chars("")));
    assert!(!same_chars(&chars("abc"), &chars("abd")));
    assert!(!same_chars(&chars("abc"), &chars("ab")));
}

#[test]
fn a_viewport_under_the_minimum_is_refused() {
    assert_eq!(MIN_WIDTH, 45);
    assert_eq!(MIN_HEIGHT, 6);
    assert!(Tui::new(words(&["a"]), 45, 6).is_ok());
    assert_eq!(Tui::new(words(&["a"]), 44, 6).err(), Some(TypingError::ViewportTooSmall));
    assert_eq!(Tui::new(words(&["a"]), 45, 5).err(), Some(TypingError::ViewportTooSmall));
    assert_eq!(Tui::new(words(&["a"]), 0, 0).err(), Some(TypingError::ViewportTooSmall));
}

#[test]
fn set_size_keeps_the_old_size_when_refused() {
    let mut tui = laid_out(&["ab", "cd"], 100, 24);
    assert_eq!(tui.set_size(40, 24), Err(TypingError::ViewportTooSmall));
    assert_eq!(tui.size(), (100, 24));
    assert_eq!(tui.set_size(60, 5), Err(TypingError::ViewportTooSmall));
    assert_eq!(tui.size(), (100, 24));
    assert_eq!(tui.set_size(60, 12), Ok(()));
    assert_eq!(tui.size(), (60, 12));
    assert_eq!(tui.line_pos(0), LinePos { col: 47, row: 5 });
}
