use typlap::textgen::{IntoIter, TextGenerator};

fn drain(mut it: IntoIter) -> Vec<String> {
    let mut out = Vec::new();
    loop {
        match it.next() {
            Some(w) => out.push(w),
            None => break,
        }
    }
    out
}

#[test]
fn text_gen() {
    let mut tg = TextGenerator::new();
    tg.read_content("ciao mondo\nbuon giorno");
    let mut iter = tg.into_iter();
    for i in iter.next() {
        println!("{:?}", i);
    }
    "↵";
}

#[test]
fn new_generator_is_empty() {
    let tg = TextGenerator::new();
    assert_eq!(tg.len(), 0);
    assert_eq!(drain(tg.into_iter()), Vec::<String>::new());
}

#[test]
fn read_content_splits_on_ascii_whitespace() {
    let mut tg = TextGenerator::new();
    tg.read_content("  alpha\tbeta\n\ngamma\r\ndelta\u{000C}epsilon  ");
    assert_eq!(tg.len(), 5);
    tg.read_content("one");
    assert_eq!(tg.len(), 1);
    tg.read_content(" \n\t ");
    assert_eq!(tg.len(), 0);
    tg.read_content("");
    assert_eq!(tg.len(), 0);
}

#[test]
fn read_content_keeps_other_space_characters_inside_words() {
    let mut tg = TextGenerator::new();
    tg.read_content("a\u{00A0}b 中\u{3000}文");
    assert_eq!(tg.len(), 2);
    let mut words = drain(tg.into_iter());
    words.sort();
    assert_eq!(words, vec![String::from("中\u{3000}文")]);
}

#[test]
fn a_draw_holds_every_word_but_the_first_once() {
    let mut tg = TextGenerator::new();
    tg.read_content("w0 w1 w2 w3 w4 w5 w6 w7 w8 w9");
    let mut words = drain(tg.into_iter());
    assert_eq!(words.len(), 9);
    words.sort();
    let expected: Vec<String> = (1..10).map(|i| format!("w{}", i)).collect();
    assert_eq!(words, expected);
}

#[test]
fn a_draw_from_one_word_is_empty() {
    let mut tg = TextGenerator::new();
    tg.read_content("only");
    assert_eq!(drain(tg.into_iter()), Vec::<String>::new());
}

#[test]
fn draws_come_in_changing_order() {
    let content: Vec<String> = (0..60).map(|i| format!("w{:02}", i)).collect();
    let mut tg = TextGenerator::new();
    tg.read_content(&content.join(" "));
    let in_order: Vec<String> = content[1..].to_vec();
    let mut moved = false;
    for _ in 0..5 {
        let drawn = drain(tg.into_iter());
        let mut sorted = drawn.clone();
        sorted.sort();
        assert_eq!(sorted, in_order);
        if drawn != in_order {
            moved = true;
        }
    }
    assert!(moved);
}

#[test]
fn from_words_hands_out_in_order_and_then_nothing() {
    let mut it = IntoIter::from_words(vec![String::from("ab"), String::from("cd")]);
    assert_eq!(it.next(), Some(String::from("ab")));
    assert_eq!(it.next(), Some(String::from("cd")));
    assert_eq!(it.next(), None);
    assert_eq!(it.next(), None);
}
