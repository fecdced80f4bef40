use typlap::error::TypingError;
use typlap::utils::{
    chars_of, find_pinyin, is_chinese, string_of, transform, transform_pinyin,
    transform_punctuation, transliterate,
};

#[test]
fn test_is_chinese() {
    assert_eq!(is_chinese(&'曁'), true);
}

#[test]
fn test_transform_punctuation() {
    let punctuaton = "《》。，；‘’：“”";
    let en = "<>.,;\'\':\"\"";
    let mut res = Vec::new();
    for c in punctuaton.chars().into_iter() {
        println!("{} = {}, {}", c, c.escape_unicode(), is_chinese(&c));
        res.push(transform_punctuation(&c).unwrap());
    }
    assert_eq!(String::from_utf8(res).unwrap(), en);
}

#[test]
fn test_transform_pinyin() {
    let s = "测试一下拼音!!asdji";
    let pinyin = "ceshiyixiapinyin";
    let mut pinyin_list = Vec::new();
    s.chars().filter(|ch| is_chinese(ch)).for_each(|ch| {
        let p = &mut transform_pinyin(&ch);
        pinyin_list.append(p);
    });
    let res = String::from_utf8(pinyin_list).unwrap();
    println!("{}", res);
    assert_eq!(res, pinyin);
}

#[test]
fn test_transform() {
    let s = "①子曰：“不仁者不可以久处约，不可以长处乐。仁者安仁，知者利仁。”";
    let (_, res) = transform(s).unwrap();
    println!("{}", res);
}

#[test]
fn is_chinese_covers_each_block_and_its_edges() {
    for c in ['\u{4E00}', '\u{9FFF}', '\u{2E80}', '\u{2EFF}', '\u{31C0}', '\u{31EF}',
        '\u{2F00}', '\u{2FFF}', '\u{3200}', '\u{32FF}', '\u{F900}', '\u{FAFF}'] {
        assert!(is_chinese(&c), "{:?}", c);
    }
    for c in ['a', 'Z', ' ', '\u{21B5}', '\u{4DFF}', '\u{A000}', '\u{2E7F}', '\u{3000}',
        '\u{31BF}', '\u{31F0}', '\u{3300}', '\u{F8FF}', '\u{FB00}', 'ü', '，'] {
        assert!(!is_chinese(&c), "{:?}", c);
    }
}

#[test]
fn punctuation_table_is_complete_and_closed() {
    let table = [
        ('。', '.'), ('，', ','), ('！', '!'), ('‘', '\''), ('’', '\''), ('；', ';'),
        ('：', ':'), ('“', '"'), ('”', '"'), ('、', '\\'), ('《', '<'), ('》', '>'),
        ('？', '?'), ('（', '('), ('）', ')'),
    ];
    for (wide, latin) in table {
        assert_eq!(transform_punctuation(&wide), Some(latin as u8));
    }
    for c in ['.', ',', 'a', '中', ' ', '\u{21B5}', '【'] {
        assert_eq!(transform_punctuation(&c), None);
    }
}

#[test]
fn find_pinyin_gives_the_bytes_of_the_spelling() {
    assert_eq!(find_pinyin(&'中'), Some(b"zhong".to_vec()));
    assert_eq!(find_pinyin(&'绿'), Some("lü".as_bytes().to_vec()));
    assert_eq!(find_pinyin(&'a'), None);
    assert_eq!(find_pinyin(&'\u{3220}'), None);
}

#[test]
fn transform_counts_weight_and_renders_latin() {
    assert_eq!(transform("你好，world"), Ok((3, String::from("nihao,world"))));
    assert_eq!(transform("plain"), Ok((0, String::from("plain"))));
    assert_eq!(transform(""), Ok((0, String::new())));
    assert_eq!(transform("绿"), Ok((1, String::from("lü"))));
    assert_eq!(transform("（中）"), Ok((3, String::from("(zhong)"))));
}

#[test]
fn transform_keeps_plain_characters_unchanged() {
    assert_eq!(transform("①é"), Ok((0, String::from("①é"))));
}

#[test]
fn transform_fails_on_an_ideograph_without_spelling() {
    assert!(is_chinese(&'\u{3220}'));
    assert_eq!(transform("\u{3220}"), Err(TypingError::Encoding));
    assert_eq!(transform("ab\u{3220}cd"), Err(TypingError::Encoding));
    assert_eq!(transliterate(&vec!['中', '\u{2E80}']), Err(TypingError::Encoding));
}

#[test]
fn transliterate_agrees_with_transform() {
    let token = "知者利仁。";
    let (w, text) = transform(token).unwrap();
    let (w2, chars) = transliterate(&chars_of(token)).unwrap();
    assert_eq!(w, 5);
    assert_eq!(w2, 5);
    assert_eq!(text, "zhizheliren.");
    assert_eq!(string_of(&chars), text);
}

#[test]
fn chars_and_strings_convert_both_ways() {
    assert_eq!(chars_of("a中↵"), vec!['a', '中', '\u{21B5}']);
    assert_eq!(chars_of(""), Vec::<char>::new());
    assert_eq!(string_of(&vec!['a', 'b', 'ü']), "abü");
    assert_eq!(string_of(&Vec::new()), "");
}
