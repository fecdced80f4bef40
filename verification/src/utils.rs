//! Transliteration of source text into the Latin characters the user types.

use pinyin::{Pinyin, ToPinyin};
use vstd::prelude::*;
use vstd::string::*;

use crate::error::TypingError;

verus! {

/// The code-point blocks whose characters count as ideographic.
pub open spec fn is_ideographic(c: char) -> bool {
    let n = c as u32;
    ||| 0x4E00 <= n <= 0x9FFF
    ||| 0x2E80 <= n <= 0x2EFF
    ||| 0x31C0 <= n <= 0x31EF
    ||| 0x2F00 <= n <= 0x2FFF
    ||| 0x3200 <= n <= 0x32FF
    ||| 0xF900 <= n <= 0xFAFF
}

/// The Latin punctuation mark that stands for a full-width one.
pub open spec fn punctuation_of(c: char) -> Option<u8> {
    if c == '。' {
        Some('.' as u8)
    } else if c == '，' {
        Some(',' as u8)
    } else if c == '！' {
        Some('!' as u8)
    } else if c == '‘' || c == '’' {
        Some('\'' as u8)
    } else if c == '；' {
        Some(';' as u8)
    } else if c == '：' {
        Some(':' as u8)
    } else if c == '“' || c == '”' {
        Some('"' as u8)
    } else if c == '、' {
        Some('\\' as u8)
    } else if c == '《' {
        Some('<' as u8)
    } else if c == '》' {
        Some('>' as u8)
    } else if c == '？' {
        Some('?' as u8)
    } else if c == '（' {
        Some('(' as u8)
    } else if c == '）' {
        Some(')' as u8)
    } else {
        None
    }
}

/// The toneless spelling that the `pinyin` crate's table holds for a
/// character, or `None` where the table has no entry for it.
pub uninterp spec fn pinyin_plain(c: char) -> Option<Seq<char>>;

/// Looks a character up with `pinyin::ToPinyin::to_pinyin` and takes the
/// `plain` spelling of the entry. Nothing is proved of the table: the
/// contract only gives the outcome its name, `pinyin_plain`.
#[verifier::external_body]
fn lookup_plain(c: char) -> (r: Option<&'static str>)
    ensures
        r matches Some(s) ==> pinyin_plain(c) == Some(s@),
        r is None ==> pinyin_plain(c) is None,
{
    c.to_pinyin().map(Pinyin::plain)
}

/// Tells whether a character is ideographic.
pub fn is_chinese(cp: &char) -> (b: bool)
    ensures
        b == is_ideographic(*cp),
{
    let n: u32 = *cp as u32;
    (0x4E00 <= n && n <= 0x9FFF) || (0x2E80 <= n && n <= 0x2EFF) || (0x31C0 <= n && n <= 0x31EF)
        || (0x2F00 <= n && n <= 0x2FFF) || (0x3200 <= n && n <= 0x32FF) || (0xF900 <= n && n
        <= 0xFAFF)
}

/// Maps a full-width punctuation mark to its Latin counterpart.
pub fn transform_punctuation(cp: &char) -> (r: Option<u8>)
    ensures
        r == punctuation_of(*cp),
{
    match *cp {
        '。' => Some('.' as u8),
        '，' => Some(',' as u8),
        '！' => Some('!' as u8),
        '‘' => Some('\'' as u8),
        '’' => Some('\'' as u8),
        '；' => Some(';' as u8),
        '：' => Some(':' as u8),
        '“' => Some('"' as u8),
        '”' => Some('"' as u8),
        '、' => Some('\\' as u8),
        '《' => Some('<' as u8),
        '》' => Some('>' as u8),
        '？' => Some('?' as u8),
        '（' => Some('(' as u8),
        '）' => Some(')' as u8),
        _ => None,
    }
}

/// The UTF-8 bytes of a character's toneless spelling. The character must
/// have one.
pub fn transform_pinyin(cp: &char) -> (r: Vec<u8>)
    requires
        pinyin_plain(*cp) is Some,
    ensures
        r@ == vstd::utf8::encode_utf8(pinyin_plain(*cp)->0),
{
    match lookup_plain(*cp) {
        Some(p) => p.as_bytes_vec(),
        None => vstd::pervasive::unreached(),
    }
}

/// The UTF-8 bytes of a character's toneless spelling, or `None` for a
/// character that has none.
pub fn find_pinyin(cp: &char) -> (r: Option<Vec<u8>>)
    ensures
        match r {
            Some(v) => pinyin_plain(*cp) is Some && v@ == vstd::utf8::encode_utf8(
                pinyin_plain(*cp)->0,
            ),
            None => pinyin_plain(*cp) is None,
        },
{
    if lookup_plain(*cp).is_some() {
        Some(transform_pinyin(cp))
    } else {
        None
    }
}

/// What one source character contributes to the rendered text: the spelling
/// of an ideographic character, the Latin mark of a full-width punctuation
/// mark, the character itself otherwise.
pub open spec fn rendered_char(c: char) -> Seq<char> {
    if is_ideographic(c) {
        match pinyin_plain(c) {
            Some(s) => s,
            None => Seq::empty(),
        }
    } else {
        match punctuation_of(c) {
            Some(b) => seq![b as char],
            None => seq![c],
        }
    }
}

/// A character has visual weight 1 if it is ideographic or a full-width
/// punctuation mark, and 0 otherwise.
pub open spec fn char_weight(c: char) -> nat {
    if is_ideographic(c) || punctuation_of(c) is Some {
        1
    } else {
        0
    }
}

/// Whether a character can be transliterated at all: only an ideographic
/// character without a spelling cannot.
pub open spec fn has_rendering(c: char) -> bool {
    is_ideographic(c) ==> pinyin_plain(c) is Some
}

/// The Latin text of a token: the renderings of its characters, in order.
pub open spec fn rendered(s: Seq<char>) -> Seq<char>
    decreases s.len(),
{
    if s.len() == 0 {
        Seq::empty()
    } else {
        rendered(s.drop_last()) + rendered_char(s.last())
    }
}

/// The visual weight of a token: the sum of its characters' weights.
pub open spec fn weight(s: Seq<char>) -> nat
    decreases s.len(),
{
    if s.len() == 0 {
        0
    } else {
        weight(s.drop_last()) + char_weight(s.last())
    }
}

/// Whether every character of a token can be transliterated.
pub open spec fn transliterable(s: Seq<char>) -> bool {
    forall|i: int| 0 <= i < s.len() ==> has_rendering(#[trigger] s[i])
}

/// `String::push` appends one character.
pub assume_specification[ String::push ](s: &mut String, ch: char)
    ensures
        final(s)@ == old(s)@.push(ch),
;

/// The characters of a string, in order.
pub fn chars_of(s: &str) -> (v: Vec<char>)
    ensures
        v@ == s@,
{
    broadcast use vstd::string::group_string_axioms;

    let mut v: Vec<char> = Vec::new();
    for c in it: s.chars()
        invariant
            it.seq() == s@,
            v@ == s@.take(it.index()),
    {
        v.push(c);
    }
    v
}

/// The string that holds the given characters, in order.
pub fn string_of(v: &Vec<char>) -> (s: String)
    ensures
        s@ == v@,
{
    let mut s = String::new();
    let mut i: usize = 0;
    while i < v.len()
        invariant
            i <= v.len(),
            s@ == v@.take(i as int),
        decreases v.len() - i,
    {
        s.push(v[i]);
        i = i + 1;
    }
    s
}

/// `rendered` and `weight` of a sequence extended by one character.
pub proof fn lemma_rendered_push(s: Seq<char>, c: char)
    ensures
        rendered(s.push(c)) == rendered(s) + rendered_char(c),
        weight(s.push(c)) == weight(s) + char_weight(c),
        transliterable(s.push(c)) <==> transliterable(s) && has_rendering(c),
{
    let t = s.push(c);
    assert(t.drop_last() == s);
    if transliterable(t) {
        assert forall|i: int| 0 <= i < s.len() implies has_rendering(#[trigger] s[i]) by {}
    }
}

/// A token weighs no more than it has characters.
pub proof fn lemma_weight_bound(s: Seq<char>)
    ensures
        weight(s) <= s.len(),
    decreases s.len(),
{
    if s.len() > 0 {
        lemma_weight_bound(s.drop_last());
    }
}

/// Transliterates a token given as characters. Returns its visual weight and
/// its Latin text, or `TypingError::Encoding` when one of its ideographic
/// characters has no spelling.
pub fn transliterate(cs: &Vec<char>) -> (r: Result<(usize, Vec<char>), TypingError>)
    ensures
        match r {
            Ok((w, t)) => transliterable(cs@) && w == weight(cs@) && t@ == rendered(cs@),
            Err(e) => !transliterable(cs@) && e == TypingError::Encoding,
        },
{
    let mut out: Vec<char> = Vec::new();
    let mut cnt: usize = 0;
    let mut i: usize = 0;
    while i < cs.len()
        invariant
            i <= cs.len(),
            cnt <= i,
            cnt == weight(cs@.take(i as int)),
            out@ == rendered(cs@.take(i as int)),
            transliterable(cs@.take(i as int)),
        decreases cs.len() - i,
    {
        let c = cs[i];
        proof {
            assert(cs@.take(i + 1) == cs@.take(i as int).push(c));
            lemma_rendered_push(cs@.take(i as int), c);
        }
        if is_chinese(&c) {
            match lookup_plain(c) {
                Some(p) => {
                    let mut spelling = chars_of(p);
                    out.append(&mut spelling);
                },
                None => {
                    return Err(TypingError::Encoding);
                },
            }
            cnt = cnt + 1;
        } else {
            match transform_punctuation(&c) {
                Some(b) => {
                    out.push(b as char);
                    cnt = cnt + 1;
                },
                None => {
                    out.push(c);
                },
            }
        }
        i = i + 1;
    }
    assert(cs@.take(i as int) == cs@);
    Ok((cnt, out))
}

/// Transliterates a token. Returns its visual weight and its Latin text, or
/// `TypingError::Encoding` when one of its ideographic characters has no
/// spelling.
pub fn transform(s: &str) -> (r: Result<(usize, String), TypingError>)
    ensures
        match r {
            Ok((w, t)) => transliterable(s@) && w == weight(s@) && t@ == rendered(s@),
            Err(e) => !transliterable(s@) && e == TypingError::Encoding,
        },
{
    let cs = chars_of(s);
    match transliterate(&cs) {
        Ok((w, t)) => Ok((w, string_of(&t))),
        Err(e) => Err(e),
    }
}

} // verus!
