//! The word source: a vocabulary split out of a text, and a draw of its
//! words in random order, each at most once.

use rand::seq::SliceRandom;
use vstd::prelude::*;

use crate::utils::{chars_of, string_of};

verus! {

/// The characters that separate words: space, tab, line feed, form feed and
/// carriage return.
pub open spec fn is_ascii_space(c: char) -> bool {
    c == ' ' || c == '\t' || c == '\n' || c == '\u{000C}' || c == '\r'
}

/// Reading a text from its start: the words already closed by a separator,
/// and the characters of the word that is still open at the end of the text.
pub open spec fn split_state(s: Seq<char>) -> (Seq<Seq<char>>, Seq<char>)
    decreases s.len(),
{
    if s.len() == 0 {
        (Seq::empty(), Seq::empty())
    } else {
        let (closed, open) = split_state(s.drop_last());
        if !is_ascii_space(s.last()) {
            (closed, open.push(s.last()))
        } else if open.len() > 0 {
            (closed.push(open), Seq::empty())
        } else {
            (closed, Seq::empty())
        }
    }
}

/// The words of a text: its maximal runs of characters that are not
/// separators, in order.
pub open spec fn split_words(s: Seq<char>) -> Seq<Seq<char>> {
    let (closed, open) = split_state(s);
    if open.len() > 0 {
        closed.push(open)
    } else {
        closed
    }
}

/// A word: not empty, and free of separators.
pub open spec fn is_word(w: Seq<char>) -> bool {
    w.len() > 0 && forall|i: int| 0 <= i < w.len() ==> !is_ascii_space(#[trigger] w[i])
}

/// The character sequences that a sequence of strings holds.
pub open spec fn views(v: Seq<String>) -> Seq<Seq<char>> {
    Seq::new(v.len(), |i: int| v[i]@)
}

/// The indices `from, from + 1, .., to - 1`.
pub open spec fn index_range(from: int, to: int) -> Seq<usize> {
    Seq::new((if to >= from { to - from } else { 0 }) as nat, |k: int| (from + k) as usize)
}

/// Whether `drawn` is a draw from `vocabulary`: every word but the first,
/// each taken once, in some order.
pub open spec fn is_draw_of(vocabulary: Seq<Seq<char>>, drawn: Seq<Seq<char>>) -> bool {
    exists|order: Seq<usize>|
        order.to_multiset() == index_range(1, vocabulary.len() as int).to_multiset() && drawn
            == Seq::new(order.len(), |k: int| vocabulary[order[k] as int])
}

/// Every closed word of a split is a word, and the open one is free of
/// separators.
pub proof fn lemma_split_state_words(s: Seq<char>)
    ensures
        forall|k: int| 0 <= k < split_state(s).0.len() ==> is_word(#[trigger] split_state(s).0[k]),
        forall|i: int|
            0 <= i < split_state(s).1.len() ==> !is_ascii_space(#[trigger] split_state(s).1[i]),
    decreases s.len(),
{
    if s.len() > 0 {
        lemma_split_state_words(s.drop_last());
        let (closed, open) = split_state(s.drop_last());
        let (closed1, open1) = split_state(s);
        assert forall|k: int| 0 <= k < closed1.len() implies is_word(#[trigger] closed1[k]) by {}
        assert forall|i: int| 0 <= i < open1.len() implies !is_ascii_space(#[trigger] open1[i]) by {}
    }
}

/// Every word of a text is not empty and holds no separator.
pub proof fn lemma_split_words_are_words(s: Seq<char>)
    ensures
        forall|k: int| 0 <= k < split_words(s).len() ==> is_word(#[trigger] split_words(s)[k]),
{
    lemma_split_state_words(s);
}

/// Whether a character separates words.
fn is_separator(c: char) -> (b: bool)
    ensures
        b == is_ascii_space(c),
{
    c == ' ' || c == '\t' || c == '\n' || c == '\u{000C}' || c == '\r'
}

/// Reorders a vector with `rand::seq::SliceRandom::shuffle`, driven by the
/// generator that `rand::thread_rng` hands out. The order that comes back is
/// left open; the method only swaps elements, so the vector holds afterwards
/// what it held before.
#[verifier::external_body]
fn shuffle(v: &mut Vec<usize>)
    ensures
        final(v)@.to_multiset() == old(v)@.to_multiset(),
{
    let mut rng = rand::thread_rng();
    v.shuffle(&mut rng);
}

/// A vocabulary from which words are drawn.
pub struct TextGenerator {
    words: Vec<String>,
    length: usize,
}

/// One draw of a vocabulary's words, handed out one at a time.
pub struct IntoIter {
    words: Vec<String>,
    choice_idx: Vec<usize>,
    cur_idx: usize,
}

impl TextGenerator {
    /// The recorded length is the number of words held.
    pub closed spec fn wf(&self) -> bool {
        self.length == self.words.len()
    }

    /// The vocabulary, in the order in which it was read.
    pub closed spec fn vocabulary(&self) -> Seq<Seq<char>> {
        views(self.words@)
    }

    /// A generator with an empty vocabulary.
    pub fn new() -> (g: Self)
        ensures
            g.wf(),
            g.vocabulary() == Seq::<Seq<char>>::empty(),
    {
        Self { words: Vec::new(), length: 0 }
    }

    /// Replaces the vocabulary by the words of `content`.
    pub fn read_content(&mut self, content: &str)
        ensures
            final(self).wf(),
            final(self).vocabulary() == split_words(content@),
    {
        let cs = chars_of(content);
        let mut words: Vec<String> = Vec::new();
        let mut open: Vec<char> = Vec::new();
        let mut i: usize = 0;
        while i < cs.len()
            invariant
                i <= cs.len(),
                views(words@) == split_state(cs@.take(i as int)).0,
                open@ == split_state(cs@.take(i as int)).1,
            decreases cs.len() - i,
        {
            let c = cs[i];
            assert(cs@.take(i + 1).drop_last() == cs@.take(i as int));
            if !is_separator(c) {
                open.push(c);
            } else if open.len() > 0 {
                words.push(string_of(&open));
                open = Vec::new();
            }
            i = i + 1;
        }
        assert(cs@.take(i as int) == cs@);
        if open.len() > 0 {
            words.push(string_of(&open));
        }
        self.length = words.len();
        self.words = words;
    }

    /// The number of words in the vocabulary.
    pub fn len(&self) -> (n: usize)
        ensures
            n == self.vocabulary().len(),
    {
        self.words.len()
    }

    /// Starts a draw: every word of the vocabulary but the first, each once,
    /// in an order that chance decides.
    pub fn into_iter(&self) -> (it: IntoIter)
        requires
            self.wf(),
        ensures
            it.wf(),
            it.vocabulary() == self.vocabulary(),
            it.order().to_multiset() == index_range(1, self.vocabulary().len() as int).to_multiset(),
            it.remaining() == Seq::new(
                it.order().len(),
                |k: int| self.vocabulary()[it.order()[k] as int],
            ),
            is_draw_of(self.vocabulary(), it.remaining()),
    {
        let mut choice_idx: Vec<usize> = Vec::new();
        let mut i: usize = 1;
        while i < self.length
            invariant
                1 <= i,
                i <= self.length || i == 1,
                choice_idx@ == index_range(1, i as int),
            decreases self.length - i,
        {
            choice_idx.push(i);
            i = i + 1;
        }
        let ghost ordered = choice_idx@;
        shuffle(&mut choice_idx);
        proof {
            assert forall|k: int| 0 <= k < choice_idx.len() implies (#[trigger] choice_idx[k])
                < self.words.len() by {
                choice_idx@.to_multiset_ensures();
                ordered.to_multiset_ensures();
                assert(ordered.to_multiset().count(choice_idx[k]) > 0);
            }
        }
        let it = IntoIter { words: clone_words(&self.words), choice_idx, cur_idx: 0 };
        assert(it.order() =~= choice_idx@);
        assert(it.remaining() == Seq::new(
            it.order().len(),
            |k: int| self.vocabulary()[it.order()[k] as int],
        ));
        it
    }
}

/// A copy of a vector of strings.
fn clone_words(v: &Vec<String>) -> (r: Vec<String>)
    ensures
        r@ == v@,
{
    let mut r: Vec<String> = Vec::new();
    let mut i: usize = 0;
    while i < v.len()
        invariant
            i <= v.len(),
            r@ == v@.take(i as int),
        decreases v.len() - i,
    {
        r.push(v[i].clone());
        i = i + 1;
    }
    r
}

impl IntoIter {
    /// Every index of the draw names a word, and the position is within the
    /// draw.
    pub closed spec fn wf(&self) -> bool {
        &&& self.cur_idx <= self.choice_idx.len()
        &&& forall|k: int|
            0 <= k < self.choice_idx.len() ==> (#[trigger] self.choice_idx[k]) < self.words.len()
    }

    /// The vocabulary that the draw was made from.
    pub closed spec fn vocabulary(&self) -> Seq<Seq<char>> {
        views(self.words@)
    }

    /// The indices, into the vocabulary, of the words still to come.
    pub closed spec fn order(&self) -> Seq<usize> {
        self.choice_idx@.skip(self.cur_idx as int)
    }

    /// The words still to come, in the order in which `next` hands them out.
    pub closed spec fn remaining(&self) -> Seq<Seq<char>> {
        Seq::new(
            (self.choice_idx.len() - self.cur_idx) as nat,
            |k: int| self.words[self.choice_idx[self.cur_idx + k] as int]@,
        )
    }

    /// A draw that hands out the given words in the given order.
    pub fn from_words(words: Vec<String>) -> (it: Self)
        ensures
            it.wf(),
            it.vocabulary() == views(words@),
            it.remaining() == views(words@),
    {
        let mut choice_idx: Vec<usize> = Vec::new();
        let mut i: usize = 0;
        while i < words.len()
            invariant
                i <= words.len(),
                choice_idx@ == index_range(0, i as int),
            decreases words.len() - i,
        {
            choice_idx.push(i);
            i = i + 1;
        }
        let it = IntoIter { words, choice_idx, cur_idx: 0 };
        it
    }

    /// Hands out the next word of the draw, or `None` once the draw is
    /// exhausted.
    pub fn next(&mut self) -> (r: Option<String>)
        requires
            old(self).wf(),
        ensures
            final(self).wf(),
            final(self).vocabulary() == old(self).vocabulary(),
            match r {
                Some(w) => old(self).remaining().len() > 0 && w@ == old(self).remaining()[0]
                    && final(self).remaining() == old(self).remaining().skip(1),
                None => old(self).remaining().len() == 0 && final(self).remaining() == old(
                    self,
                ).remaining(),
            },
    {
        if self.cur_idx >= self.choice_idx.len() {
            return None;
        }
        let word = self.words[self.choice_idx[self.cur_idx]].clone();
        self.cur_idx = self.cur_idx + 1;
        Some(word)
    }
}

} // verus!
