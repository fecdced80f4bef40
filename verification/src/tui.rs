//! The text area of a session and the cursor that moves through it.

use vstd::prelude::*;

use crate::error::TypingError;
use crate::layout::{
    align_token, aligned, all_closed, annotation_row, char_rows, free_row, geometry, glyph_line,
    join, layout, lemma_line_not_empty, line_of, marked, pack, piece_of, rendered_line,
    same_chars, taken, DisplayLine, Geometry, Piece, END_OF_LINE,
};
use crate::textgen::IntoIter;
use crate::utils::{
    chars_of, is_chinese, is_ideographic, punctuation_of, string_of, transform_punctuation,
    transliterate,
};

verus! {

/// The fewest rows a viewport may have.
pub const MIN_HEIGHT: u16 = 6;

/// The fewest columns a viewport may have.
pub const MIN_WIDTH: u16 = 45;

/// The screen position at which a display line begins.
#[derive(Clone, Copy, Debug, PartialEq, Eq, Structural)]
pub struct LinePos {
    pub col: u16,
    pub row: u16,
}

/// The laid-out text of a session, with the word source that it is filled
/// from.
pub struct TextArea {
    word_iter: IntoIter,
    raw_text: Vec<Vec<char>>,
    pinyin_text: Vec<String>,
    pos: Vec<LinePos>,
}

/// The pieces of an open line, held as three vectors side by side.
pub open spec fn pieces(l: Seq<Vec<char>>, g: Seq<Vec<char>>, w: Seq<usize>) -> Seq<Piece> {
    Seq::new(l.len(), |i: int| Piece { rendered: l[i]@, glyphs: g[i]@, weight: w[i] as nat })
}

/// Closes a line: appends the end-of-line marker to the last piece and
/// returns the Latin text of the line with its annotation row, which is
/// empty where the line has none.
fn close_line(lparts: &mut Vec<Vec<char>>, gparts: &mut Vec<Vec<char>>, weights: &Vec<usize>) -> (r:
    (Vec<char>, String))
    requires
        old(lparts).len() > 0,
        old(lparts).len() == old(gparts).len(),
        old(lparts).len() == weights.len(),
    ensures
        r.0@ == rendered_line(pieces(old(lparts)@, old(gparts)@, weights@)),
        r.0@.len() > 0,
        r.0@.last() == END_OF_LINE,
        r.0@ != glyph_line(pieces(old(lparts)@, old(gparts)@, weights@)) ==> r.1@
            == annotation_row(pieces(old(lparts)@, old(gparts)@, weights@)) && r.1@.len() > 0,
        r.0@ == glyph_line(pieces(old(lparts)@, old(gparts)@, weights@)) ==> r.1@.len() == 0,
{
    let ghost ps = pieces(lparts@, gparts@, weights@);
    let ghost m = marked(ps);
    let n = lparts.len();
    let mut last_l = lparts.pop().unwrap();
    last_l.push(END_OF_LINE);
    lparts.push(last_l);
    let mut last_g = gparts.pop().unwrap();
    last_g.push(END_OF_LINE);
    gparts.push(last_g);
    proof {
        lemma_line_not_empty(ps);
        assert(char_rows(lparts@) =~= Seq::new(ps.len(), |i: int| marked(ps)[i].rendered));
        assert(char_rows(gparts@) =~= Seq::new(ps.len(), |i: int| marked(ps)[i].glyphs));
    }
    let text = join(lparts);
    let glyphs = join(gparts);
    if same_chars(&text, &glyphs) {
        (text, String::new())
    } else {
        let mut aparts: Vec<Vec<char>> = Vec::new();
        let mut i: usize = 0;
        while i < n
            invariant
                i <= n,
                n == lparts.len(),
                n == gparts.len(),
                n == weights.len(),
                n == m.len(),
                aparts.len() == i,
                forall|k: int|
                    0 <= k < n ==> (#[trigger] m[k]) == (Piece {
                        rendered: lparts[k]@,
                        glyphs: gparts[k]@,
                        weight: weights[k] as nat,
                    }),
                forall|k: int|
                    0 <= k < i ==> (#[trigger] aparts[k])@ == aligned(
                        m[k].rendered.len(),
                        m[k].glyphs,
                        m[k].weight,
                    ),
            decreases n - i,
        {
            let a = align_token(lparts[i].len(), &gparts[i], weights[i]);
            aparts.push(a);
            i = i + 1;
        }
        assert(char_rows(aparts@) =~= Seq::new(
            ps.len(),
            |i: int|
                aligned(marked(ps)[i].rendered.len(), marked(ps)[i].glyphs, marked(ps)[i].weight),
        ));
        let row = join(&aparts);
        (text, string_of(&row))
    }
}

impl TextArea {
    /// The three vectors describe the same lines, and no line is empty.
    pub closed spec fn wf(&self) -> bool {
        &&& self.word_iter.wf()
        &&& self.raw_text.len() == self.pinyin_text.len()
        &&& self.raw_text.len() == self.pos.len()
        &&& forall|i: int|
            0 <= i < self.raw_text.len() ==> (#[trigger] self.raw_text[i]).len() > 0
                && self.raw_text[i]@.last() == END_OF_LINE
    }

    /// The display lines, first to last.
    pub closed spec fn lines(&self) -> Seq<DisplayLine> {
        Seq::new(
            self.raw_text.len() as nat,
            |i: int|
                DisplayLine {
                    rendered: self.raw_text[i]@,
                    annotation: if self.pinyin_text[i]@.len() == 0 {
                        None
                    } else {
                        Some(self.pinyin_text[i]@)
                    },
                    col: self.pos[i].col as nat,
                    row: self.pos[i].row as nat,
                },
        )
    }

    /// The tokens that the word source has not handed out yet.
    pub closed spec fn source(&self) -> Seq<Seq<char>> {
        self.word_iter.remaining()
    }

    /// A text area without lines, to be filled from the given word source.
    pub fn new(word_iter: IntoIter) -> (t: Self)
        requires
            word_iter.wf(),
        ensures
            t.wf(),
            t.lines().len() == 0,
            t.source() == word_iter.remaining(),
    {
        TextArea {
            word_iter,
            raw_text: Vec::new(),
            pinyin_text: Vec::new(),
            pos: Vec::new(),
        }
    }

    /// Lays out fresh text for a viewport of `cols` by `rows`: the lines held
    /// so far are dropped and new ones are packed from the tokens that the
    /// word source still has. Fails with `TypingError::Encoding`, and holds no
    /// lines, when a token that was read cannot be transliterated.
    pub fn fill(&mut self, cols: u16, rows: u16) -> (r: Result<(), TypingError>)
        requires
            old(self).wf(),
        ensures
            final(self).wf(),
            final(self).source() == layout(old(self).source(), geometry(cols, rows)).rest,
            match r {
                Ok(_) => layout(old(self).source(), geometry(cols, rows)).lines == Some(
                    final(self).lines(),
                ),
                Err(e) => e == TypingError::Encoding && layout(
                    old(self).source(),
                    geometry(cols, rows),
                ).lines is None && final(self).lines().len() == 0,
            },
    {
        let ghost g = geometry(cols, rows);
        let ghost tokens = self.word_iter.remaining();
        let width: usize = (cols / 5 * 3) as usize;
        let height: usize = (rows / 4) as usize;
        let top: u16 = (rows - rows / 4) / 2 - rows / 6;
        self.raw_text = Vec::new();
        self.pinyin_text = Vec::new();
        self.pos = Vec::new();
        let mut lparts: Vec<Vec<char>> = Vec::new();
        let mut gparts: Vec<Vec<char>> = Vec::new();
        let mut weights: Vec<usize> = Vec::new();
        let mut acc: usize = 0;
        let mut next_row: u16 = top;
        let mut exhausted = false;
        assert(self.lines() =~= Seq::<DisplayLine>::empty());
        assert(pieces(lparts@, gparts@, weights@) =~= Seq::<Piece>::empty());
        while self.raw_text.len() < height && !exhausted
            invariant
                self.wf(),
                tokens == old(self).source(),
                g == geometry(cols, rows),
                width == g.width,
                height == g.height,
                top == g.top,
                lparts.len() == gparts.len(),
                lparts.len() == weights.len(),
                acc == taken(pieces(lparts@, gparts@, weights@)),
                acc < width || lparts.len() == 0,
                next_row == free_row(self.lines(), g),
                next_row <= top + 2 * self.raw_text.len(),
                self.raw_text.len() <= height,
                top + 2 * height <= rows,
                exhausted ==> self.word_iter.remaining().len() == 0 && lparts.len() == 0,
                pack(
                    self.word_iter.remaining(),
                    self.lines(),
                    pieces(lparts@, gparts@, weights@),
                    g,
                ) == layout(tokens, g),
            decreases self.word_iter.remaining().len() + (if exhausted { 0int } else { 1int }),
        {
            let ghost open = pieces(lparts@, gparts@, weights@);
            match self.word_iter.next() {
                None => {
                    if lparts.len() > 0 {
                        let (text, row) = close_line(&mut lparts, &mut gparts, &weights);
                        next_row = self.push_line(text, row, cols, next_row, Ghost(open), Ghost(g));
                        lparts = Vec::new();
                        gparts = Vec::new();
                        weights = Vec::new();
                        acc = 0;
                    }
                    exhausted = true;
                },
                Some(w) => {
                    let cs = chars_of(w.as_str());
                    match transliterate(&cs) {
                        Err(e) => {
                            self.raw_text = Vec::new();
                            self.pinyin_text = Vec::new();
                            self.pos = Vec::new();
                            return Err(e);
                        },
                        Ok((wt, t)) => {
                            let ghost p = piece_of(cs@);
                            if t.len() < width && acc + t.len() + 1 < width {
                                acc = acc + t.len() + 1;
                                lparts.push(t);
                                gparts.push(cs);
                                weights.push(wt);
                                proof {
                                    let now = pieces(lparts@, gparts@, weights@);
                                    assert(now =~= open.push(p));
                                    assert(now.drop_last() =~= open);
                                }
                            } else {
                                if lparts.len() == 0 {
                                    lparts.push(t);
                                    gparts.push(cs);
                                    weights.push(wt);
                                }
                                let ghost closing = pieces(lparts@, gparts@, weights@);
                                let (text, row) = close_line(&mut lparts, &mut gparts, &weights);
                                next_row =
                                self.push_line(text, row, cols, next_row, Ghost(closing), Ghost(g));
                                lparts = Vec::new();
                                gparts = Vec::new();
                                weights = Vec::new();
                                acc = 0;
                                assert(pieces(lparts@, gparts@, weights@) =~= Seq::<Piece>::empty());
                            }
                        },
                    }
                },
            }
        }
        Ok(())
    }

    /// Appends a closed line below the lines held so far and returns the
    /// first row that is then free.
    fn push_line(
        &mut self,
        text: Vec<char>,
        row: String,
        cols: u16,
        next_row: u16,
        Ghost(ps): Ghost<Seq<Piece>>,
        Ghost(g): Ghost<Geometry>,
    ) -> (free: u16)
        requires
            old(self).wf(),
            ps.len() > 0,
            text@ == rendered_line(ps),
            text@.len() > 0,
            text@.last() == END_OF_LINE,
            text@ != glyph_line(ps) ==> row@ == annotation_row(ps) && row@.len() > 0,
            text@ == glyph_line(ps) ==> row@.len() == 0,
            g.cols == cols,
            next_row == free_row(old(self).lines(), g),
            next_row + 2 <= u16::MAX,
        ensures
            final(self).wf(),
            final(self).source() == old(self).source(),
            final(self).lines() == old(self).lines().push(line_of(ps, old(self).lines(), g)),
            free == free_row(final(self).lines(), g),
            free <= next_row + 2,
            final(self).raw_text.len() == old(self).raw_text.len() + 1,
    {
        let len = text.len();
        let col: u16 = if len <= cols as usize {
            ((cols as usize - len) / 2) as u16
        } else {
            0
        };
        let annotated = !row.as_str().is_empty();
        let at: u16 = if annotated {
            next_row + 1
        } else {
            next_row
        };
        self.raw_text.push(text);
        self.pinyin_text.push(row);
        self.pos.push(LinePos { col, row: at });
        at + 1
    }
}

/// What a keystroke did at the cursor.
#[derive(Clone, Copy, Debug, PartialEq, Eq, Structural)]
pub enum Keystroke {
    /// The character was committed and is the expected one.
    Correct,
    /// The character was committed and is not the expected one.
    Incorrect,
    /// The line is full: nothing was committed.
    NotApplicable,
}

/// The text of a session with its cursor and the characters typed so far.
pub struct Board {
    /// The display lines.
    pub lines: Seq<DisplayLine>,
    /// The tokens that the word source still holds.
    pub source: Seq<Seq<char>>,
    /// The columns of the viewport.
    pub cols: nat,
    /// The rows of the viewport.
    pub rows: nat,
    /// The line the cursor is on.
    pub line: nat,
    /// The cursor's place within that line.
    pub offset: nat,
    /// Every character committed and not taken back, oldest first: the input
    /// of the lines above the cursor, then that of the cursor's line.
    pub input: Seq<char>,
}

/// Whether a character belongs to the source script, so that typing it shows
/// an input method at work: it is ideographic or a full-width punctuation
/// mark.
pub open spec fn rejects(c: char) -> bool {
    is_ideographic(c) || punctuation_of(c) is Some
}

/// The number of characters in the lines above line `i`.
pub open spec fn chars_above(lines: Seq<DisplayLine>, i: nat) -> nat
    decreases i,
{
    if i == 0 {
        0
    } else {
        chars_above(lines, (i - 1) as nat) + lines[i - 1].rendered.len()
    }
}

/// The character `p` places after the start of line `i`; the end-of-line
/// marker past the end of the text.
pub open spec fn char_from(lines: Seq<DisplayLine>, i: nat, p: nat) -> char
    decreases lines.len() - i,
{
    if i >= lines.len() {
        END_OF_LINE
    } else if p < lines[i as int].rendered.len() {
        lines[i as int].rendered[p as int]
    } else {
        char_from(lines, i + 1, (p - lines[i as int].rendered.len()) as nat)
    }
}

impl Board {
    /// The number of characters of line `i`, its end-of-line marker
    /// included.
    pub open spec fn line_len(self, i: int) -> nat {
        self.lines[i].rendered.len()
    }

    /// The number of characters in the lines above line `i`.
    pub open spec fn start_of(self, i: nat) -> nat {
        chars_above(self.lines, i)
    }

    /// The character expected at place `p` of the text read as one run of
    /// lines.
    pub open spec fn char_at(self, p: nat) -> char {
        char_from(self.lines, 0, p)
    }

    /// The cursor is on a line and within it, every line ends with the
    /// end-of-line marker, and the input holds one character for each place
    /// before the cursor.
    pub open spec fn wf(self) -> bool {
        &&& all_closed(self.lines)
        &&& if self.lines.len() == 0 {
            self.line == 0 && self.offset == 0
        } else {
            self.line < self.lines.len() && self.offset <= self.line_len(self.line as int)
        }
        &&& self.input.len() == self.start_of(self.line) + self.offset
    }

    /// Whether no further character can be committed on the cursor's line.
    pub open spec fn line_full(self) -> bool {
        self.lines.len() == 0 || self.offset >= self.line_len(self.line as int)
    }

    /// The character expected at the cursor.
    pub open spec fn expected(self) -> char {
        self.lines[self.line as int].rendered[self.offset as int]
    }

    /// What typing `c` at the cursor does.
    pub open spec fn feedback(self, c: char) -> Keystroke {
        if self.line_full() {
            Keystroke::NotApplicable
        } else if c == self.expected() {
            Keystroke::Correct
        } else {
            Keystroke::Incorrect
        }
    }

    /// The board after `c` was typed: unless the line is full, `c` is
    /// committed and the cursor moves one place on.
    pub open spec fn type_char(self, c: char) -> Board {
        if self.line_full() {
            self
        } else {
            Board { offset: self.offset + 1, input: self.input.push(c), ..self }
        }
    }

    /// What a backspace takes back: whether the character before the cursor
    /// was the expected one, or `None` at the start of a line.
    pub open spec fn undone(self) -> Option<bool> {
        if self.offset > 0 && self.input.len() > 0 {
            Some(
                self.input.last() == self.lines[self.line as int].rendered[self.offset - 1],
            )
        } else {
            None
        }
    }

    /// The board after a backspace. Within a line the last character is taken
    /// back. At the start of a line but the first the cursor goes to the end
    /// of the line above, and nothing else changes. At the start of the text
    /// nothing happens.
    pub open spec fn backspace(self) -> Board {
        if self.offset > 0 && self.input.len() > 0 {
            Board { offset: (self.offset - 1) as nat, input: self.input.drop_last(), ..self }
        } else if self.offset == 0 && self.line > 0 {
            Board {
                line: (self.line - 1) as nat,
                offset: self.line_len(self.line - 1),
                ..self
            }
        } else {
            self
        }
    }

    /// The board after the end-of-line key: the marker is typed as any
    /// character is, and where that was right, ended the line, and a line
    /// follows, the cursor goes to the start of the next line.
    pub open spec fn advance_line(self) -> Board {
        let typed = self.type_char(END_OF_LINE);
        if self.feedback(END_OF_LINE) == Keystroke::Correct && typed.offset == typed.line_len(
            typed.line as int,
        ) && typed.line + 1 < typed.lines.len() {
            Board { line: typed.line + 1, offset: 0, ..typed }
        } else {
            typed
        }
    }

    /// Whether the end-of-line key ends the session: after it the cursor
    /// stands at the end of the last line.
    pub open spec fn completes(self) -> bool {
        let typed = self.type_char(END_OF_LINE);
        &&& self.lines.len() > 0
        &&& typed.line + 1 == typed.lines.len()
        &&& typed.offset == typed.line_len(typed.line as int)
    }

    /// The board with the same text, nothing typed, and the cursor at the
    /// start.
    pub open spec fn restart(self) -> Board {
        Board { line: 0, offset: 0, input: Seq::empty(), ..self }
    }

    /// The total number of characters of the text.
    pub open spec fn total_len(self) -> nat {
        self.start_of(self.lines.len())
    }
}

/// The board with text laid out anew from its word source, nothing typed,
/// and the cursor at the start. It has no lines when a token that was read
/// cannot be transliterated.
pub open spec fn relayout(b: Board) -> Board {
    let packed = layout(b.source, geometry(b.cols as u16, b.rows as u16));
    Board {
        lines: match packed.lines {
            Some(lines) => lines,
            None => Seq::empty(),
        },
        source: packed.rest,
        line: 0,
        offset: 0,
        input: Seq::empty(),
        ..b
    }
}

/// Layout determinism: boards with the same word source and the same
/// viewport get the same lines, at the same anchors, and leave the same
/// tokens unread, whatever else they hold.
pub proof fn lemma_layout_deterministic(a: Board, b: Board)
    requires
        a.source == b.source,
        a.cols == b.cols,
        a.rows == b.rows,
    ensures
        relayout(a).lines == relayout(b).lines,
        relayout(a).source == relayout(b).source,
{
}

/// A session's text area, viewport and cursor.
pub struct Tui {
    text: TextArea,
    cols: u16,
    rows: u16,
    cursor_line: usize,
    cursor_offset: usize,
    input: Vec<char>,
}

impl View for Tui {
    type V = Board;

    closed spec fn view(&self) -> Board {
        Board {
            lines: self.text.lines(),
            source: self.text.source(),
            cols: self.cols as nat,
            rows: self.rows as nat,
            line: self.cursor_line as nat,
            offset: self.cursor_offset as nat,
            input: self.input@,
        }
    }
}

impl Tui {
    /// The text area is well formed, the board is, and the viewport has the
    /// smallest usable size at least.
    pub closed spec fn wf(&self) -> bool {
        &&& self.text.wf()
        &&& self@.wf()
        &&& self.cols >= MIN_WIDTH
        &&& self.rows >= MIN_HEIGHT
    }

    /// What `wf` says of the board and the viewport.
    pub proof fn lemma_wf(&self)
        requires
            self.wf(),
        ensures
            self@.wf(),
            self@.cols >= MIN_WIDTH,
            self@.rows >= MIN_HEIGHT,
    {
    }

    /// A session without text for a viewport of `cols` by `rows`. Fails with
    /// `TypingError::ViewportTooSmall` for a viewport under 45 columns or
    /// under 6 rows.
    pub fn new(word_iter: IntoIter, cols: u16, rows: u16) -> (r: Result<Self, TypingError>)
        requires
            word_iter.wf(),
        ensures
            match r {
                Ok(t) => cols >= MIN_WIDTH && rows >= MIN_HEIGHT && t.wf() && t@ == (Board {
                    lines: Seq::empty(),
                    source: word_iter.remaining(),
                    cols: cols as nat,
                    rows: rows as nat,
                    line: 0,
                    offset: 0,
                    input: Seq::empty(),
                }),
                Err(e) => e == TypingError::ViewportTooSmall && (cols < MIN_WIDTH || rows
                    < MIN_HEIGHT),
            },
    {
        if cols < MIN_WIDTH || rows < MIN_HEIGHT {
            return Err(TypingError::ViewportTooSmall);
        }
        let t = Tui {
            text: TextArea::new(word_iter),
            cols,
            rows,
            cursor_line: 0,
            cursor_offset: 0,
            input: Vec::new(),
        };
        assert(t@.lines =~= Seq::<DisplayLine>::empty());
        Ok(t)
    }

    /// Records a new viewport size. Fails with
    /// `TypingError::ViewportTooSmall`, and changes nothing, for a viewport
    /// under 45 columns or under 6 rows. The text keeps its layout until it
    /// is laid out anew.
    pub fn set_size(&mut self, cols: u16, rows: u16) -> (r: Result<(), TypingError>)
        requires
            old(self).wf(),
        ensures
            final(self).wf(),
            match r {
                Ok(_) => cols >= MIN_WIDTH && rows >= MIN_HEIGHT && final(self)@ == (Board {
                    cols: cols as nat,
                    rows: rows as nat,
                    ..old(self)@
                }),
                Err(e) => e == TypingError::ViewportTooSmall && (cols < MIN_WIDTH || rows
                    < MIN_HEIGHT) && final(self)@ == old(self)@,
            },
    {
        if cols < MIN_WIDTH || rows < MIN_HEIGHT {
            return Err(TypingError::ViewportTooSmall);
        }
        self.cols = cols;
        self.rows = rows;
        Ok(())
    }

    /// Lays out fresh text from the word source for the viewport as it is,
    /// drops what was typed and puts the cursor at the start. Fails with
    /// `TypingError::Encoding`, and holds no lines, when a token that was read
    /// cannot be transliterated.
    pub fn init_text(&mut self) -> (r: Result<(), TypingError>)
        requires
            old(self).wf(),
        ensures
            final(self).wf(),
            final(self)@ == relayout(old(self)@),
            match r {
                Ok(_) => layout(
                    old(self)@.source,
                    geometry(old(self)@.cols as u16, old(self)@.rows as u16),
                ).lines is Some,
                Err(e) => e == TypingError::Encoding && layout(
                    old(self)@.source,
                    geometry(old(self)@.cols as u16, old(self)@.rows as u16),
                ).lines is None,
            },
    {
        self.input = Vec::new();
        self.cursor_line = 0;
        self.cursor_offset = 0;
        let r = self.text.fill(self.cols, self.rows);
        assert(self@.lines =~= relayout(old(self)@).lines);
        r
    }

    /// Starts the same text over: drops what was typed and puts the cursor at
    /// the start.
    pub fn reset(&mut self)
        requires
            old(self).wf(),
        ensures
            final(self).wf(),
            final(self)@ == old(self)@.restart(),
    {
        self.input = Vec::new();
        self.cursor_line = 0;
        self.cursor_offset = 0;
    }

    /// The line the cursor is on.
    pub fn get_cur_text_line(&self) -> (i: usize)
        ensures
            i == self@.line,
    {
        self.cursor_line
    }

    /// The cursor's place within its line.
    pub fn cursor_offset(&self) -> (k: usize)
        ensures
            k == self@.offset,
    {
        self.cursor_offset
    }

    /// The number of display lines.
    pub fn line_count(&self) -> (n: usize)
        ensures
            n == self@.lines.len(),
    {
        self.text.raw_text.len()
    }

    /// The Latin text of line `i`.
    pub fn line(&self, i: usize) -> (l: &Vec<char>)
        requires
            i < self@.lines.len(),
        ensures
            l@ == self@.lines[i as int].rendered,
    {
        &self.text.raw_text[i]
    }

    /// The annotation row of line `i`; empty for a line that has none.
    pub fn annotation(&self, i: usize) -> (a: &String)
        requires
            self.wf(),
            i < self@.lines.len(),
        ensures
            match self@.lines[i as int].annotation {
                Some(row) => a@ == row,
                None => a@.len() == 0,
            },
    {
        &self.text.pinyin_text[i]
    }

    /// The screen position at which line `i` begins.
    pub fn line_pos(&self, i: usize) -> (p: LinePos)
        requires
            self.wf(),
            i < self@.lines.len(),
        ensures
            p.col == self@.lines[i as int].col,
            p.row == self@.lines[i as int].row,
    {
        self.text.pos[i]
    }

    /// The viewport size, columns then rows.
    pub fn size(&self) -> (s: (u16, u16))
        ensures
            s.0 == self@.cols,
            s.1 == self@.rows,
    {
        (self.cols, self.rows)
    }

    /// Types `ch` at the cursor. A character of the source script is refused
    /// with `TypingError::InputMethod` and changes nothing. Otherwise the
    /// character is committed and the cursor moves on, unless the line is
    /// full.
    pub fn display_c(&mut self, ch: &char) -> (r: Result<Keystroke, TypingError>)
        requires
            old(self).wf(),
        ensures
            final(self).wf(),
            match r {
                Ok(k) => !rejects(*ch) && k == old(self)@.feedback(*ch) && final(self)@ == old(
                    self,
                )@.type_char(*ch),
                Err(e) => e == TypingError::InputMethod && rejects(*ch) && final(self)@ == old(
                    self,
                )@,
            },
    {
        if is_chinese(ch) || transform_punctuation(ch).is_some() {
            return Err(TypingError::InputMethod);
        }
        if self.cursor_line >= self.text.raw_text.len() {
            return Ok(Keystroke::NotApplicable);
        }
        let line = &self.text.raw_text[self.cursor_line];
        if self.cursor_offset >= line.len() {
            return Ok(Keystroke::NotApplicable);
        }
        let equal = line[self.cursor_offset] == *ch;
        self.input.push(*ch);
        self.cursor_offset = self.cursor_offset + 1;
        if equal {
            Ok(Keystroke::Correct)
        } else {
            Ok(Keystroke::Incorrect)
        }
    }

    /// Takes back the character before the cursor and tells whether it was
    /// the expected one. At the start of a line the cursor goes to the end of
    /// the line above, if there is one, and `None` is returned.
    pub fn display_with_backspace(&mut self) -> (r: Option<bool>)
        requires
            old(self).wf(),
        ensures
            final(self).wf(),
            r == old(self)@.undone(),
            final(self)@ == old(self)@.backspace(),
    {
        if self.cursor_offset > 0 {
            let typed = self.input.pop().unwrap();
            self.cursor_offset = self.cursor_offset - 1;
            let expected = self.text.raw_text[self.cursor_line][self.cursor_offset];
            return Some(typed == expected);
        }
        if self.cursor_line > 0 {
            self.cursor_line = self.cursor_line - 1;
            self.cursor_offset = self.text.raw_text[self.cursor_line].len();
        }
        None
    }

    /// Types the end-of-line marker at the cursor. Where that was right and
    /// ended a line that another follows, the cursor goes to the start of the
    /// next line. Returns whether the text is finished, which it is when the
    /// cursor then stands at the end of the last line, and what the keystroke
    /// did.
    pub fn move_next_line(&mut self) -> (r: (bool, Keystroke))
        requires
            old(self).wf(),
        ensures
            final(self).wf(),
            r.0 == old(self)@.completes(),
            r.1 == old(self)@.feedback(END_OF_LINE),
            final(self)@ == old(self)@.advance_line(),
    {
        let marker = END_OF_LINE;
        let m = match self.display_c(&marker) {
            Ok(k) => k,
            Err(_) => Keystroke::NotApplicable,
        };
        if self.cursor_line >= self.text.raw_text.len() {
            return (false, m);
        }
        let at_end = self.cursor_offset == self.text.raw_text[self.cursor_line].len();
        let next_line = self.cursor_line + 1;
        if next_line < self.text.raw_text.len() {
            match m {
                Keystroke::Correct => {
                    if at_end {
                        self.cursor_line = next_line;
                        self.cursor_offset = 0;
                    }
                },
                _ => {},
            }
            (false, m)
        } else {
            (at_end, m)
        }
    }

    /// The total number of characters of the text, end-of-line markers
    /// included. The total must fit the machine's word.
    pub fn count_char(&self) -> (n: usize)
        requires
            self.wf(),
            self@.total_len() <= usize::MAX,
        ensures
            n == self@.total_len(),
    {
        let mut sum: usize = 0;
        let mut i: usize = 0;
        while i < self.text.raw_text.len()
            invariant
                i <= self.text.raw_text.len(),
                self@.lines.len() == self.text.raw_text.len(),
                forall|k: int|
                    0 <= k < self.text.raw_text.len() ==> self@.lines[k].rendered
                        == (#[trigger] self.text.raw_text[k])@,
                sum == chars_above(self@.lines, i as nat),
                self@.total_len() <= usize::MAX,
            decreases self.text.raw_text.len() - i,
        {
            proof {
                lemma_chars_above_grows(self@.lines, (i + 1) as nat, self@.lines.len());
            }
            sum = sum + self.text.raw_text[i].len();
            i = i + 1;
        }
        sum
    }
}

/// The lines above a later line hold no fewer characters.
pub proof fn lemma_chars_above_grows(lines: Seq<DisplayLine>, i: nat, j: nat)
    requires
        i <= j,
    ensures
        chars_above(lines, i) <= chars_above(lines, j),
    decreases j,
{
    if i < j {
        lemma_chars_above_grows(lines, i, (j - 1) as nat);
    }
}

} // verus!
