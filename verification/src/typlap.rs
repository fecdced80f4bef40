//! The session controller: it routes key events to the text area, feeds what
//! they did to the evaluator, and tells its caller what to draw.

use vstd::prelude::*;

use crate::error::TypingError;
use crate::evaluator::{elapsed_between, EvalResult, Evaluator, Tally};
use crate::layout::{geometry, layout, lemma_layout_lines, DisplayLine, END_OF_LINE};
use crate::textgen::{is_draw_of, split_words, IntoIter, TextGenerator};
use crate::tui::{
    char_from, chars_above, lemma_chars_above_grows, rejects, relayout, Board, Keystroke, Tui,
    MIN_HEIGHT, MIN_WIDTH,
};

verus! {

/// A key event, as the session understands it.
#[derive(Clone, Copy, Debug, PartialEq, Eq)]
pub enum KeyEvent {
    /// A printable character.
    Char(char),
    /// The backspace key.
    Backspace,
    /// The enter key.
    Enter,
    /// The command that asks for new text.
    NewText,
    /// The command that starts the same text over.
    Restart,
    /// The key that ends the program.
    Quit,
    /// Any other key.
    Other,
}

/// A key as the terminal reports it, before its modifiers are looked at.
#[derive(Clone, Copy, Debug, PartialEq, Eq)]
pub enum RawKey {
    /// A character key.
    Char(char),
    /// The backspace key.
    Backspace,
    /// The enter key.
    Enter,
    /// The escape key.
    Esc,
    /// Any other key.
    Other,
}

/// The modifier keys held down with a key.
#[derive(Clone, Copy, Debug, PartialEq, Eq, Structural)]
pub struct Modifiers {
    /// The shift key.
    pub shift: bool,
    /// The control key.
    pub control: bool,
    /// Any modifier besides shift and control.
    pub other: bool,
}

/// The upper-case form of an ASCII letter; any other character as it is.
pub open spec fn ascii_upper(c: char) -> char {
    if 'a' <= c <= 'z' {
        ((c as u8) - 32) as char
    } else {
        c
    }
}

/// The key event that a key with its modifiers stands for. A character
/// alone is itself, and with shift alone its upper-case form; backspace and
/// enter count without modifiers only; control alone with `n` asks for new
/// text and with `r` starts the text over; escape alone quits. Every other
/// combination is a key without meaning.
pub open spec fn decode_key(raw: RawKey, m: Modifiers) -> KeyEvent {
    let bare = !m.shift && !m.control && !m.other;
    let shift_only = m.shift && !m.control && !m.other;
    let control_only = !m.shift && m.control && !m.other;
    match raw {
        RawKey::Char(c) => if bare {
            KeyEvent::Char(c)
        } else if shift_only {
            KeyEvent::Char(ascii_upper(c))
        } else if control_only && c == 'n' {
            KeyEvent::NewText
        } else if control_only && c == 'r' {
            KeyEvent::Restart
        } else {
            KeyEvent::Other
        },
        RawKey::Backspace => if bare {
            KeyEvent::Backspace
        } else {
            KeyEvent::Other
        },
        RawKey::Enter => if bare {
            KeyEvent::Enter
        } else {
            KeyEvent::Other
        },
        RawKey::Esc => if bare {
            KeyEvent::Quit
        } else {
            KeyEvent::Other
        },
        RawKey::Other => KeyEvent::Other,
    }
}

impl KeyEvent {
    /// Reads a key with its modifiers as a key event.
    pub fn decode(raw: RawKey, m: Modifiers) -> (key: KeyEvent)
        ensures
            key == decode_key(raw, m),
    {
        let bare = !m.shift && !m.control && !m.other;
        let shift_only = m.shift && !m.control && !m.other;
        let control_only = !m.shift && m.control && !m.other;
        match raw {
            RawKey::Char(c) => {
                if bare {
                    KeyEvent::Char(c)
                } else if shift_only {
                    if 'a' <= c && c <= 'z' {
                        KeyEvent::Char(((c as u8) - 32) as char)
                    } else {
                        KeyEvent::Char(c)
                    }
                } else if control_only && c == 'n' {
                    KeyEvent::NewText
                } else if control_only && c == 'r' {
                    KeyEvent::Restart
                } else {
                    KeyEvent::Other
                }
            },
            RawKey::Backspace => {
                if bare {
                    KeyEvent::Backspace
                } else {
                    KeyEvent::Other
                }
            },
            RawKey::Enter => {
                if bare {
                    KeyEvent::Enter
                } else {
                    KeyEvent::Other
                }
            },
            RawKey::Esc => {
                if bare {
                    KeyEvent::Quit
                } else {
                    KeyEvent::Other
                }
            },
            RawKey::Other => KeyEvent::Other,
        }
    }
}

/// What the caller is to draw after a key event.
#[derive(Clone, Copy, Debug, PartialEq, Eq)]
pub enum Action {
    /// Nothing changed.
    Ignored,
    /// A character was committed where the cursor stood: draw it as right
    /// (`true`) or wrong (`false`).
    Echo(char, bool),
    /// The character before the cursor was taken back; it had been right
    /// (`true`) or wrong (`false`).
    Erased(bool),
    /// The cursor went to the end of the line above.
    Moved,
    /// The key was refused: the failure is to be shown to the user.
    Refused(TypingError),
    /// The session is complete: these are its final figures.
    Finished(EvalResult),
    /// The text or the state of the whole session changed: draw it all.
    Redraw,
    /// New text could not be laid out.
    Failed(TypingError),
    /// The program is to end.
    Quit,
}

/// The answer to a key event: what to draw, and the live figures while the
/// session is running.
#[derive(Clone, Copy, Debug, PartialEq, Eq)]
pub struct Reaction {
    /// What to draw.
    pub action: Action,
    /// Whether the key committed a character: the moment for the keystroke
    /// sound.
    pub cue: bool,
    /// The live figures of a running session.
    pub live: Option<EvalResult>,
}

/// The whole state of a session.
pub struct Session {
    /// The text, the cursor and the input.
    pub board: Board,
    /// The counts and the clock.
    pub tally: Tally,
    /// A keystroke was accepted and the session is not complete.
    pub started: bool,
    /// The session is complete.
    pub done: bool,
}

/// The number of characters of the input that are the expected ones, the
/// text read as one run of lines.
pub open spec fn hits(lines: Seq<DisplayLine>, input: Seq<char>) -> nat
    decreases input.len(),
{
    if input.len() == 0 {
        0
    } else {
        hits(lines, input.drop_last()) + if input.last() == char_from(
            lines,
            0,
            (input.len() - 1) as nat,
        ) {
            1nat
        } else {
            0nat
        }
    }
}

impl Session {
    /// The board and the tally are well formed; the current counts are the
    /// right and the wrong characters of the input; and before the first
    /// accepted keystroke nothing is typed or counted.
    pub open spec fn inv(self) -> bool {
        &&& self.board.wf()
        &&& self.tally.wf()
        &&& self.tally.correct == hits(self.board.lines, self.board.input)
        &&& self.tally.correct + self.tally.uncorrected == self.board.input.len()
        &&& !(self.started && self.done)
        &&& !self.started && !self.done ==> self.pristine()
    }

    /// Nothing is typed or counted, and the cursor is at the start.
    pub open spec fn pristine(self) -> bool {
        &&& self.board.input.len() == 0
        &&& self.board.line == 0
        &&& self.board.offset == 0
        &&& self.tally.total == 0
        &&& self.tally.errors == 0
        &&& self.tally.correct == 0
        &&& self.tally.uncorrected == 0
    }

    /// The tally with its clock started at `now`, unless the session is
    /// running already.
    pub open spec fn clocked(self, now: nat) -> Tally {
        if self.started {
            self.tally
        } else {
            Tally { start_at: now, pause_at: now, ..self.tally }
        }
    }

    /// Whether the character key `c` commits a character.
    pub open spec fn accepts(self, c: char) -> bool {
        !self.done && !rejects(c) && !self.board.line_full()
    }

    /// The session after the character key `c` at clock reading `now`. A
    /// complete session, a character of the source script and a full line
    /// change nothing. Otherwise the character is committed and counted, and
    /// the first such keystroke starts the clock.
    pub open spec fn type_char(self, c: char, now: nat) -> Session {
        if self.accepts(c) {
            Session {
                board: self.board.type_char(c),
                tally: self.clocked(now).record(self.board.feedback(c)),
                started: true,
                done: false,
            }
        } else {
            self
        }
    }

    /// The session after a backspace. A complete session does not change.
    /// A character taken back leaves the current counts; a cursor that only
    /// moves leaves all counts alone.
    pub open spec fn backspace(self) -> Session {
        if self.done {
            self
        } else {
            Session {
                board: self.board.backspace(),
                tally: match self.board.undone() {
                    Some(was_correct) => self.tally.undo(was_correct),
                    None => self.tally,
                },
                ..self
            }
        }
    }

    /// The session after the enter key at clock reading `now`. A complete
    /// session does not change. Otherwise the end-of-line marker is typed as
    /// a character is; and when the cursor then stands at the end of the last
    /// line the session is complete and the clock stops.
    pub open spec fn advance_line(self, now: nat) -> Session {
        if self.done {
            self
        } else {
            let k = self.board.feedback(END_OF_LINE);
            let counted = if k == Keystroke::NotApplicable {
                self.tally
            } else {
                self.clocked(now).record(k)
            };
            if self.board.completes() {
                Session {
                    board: self.board.advance_line(),
                    tally: Tally { pause_at: now, ..counted },
                    started: false,
                    done: true,
                }
            } else {
                Session {
                    board: self.board.advance_line(),
                    tally: counted,
                    started: self.started || k != Keystroke::NotApplicable,
                    done: false,
                }
            }
        }
    }

    /// The session started over on the same text.
    pub open spec fn restart(self) -> Session {
        Session {
            board: self.board.restart(),
            tally: self.tally.reset(),
            started: false,
            done: false,
        }
    }

    /// The session started over on new text.
    pub open spec fn new_text(self) -> Session {
        Session {
            board: relayout(self.board),
            tally: self.tally.reset(),
            started: false,
            done: false,
        }
    }

    /// The session after a key event at clock reading `now`.
    pub open spec fn step(self, key: KeyEvent, now: nat) -> Session {
        match key {
            KeyEvent::Char(c) => self.type_char(c, now),
            KeyEvent::Backspace => self.backspace(),
            KeyEvent::Enter => self.advance_line(now),
            KeyEvent::NewText => self.new_text(),
            KeyEvent::Restart => self.restart(),
            KeyEvent::Quit => self,
            KeyEvent::Other => self,
        }
    }

    /// The final figures of a session that the enter key completes at clock
    /// reading `now`.
    pub open spec fn final_figures(self, now: nat) -> EvalResult {
        let t = self.advance_line(now).tally;
        let delta = elapsed_between(t.start_at, now);
        EvalResult::Done(delta as u128, t.real_time_accuracy(), t.accuracy(), t.wpm(delta))
    }

    /// What is to be drawn after a key event at clock reading `now`.
    pub open spec fn action(self, key: KeyEvent, now: nat) -> Action {
        match key {
            KeyEvent::Char(c) => if self.done {
                Action::Ignored
            } else if rejects(c) {
                Action::Refused(TypingError::InputMethod)
            } else {
                match self.board.feedback(c) {
                    Keystroke::Correct => Action::Echo(c, true),
                    Keystroke::Incorrect => Action::Echo(c, false),
                    Keystroke::NotApplicable => Action::Ignored,
                }
            },
            KeyEvent::Backspace => if self.done {
                Action::Ignored
            } else {
                match self.board.undone() {
                    Some(was_correct) => Action::Erased(was_correct),
                    None => if self.board.offset == 0 && self.board.line > 0 {
                        Action::Moved
                    } else {
                        Action::Ignored
                    },
                }
            },
            KeyEvent::Enter => if self.done {
                Action::Ignored
            } else if self.board.completes() {
                Action::Finished(self.final_figures(now))
            } else {
                match self.board.feedback(END_OF_LINE) {
                    Keystroke::Correct => Action::Echo(END_OF_LINE, true),
                    Keystroke::Incorrect => Action::Echo(END_OF_LINE, false),
                    Keystroke::NotApplicable => Action::Ignored,
                }
            },
            KeyEvent::NewText => if layout(
                self.board.source,
                geometry(self.board.cols as u16, self.board.rows as u16),
            ).lines is Some {
                Action::Redraw
            } else {
                Action::Failed(TypingError::Encoding)
            },
            KeyEvent::Restart => Action::Redraw,
            KeyEvent::Quit => Action::Quit,
            KeyEvent::Other => Action::Ignored,
        }
    }

    /// Whether a key event commits a character.
    pub open spec fn commits(self, key: KeyEvent) -> bool {
        match key {
            KeyEvent::Char(c) => self.accepts(c),
            KeyEvent::Enter => !self.done && !self.board.line_full(),
            _ => false,
        }
    }

    /// The live figures at clock reading `now`: those of a running session,
    /// none otherwise.
    pub open spec fn live(self, now: nat) -> Option<EvalResult> {
        if self.started {
            let delta = elapsed_between(self.tally.start_at, now);
            Some(
                EvalResult::Snap(self.tally.real_time_accuracy(), self.tally.real_time_wpm(delta)),
            )
        } else {
            None
        }
    }
}

/// The character at place `k` of line `i` is the character at that place of
/// the text read as one run of lines, counted from the start of line `j`.
pub proof fn lemma_char_from(lines: Seq<DisplayLine>, j: nat, i: nat, k: nat)
    requires
        j <= i < lines.len(),
        k < lines[i as int].rendered.len(),
    ensures
        chars_above(lines, j) <= chars_above(lines, i),
        char_from(lines, j, (chars_above(lines, i) - chars_above(lines, j) + k) as nat)
            == lines[i as int].rendered[k as int],
    decreases i - j,
{
    lemma_chars_above_grows(lines, j, i);
    if j < i {
        lemma_chars_above_grows(lines, j + 1, i);
        lemma_char_from(lines, j + 1, i, k);
    }
}

/// On a well-formed board whose line is not full, the character expected at
/// the cursor is the one that stands at the input's length in the text.
pub proof fn lemma_expected(b: Board)
    requires
        b.wf(),
        !b.line_full(),
    ensures
        char_from(b.lines, 0, b.input.len()) == b.expected(),
{
    lemma_char_from(b.lines, 0, b.line, b.offset);
}

/// No more characters of an input are right than it holds.
pub proof fn lemma_hits_bound(lines: Seq<DisplayLine>, input: Seq<char>)
    ensures
        hits(lines, input) <= input.len(),
    decreases input.len(),
{
    if input.len() > 0 {
        lemma_hits_bound(lines, input.drop_last());
    }
}

/// A board laid out anew is well formed.
pub proof fn lemma_relayout_wf(b: Board)
    ensures
        relayout(b).wf(),
{
    lemma_layout_lines(b.source, geometry(b.cols as u16, b.rows as u16));
}

/// Counter consistency, one step: whatever the key, a session that satisfies
/// its invariant satisfies it afterwards. So the two current counts always
/// add up to the number of characters that stand in the input, and the
/// lifetime count is never below that.
pub proof fn lemma_step_keeps_inv(s: Session, key: KeyEvent, now: nat)
    requires
        s.inv(),
    ensures
        s.step(key, now).inv(),
        s.step(key, now).tally.correct + s.step(key, now).tally.uncorrected == s.step(
            key,
            now,
        ).board.input.len(),
        s.step(key, now).tally.total >= s.step(key, now).board.input.len(),
{
    let t = s.step(key, now);
    match key {
        KeyEvent::Char(c) => {
            if s.accepts(c) {
                lemma_expected(s.board);
                assert(t.board.input.drop_last() == s.board.input);
            }
        },
        KeyEvent::Backspace => {
            if !s.done {
                if s.board.offset > 0 && s.board.input.len() > 0 {
                    let prev = s.board.backspace();
                    lemma_expected(prev);
                    lemma_hits_bound(s.board.lines, prev.input);
                }
            }
        },
        KeyEvent::Enter => {
            if !s.done {
                if !s.board.line_full() {
                    lemma_expected(s.board);
                    assert(t.board.input.drop_last() == s.board.input);
                }
            }
        },
        KeyEvent::NewText => {
            lemma_relayout_wf(s.board);
        },
        KeyEvent::Restart => {},
        KeyEvent::Quit => {},
        KeyEvent::Other => {},
    }
}

/// A typing session: its text area, its evaluator and how far it has come.
pub struct Typlap {
    ui: Tui,
    evaluator: Evaluator,
    started: bool,
    done: bool,
}

impl View for Typlap {
    type V = Session;

    closed spec fn view(&self) -> Session {
        Session {
            board: self.ui@,
            tally: self.evaluator@,
            started: self.started,
            done: self.done,
        }
    }
}

impl Typlap {
    /// The parts are well formed and the session satisfies its invariant.
    pub closed spec fn wf(&self) -> bool {
        &&& self.ui.wf()
        &&& self.evaluator.wf()
        &&& self@.inv()
    }

    /// What `wf` says of the session.
    pub proof fn lemma_wf(&self)
        requires
            self.wf(),
        ensures
            self@.inv(),
    {
    }

    /// A session on the words of `content`, drawn in random order, for a
    /// viewport of `cols` by `rows`, with the clock reading `now`. No text is
    /// laid out yet. Fails with `TypingError::ViewportTooSmall` for a viewport
    /// under 45 columns or under 6 rows.
    pub fn new(content: &str, cols: u16, rows: u16, now: u128) -> (r: Result<Self, TypingError>)
        ensures
            match r {
                Ok(t) => cols >= MIN_WIDTH && rows >= MIN_HEIGHT && t.wf()
                    && is_draw_of(split_words(content@), t@.board.source) && t@
                    == fresh_session(t@.board.source, cols, rows, now as nat),
                Err(e) => e == TypingError::ViewportTooSmall && (cols < MIN_WIDTH
                    || rows < MIN_HEIGHT),
            },
    {
        let mut tg = TextGenerator::new();
        tg.read_content(content);
        let iter = tg.into_iter();
        Typlap::from_source(iter, cols, rows, now)
    }

    /// A session on the words that `word_iter` still holds, for a viewport of
    /// `cols` by `rows`, with the clock reading `now`. No text is laid out
    /// yet. Fails with `TypingError::ViewportTooSmall` for a viewport under 45
    /// columns or under 6 rows.
    pub fn from_source(word_iter: IntoIter, cols: u16, rows: u16, now: u128) -> (r: Result<
        Self,
        TypingError,
    >)
        requires
            word_iter.wf(),
        ensures
            match r {
                Ok(t) => cols >= MIN_WIDTH && rows >= MIN_HEIGHT && t.wf()
                    && t@ == fresh_session(word_iter.remaining(), cols, rows, now as nat),
                Err(e) => e == TypingError::ViewportTooSmall && (cols < MIN_WIDTH
                    || rows < MIN_HEIGHT),
            },
    {
        match Tui::new(word_iter, cols, rows) {
            Ok(ui) => {
                let t = Typlap { ui, evaluator: Evaluator::new(now), started: false, done: false };
                proof {
                    ui.lemma_wf();
                }
                Ok(t)
            },
            Err(e) => Err(e),
        }
    }

    /// The text area and the cursor.
    pub fn ui(&self) -> (ui: &Tui)
        ensures
            ui@ == self@.board,
            self.wf() ==> ui.wf(),
    {
        &self.ui
    }

    /// The evaluator.
    pub fn evaluator(&self) -> (e: &Evaluator)
        ensures
            e@ == self@.tally,
            self.wf() ==> e.wf(),
    {
        &self.evaluator
    }

    /// Whether a keystroke was accepted and the session is not complete.
    pub fn started(&self) -> (b: bool)
        ensures
            b == self@.started,
    {
        self.started
    }

    /// Whether the session is complete.
    pub fn done(&self) -> (b: bool)
        ensures
            b == self@.done,
    {
        self.done
    }

    /// Handles the character key `ch` at clock reading `now`.
    pub fn type_char(&mut self, ch: char, now: u128) -> (a: Action)
        requires
            old(self).wf(),
            old(self)@.tally.total < usize::MAX,
        ensures
            final(self).wf(),
            final(self)@ == old(self)@.type_char(ch, now as nat),
            a == old(self)@.action(KeyEvent::Char(ch), now as nat),
    {
        if self.done {
            return Action::Ignored;
        }
        proof {
            lemma_step_keeps_inv(self@, KeyEvent::Char(ch), now as nat);
        }
        match self.ui.display_c(&ch) {
            Err(e) => Action::Refused(e),
            Ok(k) => {
                match k {
                    Keystroke::NotApplicable => Action::Ignored,
                    Keystroke::Correct => {
                        self.commit(k, now);
                        Action::Echo(ch, true)
                    },
                    Keystroke::Incorrect => {
                        self.commit(k, now);
                        Action::Echo(ch, false)
                    },
                }
            },
        }
    }

    /// Counts an accepted keystroke, and starts the clock with the first.
    fn commit(&mut self, k: Keystroke, now: u128)
        requires
            old(self).evaluator.wf(),
            old(self).evaluator@.total < usize::MAX,
            k != Keystroke::NotApplicable,
        ensures
            final(self).ui == old(self).ui,
            final(self).done == old(self).done,
            final(self).started,
            final(self).evaluator.wf(),
            final(self).evaluator@ == old(self)@.clocked(now as nat).record(k),
    {
        if !self.started {
            self.evaluator.start_clock(now);
            self.started = true;
        }
        self.evaluator.record(k);
    }

    /// Handles the backspace key.
    pub fn backspace(&mut self) -> (a: Action)
        requires
            old(self).wf(),
        ensures
            final(self).wf(),
            final(self)@ == old(self)@.backspace(),
            a == old(self)@.action(KeyEvent::Backspace, 0),
    {
        if self.done {
            return Action::Ignored;
        }
        proof {
            lemma_step_keeps_inv(self@, KeyEvent::Backspace, 0);
            self.ui.lemma_wf();
            if self@.board.offset > 0 {
                lemma_expected(self@.board.backspace());
                lemma_hits_bound(self@.board.lines, self@.board.backspace().input);
            }
        }
        let moves = self.ui.cursor_offset() == 0 && self.ui.get_cur_text_line() > 0;
        match self.ui.display_with_backspace() {
            Some(was_correct) => {
                self.evaluator.undo(was_correct);
                Action::Erased(was_correct)
            },
            None => {
                if moves {
                    Action::Moved
                } else {
                    Action::Ignored
                }
            },
        }
    }

    /// Handles the enter key at clock reading `now`.
    pub fn advance_line(&mut self, now: u128) -> (a: Action)
        requires
            old(self).wf(),
            old(self)@.tally.total < usize::MAX,
        ensures
            final(self).wf(),
            final(self)@ == old(self)@.advance_line(now as nat),
            a == old(self)@.action(KeyEvent::Enter, now as nat),
    {
        if self.done {
            return Action::Ignored;
        }
        proof {
            lemma_step_keeps_inv(self@, KeyEvent::Enter, now as nat);
        }
        let (finished, k) = self.ui.move_next_line();
        let accepted = match k {
            Keystroke::NotApplicable => false,
            _ => true,
        };
        if accepted {
            self.commit(k, now);
        }
        if finished {
            let delta = self.evaluator.stop_clock(now);
            self.started = false;
            self.done = true;
            Action::Finished(self.evaluator.done(delta))
        } else {
            match k {
                Keystroke::Correct => Action::Echo(END_OF_LINE, true),
                Keystroke::Incorrect => Action::Echo(END_OF_LINE, false),
                Keystroke::NotApplicable => Action::Ignored,
            }
        }
    }

    /// Starts the same text over.
    pub fn restart(&mut self) -> (a: Action)
        requires
            old(self).wf(),
        ensures
            final(self).wf(),
            final(self)@ == old(self)@.restart(),
            a == Action::Redraw,
    {
        proof {
            lemma_step_keeps_inv(self@, KeyEvent::Restart, 0);
        }
        self.evaluator.reset();
        self.started = false;
        self.done = false;
        self.ui.reset();
        Action::Redraw
    }

    /// Starts over on new text, laid out from what the word source still
    /// holds.
    pub fn new_text(&mut self) -> (a: Action)
        requires
            old(self).wf(),
        ensures
            final(self).wf(),
            final(self)@ == old(self)@.new_text(),
            a == old(self)@.action(KeyEvent::NewText, 0),
    {
        proof {
            lemma_step_keeps_inv(self@, KeyEvent::NewText, 0);
            self.ui.lemma_wf();
        }
        self.evaluator.reset();
        self.started = false;
        self.done = false;
        let r = self.ui.init_text();
        match r {
            Ok(_) => Action::Redraw,
            Err(e) => Action::Failed(e),
        }
    }

    /// The live figures at clock reading `now`, while the session is
    /// running.
    pub fn live(&self, now: u128) -> (r: Option<EvalResult>)
        requires
            self.wf(),
        ensures
            r == self@.live(now as nat),
    {
        if self.started {
            let delta = self.evaluator.elapsed(now);
            Some(self.evaluator.snap(delta))
        } else {
            None
        }
    }

    /// Handles one key event at clock reading `now`: the session moves on as
    /// `Session::step` says, and the answer tells what to draw. The lifetime
    /// count must have room for one more character.
    pub fn typing(&mut self, key: KeyEvent, now: u128) -> (r: Reaction)
        requires
            old(self).wf(),
            old(self)@.tally.total < usize::MAX,
        ensures
            final(self).wf(),
            final(self)@ == old(self)@.step(key, now as nat),
            r.action == old(self)@.action(key, now as nat),
            r.cue == old(self)@.commits(key),
            r.live == final(self)@.live(now as nat),
    {
        let before = self.evaluator.total_chars_typed();
        proof {
            self.ui.lemma_wf();
        }
        let action = match key {
            KeyEvent::Char(ch) => self.type_char(ch, now),
            KeyEvent::Backspace => self.backspace(),
            KeyEvent::Enter => self.advance_line(now),
            KeyEvent::NewText => self.new_text(),
            KeyEvent::Restart => self.restart(),
            KeyEvent::Quit => Action::Quit,
            KeyEvent::Other => Action::Ignored,
        };
        let cue = match key {
            KeyEvent::Char(_) => self.evaluator.total_chars_typed() != before,
            KeyEvent::Enter => self.evaluator.total_chars_typed() != before,
            _ => false,
        };
        Reaction { action, cue, live: self.live(now) }
    }
}

/// The session as it is made: no lines, the given tokens in the word source,
/// nothing typed or counted, not started, and the clock at `now`.
pub open spec fn fresh_session(source: Seq<Seq<char>>, cols: u16, rows: u16, now: nat) -> Session {
    Session {
        board: Board {
            lines: Seq::empty(),
            source,
            cols: cols as nat,
            rows: rows as nat,
            line: 0,
            offset: 0,
            input: Seq::empty(),
        },
        tally: Tally {
            total: 0,
            errors: 0,
            correct: 0,
            uncorrected: 0,
            start_at: now,
            pause_at: now,
        },
        started: false,
        done: false,
    }
}

/// One key event with the clock reading at which it comes.
pub struct Stroke {
    pub key: KeyEvent,
    pub now: nat,
}

/// The session after a sequence of key events, first to last.
pub open spec fn run(s: Session, strokes: Seq<Stroke>) -> Session
    decreases strokes.len(),
{
    if strokes.len() == 0 {
        s
    } else {
        run(s, strokes.drop_last()).step(strokes.last().key, strokes.last().now)
    }
}

/// Counter consistency: after any sequence of key events the two current
/// counts add up to the number of characters that stand in the input, the
/// count of right characters is the number of those that are the expected
/// ones, and the lifetime count is not below their sum.
pub proof fn lemma_counter_consistency(s: Session, strokes: Seq<Stroke>)
    requires
        s.inv(),
    ensures
        run(s, strokes).inv(),
        run(s, strokes).tally.correct + run(s, strokes).tally.uncorrected == run(
            s,
            strokes,
        ).board.input.len(),
        run(s, strokes).tally.correct == hits(
            run(s, strokes).board.lines,
            run(s, strokes).board.input,
        ),
        run(s, strokes).tally.total >= run(s, strokes).tally.correct + run(
            s,
            strokes,
        ).tally.uncorrected,
    decreases strokes.len(),
{
    if strokes.len() > 0 {
        lemma_counter_consistency(s, strokes.drop_last());
        lemma_step_keeps_inv(run(s, strokes.drop_last()), strokes.last().key, strokes.last().now);
    }
}

/// Undo: a backspace after an accepted character key gives back the cursor,
/// the input and the two current counts as they were. The lifetime counts
/// keep the keystroke: the total is one higher, and the errors are one
/// higher if the character was wrong.
pub proof fn lemma_type_then_backspace(s: Session, c: char, now: nat)
    requires
        s.inv(),
        s.accepts(c),
    ensures
        s.type_char(c, now).backspace().board == s.board,
        s.type_char(c, now).backspace().tally.correct == s.tally.correct,
        s.type_char(c, now).backspace().tally.uncorrected == s.tally.uncorrected,
        s.type_char(c, now).backspace().tally.total == s.tally.total + 1,
        s.type_char(c, now).backspace().tally.errors == s.tally.errors + if c
            == s.board.expected() {
            0nat
        } else {
            1nat
        },
{
    let t = s.type_char(c, now);
    assert(t.board.input.drop_last() =~= s.board.input);
}

/// A character key that is not accepted changes nothing at all.
pub proof fn lemma_refused_key_changes_nothing(s: Session, c: char, now: nat)
    requires
        !s.accepts(c),
    ensures
        s.type_char(c, now) == s,
{
}

/// Completion is final: on a complete session the character keys, the
/// backspace key, the enter key and every key without a command change
/// nothing. Only the two commands that start a session over leave the
/// complete state.
pub proof fn lemma_completed_is_final(s: Session, key: KeyEvent, now: nat)
    requires
        s.done,
        !(key is NewText),
        !(key is Restart),
    ensures
        s.step(key, now) == s,
{
}

/// The key that types place `p` of the text, counted from the start of line
/// `i`: the enter key for the last place of a line, the character key of
/// the expected character for every other place.
pub open spec fn key_from(lines: Seq<DisplayLine>, i: nat, p: nat) -> KeyEvent
    decreases lines.len() - i,
{
    if i >= lines.len() {
        KeyEvent::Other
    } else if p + 1 < lines[i as int].rendered.len() {
        KeyEvent::Char(lines[i as int].rendered[p as int])
    } else if p + 1 == lines[i as int].rendered.len() {
        KeyEvent::Enter
    } else {
        key_from(lines, i + 1, (p - lines[i as int].rendered.len()) as nat)
    }
}

/// The strokes type the whole text without a mistake: one stroke for each
/// place, each with the key for its place.
pub open spec fn perfect(lines: Seq<DisplayLine>, strokes: Seq<Stroke>) -> bool {
    &&& strokes.len() == chars_above(lines, lines.len())
    &&& forall|p: int|
        0 <= p < strokes.len() ==> (#[trigger] strokes[p]).key == key_from(lines, 0, p as nat)
}

/// Every character of the text but the end-of-line markers can be typed: none
/// belongs to the source script.
pub open spec fn typeable(lines: Seq<DisplayLine>) -> bool {
    forall|i: int, k: int|
        0 <= i < lines.len() && 0 <= k < lines[i].rendered.len() - 1 ==> !rejects(
            #[trigger] lines[i].rendered[k],
        )
}

/// The key for place `k` of line `i`, counted from the start of line `j`.
pub proof fn lemma_key_from(lines: Seq<DisplayLine>, j: nat, i: nat, k: nat)
    requires
        j <= i < lines.len(),
        k < lines[i as int].rendered.len(),
    ensures
        chars_above(lines, j) <= chars_above(lines, i),
        key_from(lines, j, (chars_above(lines, i) - chars_above(lines, j) + k) as nat) == if k + 1
            < lines[i as int].rendered.len() {
            KeyEvent::Char(lines[i as int].rendered[k as int])
        } else {
            KeyEvent::Enter
        },
    decreases i - j,
{
    lemma_chars_above_grows(lines, j, i);
    if j < i {
        lemma_chars_above_grows(lines, j + 1, i);
        lemma_key_from(lines, j + 1, i, k);
    }
}

/// Where a perfect run stands after its first `n` strokes: `n` characters
/// are typed, all of them right, and unless the text is typed to its end
/// the session is not complete and the cursor's line has room.
pub proof fn lemma_perfect_prefix(s: Session, strokes: Seq<Stroke>, n: nat)
    requires
        s.inv(),
        s.pristine(),
        !s.started,
        !s.done,
        s.board.lines.len() > 0,
        typeable(s.board.lines),
        perfect(s.board.lines, strokes),
        n <= strokes.len(),
    ensures
        run(s, strokes.take(n as int)).inv(),
        run(s, strokes.take(n as int)).board.lines == s.board.lines,
        run(s, strokes.take(n as int)).board.input.len() == n,
        run(s, strokes.take(n as int)).tally.correct == n,
        run(s, strokes.take(n as int)).tally.total == n,
        run(s, strokes.take(n as int)).tally.errors == 0,
        run(s, strokes.take(n as int)).done <==> n == strokes.len(),
        n < strokes.len() ==> !run(s, strokes.take(n as int)).board.line_full(),
    decreases n,
{
    let lines = s.board.lines;
    if n == 0 {
        lemma_chars_above_grows(lines, 1, lines.len());
    } else {
        let m = (n - 1) as nat;
        lemma_perfect_prefix(s, strokes, m);
        let before = run(s, strokes.take(m as int));
        let stroke = strokes[m as int];
        assert(strokes.take(n as int).drop_last() =~= strokes.take(m as int));
        lemma_step_keeps_inv(before, stroke.key, stroke.now);
        let b = before.board;
        let i = b.line;
        let k = b.offset;
        lemma_key_from(lines, 0, i, k);
        lemma_expected(b);
        if k + 1 < lines[i as int].rendered.len() {
            lemma_chars_above_grows(lines, i + 1, lines.len());
        } else if i + 1 < lines.len() {
            lemma_chars_above_grows(lines, i + 2, lines.len());
        }
    }
}

/// Completion boundary: typing every character of every line, each line
/// ended with the enter key, completes the session with the last stroke and
/// not before, and leaves every character counted as right. The text must
/// have a line, and none of its characters may belong to the source script.
pub proof fn lemma_perfect_run_completes(s: Session, strokes: Seq<Stroke>)
    requires
        s.inv(),
        s.pristine(),
        !s.started,
        !s.done,
        s.board.lines.len() > 0,
        typeable(s.board.lines),
        perfect(s.board.lines, strokes),
    ensures
        run(s, strokes).done,
        forall|n: int| 0 <= n < strokes.len() ==> !(#[trigger] run(s, strokes.take(n))).done,
        run(s, strokes).tally.total == strokes.len(),
        run(s, strokes).tally.correct == strokes.len(),
        run(s, strokes).tally.errors == 0,
        run(s, strokes).tally.uncorrected == 0,
{
    lemma_perfect_prefix(s, strokes, strokes.len());
    assert(strokes.take(strokes.len() as int) =~= strokes);
    assert forall|n: int| 0 <= n < strokes.len() implies !(#[trigger] run(
        s,
        strokes.take(n),
    )).done by {
        lemma_perfect_prefix(s, strokes, n as nat);
    }
}

} // verus!
