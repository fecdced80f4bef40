//! The metrics of a session: lifetime and current keystroke counts, the
//! session clock, and the speed and accuracy figures computed from them.

use vstd::prelude::*;

use crate::error::TypingError;
use crate::tui::Keystroke;

verus! {

/// Nanoseconds in a minute, divided by the five characters that count as a
/// word: the factor that turns characters per nanosecond into words per
/// minute.
pub const WORD_RATE: u128 = 12_000_000_000;

/// An exact figure, `num / den`, with `den > 0`.
#[derive(Clone, Copy, Debug, PartialEq, Eq, Structural)]
pub struct Ratio {
    pub num: u128,
    pub den: u128,
}

/// The figures shown to the user. A figure whose denominator would be zero
/// is `None`.
#[derive(Clone, Copy, Debug, PartialEq, Eq)]
pub enum EvalResult {
    /// The live view: current accuracy, current speed.
    Snap(Option<Ratio>, Option<Ratio>),
    /// The final view: elapsed nanoseconds, current accuracy, lifetime
    /// accuracy, lifetime speed.
    Done(u128, Option<Ratio>, Option<Ratio>, Option<Ratio>),
}

/// The counts and clock readings that an evaluator holds.
pub struct Tally {
    /// Every character ever committed.
    pub total: nat,
    /// Every wrong character ever committed, corrected later or not.
    pub errors: nat,
    /// The right characters that stand in the input now.
    pub correct: nat,
    /// The wrong characters that stand in the input now.
    pub uncorrected: nat,
    /// The clock reading, in nanoseconds, at which the session started.
    pub start_at: nat,
    /// The clock reading, in nanoseconds, at which the clock was last read.
    pub pause_at: nat,
}

impl Tally {
    /// The lifetime counts dominate the current ones.
    pub open spec fn wf(self) -> bool {
        &&& self.errors <= self.total
        &&& self.uncorrected <= self.errors
        &&& self.correct + self.errors <= self.total
    }

    /// The tally after a keystroke: a committed character counts once for
    /// the lifetime and once for the present; a wrong one counts as an error
    /// in both.
    pub open spec fn record(self, k: Keystroke) -> Tally {
        match k {
            Keystroke::Correct => Tally {
                total: self.total + 1,
                correct: self.correct + 1,
                ..self
            },
            Keystroke::Incorrect => Tally {
                total: self.total + 1,
                errors: self.errors + 1,
                uncorrected: self.uncorrected + 1,
                ..self
            },
            Keystroke::NotApplicable => self,
        }
    }

    /// The tally after a character was taken back: the present counts give
    /// it up, the lifetime counts keep it.
    pub open spec fn undo(self, was_correct: bool) -> Tally {
        if was_correct {
            Tally { correct: (self.correct - 1) as nat, ..self }
        } else {
            Tally { uncorrected: (self.uncorrected - 1) as nat, ..self }
        }
    }

    /// The tally with its four counts at zero and its clock untouched.
    pub open spec fn reset(self) -> Tally {
        Tally { total: 0, errors: 0, correct: 0, uncorrected: 0, ..self }
    }

    /// Lifetime accuracy: the share of committed characters that were right.
    pub open spec fn accuracy(self) -> Option<Ratio> {
        if self.total == 0 {
            None
        } else {
            Some(Ratio { num: (self.total - self.errors) as u128, den: self.total as u128 })
        }
    }

    /// Current accuracy: the share of the characters standing in the input
    /// that are right.
    pub open spec fn real_time_accuracy(self) -> Option<Ratio> {
        if self.correct + self.uncorrected == 0 {
            None
        } else {
            Some(
                Ratio {
                    num: self.correct as u128,
                    den: (self.correct + self.uncorrected) as u128,
                },
            )
        }
    }

    /// Lifetime speed over `delta` nanoseconds.
    pub open spec fn wpm(self, delta: nat) -> Option<Ratio> {
        words_per_minute(self.total, self.errors, delta)
    }

    /// Current speed over `delta` nanoseconds.
    pub open spec fn real_time_wpm(self, delta: nat) -> Option<Ratio> {
        words_per_minute(self.correct, self.uncorrected, delta)
    }
}

/// Words per minute: a fifth of the characters, less one word for each
/// error and not below zero, over the minutes elapsed. With `delta` in
/// nanoseconds that is `max(0, chars - 5 * errors) * 12 * 10^9 / delta`.
pub open spec fn words_per_minute(chars: nat, errors: nat, delta: nat) -> Option<Ratio> {
    if delta == 0 {
        None
    } else if chars >= 5 * errors {
        Some(Ratio { num: ((chars - 5 * errors) * WORD_RATE) as u128, den: delta as u128 })
    } else {
        Some(Ratio { num: 0, den: delta as u128 })
    }
}

/// The nanoseconds from one clock reading to a later one; zero if the second
/// is not later.
pub open spec fn elapsed_between(start: nat, now: nat) -> nat {
    if now >= start {
        (now - start) as nat
    } else {
        0
    }
}

/// Turns an absent figure into the failure that stands for it.
fn defined(r: Option<Ratio>) -> (out: Result<Ratio, TypingError>)
    ensures
        match out {
            Ok(v) => r == Some(v),
            Err(e) => r is None && e == TypingError::DivisionUndefined,
        },
{
    match r {
        Some(v) => Ok(v),
        None => Err(TypingError::DivisionUndefined),
    }
}

/// Computes `words_per_minute`.
fn rate(chars: usize, errors: usize, delta: u128) -> (r: Option<Ratio>)
    ensures
        r == words_per_minute(chars as nat, errors as nat, delta as nat),
{
    if delta == 0 {
        return None;
    }
    let c: u128 = chars as u128;
    let e: u128 = errors as u128;
    if c >= 5 * e {
        assert((c - 5 * e) * WORD_RATE <= u128::MAX) by (nonlinear_arith)
            requires
                c <= 0xffff_ffff_ffff_ffff,
                0 <= e,
                5 * e <= c,
                WORD_RATE == 12_000_000_000,
        ;
        Some(Ratio { num: (c - 5 * e) * WORD_RATE, den: delta })
    } else {
        Some(Ratio { num: 0, den: delta })
    }
}

/// The keystroke counts of a session and its clock.
pub struct Evaluator {
    total_chars_typed: usize,
    total_char_errors: usize,
    final_chars_typed_correctly: usize,
    final_uncorrected_errors: usize,
    start_at: u128,
    pause_at: u128,
}

impl View for Evaluator {
    type V = Tally;

    closed spec fn view(&self) -> Tally {
        Tally {
            total: self.total_chars_typed as nat,
            errors: self.total_char_errors as nat,
            correct: self.final_chars_typed_correctly as nat,
            uncorrected: self.final_uncorrected_errors as nat,
            start_at: self.start_at as nat,
            pause_at: self.pause_at as nat,
        }
    }
}

impl Evaluator {
    /// The lifetime counts dominate the current ones.
    pub open spec fn wf(&self) -> bool {
        self@.wf()
    }

    /// An evaluator with all counts at zero whose clock reads `now`.
    pub fn new(now: u128) -> (e: Self)
        ensures
            e.wf(),
            e@ == (Tally {
                total: 0,
                errors: 0,
                correct: 0,
                uncorrected: 0,
                start_at: now as nat,
                pause_at: now as nat,
            }),
    {
        Self {
            total_chars_typed: 0,
            total_char_errors: 0,
            final_chars_typed_correctly: 0,
            final_uncorrected_errors: 0,
            start_at: now,
            pause_at: now,
        }
    }

    /// Sets the four counts to zero. The clock is not touched.
    pub fn reset(&mut self)
        ensures
            final(self).wf(),
            final(self)@ == old(self)@.reset(),
    {
        self.total_char_errors = 0;
        self.total_chars_typed = 0;
        self.final_chars_typed_correctly = 0;
        self.final_uncorrected_errors = 0;
    }

    /// Counts a keystroke. The lifetime count must have room for it.
    pub fn record(&mut self, k: Keystroke)
        requires
            old(self).wf(),
            old(self)@.total < usize::MAX,
        ensures
            final(self).wf(),
            final(self)@ == old(self)@.record(k),
    {
        match k {
            Keystroke::Correct => {
                self.total_chars_typed = self.total_chars_typed + 1;
                self.final_chars_typed_correctly = self.final_chars_typed_correctly + 1;
            },
            Keystroke::Incorrect => {
                self.total_chars_typed = self.total_chars_typed + 1;
                self.total_char_errors = self.total_char_errors + 1;
                self.final_uncorrected_errors = self.final_uncorrected_errors + 1;
            },
            Keystroke::NotApplicable => {},
        }
    }

    /// Takes a character back out of the current counts. There must be one
    /// of its kind to take back.
    pub fn undo(&mut self, was_correct: bool)
        requires
            old(self).wf(),
            was_correct ==> old(self)@.correct > 0,
            !was_correct ==> old(self)@.uncorrected > 0,
        ensures
            final(self).wf(),
            final(self)@ == old(self)@.undo(was_correct),
    {
        if was_correct {
            self.final_chars_typed_correctly = self.final_chars_typed_correctly - 1;
        } else {
            self.final_uncorrected_errors = self.final_uncorrected_errors - 1;
        }
    }

    /// Starts the session clock at the reading `now`.
    pub fn start_clock(&mut self, now: u128)
        ensures
            final(self)@ == (Tally { start_at: now as nat, pause_at: now as nat, ..old(self)@ }),
    {
        self.start_at = now;
        self.pause_at = now;
    }

    /// The nanoseconds from the start of the clock to the reading `now`.
    pub fn elapsed(&self, now: u128) -> (delta: u128)
        ensures
            delta == elapsed_between(self@.start_at, now as nat),
    {
        if now >= self.start_at {
            now - self.start_at
        } else {
            0
        }
    }

    /// Stops the clock at the reading `now` and returns the nanoseconds since
    /// it was started.
    pub fn stop_clock(&mut self, now: u128) -> (delta: u128)
        ensures
            final(self)@ == (Tally { pause_at: now as nat, ..old(self)@ }),
            delta == elapsed_between(old(self)@.start_at, now as nat),
    {
        self.pause_at = now;
        self.elapsed(now)
    }

    /// Every character ever committed.
    pub fn total_chars_typed(&self) -> (n: usize)
        ensures
            n == self@.total,
    {
        self.total_chars_typed
    }

    /// Every wrong character ever committed.
    pub fn total_char_errors(&self) -> (n: usize)
        ensures
            n == self@.errors,
    {
        self.total_char_errors
    }

    /// The right characters standing in the input.
    pub fn final_chars_typed_correctly(&self) -> (n: usize)
        ensures
            n == self@.correct,
    {
        self.final_chars_typed_correctly
    }

    /// The wrong characters standing in the input.
    pub fn final_uncorrected_errors(&self) -> (n: usize)
        ensures
            n == self@.uncorrected,
    {
        self.final_uncorrected_errors
    }

    /// Lifetime accuracy. Fails with `TypingError::DivisionUndefined` when no
    /// character was ever committed.
    pub fn accuracy(&self) -> (r: Result<Ratio, TypingError>)
        requires
            self.wf(),
        ensures
            match r {
                Ok(v) => self@.accuracy() == Some(v),
                Err(e) => self@.accuracy() is None && e == TypingError::DivisionUndefined,
            },
    {
        defined(self.lifetime_accuracy())
    }

    /// Current accuracy. Fails with `TypingError::DivisionUndefined` when no
    /// character stands in the input.
    pub fn real_time_accuracy(&self) -> (r: Result<Ratio, TypingError>)
        requires
            self.wf(),
        ensures
            match r {
                Ok(v) => self@.real_time_accuracy() == Some(v),
                Err(e) => self@.real_time_accuracy() is None && e
                    == TypingError::DivisionUndefined,
            },
    {
        defined(self.current_accuracy())
    }

    /// Current speed over `delta` nanoseconds. Fails with
    /// `TypingError::DivisionUndefined` when `delta` is zero.
    pub fn real_time_wpm(&self, delta: u128) -> (r: Result<Ratio, TypingError>)
        ensures
            match r {
                Ok(v) => self@.real_time_wpm(delta as nat) == Some(v),
                Err(e) => self@.real_time_wpm(delta as nat) is None && e
                    == TypingError::DivisionUndefined,
            },
    {
        defined(rate(self.final_chars_typed_correctly, self.final_uncorrected_errors, delta))
    }

    /// Lifetime speed over `delta` nanoseconds. Fails with
    /// `TypingError::DivisionUndefined` when `delta` is zero.
    pub fn wpm(&self, delta: u128) -> (r: Result<Ratio, TypingError>)
        ensures
            match r {
                Ok(v) => self@.wpm(delta as nat) == Some(v),
                Err(e) => self@.wpm(delta as nat) is None && e == TypingError::DivisionUndefined,
            },
    {
        defined(rate(self.total_chars_typed, self.total_char_errors, delta))
    }

    /// The live view after `delta` nanoseconds.
    pub fn snap(&self, delta: u128) -> (r: EvalResult)
        requires
            self.wf(),
        ensures
            r == EvalResult::Snap(
                self@.real_time_accuracy(),
                self@.real_time_wpm(delta as nat),
            ),
    {
        EvalResult::Snap(
            self.current_accuracy(),
            rate(self.final_chars_typed_correctly, self.final_uncorrected_errors, delta),
        )
    }

    /// The final view after `delta` nanoseconds.
    pub fn done(&self, delta: u128) -> (r: EvalResult)
        requires
            self.wf(),
        ensures
            r == EvalResult::Done(
                delta,
                self@.real_time_accuracy(),
                self@.accuracy(),
                self@.wpm(delta as nat),
            ),
    {
        EvalResult::Done(
            delta,
            self.current_accuracy(),
            self.lifetime_accuracy(),
            rate(self.total_chars_typed, self.total_char_errors, delta),
        )
    }

    /// Lifetime accuracy, absent when no character was ever committed.
    fn lifetime_accuracy(&self) -> (r: Option<Ratio>)
        requires
            self.wf(),
        ensures
            r == self@.accuracy(),
    {
        if self.total_chars_typed == 0 {
            None
        } else {
            Some(
                Ratio {
                    num: (self.total_chars_typed - self.total_char_errors) as u128,
                    den: self.total_chars_typed as u128,
                },
            )
        }
    }

    /// Current accuracy, absent when no character stands in the input.
    fn current_accuracy(&self) -> (r: Option<Ratio>)
        requires
            self.wf(),
        ensures
            r == self@.real_time_accuracy(),
    {
        if self.final_chars_typed_correctly == 0 && self.final_uncorrected_errors == 0 {
            None
        } else {
            Some(
                Ratio {
                    num: self.final_chars_typed_correctly as u128,
                    den: self.final_chars_typed_correctly as u128
                        + self.final_uncorrected_errors as u128,
                },
            )
        }
    }
}

} // verus!
