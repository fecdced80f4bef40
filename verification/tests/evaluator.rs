use typlap::error::TypingError;
use typlap::evaluator::{EvalResult, Evaluator, Ratio, WORD_RATE};
use typlap::tui::Keystroke;

const MINUTE: u128 = 60_000_000_000;

fn value(r: Ratio) -> f64 {
    r.num as f64 / r.den as f64
}

fn counts(e: &Evaluator) -> (usize, usize, usize, usize) {
    (
        e.total_chars_typed(),
        e.total_char_errors(),
        e.final_chars_typed_correctly(),
        e.final_uncorrected_errors(),
    )
}

fn typed(correct: usize, wrong: usize) -> Evaluator {
    let mut e = Evaluator::new(0);
    for _ in 0..correct {
        e.record(Keystroke::Correct);
    }
    for _ in 0..wrong {
        e.record(Keystroke::Incorrect);
    }
    e
}

#[test]
fn new_evaluator_counts_nothing() {
    let e = Evaluator::new(17);
    assert_eq!(counts(&e), (0, 0, 0, 0));
    assert_eq!(e.elapsed(17), 0);
    assert_eq!(e.elapsed(20), 3);
}

#[test]
fn events_move_the_counters() {
    let mut e = Evaluator::new(0);
    e.record(Keystroke::Correct);
    assert_eq!(counts(&e), (1, 0, 1, 0));
    e.record(Keystroke::Incorrect);
    assert_eq!(counts(&e), (2, 1, 1, 1));
    e.record(Keystroke::NotApplicable);
    assert_eq!(counts(&e), (2, 1, 1, 1));
    e.undo(false);
    assert_eq!(counts(&e), (2, 1, 1, 0));
    e.undo(true);
    assert_eq!(counts(&e), (2, 1, 0, 0));
}

#[test]
fn reset_clears_counters_and_leaves_the_clock() {
    let mut e = typed(3, 2);
    e.start_clock(100);
    e.reset();
    assert_eq!(counts(&e), (0, 0, 0, 0));
    assert_eq!(e.elapsed(150), 50);
}

#[test]
fn accuracy_is_right_over_total() {
    let e = typed(3, 1);
    assert_eq!(e.accuracy(), Ok(Ratio { num: 3, den: 4 }));
    assert_eq!(value(e.accuracy().unwrap()), 0.75);
    assert_eq!(e.real_time_accuracy(), Ok(Ratio { num: 3, den: 4 }));
}

#[test]
fn accuracies_differ_after_a_correction() {
    let mut e = typed(3, 1);
    e.undo(false);
    e.record(Keystroke::Correct);
    assert_eq!(e.accuracy(), Ok(Ratio { num: 4, den: 5 }));
    assert_eq!(e.real_time_accuracy(), Ok(Ratio { num: 4, den: 4 }));
    assert_eq!(value(e.real_time_accuracy().unwrap()), 1.0);
}

#[test]
fn accuracy_without_keystrokes_is_undefined() {
    let e = Evaluator::new(0);
    assert_eq!(e.accuracy(), Err(TypingError::DivisionUndefined));
    assert_eq!(e.real_time_accuracy(), Err(TypingError::DivisionUndefined));
    let mut e = typed(0, 1);
    e.undo(false);
    assert_eq!(e.accuracy(), Ok(Ratio { num: 0, den: 1 }));
    assert_eq!(e.real_time_accuracy(), Err(TypingError::DivisionUndefined));
}

#[test]
fn wpm_is_net_words_over_minutes() {
    let e = typed(48, 2);
    let r = e.wpm(MINUTE).unwrap();
    assert_eq!(r, Ratio { num: 40 * WORD_RATE, den: MINUTE });
    assert_eq!(value(r), 8.0);
    assert_eq!(value(e.wpm(MINUTE / 2).unwrap()), 16.0);
    let r = e.real_time_wpm(2 * MINUTE).unwrap();
    assert_eq!(r, Ratio { num: 38 * WORD_RATE, den: 2 * MINUTE });
    assert_eq!(value(r), 3.8);
}

#[test]
fn wpm_does_not_go_below_zero() {
    let e = typed(4, 1);
    assert_eq!(e.wpm(MINUTE), Ok(Ratio { num: 0, den: MINUTE }));
    assert_eq!(e.real_time_wpm(MINUTE), Ok(Ratio { num: 0, den: MINUTE }));
    let e = typed(4, 2);
    assert_eq!(e.wpm(MINUTE), Ok(Ratio { num: 0, den: MINUTE }));
}

#[test]
fn wpm_over_no_time_is_undefined() {
    let e = typed(10, 0);
    assert_eq!(e.wpm(0), Err(TypingError::DivisionUndefined));
    assert_eq!(e.real_time_wpm(0), Err(TypingError::DivisionUndefined));
}

#[test]
fn snap_and_done_bundle_the_figures() {
    let mut e = typed(9, 1);
    e.undo(false);
    assert_eq!(
        e.snap(MINUTE),
        EvalResult::Snap(
            Some(Ratio { num: 9, den: 9 }),
            Some(Ratio { num: 9 * WORD_RATE, den: MINUTE }),
        )
    );
    assert_eq!(
        e.done(MINUTE),
        EvalResult::Done(
            MINUTE,
            Some(Ratio { num: 9, den: 9 }),
            Some(Ratio { num: 9, den: 10 }),
            Some(Ratio { num: 5 * WORD_RATE, den: MINUTE }),
        )
    );
    let empty = Evaluator::new(0);
    assert_eq!(empty.snap(0), EvalResult::Snap(None, None));
    assert_eq!(empty.done(0), EvalResult::Done(0, None, None, None));
}

#[test]
fn the_clock_starts_and_stops() {
    let mut e = Evaluator::new(5);
    e.start_clock(1_000);
    assert_eq!(e.elapsed(4_000), 3_000);
    assert_eq!(e.elapsed(500), 0);
    assert_eq!(e.stop_clock(2_500), 1_500);
    assert_eq!(e.elapsed(2_500), 1_500);
}
