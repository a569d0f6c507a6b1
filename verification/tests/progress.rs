use what::progress::{Loading, Outcome, Paint, Phase, Signal, FRAME_MILLIS, GLYPHS};

const WAITING: Signal = Signal::Poll { finished: false };
const ENDED: Signal = Signal::Poll { finished: true };

fn painted(signals: &[Signal]) -> Vec<Paint> {
    let mut loading = Loading::start("capturing", "captured", "capture failed");
    signals.iter().map(|signal| loading.step(*signal)).collect()
}

#[test]
fn supervision_begins_before_the_first_frame() {
    let loading = Loading::start("capturing", "captured", "capture failed");
    assert_eq!(loading.phase, Phase::Spinning);
    assert_eq!(loading.frame, 0);
    assert_eq!(loading.loading_message, "capturing");
    assert_eq!(loading.complete_message, "captured");
    assert_eq!(loading.error_message, "capture failed");
}

#[test]
fn failing_work_is_cleared_once_and_halts() {
    let paints = painted(&[WAITING, WAITING, WAITING, ENDED, Signal::Joined(Outcome::Failed)]);
    assert_eq!(
        paints,
        vec![
            Paint::Frame("\u{28fe} capturing\r".to_string()),
            Paint::Frame("\u{28f7} capturing\r".to_string()),
            Paint::Frame("\u{28ef} capturing\r".to_string()),
            Paint::Clear,
            Paint::Halt("capture failed".to_string()),
        ]
    );
    assert_eq!(paints.iter().filter(|paint| **paint == Paint::Clear).count(), 1);
}

#[test]
fn succeeding_work_is_cleared_once_and_completes() {
    let paints = painted(&[WAITING, ENDED, Signal::Joined(Outcome::Succeeded)]);
    assert_eq!(
        paints,
        vec![
            Paint::Frame("\u{28fe} capturing\r".to_string()),
            Paint::Clear,
            Paint::Complete("captured\r\n".to_string()),
        ]
    );
}

#[test]
fn work_that_ended_before_the_first_frame() {
    assert_eq!(
        painted(&[ENDED, Signal::Joined(Outcome::Succeeded)]),
        vec![Paint::Clear, Paint::Complete("captured\r\n".to_string())]
    );
}

#[test]
fn lost_work_halts() {
    assert_eq!(
        painted(&[ENDED, Signal::Joined(Outcome::Lost)]),
        vec![Paint::Clear, Paint::Halt("corotine issue fetching terminal output".to_string())]
    );
}

#[test]
fn animation_runs_in_a_cycle() {
    let paints = painted(&[WAITING; 17]);
    let glyphs = ["\u{28fe}", "\u{28f7}", "\u{28ef}", "\u{28df}", "\u{287f}", "\u{28bf}", "\u{28fb}", "\u{28fd}"];
    for (at, paint) in paints.iter().enumerate() {
        assert_eq!(*paint, Paint::Frame(format!("{} capturing\r", glyphs[at % 8])));
    }
}

#[test]
fn nothing_is_painted_out_of_turn() {
    let paints = painted(&[
        Signal::Joined(Outcome::Failed),
        WAITING,
        ENDED,
        WAITING,
        ENDED,
        Signal::Joined(Outcome::Failed),
        WAITING,
        ENDED,
        Signal::Joined(Outcome::Succeeded),
    ]);
    assert_eq!(
        paints,
        vec![
            Paint::Nothing,
            Paint::Frame("\u{28fe} capturing\r".to_string()),
            Paint::Clear,
            Paint::Nothing,
            Paint::Nothing,
            Paint::Halt("capture failed".to_string()),
            Paint::Nothing,
            Paint::Nothing,
            Paint::Nothing,
        ]
    );
}

#[test]
fn pace_of_the_animation() {
    assert_eq!(FRAME_MILLIS, 100);
    assert_eq!(GLYPHS, 8);
}

#[test]
fn phases_move_forward() {
    let mut loading = Loading::start("a", "b", "c");
    loading.step(WAITING);
    assert_eq!((loading.phase, loading.frame), (Phase::Spinning, 1));
    loading.step(ENDED);
    assert_eq!((loading.phase, loading.frame), (Phase::Settling, 1));
    loading.step(WAITING);
    assert_eq!((loading.phase, loading.frame), (Phase::Settling, 1));
    loading.step(Signal::Joined(Outcome::Failed));
    assert_eq!((loading.phase, loading.frame), (Phase::Done, 1));
    loading.step(Signal::Joined(Outcome::Succeeded));
    assert_eq!((loading.phase, loading.frame), (Phase::Done, 1));
}
