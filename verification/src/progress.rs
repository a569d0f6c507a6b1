//! The indicator that is shown while one unit of work runs in the
//! background.
//!
//! The supervisor neither runs nor inspects the work.  It is told, between
//! two frames, whether the work has ended, and at last how it ended; it
//! answers with what is to be painted.  [`Loading`] holds where the
//! supervision stands.

use vstd::prelude::*;
use vstd::string::*;

verus! {

/// Where the supervision stands.
#[derive(Clone, Copy, Debug, PartialEq, Eq, Structural)]
pub enum Phase {
    /// The work runs; frames are painted.
    Spinning,
    /// The line is cleared; the work's outcome is awaited.
    Settling,
    /// The outcome is shown.
    Done,
}

/// How the work ended.
#[derive(Clone, Copy, Debug, PartialEq, Eq, Structural)]
pub enum Outcome {
    /// It yielded its value.
    Succeeded,
    /// It yielded a failure.
    Failed,
    /// It was lost before it yielded anything.
    Lost,
}

/// What the supervisor is told.
#[derive(Clone, Copy, Debug, PartialEq, Eq, Structural)]
pub enum Signal {
    /// The time of one frame has passed; `finished` says whether the work
    /// has ended.
    Poll { finished: bool },
    /// The work was joined, with this outcome.
    Joined(Outcome),
}

/// The kinds of things that are painted.
#[derive(Clone, Copy, Debug, PartialEq, Eq, Structural)]
pub enum Mark {
    Nothing,
    Frame,
    Clear,
    Complete,
    Halt,
}

/// What is to be painted.
#[derive(Debug, PartialEq, Eq)]
pub enum Paint {
    /// Nothing.
    Nothing,
    /// One frame of the animation, written over the current line.
    Frame(String),
    /// The current line is cleared.
    Clear,
    /// The message of success; the work's value goes to the caller.
    Complete(String),
    /// The message of failure; the process stops here.
    Halt(String),
}

impl Paint {
    /// The kind of the thing painted.
    pub open spec fn mark(self) -> Mark {
        match self {
            Paint::Nothing => Mark::Nothing,
            Paint::Frame(_) => Mark::Frame,
            Paint::Clear => Mark::Clear,
            Paint::Complete(_) => Mark::Complete,
            Paint::Halt(_) => Mark::Halt,
        }
    }

    /// The text painted, where there is one.
    pub open spec fn text(self) -> Seq<char> {
        match self {
            Paint::Frame(text) => text@,
            Paint::Complete(text) => text@,
            Paint::Halt(text) => text@,
            _ => Seq::empty(),
        }
    }
}

/// The number of glyphs in the animation's cycle.
pub const GLYPHS: u8 = 8;

/// The time between two polls, in milliseconds.
pub const FRAME_MILLIS: u64 = 100;

/// The glyph of the frame at `frame` in the cycle.
pub open spec fn glyph(frame: u8) -> Seq<char> {
    if frame == 0 {
        "\u{28fe}"@
    } else if frame == 1 {
        "\u{28f7}"@
    } else if frame == 2 {
        "\u{28ef}"@
    } else if frame == 3 {
        "\u{28df}"@
    } else if frame == 4 {
        "\u{287f}"@
    } else if frame == 5 {
        "\u{28bf}"@
    } else if frame == 6 {
        "\u{28fb}"@
    } else {
        "\u{28fd}"@
    }
}

/// The place in the cycle that follows `frame`.
pub open spec fn next_frame(frame: u8) -> u8 {
    if frame + 1 < GLYPHS {
        (frame + 1) as u8
    } else {
        0
    }
}

/// What is said where the work was lost.
pub open spec fn lost_message() -> Seq<char> {
    "corotine issue fetching terminal output"@
}

/// The phase that follows a signal.  The first poll that finds the work
/// ended leaves `Spinning`, and the join leaves `Settling`; a signal that
/// does not belong to the phase changes nothing.
pub open spec fn next_phase(phase: Phase, signal: Signal) -> Phase {
    match (phase, signal) {
        (Phase::Spinning, Signal::Poll { finished: true }) => Phase::Settling,
        (Phase::Settling, Signal::Joined(_)) => Phase::Done,
        _ => phase,
    }
}

/// The kind of thing that a signal has painted in a phase.
pub open spec fn mark_of(phase: Phase, signal: Signal) -> Mark {
    match (phase, signal) {
        (Phase::Spinning, Signal::Poll { finished: false }) => Mark::Frame,
        (Phase::Spinning, Signal::Poll { finished: true }) => Mark::Clear,
        (Phase::Settling, Signal::Joined(Outcome::Succeeded)) => Mark::Complete,
        (Phase::Settling, Signal::Joined(_)) => Mark::Halt,
        _ => Mark::Nothing,
    }
}

/// The phase reached from `phase` by the signals.
pub open spec fn phase_after(phase: Phase, signals: Seq<Signal>) -> Phase
    decreases signals.len(),
{
    if signals.len() == 0 {
        phase
    } else {
        next_phase(phase_after(phase, signals.drop_last()), signals.last())
    }
}

/// What the signals have painted, one mark for each, from `phase` on.
pub open spec fn marks(phase: Phase, signals: Seq<Signal>) -> Seq<Mark>
    decreases signals.len(),
{
    if signals.len() == 0 {
        Seq::empty()
    } else {
        marks(phase, signals.drop_last()).push(
            mark_of(phase_after(phase, signals.drop_last()), signals.last()),
        )
    }
}

/// How often the line was cleared.
pub open spec fn clears(painted: Seq<Mark>) -> nat
    decreases painted.len(),
{
    if painted.len() == 0 {
        0
    } else if painted.last() == Mark::Clear {
        clears(painted.drop_last()) + 1
    } else {
        clears(painted.drop_last())
    }
}

/// How many frames were painted.
pub open spec fn frames(painted: Seq<Mark>) -> nat
    decreases painted.len(),
{
    if painted.len() == 0 {
        0
    } else if painted.last() == Mark::Frame {
        frames(painted.drop_last()) + 1
    } else {
        frames(painted.drop_last())
    }
}

/// The supervision of one unit of work.
#[derive(Debug, PartialEq, Eq)]
pub struct Loading {
    pub phase: Phase,
    /// The place of the next frame in the animation's cycle.
    pub frame: u8,
    pub loading_message: String,
    pub complete_message: String,
    pub error_message: String,
}

fn glyph_text(frame: u8) -> (text: &'static str)
    ensures
        text@ == glyph(frame),
{
    if frame == 0 {
        "\u{28fe}"
    } else if frame == 1 {
        "\u{28f7}"
    } else if frame == 2 {
        "\u{28ef}"
    } else if frame == 3 {
        "\u{28df}"
    } else if frame == 4 {
        "\u{287f}"
    } else if frame == 5 {
        "\u{28bf}"
    } else if frame == 6 {
        "\u{28fb}"
    } else {
        "\u{28fd}"
    }
}

impl Loading {
    /// The frame that is painted next: its glyph, the message, and a return
    /// to the start of the line.
    pub open spec fn frame_text(self) -> Seq<char> {
        glyph(self.frame) + " "@ + self.loading_message@ + "\r"@
    }

    /// What is painted for the outcome, once the line is cleared.
    pub open spec fn outcome_text(self, outcome: Outcome) -> Seq<char> {
        match outcome {
            Outcome::Succeeded => self.complete_message@ + "\r\n"@,
            Outcome::Failed => self.error_message@,
            Outcome::Lost => lost_message(),
        }
    }

    /// The text that is painted for a signal, where one is.
    pub open spec fn text_for(self, signal: Signal) -> Seq<char> {
        match (self.phase, signal) {
            (Phase::Spinning, Signal::Poll { finished: false }) => self.frame_text(),
            (Phase::Settling, Signal::Joined(outcome)) => self.outcome_text(outcome),
            _ => Seq::empty(),
        }
    }

    /// Begins the supervision of work that has just been started: nothing is
    /// painted yet, and the animation is at its first glyph.
    pub fn start(loading_message: &str, complete_message: &str, error_message: &str) -> (loading:
        Loading)
        ensures
            loading.phase == Phase::Spinning,
            loading.frame == 0,
            loading.loading_message@ == loading_message@,
            loading.complete_message@ == complete_message@,
            loading.error_message@ == error_message@,
    {
        Loading {
            phase: Phase::Spinning,
            frame: 0,
            loading_message: loading_message.to_owned(),
            complete_message: complete_message.to_owned(),
            error_message: error_message.to_owned(),
        }
    }

    /// Takes one signal and says what is to be painted for it.
    ///
    /// While the work runs, each poll paints the next frame.  The first poll
    /// that finds the work ended clears the line instead, and no frame
    /// follows.  The join then paints the message of success, or halts with
    /// the message of failure.  A signal that does not belong to the phase
    /// paints nothing and changes nothing.
    pub fn step(&mut self, signal: Signal) -> (paint: Paint)
        ensures
            final(self).phase == next_phase(old(self).phase, signal),
            paint.mark() == mark_of(old(self).phase, signal),
            paint.text() == old(self).text_for(signal),
            final(self).frame == if paint.mark() == Mark::Frame {
                next_frame(old(self).frame)
            } else {
                old(self).frame
            },
            final(self).loading_message == old(self).loading_message,
            final(self).complete_message == old(self).complete_message,
            final(self).error_message == old(self).error_message,
    {
        match (self.phase, signal) {
            (Phase::Spinning, Signal::Poll { finished: false }) => {
                let mut text = String::from_str(glyph_text(self.frame));
                text.append(" ");
                text.append(self.loading_message.as_str());
                text.append("\r");
                self.frame = if self.frame < GLYPHS - 1 {
                    self.frame + 1
                } else {
                    0
                };
                Paint::Frame(text)
            },
            (Phase::Spinning, Signal::Poll { finished: true }) => {
                self.phase = Phase::Settling;
                Paint::Clear
            },
            (Phase::Settling, Signal::Joined(outcome)) => {
                self.phase = Phase::Done;
                match outcome {
                    Outcome::Succeeded => {
                        let mut text = self.complete_message.clone();
                        text.append("\r\n");
                        Paint::Complete(text)
                    },
                    Outcome::Failed => Paint::Halt(self.error_message.clone()),
                    Outcome::Lost => Paint::Halt(
                        String::from_str("corotine issue fetching terminal output"),
                    ),
                }
            },
            _ => Paint::Nothing,
        }
    }
}

/// The phases only move forward, and each phase paints its own marks: frames
/// and the clearing come from `Spinning`, the outcome from `Settling`,
/// nothing from `Done`.
pub proof fn lemma_marks_by_phase(phase: Phase, signals: Seq<Signal>)
    ensures
        marks(phase, signals).len() == signals.len(),
        phase == Phase::Settling ==> phase_after(phase, signals) != Phase::Spinning && clears(
            marks(phase, signals),
        ) == 0 && frames(marks(phase, signals)) == 0,
        phase == Phase::Done ==> phase_after(phase, signals) == Phase::Done,
        phase == Phase::Done ==> forall|i: int|
            0 <= i < signals.len() ==> marks(phase, signals)[i] == Mark::Nothing,
        phase == Phase::Spinning && phase_after(phase, signals) == Phase::Spinning ==> clears(
            marks(phase, signals),
        ) == 0,
        phase == Phase::Spinning && phase_after(phase, signals) != Phase::Spinning ==> clears(
            marks(phase, signals),
        ) == 1,
    decreases signals.len(),
{
    if signals.len() > 0 {
        lemma_marks_by_phase(phase, signals.drop_last());
        assert(marks(phase, signals).drop_last() =~= marks(phase, signals.drop_last()));
    }
}

/// A unit of work whose outcome is painted had its line cleared exactly
/// once before, whether it succeeded or failed.
pub proof fn lemma_cleared_once_before_outcome(signals: Seq<Signal>, at: int)
    requires
        0 <= at < signals.len(),
        marks(Phase::Spinning, signals)[at] == Mark::Complete || marks(Phase::Spinning, signals)[at]
            == Mark::Halt,
    ensures
        clears(marks(Phase::Spinning, signals).take(at)) == 1,
        clears(marks(Phase::Spinning, signals)) == 1,
    decreases signals.len(),
{
    let painted = marks(Phase::Spinning, signals);
    let fewer = signals.drop_last();
    lemma_marks_by_phase(Phase::Spinning, signals);
    lemma_marks_by_phase(Phase::Spinning, fewer);
    assert(painted.drop_last() =~= marks(Phase::Spinning, fewer));
    if at == signals.len() - 1 {
        assert(painted.take(at) =~= marks(Phase::Spinning, fewer));
        assert(phase_after(Phase::Spinning, fewer) == Phase::Settling);
    } else {
        assert(marks(Phase::Spinning, fewer)[at] == painted[at]);
        lemma_cleared_once_before_outcome(fewer, at);
        assert(painted.take(at) =~= marks(Phase::Spinning, fewer).take(at));
    }
}

/// Once the line is cleared no frame is painted and the line is not cleared
/// again: nothing of the animation is left on the screen.
pub proof fn lemma_no_frame_after_clear(signals: Seq<Signal>, cleared: int, later: int)
    requires
        0 <= cleared < later < signals.len(),
        marks(Phase::Spinning, signals)[cleared] == Mark::Clear,
    ensures
        marks(Phase::Spinning, signals)[later] != Mark::Frame,
        marks(Phase::Spinning, signals)[later] != Mark::Clear,
    decreases signals.len(),
{
    let painted = marks(Phase::Spinning, signals);
    let fewer = signals.drop_last();
    lemma_marks_by_phase(Phase::Spinning, signals);
    assert(painted.drop_last() =~= marks(Phase::Spinning, fewer));
    if later == signals.len() - 1 {
        lemma_phase_after_clear(fewer, cleared);
    } else {
        assert(marks(Phase::Spinning, fewer)[cleared] == painted[cleared]);
        assert(marks(Phase::Spinning, fewer)[later] == painted[later]);
        lemma_no_frame_after_clear(fewer, cleared, later);
    }
}

/// Signals among which the line was cleared have left `Spinning`.
proof fn lemma_phase_after_clear(signals: Seq<Signal>, cleared: int)
    requires
        0 <= cleared < signals.len(),
        marks(Phase::Spinning, signals)[cleared] == Mark::Clear,
    ensures
        phase_after(Phase::Spinning, signals) != Phase::Spinning,
    decreases signals.len(),
{
    let fewer = signals.drop_last();
    lemma_marks_by_phase(Phase::Spinning, signals);
    assert(marks(Phase::Spinning, signals).drop_last() =~= marks(Phase::Spinning, fewer));
    if cleared < signals.len() - 1 {
        assert(marks(Phase::Spinning, fewer)[cleared] == marks(Phase::Spinning, signals)[cleared]);
        lemma_phase_after_clear(fewer, cleared);
    }
}

} // verus!
