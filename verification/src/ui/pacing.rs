//! The frame ceiling: how often the display is redrawn, whatever the audio
//! device's pace.
//!
//! A moving deadline rather than "has a frame's time passed since the last
//! one": buffers that arrive every 5.2ms would take four to clear a 16.7ms gap
//! and turn 60 frames a second into 48. The deadline carries the remainder, so
//! the average comes out at the rate asked for, and it never owes frames it
//! would then draw back to back.

use vstd::prelude::*;

verus! {

/// When the frame after one drawn at `now` is due, with the last deadline at
/// `next` and frames at least `gap` apart.
pub open spec fn following(next: int, now: int, gap: int) -> int {
    if next + gap < now { now + gap } else { next + gap }
}

/// Whether a frame is due at `now_ns`, and the deadline for the one after.
///
/// Before the deadline nothing is drawn and the deadline stands. At or past
/// it a frame is drawn and the deadline moves on by one frame, or, where it
/// had fallen more than a frame behind, to one frame from now.
pub fn frame_due(next_ns: u64, now_ns: u64, min_ns: u64) -> (due: (bool, u64))
    requires
        next_ns + min_ns <= u64::MAX,
        now_ns + min_ns <= u64::MAX,
    ensures
        due.0 == (now_ns >= next_ns),
        due.0 ==> due.1 == following(next_ns as int, now_ns as int, min_ns as int),
        !due.0 ==> due.1 == next_ns,
{
    if now_ns < next_ns {
        return (false, next_ns);
    }
    let mut next = next_ns + min_ns;
    if next < now_ns {
        next = now_ns + min_ns;
    }
    (true, next)
}

/// A drawn frame leaves the next deadline neither in the past nor more than a
/// frame ahead: nothing is owed, and nothing is held back longer than a frame.
pub proof fn lemma_the_deadline_stays_within_a_frame(next: int, now: int, gap: int)
    requires
        now >= next,
        gap >= 0,
    ensures
        now <= following(next, now, gap) <= now + gap,
        following(next, now, gap) >= next + gap,
{
}

} // verus!
