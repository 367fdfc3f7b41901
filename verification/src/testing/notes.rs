//! Musical material whose ground truth is known before it is analysed: notes,
//! as MIDI numbers.

use vstd::prelude::*;

verus! {

/// A note, as a MIDI number: 60 is middle C, 69 is concert A.
#[derive(Debug, Clone, Copy, PartialEq, Eq, Structural, PartialOrd, Ord)]
pub struct Note(pub u8);

impl Note {
    /// The same note `octaves` higher: twelve semitones each.
    pub fn octave_up(self, octaves: u8) -> (note: Self)
        requires
            self.0 + 12 * octaves <= u8::MAX,
        ensures
            note.0 == self.0 + 12 * octaves,
    {
        Note(self.0 + 12 * octaves)
    }
}

/// Going up `a` octaves and then `b` is going up `a + b`.
pub proof fn lemma_octaves_add(note: Note, a: int, b: int)
    requires
        a >= 0,
        b >= 0,
    ensures
        (note.0 + 12 * a) + 12 * b == note.0 + 12 * (a + b),
{
}

} // verus!
