//! The quantities rav works in that are counts rather than measurements.
//!
//! Every type here is a plain `Copy` value, so keeping them apart costs nothing
//! at runtime: a count of cells and a count of samples are different things and
//! the compiler can tell them apart.

use vstd::prelude::*;

verus! {

/// Where `index` lands on a ladder of `count` steps: clamped to the last one.
pub open spec fn clamped_step(index: int, count: int) -> int {
    let count = if count <= 0 { 1 } else { count };
    if index < count { index } else { count - 1 }
}

/// The position `index` of `count` steps, moved onto a ladder of `to` steps and
/// rounded to the nearest one, halves upward.
pub open spec fn rescaled_index(index: int, count: int, to: int) -> int {
    if count <= 1 {
        0
    } else {
        let last = if to <= 0 { 0 } else { to - 1 };
        (2 * index * last + (count - 1)) / (2 * (count - 1))
    }
}

/// One of a fixed number of steps a skin or a theme offers.
///
/// The whole of what the core knows about either: how many, and which one -
/// never what any of them look like.
#[derive(Debug, Clone, Copy, PartialEq, Eq)]
pub struct Step {
    index: usize,
    count: usize,
}

impl Step {
    /// Which step this is, counted from zero.
    pub closed spec fn at(self) -> int {
        self.index as int
    }

    /// How many steps there are.
    pub closed spec fn of(self) -> int {
        self.count as int
    }

    /// There is always at least one step, and the index addresses one of them.
    pub closed spec fn wf(self) -> bool {
        0 < self.count && self.index < self.count
    }

    /// Held inside the range, so an index can never address past a skin's
    /// glyphs or a theme's stops however it was arrived at.
    pub fn new(index: usize, count: usize) -> (step: Self)
        ensures
            step.wf(),
            step.of() == if count == 0 { 1 } else { count as int },
            step.at() == clamped_step(index as int, count as int),
    {
        let count = if count == 0 { 1 } else { count };
        Step { index: if index < count { index } else { count - 1 }, count }
    }

    pub fn index(self) -> (i: usize)
        ensures
            i == self.at(),
    {
        self.index
    }

    pub fn count(self) -> (n: usize)
        ensures
            n == self.of(),
    {
        self.count
    }

    pub fn is_first(self) -> (b: bool)
        ensures
            b == (self.at() == 0),
    {
        self.index == 0
    }

    pub fn is_last(self) -> (b: bool)
        requires
            self.wf(),
        ensures
            b == (self.at() + 1 == self.of()),
    {
        self.index + 1 == self.count
    }

    /// The same position expressed against a different number of steps.
    ///
    /// How one setting drives surfaces that disagree about resolution: an
    /// eight-step glyph ladder and a two-hundred-step strip of lights are the
    /// same fraction at different granularities.
    pub fn rescaled(self, count: usize) -> (step: Self)
        requires
            self.wf(),
        ensures
            step.wf(),
            step.of() == if count == 0 { 1 } else { count as int },
            step.at() == clamped_step(rescaled_index(self.at(), self.of(), count as int), count as int),
    {
        if self.count <= 1 {
            return Self::new(0, count);
        }
        let last: usize = if count == 0 { 0 } else { count - 1 };
        let steps: u128 = (self.count - 1) as u128;
        proof {
            assert((self.index as int) * (last as int) <= u128::MAX) by (nonlinear_arith)
                requires self.index as int <= usize::MAX, last as int <= usize::MAX, usize::MAX < 0x1_0000_0000_0000_0000int;
        }
        let product: u128 = (self.index as u128) * (last as u128);
        let whole: u128 = product / steps;
        let rest: u128 = product % steps;
        proof {
            assert((self.index as int) * (last as int) <= (steps as int) * (last as int)) by (nonlinear_arith)
                requires self.index as int <= steps as int, last as int >= 0;
            lemma_rounding(product as int, steps as int, last as int);
            assert(2 * (self.index as int) * (last as int) == 2 * (product as int)) by (nonlinear_arith)
                requires product as int == (self.index as int) * (last as int);
        }
        let rounded: u128 = if 2 * rest >= steps { whole + 1 } else { whole };
        Self::new(rounded as usize, count)
    }
}

/// Rounding `product / steps` to the nearest whole number, halves up, is what
/// `rescaled_index` computes, and never passes `last` when `product` does not
/// pass `steps * last`.
proof fn lemma_rounding(product: int, steps: int, last: int)
    requires
        steps > 0,
        last >= 0,
        0 <= product <= steps * last,
    ensures
        (if 2 * (product % steps) >= steps { product / steps + 1 } else { product / steps })
            == (2 * product + steps) / (2 * steps),
        (2 * product + steps) / (2 * steps) <= last,
{
    let q = product / steps;
    let r = product % steps;
    assert(product == steps * q + r && 0 <= r < steps) by (nonlinear_arith)
        requires steps > 0, q == product / steps, r == product % steps;
    if 2 * r >= steps {
        assert(2 * product + steps == (2 * steps) * (q + 1) + (2 * r - steps)) by (nonlinear_arith)
            requires product == steps * q + r;
        assert((2 * product + steps) / (2 * steps) == q + 1) by (nonlinear_arith)
            requires 2 * product + steps == (2 * steps) * (q + 1) + (2 * r - steps), 0 <= 2 * r - steps < 2 * steps;
    } else {
        assert(2 * product + steps == (2 * steps) * q + (2 * r + steps)) by (nonlinear_arith)
            requires product == steps * q + r;
        assert((2 * product + steps) / (2 * steps) == q) by (nonlinear_arith)
            requires 2 * product + steps == (2 * steps) * q + (2 * r + steps), 0 <= 2 * r + steps < 2 * steps;
    }
    assert((2 * product + steps) / (2 * steps) <= last) by (nonlinear_arith)
        requires 0 <= product <= steps * last, steps > 0, last >= 0;
}

/// A well-formed step stands on a ladder of at least one step, at one of them.
pub proof fn lemma_a_step_is_on_its_ladder(step: Step)
    requires
        step.wf(),
    ensures
        1 <= step.of(),
        0 <= step.at() < step.of(),
{
}

/// Rescaling a step onto the ladder it is already on gives back the same step.
pub proof fn lemma_rescaled_to_its_own_count(step: Step, to: Step)
    requires
        step.wf(),
        to.wf(),
        to.of() == step.of(),
        to.at() == clamped_step(rescaled_index(step.at(), step.of(), step.of()), step.of()),
    ensures
        to == step,
{
    lemma_rescale_to_own_count_is_identity(step);
}

/// Rescaling a step onto the ladder it is already on leaves it where it was.
pub proof fn lemma_rescale_to_own_count_is_identity(step: Step)
    requires
        step.wf(),
    ensures
        clamped_step(rescaled_index(step.at(), step.of(), step.of()), step.of()) == step.at(),
{
    let i = step.at();
    let c = step.of();
    if c > 1 {
        assert(2 * i * (c - 1) + (c - 1) == (2 * (c - 1)) * i + (c - 1)) by (nonlinear_arith);
        assert(((2 * (c - 1)) * i + (c - 1)) / (2 * (c - 1)) == i) by (nonlinear_arith)
            requires c > 1, i >= 0;
    }
}

/// The first step stays first on any ladder, and the last step of a ladder with
/// more than one step stays last on any ladder: the two ends of a range are the
/// two ends of every range.
pub proof fn lemma_rescale_keeps_the_ends(step: Step, to: int)
    requires
        step.wf(),
        to > 0,
    ensures
        step.at() == 0 ==> clamped_step(rescaled_index(step.at(), step.of(), to), to) == 0,
        step.of() > 1 && step.at() + 1 == step.of()
            ==> clamped_step(rescaled_index(step.at(), step.of(), to), to) == to - 1,
{
    let i = step.at();
    let c = step.of();
    if c > 1 {
        if i == 0 {
            assert((2 * 0 * (to - 1) + (c - 1)) / (2 * (c - 1)) == 0) by (nonlinear_arith)
                requires c > 1;
        }
        if i + 1 == c {
            assert(2 * i * (to - 1) + (c - 1) == (2 * (c - 1)) * (to - 1) + (c - 1)) by (nonlinear_arith)
                requires i == c - 1;
            assert(((2 * (c - 1)) * (to - 1) + (c - 1)) / (2 * (c - 1)) == to - 1) by (nonlinear_arith)
                requires c > 1, to > 0;
        }
    }
}

/// How far a level fills a ladder: whole rungs, plus how full the next one is.
#[derive(Debug, Clone, Copy, PartialEq, Eq)]
pub struct Fill {
    /// Rungs completely filled.
    pub whole: usize,
    /// How far into the rung above them.
    pub part: Step,
}

impl Fill {
    /// Whether the rung above the whole ones carries anything at all.
    pub fn has_part(self) -> (b: bool)
        ensures
            b == (self.part.at() != 0),
    {
        !self.part.is_first()
    }
}

/// A count of terminal cells - columns or rows.
#[derive(Debug, Clone, Copy, PartialEq, Eq, PartialOrd, Ord, Default)]
pub struct Cells(pub u16);

impl Cells {
    pub fn count(self) -> (n: u16)
        ensures
            n == self.0,
    {
        self.0
    }

    pub fn is_none(self) -> (b: bool)
        ensures
            b == (self.0 == 0),
    {
        self.0 == 0
    }
}

/// The size of one terminal cell, as the terminal reports it, in pixels.
#[derive(Debug, Clone, Copy, PartialEq, Eq)]
pub struct CellSize {
    pub width: u16,
    pub height: u16,
}

/// Samples per second.
#[derive(Debug, Clone, Copy, PartialEq, Eq, PartialOrd, Ord)]
pub struct SampleRate(pub u32);

impl SampleRate {
    pub fn get(self) -> (n: u32)
        ensures
            n == self.0,
    {
        self.0
    }
}

} // verus!
