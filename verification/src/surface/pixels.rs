//! Keeping count of the frames staged for a terminal that reads pixels.
//!
//! Each frame is written to a file of its own and the terminal is told the
//! path. A name is never reused - reusing one would rewrite a file a pending
//! escape sequence still names - and a frame left unread for longer than the
//! tolerated lag is reclaimed, because in `/dev/shm` an abandoned frame is
//! resident memory. The writing and deleting are the caller's; which names to
//! write and delete is decided here.

use vstd::prelude::*;
use vstd::string::StringExecFns;
use crate::strings::{decimal, push_decimal, lemma_decimal_is_injective};
use crate::surface::kitty::{apc, command_body, Command};

verus! {

/// How long a frame may go unread before its staging file is reclaimed, in
/// frames: 133ms of tolerated lag at 60fps.
pub const LAG_TOLERATED: u64 = 8;

/// The file a frame is staged in, for the process with id `process`.
pub open spec fn staged_name(process: u32, tick: u64) -> Seq<char> {
    "rav-"@ + decimal(process as nat) + "-"@ + decimal(tick as nat) + ".rgba"@
}

/// The frames still staged once `sent` have been sent: the ones not yet old
/// enough to have been reclaimed.
pub open spec fn live(sent: u64) -> Set<u64> {
    Set::new(|tick: u64| sent - LAG_TOLERATED <= tick < sent)
}

/// Sends frames, and cleans up after the ones the terminal did not read.
#[derive(Debug, Default)]
pub struct Pixels {
    sent: u64,
}

impl Pixels {
    /// How many frames have been sent.
    pub closed spec fn count(&self) -> u64 {
        self.sent
    }

    pub fn new() -> (pixels: Self)
        ensures
            pixels.count() == 0,
    {
        Pixels { sent: 0 }
    }

    /// The tick the next frame is staged under.
    pub fn next_tick(&self) -> (tick: u64)
        ensures
            tick == self.count(),
    {
        self.sent
    }

    /// The frame to reclaim once the next one is staged, if one is old enough.
    pub fn stale(&self) -> (tick: Option<u64>)
        ensures
            tick == if self.count() >= LAG_TOLERATED {
                Some((self.count() - LAG_TOLERATED) as u64)
            } else {
                None
            },
    {
        self.sent.checked_sub(LAG_TOLERATED)
    }

    /// Record that a frame went out.
    pub fn sent_one(&mut self)
        requires
            old(self).count() < u64::MAX,
        ensures
            final(self).count() == old(self).count() + 1,
    {
        self.sent = self.sent + 1;
    }

    /// The ticks of every frame staged and not yet reclaimed, as a range: the
    /// ones to remove when shutting down.
    pub fn unreclaimed(&self) -> (ticks: (u64, u64))
        ensures
            ticks.0 == if self.count() >= LAG_TOLERATED { self.count() - LAG_TOLERATED } else { 0 },
            ticks.1 == self.count(),
            forall|tick: u64| ticks.0 <= tick < ticks.1 <==> #[trigger] live(self.count()).contains(tick),
    {
        (self.sent.saturating_sub(LAG_TOLERATED), self.sent)
    }

    /// The command that tells the terminal to draw a frame staged at `frame`.
    pub fn command<'a>(frame: &'a str, bytes: usize, width: u32, height: u32) -> (out: String)
        ensures
            out@ == apc(
                command_body(Command::Draw { frame, bytes, width, height }),
            ),
    {
        Command::Draw { frame, bytes, width, height }.escape()
    }
}

/// The name a frame is staged under: `rav-<process>-<tick>.rgba`.
pub fn staged_file(process: u32, tick: u64) -> (name: String)
    ensures
        name@ == staged_name(process, tick),
{
    let mut name = String::from_str("rav-");
    push_decimal(&mut name, process as u64);
    name.append("-");
    push_decimal(&mut name, tick);
    name.append(".rgba");
    name
}

/// Every frame is staged under a name of its own: two ticks of one process
/// never share a file.
pub proof fn lemma_names_are_never_reused(process: u32, a: u64, b: u64)
    requires
        staged_name(process, a) == staged_name(process, b),
    ensures
        a == b,
{
    let head = "rav-"@ + decimal(process as nat) + "-"@;
    let tail = ".rgba"@;
    assert(staged_name(process, a) =~= head + decimal(a as nat) + tail);
    assert(staged_name(process, b) =~= head + decimal(b as nat) + tail);
    let sa = staged_name(process, a);
    assert(sa.skip(head.len() as int).take(decimal(a as nat).len() as int) =~= decimal(a as nat));
    assert(sa.skip(head.len() as int).take(decimal(b as nat).len() as int) =~= decimal(b as nat));
    assert(decimal(a as nat).len() == decimal(b as nat).len());
    lemma_decimal_is_injective(a as nat, b as nat);
}

/// Staging one more frame and reclaiming the stale one keeps the staged set
/// exactly the last few frames: the new one joins, the one past the tolerated
/// lag leaves, and there are never more than `LAG_TOLERATED` of them.
pub proof fn lemma_staging_stays_bounded(sent: u64)
    requires
        sent < u64::MAX,
    ensures
        live((sent + 1) as u64) == (if sent >= LAG_TOLERATED {
            live(sent).insert(sent).remove((sent - LAG_TOLERATED) as u64)
        } else {
            live(sent).insert(sent)
        }),
        live(sent).subset_of(Set::new(|t: u64| sent - LAG_TOLERATED <= t < sent)),
        live(sent).finite(),
        live(sent).len() <= LAG_TOLERATED,
        live(sent).len() == if sent >= LAG_TOLERATED { LAG_TOLERATED } else { sent },
{
    let next = (sent + 1) as u64;
    if sent >= LAG_TOLERATED {
        assert(live(next) =~= live(sent).insert(sent).remove((sent - LAG_TOLERATED) as u64));
    } else {
        assert(live(next) =~= live(sent).insert(sent));
    }
    let low: int = if sent >= LAG_TOLERATED { sent - LAG_TOLERATED } else { 0 };
    let ints = vstd::set_lib::set_int_range(low, sent as int);
    vstd::set_lib::lemma_int_range(low, sent as int);
    let as_ints = live(sent).map(|t: u64| t as int);
    assert(as_ints =~= ints) by {
        assert forall|x: int| ints.contains(x) implies as_ints.contains(x) by {
            assert(live(sent).contains(x as u64));
        }
    }
    assert(live(sent) =~= ints.map(|x: int| x as u64)) by {
        assert forall|t: u64| live(sent).contains(t) implies ints.map(|x: int| x as u64).contains(t) by {
            assert(ints.contains(t as int));
        }
    }
    vstd::set_lib::lemma_map_size(ints, live(sent), |x: int| x as u64);
}

} // verus!
