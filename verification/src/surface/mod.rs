//! Which surface rav draws on, and what it says to a terminal that draws pixels.

pub mod kitty;
pub mod overlay;
pub mod pixels;
pub mod text;
pub mod window;

use vstd::prelude::*;
use crate::strings::same_text;

verus! {

/// Where a frame is drawn.
#[derive(Debug, Clone, Copy, PartialEq, Eq, Structural, Default)]
pub enum Surface {
    /// Unicode block glyphs in a cell grid. Works everywhere.
    #[default]
    Glyphs,
    /// Pixels, over the kitty graphics protocol.
    Kitty,
    /// A window of rav's own.
    Window,
}

/// The name a surface goes by on screen.
pub open spec fn surface_name(surface: Surface) -> Seq<char> {
    match surface {
        Surface::Glyphs => "glyphs"@,
        Surface::Kitty => "pixels"@,
        Surface::Window => "window"@,
    }
}

impl Surface {
    pub fn label(self) -> (label: &'static str)
        ensures
            label@ == surface_name(self),
    {
        match self {
            Surface::Glyphs => "glyphs",
            Surface::Kitty => "pixels",
            Surface::Window => "window",
        }
    }
}

/// What the user asked for.
#[derive(Debug, Clone, Copy, PartialEq, Eq, Structural, Default)]
pub enum Choice {
    /// Ask the terminal, and take the best it admits to.
    #[default]
    Auto,
    Glyphs,
    Kitty,
    Window,
}

/// The spellings a user may type for each choice.
pub open spec fn parsed_choice(text: Seq<char>) -> Option<Choice> {
    if text == "auto"@ {
        Some(Choice::Auto)
    } else if text == "glyphs"@ {
        Some(Choice::Glyphs)
    } else if text == "kitty"@ || text == "pixels"@ {
        Some(Choice::Kitty)
    } else if text == "window"@ || text == "gui"@ {
        Some(Choice::Window)
    } else {
        None
    }
}

impl Choice {
    pub fn parse(text: &str) -> (choice: Option<Self>)
        ensures
            choice == parsed_choice(text@),
    {
        if same_text(text, "auto") {
            Some(Choice::Auto)
        } else if same_text(text, "glyphs") {
            Some(Choice::Glyphs)
        } else if same_text(text, "kitty") || same_text(text, "pixels") {
            Some(Choice::Kitty)
        } else if same_text(text, "window") || same_text(text, "gui") {
            Some(Choice::Window)
        } else {
            None
        }
    }
}

/// Why a surface was chosen, so a wrong choice can be argued with.
#[derive(Debug, Clone, PartialEq, Eq)]
pub struct Chosen {
    pub surface: Surface,
    pub because: &'static str,
}

/// The surface `choose_surface` settles on, given what the terminal would answer.
pub open spec fn chosen_surface(asked: Choice) -> Surface {
    match asked {
        Choice::Kitty => Surface::Kitty,
        _ => Surface::Glyphs,
    }
}

/// The reason `choose_surface` gives, given what the terminal would answer.
pub open spec fn chosen_reason(asked: Choice, multiplexed: bool, answer: bool) -> Seq<char> {
    match asked {
        Choice::Window => "a window of rav's own is not built yet"@,
        Choice::Kitty => "asked for"@,
        Choice::Glyphs => "asked for"@,
        Choice::Auto => if multiplexed {
            "tmux or screen is in the way"@
        } else if answer {
            "your terminal can draw images - try --surface kitty"@
        } else {
            "your terminal cannot draw images"@
        },
    }
}

/// Whether `choose_surface` needs the terminal's answer at all.
pub open spec fn needs_asking(asked: Choice, multiplexed: bool) -> bool {
    asked == Choice::Auto && !multiplexed
}

fn glyphs(because: &'static str) -> (chosen: Chosen)
    ensures
        chosen.surface == Surface::Glyphs,
        chosen.because == because,
{
    Chosen { surface: Surface::Glyphs, because }
}

/// Decide which surface to draw on.
///
/// `asked` is what the user typed; `multiplexed` is whether rav is running under
/// tmux or screen; `answers` asks the terminal whether it admits to the kitty
/// protocol. It is a closure so the arms that ignore the answer never ask:
/// asking writes escape sequences and reads stdin.
///
/// Pixels are only ever drawn where they were asked for - auto reports what
/// the terminal can do and stays on glyphs either way.
pub fn choose_surface<F: FnOnce() -> bool>(asked: Choice, multiplexed: bool, answers: F) -> (chosen: Chosen)
    requires
        needs_asking(asked, multiplexed) ==> answers.requires(()),
    ensures
        chosen.surface == chosen_surface(asked),
        !needs_asking(asked, multiplexed) ==> chosen.because@ == chosen_reason(asked, multiplexed, false),
        needs_asking(asked, multiplexed) ==> exists|answer: bool|
            answers.ensures((), answer) && chosen.because@ == chosen_reason(asked, multiplexed, answer),
{
    match asked {
        // A window of rav's own is not built; saying so beats reporting a
        // surface nothing draws on.
        Choice::Window => glyphs("a window of rav's own is not built yet"),
        // An explicit request is honoured even where auto would decline.
        Choice::Kitty => Chosen { surface: Surface::Kitty, because: "asked for" },
        Choice::Glyphs => glyphs("asked for"),
        Choice::Auto => {
            // A multiplexer rewrites what passes through it, and an image
            // escape does not survive that: auto never picks pixels there.
            if multiplexed {
                glyphs("tmux or screen is in the way")
            } else {
                let answer = answers();
                let chosen = if answer {
                    glyphs("your terminal can draw images - try --surface kitty")
                } else {
                    glyphs("your terminal cannot draw images")
                };
                assert(answers.ensures((), answer) && chosen.because@ == chosen_reason(asked, multiplexed, answer));
                chosen
            }
        },
    }
}

/// `pattern` begins at `at` in `text`.
pub open spec fn occurs_at(text: Seq<u8>, pattern: Seq<u8>, at: int) -> bool {
    0 <= at && at + pattern.len() <= text.len() && forall|k: int|
        0 <= k < pattern.len() ==> #[trigger] text[at + k] == pattern[k]
}

/// Where `pattern` first begins in `text` at or after `from`, or -1.
pub open spec fn find(text: Seq<u8>, pattern: Seq<u8>, from: int) -> int
    decreases text.len() - from,
{
    if from < 0 || from + pattern.len() > text.len() {
        -1
    } else if occurs_at(text, pattern, from) {
        from
    } else {
        find(text, pattern, from + 1)
    }
}

/// What `find` finds is an occurrence, at or after where it looked, and the
/// first one there.
pub proof fn lemma_find(text: Seq<u8>, pattern: Seq<u8>, from: int)
    requires
        from >= 0,
    ensures
        find(text, pattern, from) >= 0 ==> from <= find(text, pattern, from) && occurs_at(
            text,
            pattern,
            find(text, pattern, from),
        ),
        find(text, pattern, from) >= -1,
        forall|i: int|
            from <= i && (find(text, pattern, from) < 0 || i < find(text, pattern, from)) ==> !occurs_at(
                text,
                pattern,
                i,
            ),
    decreases text.len() - from,
{
    if from + pattern.len() > text.len() {
    } else if occurs_at(text, pattern, from) {
    } else {
        lemma_find(text, pattern, from + 1);
    }
}

/// `ESC _ G`, which opens a graphics reply.
pub open spec fn graphics_intro() -> Seq<u8> {
    seq![0x1bu8, 0x5fu8, 0x47u8]
}

/// `ESC \`, which ends one.
pub open spec fn string_end() -> Seq<u8> {
    seq![0x1bu8, 0x5cu8]
}

/// `;OK`, which a graphics reply carries when the terminal accepted the image.
pub open spec fn accepted() -> Seq<u8> {
    seq![0x3bu8, 0x4fu8, 0x4bu8]
}

/// `ESC [ ?`, which opens a device attributes reply.
pub open spec fn attributes_intro() -> Seq<u8> {
    seq![0x1bu8, 0x5bu8, 0x3fu8]
}

/// A digit or a semicolon: what the parameters of an attributes reply are made of.
pub open spec fn is_parameter(b: u8) -> bool {
    (0x30 <= b <= 0x39) || b == 0x3b
}

/// Whether a Primary Device Attributes reply - `CSI ? … c` - has arrived: an
/// `ESC [ ?` followed by nothing but digits and semicolons up to a `c`.
pub open spec fn has_attributes_reply(text: Seq<u8>) -> bool {
    exists|at: int, end: int|
        occurs_at(text, attributes_intro(), at) && at + 3 <= end < text.len() && text[end] == 0x63
            && forall|k: int| at + 3 <= k < end ==> is_parameter(#[trigger] text[k])
}

/// The verdict a reply carries, if it is complete enough to carry one.
///
/// The first graphics reply decides, once its terminator has arrived: whether
/// its body holds `;OK`. Without one, an attributes reply that has arrived is a
/// refusal - the terminal read the graphics query and moved past it.
pub open spec fn verdict(text: Seq<u8>) -> Option<bool> {
    let opened = find(text, graphics_intro(), 0);
    if opened >= 0 {
        let body = opened + 3;
        let closed = find(text, string_end(), body);
        let next = find(text, graphics_intro(), body);
        if closed >= 0 && (next < 0 || closed < next) {
            let ok = find(text, accepted(), body);
            Some(ok >= 0 && ok + 3 <= closed)
        } else {
            None
        }
    } else if has_attributes_reply(text) {
        Some(false)
    } else {
        None
    }
}

/// Bytes arriving after `text` do not move an occurrence already found in it,
/// and an occurrence that was not there can only appear where it reaches past
/// the old end.
proof fn lemma_find_survives_more(text: Seq<u8>, more: Seq<u8>, pattern: Seq<u8>, from: int)
    requires
        from >= 0,
    ensures
        find(text, pattern, from) >= 0 ==> find(text + more, pattern, from) == find(text, pattern, from),
        find(text, pattern, from) < 0 ==> find(text + more, pattern, from) < 0 || find(
            text + more,
            pattern,
            from,
        ) + pattern.len() > text.len(),
    decreases text.len() - from,
{
    let longer = text + more;
    lemma_find(longer, pattern, from);
    if from + pattern.len() > text.len() {
    } else {
        assert(occurs_at(text, pattern, from) == occurs_at(longer, pattern, from)) by {
            if occurs_at(text, pattern, from) {
                assert forall|k: int| 0 <= k < pattern.len() implies #[trigger] longer[from + k] == pattern[k] by {
                    assert(text[from + k] == pattern[k]);
                }
            }
            if occurs_at(longer, pattern, from) {
                assert forall|k: int| 0 <= k < pattern.len() implies #[trigger] text[from + k] == pattern[k] by {
                    assert(longer[from + k] == pattern[k]);
                }
            }
        }
        if !occurs_at(text, pattern, from) {
            lemma_find_survives_more(text, more, pattern, from + 1);
        }
    }
}

/// A verdict read from a graphics reply is final: whatever arrives after it
/// cannot change it. A graphics reply outranks whatever follows it.
pub proof fn lemma_a_graphics_verdict_is_final(text: Seq<u8>, more: Seq<u8>)
    requires
        find(text, graphics_intro(), 0) >= 0,
        verdict(text) is Some,
    ensures
        verdict(text + more) == verdict(text),
{
    let longer = text + more;
    let opened = find(text, graphics_intro(), 0);
    lemma_find_survives_more(text, more, graphics_intro(), 0);
    lemma_find(text, graphics_intro(), 0);
    assert(graphics_intro().len() == 3);
    let body = opened + 3;
    lemma_find_survives_more(text, more, string_end(), body);
    lemma_find_survives_more(text, more, graphics_intro(), body);
    lemma_find_survives_more(text, more, accepted(), body);
    lemma_find(text, string_end(), body);
    lemma_find(longer, graphics_intro(), body);
    let closed = find(text, string_end(), body);
    assert(string_end().len() == 2);
    assert(accepted().len() == 3);
    let next = find(longer, graphics_intro(), body);
    if find(text, graphics_intro(), body) < 0 && next >= 0 {
        assert(next != closed) by {
            if next == closed {
                assert(longer[next + 1] == graphics_intro()[1]);
                assert(text[closed + 1] == string_end()[1]);
            }
        }
    }
}

/// Where `pattern` first begins in `text` at or after `from`.
fn find_in(text: &[u8], pattern: &[u8], from: usize) -> (at: Option<usize>)
    ensures
        match at {
            Some(i) => i as int == find(text@, pattern@, from as int),
            None => find(text@, pattern@, from as int) == -1,
        },
    decreases text.len() - from,
{
    if from > text.len() || pattern.len() > text.len() - from {
        return None;
    }
    let mut k: usize = 0;
    while k < pattern.len()
        invariant
            from + pattern@.len() <= text@.len(),
            k <= pattern@.len(),
            forall|j: int| 0 <= j < k ==> text@[from + j] == pattern@[j],
        decreases pattern.len() - k,
    {
        if text[from + k] != pattern[k] {
            proof {
                assert(!occurs_at(text@, pattern@, from as int)) by {
                    assert(text@[from + k as int] != pattern@[k as int]);
                }
            }
            return find_in(text, pattern, from + 1);
        }
        k += 1;
    }
    proof {
        assert(occurs_at(text@, pattern@, from as int));
    }
    Some(from)
}

/// Read a reply, if it is complete enough to be one.
///
/// `None` means keep waiting: a reply split across two reads is ordinary, and
/// treating a partial one as a refusal would decline terminals that do support
/// this. Works on the bytes as they arrived; every marker it looks for is
/// ASCII, which no other byte of a reply can be mistaken for.
pub fn answered(bytes: &[u8]) -> (answer: Option<bool>)
    ensures
        answer == verdict(bytes@),
{
    let intro: [u8; 3] = [0x1bu8, 0x5fu8, 0x47u8];
    let end: [u8; 2] = [0x1bu8, 0x5cu8];
    let ok: [u8; 3] = [0x3bu8, 0x4fu8, 0x4bu8];
    let intro = intro.as_slice();
    let end = end.as_slice();
    let ok = ok.as_slice();
    proof {
        assert(intro@ =~= graphics_intro());
        assert(end@ =~= string_end());
        assert(ok@ =~= accepted());
    }
    let n = bytes.len();
    match find_in(bytes, intro, 0) {
        Some(opened) => {
            proof {
                lemma_find(bytes@, graphics_intro(), 0);
                assert(graphics_intro().len() == 3);
                assert(occurs_at(bytes@, graphics_intro(), opened as int));
                assert(opened + 3 <= n);
            }
            // The terminator has to have arrived, or the payload may still be
            // growing - and a graphics reply outranks whatever follows it.
            let body = opened + 3;
            let closed = find_in(bytes, end, body);
            let next = find_in(bytes, intro, body);
            match closed {
                Some(closed) => {
                    let first_reply = match next {
                        Some(next) => closed < next,
                        None => true,
                    };
                    if first_reply {
                        let accepted = match find_in(bytes, ok, body) {
                            Some(at) => at <= closed && closed - at >= 3,
                            None => false,
                        };
                        Some(accepted)
                    } else {
                        None
                    }
                },
                None => None,
            }
        },
        None => {
            // No graphics reply, but the terminal has answered the question
            // chained behind it - so it read the first one and moved on.
            if device_attributes(bytes) {
                Some(false)
            } else {
                None
            }
        },
    }
}

/// Whether a Primary Device Attributes reply - `CSI ? … c` - has arrived.
fn device_attributes(text: &[u8]) -> (arrived: bool)
    ensures
        arrived == has_attributes_reply(text@),
{
    let n = text.len();
    let mut at: usize = 0;
    while at <= n && n - at >= 3
        invariant
            n == text@.len(),
            at <= n,
            forall|i: int, end: int|
                0 <= i < at ==> !(occurs_at(text@, attributes_intro(), i) && i + 3 <= end < text@.len()
                    && text@[end] == 0x63 && forall|k: int|
                    i + 3 <= k < end ==> is_parameter(#[trigger] text@[k])),
        decreases n - at,
    {
        if text[at] == 0x1b && text[at + 1] == 0x5b && text[at + 2] == 0x3f {
            proof {
                assert(occurs_at(text@, attributes_intro(), at as int)) by {
                    assert forall|k: int| 0 <= k < 3 implies #[trigger] text@[at + k] == attributes_intro()[k] by {
                        if k == 0 {} else if k == 1 {} else {}
                    }
                }
            }
            let mut end: usize = at + 3;
            while end < n && ((text[end] >= 0x30 && text[end] <= 0x39) || text[end] == 0x3b)
                invariant
                    n == text@.len(),
                    at + 3 <= end <= n,
                    forall|k: int| at + 3 <= k < end ==> is_parameter(#[trigger] text@[k]),
                decreases n - end,
            {
                end += 1;
            }
            if end < n && text[end] == 0x63 {
                return true;
            }
            proof {
                assert forall|e: int|
                    !(at + 3 <= e < text@.len() && text@[e] == 0x63 && forall|k: int|
                        at + 3 <= k < e ==> is_parameter(#[trigger] text@[k])) by {
                    if at + 3 <= e < text@.len() && text@[e] == 0x63 && forall|k: int|
                        at + 3 <= k < e ==> is_parameter(#[trigger] text@[k]) {
                        if e < end {
                            assert(is_parameter(text@[e]));
                        } else if e > end {
                            assert(is_parameter(text@[end as int]));
                        }
                    }
                }
            }
        } else {
            proof {
                assert(!occurs_at(text@, attributes_intro(), at as int)) by {
                    if occurs_at(text@, attributes_intro(), at as int) {
                        assert(text@[at + 0] == attributes_intro()[0]);
                        assert(text@[at + 1] == attributes_intro()[1]);
                        assert(text@[at + 2] == attributes_intro()[2]);
                    }
                }
            }
        }
        at += 1;
    }
    proof {
        assert forall|i: int, end: int|
            !(occurs_at(text@, attributes_intro(), i) && i + 3 <= end < text@.len() && text@[end] == 0x63
                && forall|k: int| i + 3 <= k < end ==> is_parameter(#[trigger] text@[k])) by {
            if occurs_at(text@, attributes_intro(), i) && i >= at {
                assert(i + 3 > n);
            }
        }
    }
    false
}

} // verus!
