//! Measuring what a visualisation put on screen: which segments of a row
//! repeat, and which colours dominate it.

use vstd::prelude::*;
use vstd::string::{StrSliceExecFns, StringExecFns};
use crate::visual::colors::Color;
use crate::ui::grid::{Cell, Grid, well_formed};
use crate::visual::theme::{is_white_space, white_space};

verus! {

/// Analyzes visual elements for quality metrics.
pub struct VisualAnalyzer;

impl VisualAnalyzer {
    pub fn new() -> (analyzer: Self) {
        VisualAnalyzer
    }
}

/// `a` sorts before `b`: character by character, a prefix first.
pub open spec fn text_less(a: Seq<char>, b: Seq<char>) -> bool
    decreases a.len(),
{
    if a.len() == 0 {
        b.len() > 0
    } else if b.len() == 0 {
        false
    } else if a[0] != b[0] {
        a[0] < b[0]
    } else {
        text_less(a.drop_first(), b.drop_first())
    }
}

/// Two different texts are ordered one way or the other, and never both.
pub proof fn lemma_text_order_is_total(a: Seq<char>, b: Seq<char>)
    ensures
        a != b ==> text_less(a, b) || text_less(b, a),
        !(text_less(a, b) && text_less(b, a)),
        !text_less(a, a),
    decreases a.len(),
{
    if a.len() > 0 && b.len() > 0 && a[0] == b[0] {
        lemma_text_order_is_total(a.drop_first(), b.drop_first());
        if a != b {
            assert(a.drop_first() != b.drop_first()) by {
                if a.drop_first() == b.drop_first() {
                    assert(a =~= seq![a[0]] + a.drop_first());
                    assert(b =~= seq![b[0]] + b.drop_first());
                }
            }
        }
    }
    if a.len() > 0 {
        lemma_text_order_is_total(a.drop_first(), a.drop_first());
    }
    if a.len() == 0 && b.len() == 0 {
        assert(a =~= b);
    }
}

/// The order is transitive.
pub proof fn lemma_text_order_is_transitive(a: Seq<char>, b: Seq<char>, c: Seq<char>)
    requires
        text_less(a, b),
        text_less(b, c),
    ensures
        text_less(a, c),
    decreases a.len(),
{
    if a.len() > 0 && b.len() > 0 && c.len() > 0 && a[0] == b[0] && b[0] == c[0] {
        lemma_text_order_is_transitive(a.drop_first(), b.drop_first(), c.drop_first());
    }
}

/// Whether `a` sorts before `b`.
fn text_before(a: &str, b: &str) -> (before: bool)
    ensures
        before == text_less(a@, b@),
{
    let na = a.unicode_len();
    let nb = b.unicode_len();
    let mut i: usize = 0;
    proof {
        assert(a@.skip(0) =~= a@);
        assert(b@.skip(0) =~= b@);
    }
    while i < na && i < nb
        invariant
            na == a@.len(),
            nb == b@.len(),
            i <= na,
            i <= nb,
            text_less(a@, b@) == text_less(a@.skip(i as int), b@.skip(i as int)),
        decreases na - i,
    {
        let x = a.get_char(i);
        let y = b.get_char(i);
        proof {
            assert(a@.skip(i as int)[0] == x);
            assert(b@.skip(i as int)[0] == y);
            assert(a@.skip(i as int).drop_first() =~= a@.skip(i + 1));
            assert(b@.skip(i as int).drop_first() =~= b@.skip(i + 1));
        }
        if x != y {
            return x < y;
        }
        i += 1;
    }
    na < nb
}

/// `t` occurs in `s` as a segment at least `min` and under half of `s` long,
/// immediately followed by itself again.
pub open spec fn repeats(s: Seq<char>, min: int, t: Seq<char>) -> bool {
    exists|start: int, len: int|
        min <= len < s.len() / 2 && 0 <= start < s.len() - len && start + 2 * len <= s.len() && t
            == #[trigger] s.subrange(start, start + len) && s.subrange(start + len, start + 2 * len) == t
}

/// Whether the segment of `s` at `start`, `len` long, is immediately followed
/// by itself.
fn repeats_at(s: &str, start: usize, len: usize) -> (doubled: bool)
    requires
        start + len <= s@.len(),
    ensures
        doubled == (start + 2 * len <= s@.len() && s@.subrange(start as int + len, start + 2 * len)
            == s@.subrange(start as int, start + len)),
{
    let n = s.unicode_len();
    if len > n || n - start < len || n - start - len < len {
        return false;
    }
    let ghost again = s@.subrange(start as int + len, start + 2 * len);
    let ghost once = s@.subrange(start as int, start + len);
    let mut k: usize = 0;
    while k < len
        invariant
            n == s@.len(),
            start + 2 * len <= n,
            k <= len,
            again == s@.subrange(start as int + len, start + 2 * len),
            once == s@.subrange(start as int, start + len),
            forall|j: int| 0 <= j < k ==> #[trigger] again[j] == once[j],
        decreases len - k,
    {
        if s.get_char(start + len + k) != s.get_char(start + k) {
            proof {
                assert(again[k as int] != once[k as int]);
            }
            return false;
        }
        k += 1;
    }
    proof {
        assert(again =~= once);
    }
    true
}

/// `t` is one of the texts in `list`.
pub open spec fn listed(list: Seq<String>, t: Seq<char>) -> bool {
    exists|i: int| 0 <= i < list.len() && #[trigger] list[i]@ == t
}

/// `t` doubles somewhere in `s` as a segment `l` long, for some length below
/// `len`, or exactly `len` long starting before `start`.
pub open spec fn repeats_before(s: Seq<char>, min: int, len: int, start: int, t: Seq<char>) -> bool {
    exists|st: int, l: int|
        min <= l <= len && l < s.len() / 2 && 0 <= st < s.len() - l && (l < len || st < start) && st + 2
            * l <= s.len() && t == #[trigger] s.subrange(st, st + l) && s.subrange(st + l, st + 2 * l) == t
}

/// Add `text` to a list kept in order and free of repeats, unless it is there.
fn insert_sorted(list: &mut Vec<String>, text: String)
    requires
        forall|i: int, j: int| 0 <= i < j < old(list)@.len() ==> text_less(old(list)@[i]@, old(list)@[j]@),
    ensures
        forall|i: int, j: int| 0 <= i < j < final(list)@.len() ==> text_less(final(list)@[i]@, final(list)@[j]@),
        forall|t: Seq<char>| #[trigger] listed(final(list)@, t) <==> (t == text@ || listed(old(list)@, t)),
{
    let n = list.len();
    let mut p: usize = 0;
    while p < n && text_before(list[p].as_str(), text.as_str())
        invariant
            n == list@.len(),
            list@ == old(list)@,
            p <= n,
            forall|i: int| 0 <= i < p ==> text_less(#[trigger] list@[i]@, text@),
        decreases n - p,
    {
        p += 1;
    }
    if p < n {
        let same = list[p].as_str().unicode_len() == text.as_str().unicode_len() && !text_before(
            text.as_str(),
            list[p].as_str(),
        );
        proof {
            lemma_text_order_is_total(list@[p as int]@, text@);
        }
        if same {
            proof {
                assert(list@[p as int]@ =~= text@) by {
                    lemma_text_order_is_total(list@[p as int]@, text@);
                }
            }
            return;
        }
        proof {
            assert(list@[p as int]@ != text@) by {
                if list@[p as int]@ == text@ {
                    lemma_text_order_is_total(text@, text@);
                }
            }
        }
    }
    let ghost before = list@;
    let ghost t = text@;
    list.insert(p, text);
    proof {
        assert forall|i: int, j: int| 0 <= i < j < list@.len() implies text_less(list@[i]@, list@[j]@) by {
            if j < p {
                assert(list@[i] == before[i] && list@[j] == before[j]);
            } else if j == p {
                assert(list@[j]@ == t);
                assert(list@[i] == before[i]);
            } else if i == p {
                assert(list@[j] == before[j - 1]);
                assert(text_less(t, before[p as int]@));
                if j - 1 > p {
                    lemma_text_order_is_transitive(t, before[p as int]@, before[j - 1]@);
                }
            } else if i < p {
                assert(list@[i] == before[i] && list@[j] == before[j - 1]);
                if i < j - 1 {
                } else {
                }
                assert(text_less(before[i]@, t));
                assert(text_less(t, before[p as int]@));
                lemma_text_order_is_transitive(before[i]@, t, before[p as int]@);
                if j - 1 > p {
                    lemma_text_order_is_transitive(before[i]@, before[p as int]@, before[j - 1]@);
                }
            } else {
                assert(list@[i] == before[i - 1] && list@[j] == before[j - 1]);
            }
        }
        assert forall|u: Seq<char>| #[trigger] listed(list@, u) <==> (u == t || listed(before, u)) by {
            if exists|i: int| 0 <= i < list@.len() && #[trigger] list@[i]@ == u {
                let i = choose|i: int| 0 <= i < list@.len() && #[trigger] list@[i]@ == u;
                if i < p {
                    assert(list@[i] == before[i]);
                } else if i > p {
                    assert(list@[i] == before[i - 1]);
                }
            }
            if u == t {
                assert(list@[p as int]@ == u);
            }
            if exists|i: int| 0 <= i < before.len() && #[trigger] before[i]@ == u {
                let i = choose|i: int| 0 <= i < before.len() && #[trigger] before[i]@ == u;
                if i < p {
                    assert(list@[i] == before[i]);
                } else {
                    assert(list@[i + 1] == before[i]);
                }
            }
        }
    }
}

impl VisualAnalyzer {
    /// The segments of `s`, at least `min_length` long and under half of it,
    /// that are immediately followed by themselves: sorted, each once.
    pub fn find_repeating_segments(s: &str, min_length: usize) -> (segments: Vec<String>)
        requires
            min_length >= s@.len() / 2 || s.is_ascii(),
        ensures
            forall|i: int, j: int|
                0 <= i < j < segments@.len() ==> text_less(segments@[i]@, segments@[j]@),
            forall|t: Seq<char>| #[trigger] listed(segments@, t) <==> repeats(s@, min_length as int, t),
    {
        let n = s.unicode_len();
        let mut segments: Vec<String> = Vec::new();
        let mut len = min_length;
        while len < n / 2
            invariant
                n == s@.len(),
                min_length <= len,
                forall|i: int, j: int|
                    0 <= i < j < segments@.len() ==> text_less(segments@[i]@, segments@[j]@),
                forall|t: Seq<char>| #[trigger] listed(segments@, t) <==> repeats_before(
                    s@,
                    min_length as int,
                    len as int,
                    0,
                    t,
                ),
            decreases n - len,
        {
            let mut start: usize = 0;
            while start < n - len
                invariant
                    n == s@.len(),
                    min_length <= len < n / 2,
                    start <= n - len,
                    forall|i: int, j: int|
                        0 <= i < j < segments@.len() ==> text_less(segments@[i]@, segments@[j]@),
                    forall|t: Seq<char>| #[trigger] listed(segments@, t) <==> repeats_before(
                        s@,
                        min_length as int,
                        len as int,
                        start as int,
                        t,
                    ),
                decreases n - len - start,
            {
                if repeats_at(s, start, len) {
                    let segment = String::from_str(s.substring_char(start, start + len));
                    let ghost seg = segment@;
                    insert_sorted(&mut segments, segment);
                    proof {
                        assert forall|t: Seq<char>| #[trigger] listed(segments@, t) <==> repeats_before(
                            s@,
                            min_length as int,
                            len as int,
                            start + 1,
                            t,
                        ) by {
                            if t == seg {
                                assert(t == s@.subrange(start as int, start + len));
                            }
                            if repeats_before(s@, min_length as int, len as int, start + 1, t) {
                                let (st, l) = choose|st: int, l: int|
                                    min_length <= l <= len && l < s@.len() / 2 && 0 <= st < s@.len() - l && (l
                                        < len || st < start + 1) && st + 2 * l <= s@.len() && t
                                        == #[trigger] s@.subrange(st, st + l) && s@.subrange(st + l, st + 2 * l)
                                        == t;
                                if !(l == len && st == start) {
                                    assert(repeats_before(s@, min_length as int, len as int, start as int, t));
                                }
                            }
                        }
                    }
                } else {
                    proof {
                        assert forall|t: Seq<char>| #[trigger] listed(segments@, t) <==> repeats_before(
                            s@,
                            min_length as int,
                            len as int,
                            start + 1,
                            t,
                        ) by {
                            if repeats_before(s@, min_length as int, len as int, start + 1, t) {
                                let (st, l) = choose|st: int, l: int|
                                    min_length <= l <= len && l < s@.len() / 2 && 0 <= st < s@.len() - l && (l
                                        < len || st < start + 1) && st + 2 * l <= s@.len() && t
                                        == #[trigger] s@.subrange(st, st + l) && s@.subrange(st + l, st + 2 * l)
                                        == t;
                                assert(!(l == len && st == start));
                                assert(repeats_before(s@, min_length as int, len as int, start as int, t));
                            }
                        }
                    }
                }
                start += 1;
            }
            proof {
                assert forall|t: Seq<char>| #[trigger] listed(segments@, t) <==> repeats_before(
                    s@,
                    min_length as int,
                    len + 1,
                    0,
                    t,
                ) by {
                    if repeats_before(s@, min_length as int, len as int, start as int, t) {
                        let (st, l) = choose|st: int, l: int|
                            min_length <= l <= len && l < s@.len() / 2 && 0 <= st < s@.len() - l && (l < len
                                || st < start) && st + 2 * l <= s@.len() && t == #[trigger] s@.subrange(st, st + l)
                                && s@.subrange(st + l, st + 2 * l) == t;
                        assert(repeats_before(s@, min_length as int, len + 1, 0, t));
                    }
                    if repeats_before(s@, min_length as int, len + 1, 0, t) {
                        let (st, l) = choose|st: int, l: int|
                            min_length <= l <= len + 1 && l < s@.len() / 2 && 0 <= st < s@.len() - l && (l < len
                                + 1 || st < 0) && st + 2 * l <= s@.len() && t == #[trigger] s@.subrange(
                                st,
                                st + l,
                            ) && s@.subrange(st + l, st + 2 * l) == t;
                        assert(repeats_before(s@, min_length as int, len as int, start as int, t));
                    }
                }
            }
            len += 1;
        }
        proof {
            assert forall|t: Seq<char>| #[trigger] listed(segments@, t) <==> repeats(s@, min_length as int, t) by {
                if repeats(s@, min_length as int, t) {
                    let (st, l) = choose|st: int, l: int|
                        min_length <= l < s@.len() / 2 && 0 <= st < s@.len() - l && st + 2 * l <= s@.len() && t
                            == #[trigger] s@.subrange(st, st + l) && s@.subrange(st + l, st + 2 * l) == t;
                    assert(repeats_before(s@, min_length as int, len as int, 0, t));
                }
                if repeats_before(s@, min_length as int, len as int, 0, t) {
                    let (st, l) = choose|st: int, l: int|
                        min_length <= l <= len && l < s@.len() / 2 && 0 <= st < s@.len() - l && (l < len
                            || st < 0) && st + 2 * l <= s@.len() && t == #[trigger] s@.subrange(st, st + l)
                            && s@.subrange(st + l, st + 2 * l) == t;
                    assert(repeats(s@, min_length as int, t));
                }
            }
        }
        segments
    }
}

} // verus!

verus! {

/// Where an entry counted `count` goes in a list kept in descending order of
/// count: after every entry counted at least as many times, so that entries
/// with equal counts keep the order they arrived in.
pub open spec fn place_for(sorted: Seq<(String, usize)>, count: usize, from: int) -> int
    decreases sorted.len() - from,
{
    if from < 0 || from >= sorted.len() {
        sorted.len() as int
    } else if sorted[from].1 < count {
        from
    } else {
        place_for(sorted, count, from + 1)
    }
}

/// `entries` sorted by descending count, stably: what `sort_by` on the count,
/// reversed, gives.
pub open spec fn by_count(entries: Seq<(String, usize)>) -> Seq<(String, usize)>
    decreases entries.len(),
{
    if entries.len() == 0 {
        entries
    } else {
        let sorted = by_count(entries.drop_last());
        sorted.insert(place_for(sorted, entries.last().1, 0), entries.last())
    }
}

proof fn lemma_place_for(sorted: Seq<(String, usize)>, count: usize, from: int)
    requires
        0 <= from <= sorted.len(),
    ensures
        from <= place_for(sorted, count, from) <= sorted.len(),
        forall|i: int| from <= i < place_for(sorted, count, from) ==> sorted[i].1 >= count,
        place_for(sorted, count, from) < sorted.len() ==> sorted[place_for(sorted, count, from)].1 < count,
    decreases sorted.len() - from,
{
    if from < sorted.len() && sorted[from].1 >= count {
        lemma_place_for(sorted, count, from + 1);
    }
}

/// The stable sort by count keeps every entry and puts larger counts first.
pub proof fn lemma_by_count_is_sorted(entries: Seq<(String, usize)>)
    ensures
        by_count(entries).len() == entries.len(),
        forall|i: int, j: int|
            0 <= i < j < by_count(entries).len() ==> by_count(entries)[i].1 >= by_count(entries)[j].1,
        by_count(entries).to_multiset() == entries.to_multiset(),
    decreases entries.len(),
{
    if entries.len() > 0 {
        let rest = entries.drop_last();
        lemma_by_count_is_sorted(rest);
        let sorted = by_count(rest);
        let x = entries.last();
        let p = place_for(sorted, x.1, 0);
        lemma_place_for(sorted, x.1, 0);
        let result = sorted.insert(p, x);
        assert forall|i: int, j: int| 0 <= i < j < result.len() implies result[i].1 >= result[j].1 by {
            if j < p {
                assert(result[i] == sorted[i] && result[j] == sorted[j]);
            } else if j == p {
                assert(result[i] == sorted[i]);
            } else if i == p {
                assert(result[j] == sorted[j - 1]);
                assert(sorted[p].1 < x.1);
                if j - 1 > p {
                    assert(sorted[p].1 >= sorted[j - 1].1);
                }
            } else if i < p {
                assert(result[i] == sorted[i] && result[j] == sorted[j - 1]);
                assert(sorted[i].1 >= x.1);
            } else {
                assert(result[i] == sorted[i - 1] && result[j] == sorted[j - 1]);
            }
        }
        vstd::seq_lib::lemma_multiset_commutative(rest, seq![x]);
        assert(entries =~= rest + seq![x]);
        sorted.insert_ensures(p, x);
        vstd::seq_lib::lemma_seq_union_to_multiset_commutative(sorted.take(p), sorted.skip(p));
        assert(result =~= sorted.take(p) + seq![x] + sorted.skip(p));
        assert(sorted =~= sorted.take(p) + sorted.skip(p));
        vstd::seq_lib::lemma_multiset_commutative(sorted.take(p) + seq![x], sorted.skip(p));
        vstd::seq_lib::lemma_multiset_commutative(sorted.take(p), seq![x]);
        vstd::seq_lib::lemma_multiset_commutative(sorted.take(p), sorted.skip(p));
    }
}

impl VisualAnalyzer {
    /// The `limit` most frequent colours, most frequent first.
    ///
    /// `color_counts` is each colour, named once, and how often it was seen, in the order
    /// the tally was walked; colours seen equally often keep that order.
    pub fn find_dominant_colors(color_counts: &[(String, usize)], limit: usize) -> (dominant: Vec<
        (String, usize),
    >)
        requires
            forall|i: int, j: int|
                0 <= i < j < color_counts@.len() ==> color_counts@[i].0@ != color_counts@[j].0@,
        ensures
            dominant@ == by_count(color_counts@).take(
                if limit < color_counts@.len() { limit as int } else { color_counts@.len() as int },
            ),
    {
        let n = color_counts.len();
        let mut sorted: Vec<(String, usize)> = Vec::new();
        let mut i: usize = 0;
        while i < n
            invariant
                n == color_counts@.len(),
                i <= n,
                sorted@ == by_count(color_counts@.take(i as int)),
            decreases n - i,
        {
            let count = color_counts[i].1;
            let mut p: usize = 0;
            let len = sorted.len();
            proof {
                lemma_by_count_is_sorted(color_counts@.take(i as int));
            }
            while p < len && sorted[p].1 >= count
                invariant
                    len == sorted@.len(),
                    p <= len,
                    place_for(sorted@, count, p as int) == place_for(sorted@, count, 0),
                decreases len - p,
            {
                p += 1;
            }
            let entry = (color_counts[i].0.clone(), count);
            proof {
                assert(color_counts@.take(i + 1).drop_last() =~= color_counts@.take(i as int));
                assert(entry == color_counts@.take(i + 1).last());
            }
            sorted.insert(p, entry);
            i += 1;
        }
        proof {
            assert(color_counts@.take(n as int) =~= color_counts@);
            lemma_by_count_is_sorted(color_counts@);
        }
        let keep = if limit < n { limit } else { n };
        sorted.truncate(keep);
        sorted
    }
}

} // verus!

verus! {

/// The red, green and blue a colour is judged by: an exact colour as it is,
/// each named colour as its textbook value, and anything else as mid grey.
pub open spec fn rgb_of(color: Color) -> (u8, u8, u8) {
    match color {
        Color::Reset => (128, 128, 128),
        Color::Black => (0, 0, 0),
        Color::Red => (255, 0, 0),
        Color::Green => (0, 255, 0),
        Color::Yellow => (255, 255, 0),
        Color::Blue => (0, 0, 255),
        Color::Magenta => (255, 0, 255),
        Color::Cyan => (0, 255, 255),
        Color::Gray => (128, 128, 128),
        Color::DarkGray => (64, 64, 64),
        Color::LightRed => (255, 128, 128),
        Color::LightGreen => (128, 255, 128),
        Color::LightYellow => (255, 255, 128),
        Color::LightBlue => (128, 128, 255),
        Color::LightMagenta => (255, 128, 255),
        Color::LightCyan => (128, 255, 255),
        Color::White => (255, 255, 255),
        Color::Rgb(r, g, b) => (r, g, b),
        Color::Indexed(_) => (128, 128, 128),
    }
}

impl VisualAnalyzer {
    /// The red, green and blue a colour is judged by in contrast checks.
    pub fn color_to_rgb(color: Color) -> (rgb: (u8, u8, u8))
        ensures
            rgb == rgb_of(color),
    {
        match color {
            Color::Reset => (128, 128, 128),
            Color::Black => (0, 0, 0),
            Color::Red => (255, 0, 0),
            Color::Green => (0, 255, 0),
            Color::Yellow => (255, 255, 0),
            Color::Blue => (0, 0, 255),
            Color::Magenta => (255, 0, 255),
            Color::Cyan => (0, 255, 255),
            Color::Gray => (128, 128, 128),
            Color::DarkGray => (64, 64, 64),
            Color::LightRed => (255, 128, 128),
            Color::LightGreen => (128, 255, 128),
            Color::LightYellow => (255, 255, 128),
            Color::LightBlue => (128, 128, 255),
            Color::LightMagenta => (255, 128, 255),
            Color::LightCyan => (128, 255, 255),
            Color::White => (255, 255, 255),
            Color::Rgb(r, g, b) => (r, g, b),
            Color::Indexed(_) => (128, 128, 128),
        }
    }
}

} // verus!

verus! {

/// Whether a symbol shows anything: it holds a character other than white
/// space.
pub open spec fn shows(symbol: Seq<char>) -> bool {
    exists|i: int| 0 <= i < symbol.len() && !is_white_space(#[trigger] symbol[i])
}

/// How many of `cells` show something.
pub open spec fn shown_in(cells: Seq<Cell>) -> nat
    decreases cells.len(),
{
    if cells.len() == 0 {
        0
    } else {
        shown_in(cells.drop_last()) + if shows(cells.last().symbol@) { 1nat } else { 0nat }
    }
}

/// How many of the first `rows` cells of column `x` show something, in a grid
/// `width` cells wide.
pub open spec fn shown_in_column(cells: Seq<Cell>, width: int, x: int, rows: nat) -> nat
    decreases rows,
{
    if rows == 0 {
        0
    } else {
        shown_in_column(cells, width, x, (rows - 1) as nat) + if shows(
            cells[(rows - 1) * width + x].symbol@,
        ) {
            1nat
        } else {
            0nat
        }
    }
}

/// How many of `cells` are drawn in colour `c`.
pub open spec fn fg_count(cells: Seq<Cell>, c: Color) -> nat
    decreases cells.len(),
{
    if cells.len() == 0 {
        0
    } else {
        fg_count(cells.drop_last(), c) + if cells.last().fg == c { 1nat } else { 0nat }
    }
}

/// The exact colours of `cells`, one per cell drawn in one, in order.
pub open spec fn rgb_in(cells: Seq<Cell>) -> Seq<(u8, u8, u8)>
    decreases cells.len(),
{
    if cells.len() == 0 {
        Seq::empty()
    } else {
        match cells.last().fg {
            Color::Rgb(r, g, b) => rgb_in(cells.drop_last()).push((r, g, b)),
            _ => rgb_in(cells.drop_last()),
        }
    }
}

/// The symbols of `cells` written one after another.
pub open spec fn joined(cells: Seq<Cell>) -> Seq<char>
    decreases cells.len(),
{
    if cells.len() == 0 {
        Seq::empty()
    } else {
        joined(cells.drop_last()) + cells.last().symbol@
    }
}

/// How many entries of a colour tally name an exact colour.
pub open spec fn rgb_entries(tally: Seq<(Color, usize)>) -> nat
    decreases tally.len(),
{
    if tally.len() == 0 {
        0
    } else {
        rgb_entries(tally.drop_last()) + if tally.last().0 is Rgb { 1nat } else { 0nat }
    }
}

/// Cell `k` of a grid `width` wide: row `k / width`, column `k % width`.
pub open spec fn at(width: int, x: int, y: int) -> int {
    y * width + x
}

/// How much of a rendered grid is drawn, and where: every cell, the cells
/// that show something, and how many of those each row and each column holds.
pub struct Density {
    pub total_cells: usize,
    pub filled_cells: usize,
    /// Shown cells per row, top down.
    pub vertical: Vec<usize>,
    /// Shown cells per column, left to right.
    pub horizontal: Vec<usize>,
}

proof fn lemma_take_step<T>(s: Seq<T>, k: int)
    requires
        0 <= k < s.len(),
    ensures
        s.take(k + 1).drop_last() == s.take(k),
        s.take(k + 1).last() == s[k],
{
    assert(s.take(k + 1).drop_last() =~= s.take(k));
}

proof fn lemma_subrange_step<T>(s: Seq<T>, lo: int, hi: int)
    requires
        0 <= lo <= hi < s.len(),
    ensures
        s.subrange(lo, hi + 1).drop_last() == s.subrange(lo, hi),
        s.subrange(lo, hi + 1).last() == s[hi],
{
    assert(s.subrange(lo, hi + 1).drop_last() =~= s.subrange(lo, hi));
}

proof fn lemma_shown_at_most(cells: Seq<Cell>)
    ensures
        shown_in(cells) <= cells.len(),
    decreases cells.len(),
{
    if cells.len() > 0 {
        lemma_shown_at_most(cells.drop_last());
    }
}

proof fn lemma_cell_inside(width: int, height: int, x: int, y: int)
    requires
        0 <= x < width,
        0 <= y < height,
    ensures
        0 <= at(width, x, y) < width * height,
        at(width, x, y) + (width - x) <= width * height,
{
    assert(y * width + x < width * height) by (nonlinear_arith)
        requires 0 <= x < width, 0 <= y < height;
    assert(y * width + width <= width * height) by (nonlinear_arith)
        requires 0 <= y < height, width > 0;
    assert(0 <= y * width) by (nonlinear_arith)
        requires 0 <= y, width > 0;
}

proof fn lemma_row_inside(width: int, height: int, y: int)
    requires
        width >= 0,
        0 <= y < height,
    ensures
        0 <= at(width, 0, y),
        at(width, 0, y) + width <= width * height,
{
    assert(y * width + width <= width * height) by (nonlinear_arith)
        requires 0 <= y < height, width >= 0;
    assert(0 <= y * width) by (nonlinear_arith)
        requires 0 <= y, width >= 0;
}

/// The sum of a list of counts.
pub open spec fn sum(counts: Seq<usize>) -> int
    decreases counts.len(),
{
    if counts.len() == 0 {
        0
    } else {
        sum(counts.drop_last()) + counts.last()
    }
}

/// How many cells of the first `rows` rows show something, row by row.
pub open spec fn rows_shown(cells: Seq<Cell>, width: int, rows: nat) -> nat
    decreases rows,
{
    if rows == 0 {
        0
    } else {
        rows_shown(cells, width, (rows - 1) as nat) + shown_in(
            cells.subrange(at(width, 0, rows - 1), at(width, 0, rows - 1) + width),
        )
    }
}

/// How many cells of the first `rows` rows show something, over the first
/// `columns` columns, column by column.
pub open spec fn columns_shown(cells: Seq<Cell>, width: int, columns: nat, rows: nat) -> nat
    decreases columns,
{
    if columns == 0 {
        0
    } else {
        columns_shown(cells, width, (columns - 1) as nat, rows) + shown_in_column(
            cells,
            width,
            columns - 1,
            rows,
        )
    }
}

proof fn lemma_shown_concat(a: Seq<Cell>, b: Seq<Cell>)
    ensures
        shown_in(a + b) == shown_in(a) + shown_in(b),
    decreases b.len(),
{
    if b.len() == 0 {
        assert(a + b =~= a);
    } else {
        assert((a + b).drop_last() =~= a + b.drop_last());
        assert((a + b).last() == b.last());
        lemma_shown_concat(a, b.drop_last());
    }
}

proof fn lemma_rows_shown(cells: Seq<Cell>, width: int, rows: nat)
    requires
        width >= 0,
        rows * width <= cells.len(),
    ensures
        shown_in(cells.take(rows * width)) == rows_shown(cells, width, rows),
    decreases rows,
{
    if rows > 0 {
        let r = rows - 1;
        assert(r * width + width == rows * width) by (nonlinear_arith)
            requires r == rows - 1;
        assert(0 <= r * width) by (nonlinear_arith)
            requires r >= 0, width >= 0;
        lemma_rows_shown(cells, width, r as nat);
        assert(cells.take(rows * width) =~= cells.take(r * width) + cells.subrange(r * width, r * width + width));
        lemma_shown_concat(cells.take(r * width), cells.subrange(r * width, r * width + width));
    } else {
        assert(rows * width == 0) by (nonlinear_arith)
            requires rows == 0;
        assert(cells.take(0) =~= Seq::<Cell>::empty());
    }
}

proof fn lemma_columns_step(cells: Seq<Cell>, width: int, columns: nat, rows: nat)
    requires
        width >= 0,
        columns <= width,
        (rows + 1) * width <= cells.len(),
    ensures
        columns_shown(cells, width, columns, rows + 1) == columns_shown(cells, width, columns, rows)
            + shown_in(cells.subrange(at(width, 0, rows as int), at(width, 0, rows as int) + columns)),
    decreases columns,
{
    let start = at(width, 0, rows as int);
    assert(start + width == (rows + 1) * width) by (nonlinear_arith)
        requires start == rows * width;
    assert(0 <= start) by (nonlinear_arith)
        requires start == rows * width, rows >= 0, width >= 0;
    if columns > 0 {
        lemma_columns_step(cells, width, (columns - 1) as nat, rows);
        assert(cells.subrange(start, start + columns).drop_last() =~= cells.subrange(start, start + columns - 1));
    } else {
        assert(cells.subrange(start, start) =~= Seq::<Cell>::empty());
    }
}

proof fn lemma_columns_shown(cells: Seq<Cell>, width: int, rows: nat)
    requires
        width >= 0,
        rows * width <= cells.len(),
    ensures
        shown_in(cells.take(rows * width)) == columns_shown(cells, width, width as nat, rows),
    decreases rows,
{
    if rows > 0 {
        let r = (rows - 1) as nat;
        assert(r * width + width == rows * width) by (nonlinear_arith)
            requires r == rows - 1;
        assert(0 <= r * width) by (nonlinear_arith)
            requires r >= 0, width >= 0;
        lemma_columns_shown(cells, width, r);
        lemma_columns_step(cells, width, width as nat, r);
        assert(cells.take(rows * width) =~= cells.take(r * width) + cells.subrange(r * width, r * width + width));
        lemma_shown_concat(cells.take(r * width), cells.subrange(r * width, r * width + width));
    } else {
        assert(rows * width == 0) by (nonlinear_arith)
            requires rows == 0;
        assert(cells.take(0) =~= Seq::<Cell>::empty());
        lemma_no_columns_nothing_shown(cells, width, width as nat);
    }
}

proof fn lemma_no_columns_nothing_shown(cells: Seq<Cell>, width: int, columns: nat)
    ensures
        columns_shown(cells, width, columns, 0) == 0,
    decreases columns,
{
    if columns > 0 {
        lemma_no_columns_nothing_shown(cells, width, (columns - 1) as nat);
    }
}

/// Whether a symbol shows anything.
pub fn shows_something(symbol: &str) -> (b: bool)
    ensures
        b == shows(symbol@),
{
    let n = symbol.unicode_len();
    let mut i: usize = 0;
    while i < n
        invariant
            n == symbol@.len(),
            i <= n,
            forall|j: int| 0 <= j < i ==> is_white_space(#[trigger] symbol@[j]),
        decreases n - i,
    {
        if !white_space(symbol.get_char(i)) {
            return true;
        }
        i += 1;
    }
    false
}

impl VisualAnalyzer {
    /// How much of `grid` is drawn, and how it is spread over its rows and
    /// columns.
    #[verifier::spinoff_prover]
    pub fn density(grid: &Grid) -> (density: Density)
        requires
            well_formed(*grid),
        ensures
            density.total_cells == grid.cells@.len(),
            density.filled_cells == shown_in(grid.cells@),
            density.vertical@.len() == grid.area.height,
            forall|y: int|
                0 <= y < grid.area.height ==> #[trigger] density.vertical@[y] == shown_in(
                    grid.cells@.subrange(at(grid.area.width as int, 0, y), at(grid.area.width as int, 0, y + 1)),
                ),
            density.horizontal@.len() == grid.area.width,
            sum(density.vertical@) == density.filled_cells,
            sum(density.horizontal@) == density.filled_cells,
            forall|x: int|
                0 <= x < grid.area.width ==> #[trigger] density.horizontal@[x] == shown_in_column(
                    grid.cells@,
                    grid.area.width as int,
                    x,
                    grid.area.height as nat,
                ),
    {
        let cells = &grid.cells;
        let n = cells.len();
        let w = grid.area.width as usize;
        let h = grid.area.height as usize;

        let mut filled: usize = 0;
        let mut k: usize = 0;
        while k < n
            invariant
                n == cells@.len(),
                k <= n,
                filled == shown_in(cells@.take(k as int)),
            decreases n - k,
        {
            proof {
                lemma_take_step(cells@, k as int);
                lemma_shown_at_most(cells@.take(k as int));
            }
            if shows_something(cells[k].symbol.as_str()) {
                filled += 1;
            }
            k += 1;
        }
        proof {
            assert(cells@.take(n as int) =~= cells@);
        }

        let mut vertical: Vec<usize> = Vec::new();
        let mut y: usize = 0;
        while y < h
            invariant
                well_formed(*grid),
                cells == &grid.cells,
                n == cells@.len(),
                w == grid.area.width,
                h == grid.area.height,
                y <= h,
                vertical@.len() == y,
                sum(vertical@) == rows_shown(cells@, w as int, y as nat),
                forall|r: int|
                    0 <= r < y ==> #[trigger] vertical@[r] == shown_in(
                        cells@.subrange(at(w as int, 0, r), at(w as int, 0, r + 1)),
                    ),
            decreases h - y,
        {
            let mut count: usize = 0;
            let mut x: usize = 0;
            proof {
                lemma_row_inside(w as int, h as int, y as int);
            }
            let row: usize = y * w;
            while x < w
                invariant
                    well_formed(*grid),
                    cells == &grid.cells,
                    n == cells@.len(),
                    w == grid.area.width,
                    h == grid.area.height,
                    y < h,
                    row == at(w as int, 0, y as int),
                    row + w <= n,
                    x <= w,
                    count == shown_in(cells@.subrange(row as int, row + x)),
                decreases w - x,
            {
                proof {
                    lemma_subrange_step(cells@, row as int, row + x);
                    lemma_shown_at_most(cells@.subrange(row as int, row + x));
                }
                if shows_something(cells[row + x].symbol.as_str()) {
                    count += 1;
                }
                x += 1;
            }
            proof {
                assert(at(w as int, 0, y + 1) == row + w) by (nonlinear_arith)
                    requires row == y * w;
            }
            proof {
                assert(vertical@.push(count).drop_last() =~= vertical@);
            }
            vertical.push(count);
            y += 1;
        }

        let mut horizontal: Vec<usize> = Vec::new();
        let mut x: usize = 0;
        while x < w
            invariant
                well_formed(*grid),
                cells == &grid.cells,
                n == cells@.len(),
                w == grid.area.width,
                h == grid.area.height,
                x <= w,
                horizontal@.len() == x,
                sum(horizontal@) == columns_shown(cells@, w as int, x as nat, h as nat),
                forall|c: int|
                    0 <= c < x ==> #[trigger] horizontal@[c] == shown_in_column(cells@, w as int, c, h as nat),
            decreases w - x,
        {
            let mut count: usize = 0;
            let mut y: usize = 0;
            while y < h
                invariant
                    well_formed(*grid),
                    cells == &grid.cells,
                    n == cells@.len(),
                    w == grid.area.width,
                    h == grid.area.height,
                    x < w,
                    y <= h,
                    count == shown_in_column(cells@, w as int, x as int, y as nat),
                    count <= y,
                decreases h - y,
            {
                proof {
                    lemma_cell_inside(w as int, h as int, x as int, y as int);
                }
                if shows_something(cells[y * w + x].symbol.as_str()) {
                    count += 1;
                }
                y += 1;
            }
            proof {
                assert(horizontal@.push(count).drop_last() =~= horizontal@);
            }
            horizontal.push(count);
            x += 1;
        }

        proof {
            assert(h * w == n) by (nonlinear_arith)
                requires n == w * h;
            assert(cells@.take(n as int) =~= cells@);
            lemma_rows_shown(cells@, w as int, h as nat);
            lemma_columns_shown(cells@, w as int, h as nat);
        }
        Density { total_cells: n, filled_cells: filled, vertical, horizontal }
    }
}

} // verus!

verus! {

/// Whether a colour tally of `cells` is exact: each colour listed once, with
/// the number of cells drawn in it, every cell's colour listed and no colour
/// that no cell is drawn in, in the order the colours are first met.
pub open spec fn tallies(tally: Seq<(Color, usize)>, cells: Seq<Cell>) -> bool {
    &&& forall|i: int| 0 <= i < tally.len() ==> #[trigger] tally[i].1 == fg_count(cells, tally[i].0) && tally[i].1 > 0
    &&& forall|i: int, j: int| 0 <= i < j < tally.len() ==> tally[i].0 != tally[j].0
    &&& forall|k: int| 0 <= k < cells.len() ==> exists|i: int| 0 <= i < tally.len() && tally[i].0 == (#[trigger] cells[k]).fg
    &&& in_first_met_order(tally, cells)
}

/// Whether the colours of `tally` come in the order `cells` first meets them:
/// wherever a cell is drawn in one colour, every colour listed before it has
/// been met at an earlier cell.
#[verifier::opaque]
pub open spec fn in_first_met_order(tally: Seq<(Color, usize)>, cells: Seq<Cell>) -> bool {
    forall|i: int, j: int, k: int|
        #![trigger tally[i], tally[j], cells[k]]
        0 <= i < j < tally.len() && 0 <= k < cells.len() && cells[k].fg == tally[j].0 ==> exists|q: int|
            0 <= q < k && (#[trigger] cells[q]).fg == tally[i].0
}

/// A cell in a colour already listed adds one to that colour's count.
proof fn lemma_tally_counts_again(
    old_tally: Seq<(Color, usize)>,
    tally: Seq<(Color, usize)>,
    before: Seq<Cell>,
    after: Seq<Cell>,
    i: int,
    c: Color,
)
    requires
        tallies(old_tally, before),
        after.len() == before.len() + 1,
        after.drop_last() == before,
        after.last().fg == c,
        0 <= i < old_tally.len(),
        old_tally[i].0 == c,
        old_tally[i].1 < usize::MAX,
        tally == old_tally.update(i, (c, (old_tally[i].1 + 1) as usize)),
    ensures
        tallies(tally, after),
{
    let k = before.len() as int;
    assert forall|q: int| 0 <= q < k implies after[q] == before[q] by {
        assert(after.drop_last()[q] == after[q]);
    }
    assert(after[k] == after.last());
    assert forall|j: int| 0 <= j < tally.len() implies #[trigger] tally[j].1 == fg_count(after, tally[j].0) && tally[j].1
        > 0 by {
        assert(old_tally[j].1 == fg_count(before, old_tally[j].0));
        assert(fg_count(after, tally[j].0) == fg_count(before, tally[j].0) + if c == tally[j].0 { 1nat } else { 0nat });
        if j != i {
            assert(tally[j] == old_tally[j]);
            assert(old_tally[j].0 != old_tally[i].0);
        }
    }
    assert forall|q: int| 0 <= q < after.len() implies exists|j: int| 0 <= j < tally.len() && tally[j].0 == (
    #[trigger] after[q]).fg by {
        if q < k {
            let j = choose|j: int| 0 <= j < old_tally.len() && old_tally[j].0 == (#[trigger] before[q]).fg;
            assert(tally[j].0 == old_tally[j].0);
        } else {
            assert(tally[i].0 == c);
        }
    }
    lemma_tally_order_on_count(old_tally, tally, before, after, i, c);
}

/// Counting one more cell in a listed colour keeps the colours in the order
/// they were first met.
#[verifier::spinoff_prover]
proof fn lemma_tally_order_on_count(
    old_tally: Seq<(Color, usize)>,
    tally: Seq<(Color, usize)>,
    before: Seq<Cell>,
    after: Seq<Cell>,
    i: int,
    c: Color,
)
    requires
        tallies(old_tally, before),
        after.len() == before.len() + 1,
        after.drop_last() == before,
        after.last().fg == c,
        0 <= i < old_tally.len(),
        old_tally[i].0 == c,
        old_tally[i].1 < usize::MAX,
        tally == old_tally.update(i, (c, (old_tally[i].1 + 1) as usize)),
    ensures
        in_first_met_order(tally, after),
{
    reveal(in_first_met_order);
    let k = before.len() as int;
    assert forall|q: int| 0 <= q < k implies after[q] == before[q] by {
        assert(after.drop_last()[q] == after[q]);
    }
    assert(after[k] == after.last());
    assert forall|a: int, b: int, kk: int|
        #![trigger tally[a], tally[b], after[kk]]
        0 <= a < b < tally.len() && 0 <= kk < after.len() && after[kk].fg == tally[b].0 implies exists|q: int|
            0 <= q < kk && (#[trigger] after[q]).fg == tally[a].0 by {
        assert(old_tally[a].0 == tally[a].0 && old_tally[b].0 == tally[b].0);
        if kk < k {
            assert(after[kk] == before[kk]);
            assert(old_tally[a] == old_tally[a] && old_tally[b] == old_tally[b] && before[kk] == before[kk]);
            let q = choose|q: int| 0 <= q < kk && (#[trigger] before[q]).fg == old_tally[a].0;
            assert(after[q] == before[q]);
        } else {
            assert(b == i);
            assert(old_tally[i].1 > 0);
            lemma_present_colour(before, c);
            let k2 = choose|k2: int| 0 <= k2 < before.len() && (#[trigger] before[k2]).fg == c;
            assert(old_tally[a] == old_tally[a] && old_tally[b] == old_tally[b] && before[k2] == before[k2]);
            let q = choose|q: int| 0 <= q < k2 && (#[trigger] before[q]).fg == old_tally[a].0;
            assert(after[q] == before[q]);
        }
    }
}

/// A cell in a colour not yet listed puts that colour last, counted once.
#[verifier::spinoff_prover]
proof fn lemma_tally_meets_a_colour(
    old_tally: Seq<(Color, usize)>,
    tally: Seq<(Color, usize)>,
    before: Seq<Cell>,
    after: Seq<Cell>,
    c: Color,
)
    requires
        tallies(old_tally, before),
        after.len() == before.len() + 1,
        after.drop_last() == before,
        after.last().fg == c,
        forall|j: int| 0 <= j < old_tally.len() ==> old_tally[j].0 != c,
        tally == old_tally.push((c, 1usize)),
    ensures
        tallies(tally, after),
{
    reveal(in_first_met_order);
    let k = before.len() as int;
    let m = old_tally.len() as int;
    assert forall|q: int| 0 <= q < k implies after[q] == before[q] by {
        assert(after.drop_last()[q] == after[q]);
    }
    assert(after[k] == after.last());
    assert forall|q: int| 0 <= q < before.len() implies (#[trigger] before[q]).fg != c by {
        let jj = choose|jj: int| 0 <= jj < old_tally.len() && old_tally[jj].0 == (#[trigger] before[q]).fg;
    }
    assert forall|j: int| 0 <= j < tally.len() implies #[trigger] tally[j].1 == fg_count(after, tally[j].0) && tally[j].1
        > 0 by {
        if j == m {
            lemma_absent_colour(before, c);
        } else {
            assert(tally[j] == old_tally[j]);
            assert(old_tally[j].1 == fg_count(before, old_tally[j].0));
        }
    }
    assert forall|q: int| 0 <= q < after.len() implies exists|j: int| 0 <= j < tally.len() && tally[j].0 == (
    #[trigger] after[q]).fg by {
        if q < k {
            let j = choose|j: int| 0 <= j < old_tally.len() && old_tally[j].0 == (#[trigger] before[q]).fg;
            assert(tally[j].0 == old_tally[j].0);
        } else {
            assert(tally[m].0 == c);
        }
    }
    assert forall|a: int, b: int, kk: int|
        #![trigger tally[a], tally[b], after[kk]]
        0 <= a < b < tally.len() && 0 <= kk < after.len() && after[kk].fg == tally[b].0 implies exists|q: int|
            0 <= q < kk && (#[trigger] after[q]).fg == tally[a].0 by {
        assert(tally[a] == old_tally[a]);
        if kk < k {
            assert(after[kk] == before[kk]);
            assert(b < m);
            assert(tally[b] == old_tally[b]);
            assert(old_tally[a] == old_tally[a] && old_tally[b] == old_tally[b] && before[kk] == before[kk]);
            let q = choose|q: int| 0 <= q < kk && (#[trigger] before[q]).fg == old_tally[a].0;
            assert(after[q] == before[q]);
        } else {
            assert(old_tally[a].1 > 0);
            assert(old_tally[a].1 == fg_count(before, old_tally[a].0));
            lemma_present_colour(before, old_tally[a].0);
            let q = choose|q: int| 0 <= q < before.len() && (#[trigger] before[q]).fg == old_tally[a].0;
            assert(after[q] == before[q]);
        }
    }
}

/// A colour some cell is drawn in is met at a cell.
proof fn lemma_present_colour(cells: Seq<Cell>, c: Color)
    requires
        fg_count(cells, c) > 0,
    ensures
        exists|q: int| 0 <= q < cells.len() && (#[trigger] cells[q]).fg == c,
{
    if !exists|q: int| 0 <= q < cells.len() && (#[trigger] cells[q]).fg == c {
        lemma_absent_colour(cells, c);
    }
}

proof fn lemma_fg_count_at_most(cells: Seq<Cell>, c: Color)
    ensures
        fg_count(cells, c) <= cells.len(),
    decreases cells.len(),
{
    if cells.len() > 0 {
        lemma_fg_count_at_most(cells.drop_last(), c);
    }
}

impl VisualAnalyzer {
    /// How many cells of `grid` are drawn in each colour, colours in the
    /// order they are first met.
    #[verifier::spinoff_prover]
    pub fn colour_tally(grid: &Grid) -> (tally: Vec<(Color, usize)>)
        ensures
            tallies(tally@, grid.cells@),
    {
        let cells = &grid.cells;
        let n = cells.len();
        let mut tally: Vec<(Color, usize)> = Vec::new();
        let mut k: usize = 0;
        proof {
            reveal(in_first_met_order);
        }
        while k < n
            invariant
                n == cells@.len(),
                k <= n,
                tallies(tally@, cells@.take(k as int)),
            decreases n - k,
        {
            let c = cells[k].fg;
            let ghost before = cells@.take(k as int);
            let ghost after = cells@.take(k + 1);
            proof {
                lemma_take_step(cells@, k as int);
            }
            let mut i: usize = 0;
            let m = tally.len();
            while i < m && tally[i].0 != c
                invariant
                    m == tally@.len(),
                    i <= m,
                    forall|j: int| 0 <= j < i ==> tally@[j].0 != c,
                decreases m - i,
            {
                i += 1;
            }
            let ghost old_tally = tally@;
            if i < m {
                proof {
                    lemma_fg_count_at_most(before, c);
                }
                let (colour, count) = tally[i];
                tally.set(i, (colour, count + 1));
                proof {
                    lemma_tally_counts_again(old_tally, tally@, before, after, i as int, c);
                }
            } else {
                tally.push((c, 1));
                proof {
                    lemma_tally_meets_a_colour(old_tally, tally@, before, after, c);
                }
            }
            k += 1;
        }
        proof {
            assert(cells@.take(n as int) =~= cells@);
        }
        tally
    }

    /// The exact colours `grid` is drawn in, one per cell drawn in one.
    pub fn rgb_cells(grid: &Grid) -> (colours: Vec<(u8, u8, u8)>)
        ensures
            colours@ == rgb_in(grid.cells@),
    {
        let cells = &grid.cells;
        let n = cells.len();
        let mut colours: Vec<(u8, u8, u8)> = Vec::new();
        let mut k: usize = 0;
        while k < n
            invariant
                n == cells@.len(),
                k <= n,
                colours@ == rgb_in(cells@.take(k as int)),
            decreases n - k,
        {
            proof {
                lemma_take_step(cells@, k as int);
            }
            match cells[k].fg {
                Color::Rgb(r, g, b) => colours.push((r, g, b)),
                _ => {},
            }
            k += 1;
        }
        proof {
            assert(cells@.take(n as int) =~= cells@);
        }
        colours
    }

    /// How many distinct exact colours a tally holds.
    pub fn rgb_variety(tally: &[(Color, usize)]) -> (variety: usize)
        ensures
            variety == rgb_entries(tally@),
    {
        let n = tally.len();
        let mut variety: usize = 0;
        let mut i: usize = 0;
        while i < n
            invariant
                n == tally@.len(),
                i <= n,
                variety == rgb_entries(tally@.take(i as int)),
                variety <= i,
            decreases n - i,
        {
            proof {
                lemma_take_step(tally@, i as int);
            }
            match tally[i].0 {
                Color::Rgb(..) => variety += 1,
                _ => {},
            }
            i += 1;
        }
        proof {
            assert(tally@.take(n as int) =~= tally@);
        }
        variety
    }

    /// Row `y` of `grid` as text: its symbols one after another.
    pub fn row_text(grid: &Grid, y: u16) -> (text: String)
        requires
            well_formed(*grid),
            y < grid.area.height,
        ensures
            text@ == joined(grid.cells@.subrange(at(grid.area.width as int, 0, y as int), at(grid.area.width as int, 0, y + 1))),
    {
        let cells = &grid.cells;
        let n = cells.len();
        let w = grid.area.width as usize;
        proof {
            lemma_row_inside(w as int, grid.area.height as int, y as int);
        }
        let row: usize = y as usize * w;
        proof {
            assert(at(w as int, 0, y + 1) == row + w) by (nonlinear_arith)
                requires row == y * w;
        }
        let mut text = String::new();
        let mut x: usize = 0;
        while x < w
            invariant
                cells@.len() == grid.cells@.len(),
                cells == &grid.cells,
                n == cells@.len(),
                row + w <= n,
                x <= w,
                text@ == joined(cells@.subrange(row as int, row + x)),
            decreases w - x,
        {
            proof {
                lemma_subrange_step(cells@, row as int, row + x);
            }
            text.append(cells[row + x].symbol.as_str());
            x += 1;
        }
        text
    }
}

/// A colour no cell is drawn in counts no cells.
proof fn lemma_absent_colour(cells: Seq<Cell>, c: Color)
    requires
        forall|q: int| 0 <= q < cells.len() ==> (#[trigger] cells[q]).fg != c,
    ensures
        fg_count(cells, c) == 0,
    decreases cells.len(),
{
    if cells.len() > 0 {
        assert forall|q: int| 0 <= q < cells.drop_last().len() implies (#[trigger] cells.drop_last()[q]).fg != c by {
            assert(cells.drop_last()[q] == cells[q]);
        }
        lemma_absent_colour(cells.drop_last(), c);
    }
}

} // verus!
