//! LRC lyrics: time tags such as `[01:02.50]` in front of each line's text.
//!
//! Times are kept exactly, as whole hundredths of a second: a tag `[mm:ss.xx]`
//! stands for `(mm * 60 + ss) * 100 + xx` hundredths. A playback position is
//! compared with tag times in the same unit; a position `p` seconds compares with
//! the tags exactly as `floor(100 * p)` hundredths does.

use vstd::prelude::*;
use crate::text::{
    append, chars_of, find_char, find_from, is_white_space, lemma_find_from, lemma_find_from_at,
    lemma_find_from_none, lemma_trim_bounds, lemma_trim_idempotent, lines, lines_spec, parse_i32,
    parse_i32_spec, slice_of, string_of, trim, trim_spec,
};

verus! {

/// One timed line of lyrics.
pub struct LyricLine {
    /// When the line starts, in hundredths of a second.
    pub time_cs: i64,
    /// The text of the line, without its time tags and surrounding white space.
    pub content: String,
}

impl LyricLine {
    /// The line as a pair of its time and its text.
    pub open spec fn view_pair(self) -> (int, Seq<char>) {
        (self.time_cs as int, self.content@)
    }
}

/// The lines as pairs of time and text.
pub open spec fn lyric_lines_view(v: Seq<LyricLine>) -> Seq<(int, Seq<char>)> {
    v.map_values(|l: LyricLine| l.view_pair())
}

// ---------------------------------------------------------------------------
// Specification of the format
// ---------------------------------------------------------------------------

/// The seconds part of a tag: `ss` or `ss.xx`, read as `(ss, xx)`; an `xx` that is
/// not a number counts as 0.
pub open spec fn seconds_part_spec(rest: Seq<char>) -> Option<(int, int)> {
    match find_from(rest, 0, '.') {
        Some(d) => match parse_i32_spec(rest.subrange(0, d)) {
            Some(ss) => Some(
                (
                    ss,
                    match parse_i32_spec(rest.subrange(d + 1, rest.len() as int)) {
                        Some(xx) => xx,
                        None => 0,
                    },
                ),
            ),
            None => None,
        },
        None => match parse_i32_spec(rest) {
            Some(ss) => Some((ss, 0)),
            None => None,
        },
    }
}

/// `x` fits a 32-bit signed count.
pub open spec fn fits_i32(x: int) -> bool {
    i32::MIN <= x <= i32::MAX
}

/// The time, in hundredths of a second, that the inside of a tag such as
/// `01:02.50` denotes: minutes before the first `:`, then seconds up to the next
/// `:` (anything after a second `:` is ignored). The whole seconds are counted in
/// 32 bits: a tag whose minutes times 60, or that plus its seconds, leaves that
/// range is no time.
pub open spec fn tag_time_spec(inner: Seq<char>) -> Option<int> {
    match find_from(inner, 0, ':') {
        None => None,
        Some(p) => {
            let end = match find_from(inner, p + 1, ':') {
                Some(q) => q,
                None => inner.len() as int,
            };
            match parse_i32_spec(inner.subrange(0, p)) {
                None => None,
                Some(mm) => match seconds_part_spec(inner.subrange(p + 1, end)) {
                    None => None,
                    Some(sx) => if fits_i32(mm * 60) && fits_i32(mm * 60 + sx.0) {
                        Some((mm * 60 + sx.0) * 100 + sx.1)
                    } else {
                        None
                    },
                },
            }
        },
    }
}

/// Removes time tags from `r`: while the first `[` of the text opens a bracket
/// whose inside is a time, that bracket is cut out; the first `[` that does not
/// open a time stops the removal.
pub open spec fn strip_loop(r: Seq<char>) -> Seq<char>
    decreases r.len(),
{
    match find_from(r, 0, '[') {
        None => r,
        Some(a) => match find_from(r, a, ']') {
            None => r,
            Some(b) => {
                proof {
                    lemma_find_from(r, 0, '[');
                    lemma_find_from(r, a, ']');
                }
                if tag_time_spec(r.subrange(a + 1, b)) is Some {
                    strip_loop(r.subrange(0, a) + r.subrange(b + 1, r.len() as int))
                } else {
                    r
                }
            },
        },
    }
}

/// The text of a line: its time tags removed, then trimmed.
pub open spec fn strip_tags_spec(line: Seq<char>) -> Seq<char> {
    trim_spec(strip_loop(line))
}

/// The times of the bracketed tags of `line` from position `i` on, in order;
/// brackets whose inside is not a time are passed over.
pub open spec fn tag_times_from(line: Seq<char>, i: int) -> Seq<int>
    decreases line.len() - i,
{
    if i < 0 || i >= line.len() {
        Seq::empty()
    } else {
        match find_from(line, i, '[') {
            None => Seq::empty(),
            Some(s) => match find_from(line, s + 1, ']') {
                None => Seq::empty(),
                Some(e) => {
                    proof {
                        lemma_find_from(line, i, '[');
                        lemma_find_from(line, s + 1, ']');
                    }
                    let here = match tag_time_spec(line.subrange(s + 1, e)) {
                        Some(t) => seq![t],
                        None => Seq::empty(),
                    };
                    here + tag_times_from(line, e + 1)
                },
            },
        }
    }
}

/// The entries that one line contributes: one per time tag, each with the line's
/// text; none when the text is empty.
pub open spec fn line_entries(line: Seq<char>) -> Seq<(int, Seq<char>)> {
    let content = strip_tags_spec(line);
    if content.len() == 0 {
        Seq::empty()
    } else {
        tag_times_from(line, 0).map_values(|t: int| (t, content))
    }
}

/// The entries of the lines `ls`, in order.
pub open spec fn lrc_of_lines(ls: Seq<Seq<char>>) -> Seq<(int, Seq<char>)>
    decreases ls.len(),
{
    if ls.len() == 0 {
        Seq::empty()
    } else {
        lrc_of_lines(ls.drop_last()) + line_entries(ls.last())
    }
}

/// The timed lines of an LRC text.
pub open spec fn parse_lrc_spec(raw: Seq<char>) -> Seq<(int, Seq<char>)> {
    lrc_of_lines(lines_spec(raw))
}

/// Line `i` is the one being sung at time `t`: it has started, and the next line
/// (if any) has not.
pub open spec fn active_at(lines: Seq<LyricLine>, i: int, t: int) -> bool {
    &&& 0 <= i < lines.len()
    &&& lines[i].time_cs <= t
    &&& i + 1 < lines.len() ==> t < lines[i + 1].time_cs
}

/// The index that `lyric_index_at_time` picks: the first active line.
pub open spec fn lyric_index_spec(lines: Seq<LyricLine>, t: int) -> Option<int> {
    if exists|i: int| active_at(lines, i, t) {
        Some(choose|i: int| active_at(lines, i, t) && forall|j: int| 0 <= j < i ==> !active_at(lines, j, t))
    } else {
        None
    }
}

// ---------------------------------------------------------------------------
// Implementation
// ---------------------------------------------------------------------------

/// `ss` or `ss.xx` from `rest`.
fn seconds_part(rest: &[char]) -> (r: Option<(i32, i32)>)
    ensures
        r matches Some(p) ==> seconds_part_spec(rest@) == Some((p.0 as int, p.1 as int)),
        r is None ==> seconds_part_spec(rest@) is None,
{
    assert(rest@.subrange(0, rest@.len() as int) =~= rest@);
    match find_char(rest, 0, '.') {
        Some(d) => match parse_i32(rest, 0, d) {
            Some(ss) => {
                let xx = match parse_i32(rest, d + 1, rest.len()) {
                    Some(x) => x,
                    None => 0,
                };
                Some((ss, xx))
            },
            None => None,
        },
        None => match parse_i32(rest, 0, rest.len()) {
            Some(ss) => Some((ss, 0)),
            None => None,
        },
    }
}

/// The time of a tag's inside, in hundredths of a second.
fn parse_tag_time(inner: &[char]) -> (r: Option<i64>)
    ensures
        r matches Some(t) ==> tag_time_spec(inner@) == Some(t as int),
        r is None ==> tag_time_spec(inner@) is None,
{
    match find_char(inner, 0, ':') {
        None => None,
        Some(p) => {
            let end = match find_char(inner, p + 1, ':') {
                Some(q) => q,
                None => inner.len(),
            };
            match parse_i32(inner, 0, p) {
                None => None,
                Some(mm) => {
                    let rest = slice_of(inner, p + 1, end);
                    match seconds_part(&rest) {
                        None => None,
                        Some((ss, xx)) => {
                            let minutes = (mm as i64) * 60;
                            let whole = minutes + (ss as i64);
                            if minutes < i32::MIN as i64 || minutes > i32::MAX as i64 || whole
                                < i32::MIN as i64 || whole > i32::MAX as i64 {
                                return None;
                            }
                            Some(whole * 100 + (xx as i64))
                        },
                    }
                },
            }
        },
    }
}

/// The text of a line without its leading time tags, trimmed.
pub fn strip_tags(line: &[char]) -> (r: Vec<char>)
    ensures
        r@ == strip_tags_spec(line@),
{
    let mut r: Vec<char> = slice_of(line, 0, line.len());
    assert(line@.subrange(0, line@.len() as int) =~= line@);
    loop
        invariant
            strip_loop(r@) == strip_loop(line@),
        ensures
            strip_loop(r@) == strip_loop(line@),
            strip_loop(r@) == r@,
        decreases r@.len(),
    {
        let a = match find_char(&r, 0, '[') {
            None => {
                break;
            },
            Some(a) => a,
        };
        let b = match find_char(&r, a, ']') {
            None => {
                break;
            },
            Some(b) => b,
        };
        let inner = slice_of(&r, a + 1, b);
        match parse_tag_time(&inner) {
            None => {
                break;
            },
            Some(_) => {
                let mut next = slice_of(&r, 0, a);
                let tail = slice_of(&r, b + 1, r.len());
                append(&mut next, &tail);
                r = next;
            },
        }
    }
    trim(&r)
}

/// The times of all bracketed tags of `line`, in order.
fn tag_times_in_line(line: &[char]) -> (r: Vec<i64>)
    ensures
        r@.len() == tag_times_from(line@, 0).len(),
        forall|k: int| 0 <= k < r@.len() ==> r@[k] as int == #[trigger] tag_times_from(line@, 0)[k],
{
    let mut times: Vec<i64> = Vec::new();
    let ghost done: Seq<int> = Seq::empty();
    let mut i: usize = 0;
    while i < line.len()
        invariant_except_break
            i <= line@.len(),
            times@.len() == done.len(),
            forall|k: int| 0 <= k < times@.len() ==> times@[k] as int == #[trigger] done[k],
            done + tag_times_from(line@, i as int) == tag_times_from(line@, 0),
        ensures
            times@.len() == tag_times_from(line@, 0).len(),
            forall|k: int| 0 <= k < times@.len() ==> times@[k] as int == #[trigger] tag_times_from(line@, 0)[k],
        decreases line.len() - i,
    {
        let s = match find_char(line, i, '[') {
            None => {
                assert(tag_times_from(line@, i as int) =~= Seq::<int>::empty());
                assert(done =~= tag_times_from(line@, 0));
                break;
            },
            Some(s) => s,
        };
        let e = match find_char(line, s + 1, ']') {
            None => {
                assert(tag_times_from(line@, i as int) =~= Seq::<int>::empty());
                assert(done + Seq::<int>::empty() =~= done);
                assert(done =~= tag_times_from(line@, 0));
                break;
            },
            Some(e) => e,
        };
        proof {
            lemma_find_from(line@, i as int, '[');
            lemma_find_from(line@, s + 1, ']');
        }
        let inner = slice_of(line, s + 1, e);
        let ghost here: Seq<int> = match tag_time_spec(line@.subrange(s + 1, e as int)) {
            Some(t) => seq![t],
            None => Seq::empty(),
        };
        assert(tag_times_from(line@, i as int) == here + tag_times_from(line@, e + 1));
        match parse_tag_time(&inner) {
            Some(t) => {
                times.push(t);
            },
            None => {},
        }
        proof {
            let old_done = done;
            done = done + here;
            assert(done + tag_times_from(line@, e + 1) =~= old_done + tag_times_from(line@, i as int));
        }
        i = e + 1;
        proof {
            if i >= line@.len() {
                assert(tag_times_from(line@, i as int) =~= Seq::<int>::empty());
                assert(done + Seq::<int>::empty() =~= done);
            }
        }
    }
    times
}

/// Parses LRC text into timed lines: for every line of `raw` whose text (tags
/// removed, trimmed) is not empty, one entry per time tag of the line, in order.
pub fn parse_lrc_text(raw: &str) -> (out: Vec<LyricLine>)
    ensures
        lyric_lines_view(out@) == parse_lrc_spec(raw@),
{
    let chars = chars_of(raw);
    let ls = lines(&chars);
    let ghost lsv: Seq<Seq<char>> = lines_spec(raw@);
    let mut out: Vec<LyricLine> = Vec::new();
    let mut k: usize = 0;
    assert(lsv.take(0) =~= Seq::<Seq<char>>::empty());
    while k < ls.len()
        invariant
            ls@.len() == lsv.len(),
            forall|j: int| 0 <= j < ls@.len() ==> #[trigger] ls@[j]@ == lsv[j],
            k <= ls@.len(),
            lyric_lines_view(out@) == lrc_of_lines(lsv.take(k as int)),
        decreases ls.len() - k,
    {
        let line = &ls[k];
        let content = strip_tags(line);
        let ghost before = lyric_lines_view(out@);
        assert(lsv.take(k + 1).drop_last() =~= lsv.take(k as int));
        assert(lsv.take(k + 1).last() == line@);
        if content.len() == 0 {
            assert(line_entries(line@) =~= Seq::<(int, Seq<char>)>::empty());
            assert(lrc_of_lines(lsv.take(k + 1)) =~= before);
        } else {
            let times = tag_times_in_line(line);
            let ghost tt = tag_times_from(line@, 0);
            let mut j: usize = 0;
            while j < times.len()
                invariant
                    j <= times@.len(),
                    times@.len() == tt.len(),
                    forall|q: int| 0 <= q < times@.len() ==> times@[q] as int == #[trigger] tt[q],
                    content@ == strip_tags_spec(line@),
                    lyric_lines_view(out@) == before + tt.take(j as int).map_values(
                        |t: int| (t, content@),
                    ),
                decreases times.len() - j,
            {
                let entry = LyricLine { time_cs: times[j], content: string_of(&content) };
                let ghost prev = out@;
                out.push(entry);
                assert(lyric_lines_view(out@) =~= lyric_lines_view(prev).push((times@[j as int] as int, content@)));
                assert(tt.take(j + 1).map_values(|t: int| (t, content@)) =~= tt.take(j as int).map_values(
                    |t: int| (t, content@),
                ).push((tt[j as int], content@)));
                j = j + 1;
            }
            assert(tt.take(tt.len() as int) =~= tt);
            assert(line_entries(line@) =~= tt.map_values(|t: int| (t, content@)));
        }
        k = k + 1;
    }
    assert(lsv.take(lsv.len() as int) =~= lsv);
    out
}

/// The index of the line being sung at `time_cs`: the first line that has started
/// while the line after it (if any) has not. `None` when no line is active.
pub fn lyric_index_at_time(lines: &[LyricLine], time_cs: i64) -> (r: Option<usize>)
    ensures
        r matches Some(i) ==> active_at(lines@, i as int, time_cs as int) && forall|j: int|
            0 <= j < i ==> !active_at(lines@, j, time_cs as int),
        r is None ==> forall|j: int| !active_at(lines@, j, time_cs as int),
        r matches Some(i) ==> lyric_index_spec(lines@, time_cs as int) == Some(i as int),
        r is None ==> lyric_index_spec(lines@, time_cs as int) is None,
{
    if lines.len() == 0 {
        return None;
    }
    let mut i: usize = 0;
    while i < lines.len()
        invariant
            i <= lines@.len(),
            forall|j: int| 0 <= j < i ==> !active_at(lines@, j, time_cs as int),
        decreases lines.len() - i,
    {
        let cur = lines[i].time_cs;
        if i + 1 < lines.len() {
            let next = lines[i + 1].time_cs;
            if time_cs >= cur && time_cs < next {
                proof {
                    lemma_first_active_unique(lines@, i as int, time_cs as int);
                }
                return Some(i);
            }
        } else if time_cs >= cur {
            proof {
                lemma_first_active_unique(lines@, i as int, time_cs as int);
            }
            return Some(i);
        }
        i = i + 1;
    }
    assert forall|j: int| !active_at(lines@, j, time_cs as int) by {
        if 0 <= j < i {
        }
    }
    None
}

proof fn lemma_first_active_unique(lines: Seq<LyricLine>, i: int, t: int)
    requires
        active_at(lines, i, t),
        forall|j: int| 0 <= j < i ==> !active_at(lines, j, t),
    ensures
        lyric_index_spec(lines, t) == Some(i),
{
    let c = choose|k: int| active_at(lines, k, t) && forall|j: int| 0 <= j < k ==> !active_at(lines, j, t);
    assert(active_at(lines, c, t) && forall|j: int| 0 <= j < c ==> !active_at(lines, j, t));
    if c < i {
        assert(!active_at(lines, c, t));
    } else if c > i {
        assert(!active_at(lines, i, t));
    }
}

// ---------------------------------------------------------------------------
// Laws
// ---------------------------------------------------------------------------

/// Line `i` has started by `t` and the line after it (if any) has not.
pub open spec fn last_started(lines: Seq<LyricLine>, t: int, i: int) -> bool {
    0 <= i < lines.len() && lines[i].time_cs <= t && (i + 1 < lines.len() ==> lines[i + 1].time_cs > t)
}

/// Start times that never decrease.
pub open spec fn times_sorted(lines: Seq<LyricLine>) -> bool {
    forall|a: int, b: int| 0 <= a <= b < lines.len() ==> lines[a].time_cs <= lines[b].time_cs
}

/// On lines whose start times never decrease, the line picked at time `t` is the
/// last line that has started by `t`; before the first line starts, none is picked.
pub proof fn lemma_index_is_last_started(lines: Seq<LyricLine>, t: int)
    requires
        times_sorted(lines),
    ensures
        lines.len() > 0 && lines[0].time_cs <= t ==> exists|i: int| {
            &&& lyric_index_spec(lines, t) == Some(i)
            &&& lines[i].time_cs <= t
            &&& forall|j: int| i < j < lines.len() ==> lines[j].time_cs > t
        },
        lines.len() == 0 || t < lines[0].time_cs ==> lyric_index_spec(lines, t) is None,
{
    if lines.len() > 0 && lines[0].time_cs <= t {
        // The last started line.
        let n = lines.len() as int;
        lemma_last_started_exists(lines, t, 0);
        let i = choose|i: int| last_started(lines, t, i);
        assert(active_at(lines, i, t));
        assert forall|j: int| 0 <= j < i implies !active_at(lines, j, t) by {
            if active_at(lines, j, t) {
                assert(lines[j + 1].time_cs <= lines[i].time_cs);
            }
        }
        lemma_first_active_unique(lines, i, t);
        assert forall|j: int| i < j < n implies lines[j].time_cs > t by {
            assert(lines[i + 1].time_cs <= lines[j].time_cs);
        }
    } else {
        assert forall|j: int| !active_at(lines, j, t) by {
            if active_at(lines, j, t) {
                assert(lines[0].time_cs <= lines[j].time_cs);
            }
        }
    }
}

proof fn lemma_last_started_exists(lines: Seq<LyricLine>, t: int, k: int)
    requires
        0 <= k < lines.len(),
        lines[k].time_cs <= t,
    ensures
        exists|i: int| last_started(lines, t, i),
    decreases lines.len() - k,
{
    if k + 1 < lines.len() && lines[k + 1].time_cs <= t {
        lemma_last_started_exists(lines, t, k + 1);
    } else {
        assert(last_started(lines, t, k));
    }
}

/// Tag removal stops at `r` at once: its first `[` (if any) opens no bracket whose
/// inside is a time.
pub open spec fn tag_removal_stops(r: Seq<char>) -> bool {
    match find_from(r, 0, '[') {
        None => true,
        Some(a) => match find_from(r, a, ']') {
            None => true,
            Some(b) => tag_time_spec(r.subrange(a + 1, b)) is None,
        },
    }
}

proof fn lemma_strip_loop_stops(r: Seq<char>)
    ensures
        tag_removal_stops(strip_loop(r)),
    decreases r.len(),
{
    lemma_find_from(r, 0, '[');
    if let Some(a) = find_from(r, 0, '[') {
        lemma_find_from(r, a, ']');
        if let Some(b) = find_from(r, a, ']') {
            if tag_time_spec(r.subrange(a + 1, b)) is Some {
                lemma_strip_loop_stops(r.subrange(0, a) + r.subrange(b + 1, r.len() as int));
            }
        }
    }
}

/// Trimming white space off the ends keeps tag removal stopped.
proof fn lemma_stops_after_trim(x: Seq<char>)
    requires
        tag_removal_stops(x),
    ensures
        tag_removal_stops(trim_spec(x)),
{
    let (lo, hi) = lemma_trim_bounds(x);
    let y = x.subrange(lo, hi);
    assert(!is_white_space('[') && !is_white_space(']'));
    lemma_find_from(x, 0, '[');
    match find_from(x, 0, '[') {
        None => {
            lemma_find_from_none(y, 0, '[');
        },
        Some(p) => {
            assert(lo <= p < hi) by {
                if p < lo {
                    assert(is_white_space(x[p]));
                }
                if p >= hi {
                    assert(is_white_space(x[p]));
                }
            }
            lemma_find_from_at(y, 0, p - lo, '[');
            lemma_find_from(x, p, ']');
            match find_from(x, p, ']') {
                None => {
                    assert forall|j: int| p - lo <= j < y.len() implies y[j] != ']' by {
                        assert(y[j] == x[j + lo]);
                    }
                    lemma_find_from_none(y, p - lo, ']');
                },
                Some(q) => {
                    assert(q < hi) by {
                        if q >= hi {
                            assert(is_white_space(x[q]));
                        }
                    }
                    assert forall|j: int| p - lo <= j < q - lo implies y[j] != ']' by {
                        assert(y[j] == x[j + lo]);
                    }
                    lemma_find_from_at(y, p - lo, q - lo, ']');
                    assert(y.subrange(p - lo + 1, q - lo) =~= x.subrange(p + 1, q));
                },
            }
        },
    }
}

/// Removing the time tags of a line twice gives what removing them once gives.
pub proof fn lemma_strip_tags_idempotent(line: Seq<char>)
    ensures
        strip_tags_spec(strip_tags_spec(line)) == strip_tags_spec(line),
{
    let x = strip_loop(line);
    let y = trim_spec(x);
    lemma_strip_loop_stops(line);
    lemma_stops_after_trim(x);
    assert(strip_loop(y) == y);
    lemma_trim_idempotent(x);
}

} // verus!
