//! The state of the track being played: which song, its lyrics, the position, how
//! much of it is downloaded, and a seek that is still settling.
//!
//! Times are whole milliseconds on the caller's clock.

use vstd::prelude::*;
use crate::api::MusicItem;
use crate::lyrics::{LyricLine, lyric_index_at_time, lyric_index_spec};
use crate::text::{append, padded_decimal, padded_u64_decimal, string_of};

verus! {

/// How long after a seek position reports far from the target are ignored.
pub const SEEK_SETTLE_MS: u64 = 400;

/// How far from the seek target a reported position may be while a seek settles.
pub const SEEK_TOLERANCE_MS: u64 = 400;

/// An index as a `usize`, kept `None`.
pub open spec fn index_opt(o: Option<int>) -> Option<usize> {
    match o {
        Some(i) => Some(i as usize),
        None => None,
    }
}

/// The lyric line for a position in milliseconds: lyric times are hundredths of a
/// second, so the position counts in whole hundredths.
pub open spec fn lyric_index_for_ms(lyrics: Seq<LyricLine>, time_ms: u64) -> Option<usize> {
    index_opt(lyric_index_spec(lyrics, (time_ms / 10) as int))
}

/// The song `id` is the one selected.
pub open spec fn current_is(current: Option<MusicItem>, id: i64) -> bool {
    current matches Some(c) && c.id == id
}

/// How far one can seek: the whole duration when all is downloaded (or when any of
/// it is and the total size is unknown), else the downloaded share of it; nothing
/// without a duration.
pub open spec fn buffered_end_spec(duration_ms: u64, load_bytes: u64, load_total_bytes: Option<
    u64,
>) -> int {
    if duration_ms == 0 {
        0
    } else {
        match load_total_bytes {
            Some(total) if total > 0 => if load_bytes >= total {
                duration_ms as int
            } else {
                duration_ms as int * load_bytes as int / total as int
            },
            _ => if load_bytes > 0 {
                duration_ms as int
            } else {
                0
            },
        }
    }
}

/// The distance between two positions.
pub open spec fn distance(a: u64, b: u64) -> int {
    if a >= b {
        a - b
    } else {
        b - a
    }
}

/// The clock text `mm:ss` of a position: whole minutes (at least two digits) and
/// the seconds left over, of the whole seconds in `ms`.
pub open spec fn clock_text(ms: u64) -> Seq<char> {
    let s = ms / 1000;
    padded_decimal((s / 60) as nat, 2) + seq![':'] + padded_decimal((s % 60) as nat, 2)
}

/// The position `ms` as `mm:ss`.
pub fn fmt_time(ms: u64) -> (r: String)
    ensures
        r@ == clock_text(ms),
{
    let s = ms / 1000;
    let mut v = padded_u64_decimal(s / 60, 2);
    let mut colon: Vec<char> = Vec::new();
    colon.push(':');
    append(&mut v, &colon);
    append(&mut v, &padded_u64_decimal(s % 60, 2));
    assert(v@ =~= clock_text(ms));
    string_of(&v)
}

/// The track being played.
pub struct Playback {
    pub current: Option<MusicItem>,
    pub lyrics: Vec<LyricLine>,
    pub current_lyric_index: Option<usize>,
    pub is_playing: bool,
    pub current_time_ms: u64,
    pub duration_ms: u64,
    /// Bytes of the track already in the local cache.
    pub load_bytes: u64,
    /// Size of the whole track when known.
    pub load_total_bytes: Option<u64>,
    /// The target of a seek that is still settling, and when it was made.
    pub pending_seek_ms: Option<u64>,
    pub pending_seek_at_ms: Option<u64>,
    /// Counts track changes; loads made for an older count are stale.
    pub load_generation: u64,
}

/// `g + 1`, wrapping to 0 after the largest value.
pub open spec fn next_generation(g: u64) -> u64 {
    if g == u64::MAX {
        0
    } else {
        (g + 1) as u64
    }
}

/// After the track ended: stopped, back at the start with no seek settling, the
/// highlight on the first lyric line (if any), the rest as before.
pub open spec fn ended_post(p0: Playback, p1: Playback) -> bool {
    p1 == (Playback {
        is_playing: false,
        pending_seek_ms: None,
        pending_seek_at_ms: None,
        current_time_ms: 0,
        current_lyric_index: if p0.lyrics@.len() == 0 {
            None
        } else {
            Some(0usize)
        },
        ..p0
    })
}

/// After a reported position: rejected while a seek settles and the position is
/// far from its target (nothing changes); otherwise position, duration and lyric
/// highlight follow the report and a settled seek is forgotten.
pub open spec fn tick_post(p0: Playback, p1: Playback, position_ms: u64, duration_ms: u64, now_ms: u64, taken: bool) -> bool {
    &&& taken == !p0.tick_rejected(position_ms, now_ms)
    &&& !taken ==> p1 == p0
    &&& taken ==> p1 == (Playback {
        current_time_ms: position_ms,
        duration_ms: duration_ms,
        current_lyric_index: lyric_index_for_ms(p0.lyrics@, position_ms),
        pending_seek_ms: if p0.seek_settled(now_ms) {
            None
        } else {
            p0.pending_seek_ms
        },
        pending_seek_at_ms: if p0.seek_settled(now_ms) {
            None
        } else {
            p0.pending_seek_at_ms
        },
        ..p0
    })
}

impl Playback {
    /// Nothing selected.
    pub fn new() -> (r: Playback)
        ensures
            r.current is None,
            r.lyrics@.len() == 0,
            r.current_lyric_index is None,
            !r.is_playing,
            r.current_time_ms == 0,
            r.duration_ms == 0,
            r.load_bytes == 0,
            r.load_total_bytes is None,
            r.pending_seek_ms is None,
            r.pending_seek_at_ms is None,
            r.load_generation == 0,
    {
        Playback {
            current: None,
            lyrics: Vec::new(),
            current_lyric_index: None,
            is_playing: false,
            current_time_ms: 0,
            duration_ms: 0,
            load_bytes: 0,
            load_total_bytes: None,
            pending_seek_ms: None,
            pending_seek_at_ms: None,
            load_generation: 0,
        }
    }

    /// Whether the song `id` is the one selected.
    pub fn is_current(&self, id: i64) -> (r: bool)
        ensures
            r == current_is(self.current, id),
    {
        match &self.current {
            Some(c) => c.id == id,
            None => false,
        }
    }

    /// Points the lyric highlight at the line for the current position.
    pub fn sync_lyric_index(&mut self)
        ensures
            final(self).current_lyric_index == lyric_index_for_ms(
                old(self).lyrics@,
                old(self).current_time_ms,
            ),
            final(self).current == old(self).current,
            final(self).lyrics == old(self).lyrics,
            final(self).is_playing == old(self).is_playing,
            final(self).current_time_ms == old(self).current_time_ms,
            final(self).duration_ms == old(self).duration_ms,
            final(self).load_bytes == old(self).load_bytes,
            final(self).load_total_bytes == old(self).load_total_bytes,
            final(self).pending_seek_ms == old(self).pending_seek_ms,
            final(self).pending_seek_at_ms == old(self).pending_seek_at_ms,
            final(self).load_generation == old(self).load_generation,
    {
        let t = (self.current_time_ms / 10) as i64;
        self.current_lyric_index = lyric_index_at_time(self.lyrics.as_slice(), t);
    }

    /// How far one can seek, in milliseconds.
    pub fn buffered_end_ms(&self) -> (r: u64)
        ensures
            r == buffered_end_spec(self.duration_ms, self.load_bytes, self.load_total_bytes),
    {
        if self.duration_ms == 0 {
            return 0;
        }
        match self.load_total_bytes {
            Some(total) if total > 0 => {
                if self.load_bytes >= total {
                    self.duration_ms
                } else {
                    proof {
                        lemma_share_bound(self.duration_ms as int, self.load_bytes as int, total as int);
                    }
                    let share: u128 = (self.duration_ms as u128) * (self.load_bytes as u128) / (
                    total as u128);
                    share as u64
                }
            },
            _ => {
                if self.load_bytes > 0 {
                    self.duration_ms
                } else {
                    0
                }
            },
        }
    }

    /// The track finished by itself: stopped, back at the start, the highlight on
    /// the first lyric line (if any).
    pub fn on_track_ended(&mut self)
        ensures
            ended_post(*old(self), *final(self)),
    {
        self.is_playing = false;
        self.pending_seek_ms = None;
        self.pending_seek_at_ms = None;
        self.current_time_ms = 0;
        self.current_lyric_index = if self.lyrics.len() == 0 {
            None
        } else {
            Some(0)
        };
    }

    /// Moves to `target_ms`, limited to what is downloaded; remembers the seek as
    /// settling since `now_ms`. Returns the position moved to.
    pub fn seek(&mut self, target_ms: u64, now_ms: u64) -> (t: u64)
        ensures
            t == (if target_ms <= buffered_end_spec(
                old(self).duration_ms,
                old(self).load_bytes,
                old(self).load_total_bytes,
            ) {
                target_ms as int
            } else {
                buffered_end_spec(old(self).duration_ms, old(self).load_bytes, old(self).load_total_bytes)
            }),
            final(self).current_time_ms == t,
            final(self).pending_seek_ms == Some(t),
            final(self).pending_seek_at_ms == Some(now_ms),
            final(self).current_lyric_index == lyric_index_for_ms(old(self).lyrics@, t),
            final(self).current == old(self).current,
            final(self).lyrics == old(self).lyrics,
            final(self).is_playing == old(self).is_playing,
            final(self).duration_ms == old(self).duration_ms,
            final(self).load_bytes == old(self).load_bytes,
            final(self).load_total_bytes == old(self).load_total_bytes,
            final(self).load_generation == old(self).load_generation,
    {
        let max = self.buffered_end_ms();
        let t = if target_ms <= max {
            target_ms
        } else {
            max
        };
        self.pending_seek_ms = Some(t);
        self.pending_seek_at_ms = Some(now_ms);
        self.current_time_ms = t;
        self.sync_lyric_index();
        t
    }

    /// Whether a reported position is taken: not while a seek settles (less than
    /// `SEEK_SETTLE_MS` since it) and the position is more than
    /// `SEEK_TOLERANCE_MS` from its target.
    pub open spec fn tick_rejected(self, position_ms: u64, now_ms: u64) -> bool {
        &&& self.pending_seek_ms is Some
        &&& self.pending_seek_at_ms is Some
        &&& (now_ms < self.pending_seek_at_ms->0 || now_ms - self.pending_seek_at_ms->0 < SEEK_SETTLE_MS)
        &&& distance(position_ms, self.pending_seek_ms->0) > SEEK_TOLERANCE_MS
    }

    /// A settled seek is forgotten when the next position arrives.
    pub open spec fn seek_settled(self, now_ms: u64) -> bool {
        &&& self.pending_seek_ms is Some
        &&& self.pending_seek_at_ms is Some
        &&& !(now_ms < self.pending_seek_at_ms->0 || now_ms - self.pending_seek_at_ms->0 < SEEK_SETTLE_MS)
    }

    /// Takes a position and duration reported by the player, unless a settling
    /// seek rejects it; reports whether it was taken.
    pub fn apply_playback_tick(&mut self, position_ms: u64, duration_ms: u64, now_ms: u64) -> (taken:
        bool)
        ensures
            tick_post(*old(self), *final(self), position_ms, duration_ms, now_ms, taken),
    {
        match (self.pending_seek_ms, self.pending_seek_at_ms) {
            (Some(target), Some(at)) => {
                if now_ms < at || now_ms - at < SEEK_SETTLE_MS {
                    let d = if position_ms >= target {
                        position_ms - target
                    } else {
                        target - position_ms
                    };
                    if d > SEEK_TOLERANCE_MS {
                        return false;
                    }
                } else {
                    self.pending_seek_ms = None;
                    self.pending_seek_at_ms = None;
                }
            },
            _ => {},
        }
        self.current_time_ms = position_ms;
        self.duration_ms = duration_ms;
        self.sync_lyric_index();
        true
    }

    /// Selects `item` as a new track: nothing of the previous track is kept, and
    /// the load count moves on.
    pub fn start_track(&mut self, item: MusicItem)
        ensures
            final(self).current == Some(item),
            final(self).lyrics@.len() == 0,
            final(self).current_lyric_index is None,
            !final(self).is_playing,
            final(self).current_time_ms == 0,
            final(self).duration_ms == 0,
            final(self).load_bytes == 0,
            final(self).load_total_bytes is None,
            final(self).pending_seek_ms is None,
            final(self).pending_seek_at_ms is None,
            final(self).load_generation == next_generation(old(self).load_generation),
    {
        self.is_playing = false;
        self.current = Some(item);
        self.lyrics = Vec::new();
        self.current_lyric_index = None;
        self.current_time_ms = 0;
        self.duration_ms = 0;
        self.load_bytes = 0;
        self.load_total_bytes = None;
        self.pending_seek_ms = None;
        self.pending_seek_at_ms = None;
        self.load_generation = if self.load_generation == u64::MAX {
            0
        } else {
            self.load_generation + 1
        };
    }
}

/// The downloaded share of a duration lies between nothing and all of it.
proof fn lemma_share_bound(d: int, b: int, t: int)
    requires
        0 <= d <= u64::MAX,
        0 <= b < t,
        t <= u64::MAX,
    ensures
        0 <= d * b <= u128::MAX,
        0 <= d * b / t <= d,
{
    assert(0 <= d * b <= d * t) by (nonlinear_arith)
        requires
            0 <= d,
            0 <= b < t,
    ;
    assert(d * t <= u128::MAX) by (nonlinear_arith)
        requires
            0 <= d <= u64::MAX,
            0 < t <= u64::MAX,
    ;
    assert(d * b / t <= d * t / t) by (nonlinear_arith)
        requires
            0 <= d * b <= d * t,
            0 < t,
    ;
    assert(d * t / t == d) by (nonlinear_arith)
        requires
            0 < t,
    ;
    assert(0 <= d * b / t) by (nonlinear_arith)
        requires
            0 <= d * b,
            0 < t,
    ;
}

/// A seek never moves past what is downloaded, and the position afterwards is the
/// position sought when that much is downloaded.
pub proof fn lemma_seek_within_buffer(duration_ms: u64, load_bytes: u64, load_total_bytes: Option<u64>, target_ms: u64)
    ensures
        ({
            let end = buffered_end_spec(duration_ms, load_bytes, load_total_bytes);
            let t = if target_ms <= end {
                target_ms as int
            } else {
                end
            };
            &&& 0 <= t <= end
            &&& t <= target_ms
            &&& end <= duration_ms
        }),
{
    match load_total_bytes {
        Some(total) if total > 0 && load_bytes < total && duration_ms > 0 => {
            lemma_share_bound(duration_ms as int, load_bytes as int, total as int);
        },
        _ => {},
    }
}

/// While a seek settles (less than `SEEK_SETTLE_MS` after it), a reported
/// position more than `SEEK_TOLERANCE_MS` away from the target, ahead of it or
/// behind it alike, is dropped and changes nothing; one within the tolerance on
/// either side is taken as the new position.
pub proof fn lemma_settling_seek_drops_far_reports(
    p0: Playback,
    p1: Playback,
    position_ms: u64,
    duration_ms: u64,
    now_ms: u64,
    taken: bool,
)
    requires
        tick_post(p0, p1, position_ms, duration_ms, now_ms, taken),
        p0.pending_seek_ms is Some,
        p0.pending_seek_at_ms is Some,
        p0.pending_seek_at_ms->0 <= now_ms < p0.pending_seek_at_ms->0 + SEEK_SETTLE_MS,
    ensures
        position_ms > p0.pending_seek_ms->0 + SEEK_TOLERANCE_MS ==> !taken && p1 == p0,
        position_ms + SEEK_TOLERANCE_MS < p0.pending_seek_ms->0 ==> !taken && p1 == p0,
        p0.pending_seek_ms->0 <= position_ms + SEEK_TOLERANCE_MS && position_ms
            <= p0.pending_seek_ms->0 + SEEK_TOLERANCE_MS ==> taken && p1.current_time_ms
            == position_ms,
{
}

} // verus!
