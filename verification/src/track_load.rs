//! Loading a track into the local cache: the decisions between the downloads.
//!
//! The caller downloads and writes files; these functions say which events go to
//! the player at each step, and when progress is worth reporting.

use vstd::prelude::*;
use crate::player::MainTask;
use crate::text::{append, chars_of, i64_decimal, int_decimal, string_of};

verus! {

/// How much of a track is fetched first, before playing starts.
pub const PREFIX_BYTES: usize = 524288;

/// Progress is reported after at least this many more bytes ...
pub const PROGRESS_REPORT_BYTES: u64 = 262144;

/// ... or after this many milliseconds, or when the download is complete.
pub const PROGRESS_REPORT_MS: u64 = 250;

/// The name of a song's file in the cache directory (`{id}.mp3`).
pub fn mp3_file_name(music_id: i64) -> (r: String)
    ensures
        r@ == int_decimal(music_id as int) + ".mp3"@,
{
    let mut v = i64_decimal(music_id);
    append(&mut v, &chars_of(".mp3"));
    string_of(&v)
}

/// Whether a cached file is complete: its size is the expected, non-zero size.
pub fn is_complete_file(expected_bytes: u64, actual_len: Option<u64>) -> (r: bool)
    ensures
        r == (expected_bytes > 0 && actual_len == Some(expected_bytes)),
{
    expected_bytes > 0 && match actual_len {
        Some(n) => n == expected_bytes,
        None => false,
    }
}

/// A duration estimate in whole milliseconds; none counts as zero.
pub open spec fn duration_ms_spec(ns: Option<u128>) -> u64 {
    match ns {
        Some(n) => if n / 1_000_000 <= u64::MAX {
            (n / 1_000_000) as u64
        } else {
            u64::MAX
        },
        None => 0,
    }
}

/// A duration estimate in whole milliseconds (none counts as zero).
pub fn duration_ms_of(ns: Option<u128>) -> (r: u64)
    ensures
        r == duration_ms_spec(ns),
{
    match ns {
        Some(n) => {
            let ms = n / 1_000_000;
            if ms <= 18446744073709551615u128 {
                ms as u64
            } else {
                u64::MAX
            }
        },
        None => 0,
    }
}

/// The events for a track that is already complete in the cache: a duration hint
/// when the duration is known, then (to be sent only while the track is still the
/// selected one) the full progress and the ready stream.
pub fn cached_track_tasks(music_id: i64, total: u64, path: String, duration_ns: Option<u128>) -> (r: (
    Option<MainTask>,
    Vec<MainTask>,
))
    requires
        total > 0,
    ensures
        duration_ms_spec(duration_ns) > 0 ==> r.0 == Some(
            MainTask::DurationHint { music_id, duration_ms: duration_ms_spec(duration_ns) },
        ),
        duration_ms_spec(duration_ns) == 0 ==> r.0 is None,
        r.1@ == seq![
            MainTask::LoadProgress { music_id, bytes_loaded: total, total_bytes: Some(total) },
            MainTask::StreamReady { music_id, path, duration_ms: duration_ms_spec(duration_ns) },
        ],
{
    let d = duration_ms_of(duration_ns);
    let hint = if d > 0 {
        Some(MainTask::DurationHint { music_id, duration_ms: d })
    } else {
        None
    };
    let mut rest: Vec<MainTask> = Vec::new();
    rest.push(MainTask::LoadProgress { music_id, bytes_loaded: total, total_bytes: Some(total) });
    rest.push(MainTask::StreamReady { music_id, path, duration_ms: d });
    (hint, rest)
}

/// The events once the start of a track is cached: the total size is the one the
/// ranged answer stated, else the one from the `HEAD` request; a duration hint
/// when the duration is known; the progress; the ready stream.
pub fn prefix_ready_tasks(
    music_id: i64,
    path: String,
    bytes_written: u64,
    prefix_total: Option<u64>,
    head_total: Option<u64>,
    duration_ns: Option<u128>,
) -> (r: (Option<u64>, Vec<MainTask>))
    ensures
        r.0 == (if prefix_total is Some {
            prefix_total
        } else {
            head_total
        }),
        r.1@ == (if duration_ms_spec(duration_ns) > 0 {
            seq![MainTask::DurationHint { music_id, duration_ms: duration_ms_spec(duration_ns) }]
        } else {
            Seq::<MainTask>::empty()
        }) + seq![
            MainTask::LoadProgress { music_id, bytes_loaded: bytes_written, total_bytes: r.0 },
            MainTask::StreamReady { music_id, path, duration_ms: duration_ms_spec(duration_ns) },
        ],
{
    let total = match prefix_total {
        Some(t) => Some(t),
        None => head_total,
    };
    let d = duration_ms_of(duration_ns);
    let mut tasks: Vec<MainTask> = Vec::new();
    if d > 0 {
        tasks.push(MainTask::DurationHint { music_id, duration_ms: d });
    }
    let ghost p = path;
    tasks.push(MainTask::LoadProgress { music_id, bytes_loaded: bytes_written, total_bytes: total });
    tasks.push(MainTask::StreamReady { music_id, path, duration_ms: d });
    assert(tasks@ =~= (if d > 0 {
        seq![MainTask::DurationHint { music_id, duration_ms: d }]
    } else {
        Seq::<MainTask>::empty()
    }) + seq![
        MainTask::LoadProgress { music_id, bytes_loaded: bytes_written, total_bytes: total },
        MainTask::StreamReady { music_id, path: p, duration_ms: d },
    ]);
    (total, tasks)
}

/// Whether download progress is worth reporting: enough new bytes since the last
/// report, or enough time, or the download is complete.
pub fn progress_report_due(loaded: u64, last_report_bytes: u64, elapsed_ms: u64, total: Option<u64>) -> (r:
    bool)
    ensures
        r == ((loaded >= last_report_bytes && loaded - last_report_bytes >= PROGRESS_REPORT_BYTES)
            || elapsed_ms >= PROGRESS_REPORT_MS || (total matches Some(t) && loaded >= t)),
{
    let done = match total {
        Some(t) => loaded >= t,
        None => false,
    };
    let delta = if loaded >= last_report_bytes {
        loaded - last_report_bytes
    } else {
        0
    };
    delta >= PROGRESS_REPORT_BYTES || elapsed_ms >= PROGRESS_REPORT_MS || done
}

/// The event once the whole track is cached: the full progress, when the total
/// size is known and not zero.
pub fn download_complete_task(music_id: i64, total: Option<u64>) -> (r: Option<MainTask>)
    ensures
        total matches Some(t) ==> (t > 0 ==> r == Some(
            MainTask::LoadProgress { music_id, bytes_loaded: t, total_bytes: Some(t) },
        )),
        !(total matches Some(t) && t > 0) ==> r is None,
{
    match total {
        Some(t) => if t > 0 {
            Some(MainTask::LoadProgress { music_id, bytes_loaded: t, total_bytes: Some(t) })
        } else {
            None
        },
        None => None,
    }
}

/// The notice for a failed download of a track's start (`加载音频: {err}`).
pub fn load_failed_notice(err: &str) -> (r: String)
    ensures
        r@ == "加载音频: "@ + err@,
{
    let mut v = chars_of("加载音频: ");
    append(&mut v, &chars_of(err));
    string_of(&v)
}

/// The notice for a failed download of a track's rest (`补全音频: {err}`).
pub fn completion_failed_notice(err: &str) -> (r: String)
    ensures
        r@ == "补全音频: "@ + err@,
{
    let mut v = chars_of("补全音频: ");
    append(&mut v, &chars_of(err));
    string_of(&v)
}

} // verus!
