use clx_music::input::{first_char, keys_of_text};
use clx_music::player::MainTask;
use clx_music::track_load::{
    cached_track_tasks, completion_failed_notice, download_complete_task, duration_ms_of,
    is_complete_file, load_failed_notice, mp3_file_name, prefix_ready_tasks, progress_report_due,
    PREFIX_BYTES,
};

#[test]
fn cache_file_names() {
    assert_eq!(mp3_file_name(42), "42.mp3");
    assert_eq!(mp3_file_name(-1), "-1.mp3");
    assert_eq!(PREFIX_BYTES, 512 * 1024);
}

#[test]
fn complete_files() {
    assert!(is_complete_file(10, Some(10)));
    assert!(!is_complete_file(10, Some(9)));
    assert!(!is_complete_file(0, Some(0)));
    assert!(!is_complete_file(10, None));
}

#[test]
fn durations_in_milliseconds() {
    assert_eq!(duration_ms_of(Some(32_000_000_000)), 32_000);
    assert_eq!(duration_ms_of(Some(999_999)), 0);
    assert_eq!(duration_ms_of(None), 0);
    assert_eq!(duration_ms_of(Some(u128::MAX)), u64::MAX);
}

#[test]
fn cached_track() {
    let (hint, rest) = cached_track_tasks(4, 1000, "p".to_string(), Some(2_000_000_000));
    assert!(matches!(hint, Some(MainTask::DurationHint { music_id: 4, duration_ms: 2000 })));
    assert!(matches!(
        rest.as_slice(),
        [
            MainTask::LoadProgress { music_id: 4, bytes_loaded: 1000, total_bytes: Some(1000) },
            MainTask::StreamReady { music_id: 4, duration_ms: 2000, .. }
        ]
    ));
    let (hint, _) = cached_track_tasks(4, 1000, "p".to_string(), None);
    assert!(hint.is_none());
}

#[test]
fn prefix_ready() {
    let (total, tasks) = prefix_ready_tasks(5, "p".to_string(), 512, None, Some(9000), None);
    assert_eq!(total, Some(9000));
    assert!(matches!(
        tasks.as_slice(),
        [
            MainTask::LoadProgress { music_id: 5, bytes_loaded: 512, total_bytes: Some(9000) },
            MainTask::StreamReady { music_id: 5, duration_ms: 0, .. }
        ]
    ));
    let (total, tasks) = prefix_ready_tasks(5, "p".to_string(), 512, Some(7000), Some(9000), Some(1_500_000_000));
    assert_eq!(total, Some(7000));
    assert_eq!(tasks.len(), 3);
    assert!(matches!(tasks[0], MainTask::DurationHint { music_id: 5, duration_ms: 1500 }));
}

#[test]
fn progress_reports() {
    assert!(!progress_report_due(1000, 900, 10, None));
    assert!(progress_report_due(900 + 262_144, 900, 10, None));
    assert!(progress_report_due(1000, 900, 250, None));
    assert!(progress_report_due(1000, 900, 0, Some(1000)));
    assert!(matches!(
        download_complete_task(3, Some(10)),
        Some(MainTask::LoadProgress { music_id: 3, bytes_loaded: 10, total_bytes: Some(10) })
    ));
    assert!(download_complete_task(3, Some(0)).is_none());
    assert!(download_complete_task(3, None).is_none());
}

#[test]
fn failure_notices() {
    assert_eq!(load_failed_notice("HTTP 404"), "加载音频: HTTP 404");
    assert_eq!(completion_failed_notice("x"), "补全音频: x");
}

#[test]
fn keys() {
    assert_eq!(first_char("abc"), 'a');
    assert_eq!(first_char("界x"), '界');
    assert_eq!(keys_of_text("qw"), vec!['q', 'w']);
}
