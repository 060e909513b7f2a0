use clx_music::playback::fmt_time;
use clx_music::api::{AppInfo, MusicItem};
use clx_music::player::{
    hotkey_for_event, AudioToUi, ClxState, Effect, HotkeyIds, HotkeyKind, MainTask, PlayMode,
    UiRefresh, UiToAudio,
};

fn item(id: i64, name: &str) -> MusicItem {
    MusicItem { id, author: format!("author {id}"), name: name.to_string() }
}

fn catalogue() -> Vec<MusicItem> {
    vec![item(1, "Blue Moon"), item(2, "Green Tea"), item(3, "BLUE sky")]
}

fn state() -> ClxState {
    let (mut s, eff) = ClxState::new("https://srv".to_string(), "1.0".to_string(), false, None, 0);
    assert!(matches!(eff.as_slice(), [Effect::FetchCatalogue]));
    let (refresh, _) = s.apply_main_task(MainTask::MusicList(Ok(catalogue())), 0);
    assert_eq!(refresh, UiRefresh::Full);
    s
}

fn current_id(s: &ClxState) -> Option<i64> {
    s.playback.current.as_ref().map(|c| c.id)
}

fn shown_ids(s: &ClxState) -> Vec<i64> {
    s.library.filtered_display.iter().map(|m| m.id).collect()
}

#[test]
fn missing_server_address_is_announced() {
    let (mut s, eff) = ClxState::new("  ".to_string(), "1.0".to_string(), false, Some("first".to_string()), 5);
    // The start-up notice is on screen; the missing address comes back as an event.
    assert_eq!(s.toasts.current.as_deref(), Some("first"));
    assert!(s.toasts.queue.is_empty());
    let msg = match eff.as_slice() {
        [Effect::Notify(m)] => m.clone(),
        _ => panic!("expected one notice"),
    };
    assert_eq!(msg, "未配置服务器地址：请在项目根目录 .env 填写 CLX_BASE_URL 后重新构建");
    s.apply_main_task(MainTask::Toast(msg.clone()), 6);
    assert_eq!(s.toasts.current.as_deref(), Some("first"));
    assert_eq!(s.toasts.queue.len(), 1);
    assert_eq!(s.toasts.queue[0], msg);
    let (s2, _) = ClxState::new("".to_string(), "1.0".to_string(), false, None, 5);
    assert!(s2.toasts.current.is_none());
    assert_eq!(s.app_info.app_version, "1.0");
    assert_eq!(s.app_info.id, 1);
}

#[test]
fn catalogue_arrival_asks_for_covers() {
    let (mut s, _) = ClxState::new("https://srv".to_string(), "1.0".to_string(), false, None, 0);
    let (_, eff) = s.apply_main_task(MainTask::MusicList(Ok(catalogue())), 0);
    let fetched: Vec<i64> = eff
        .iter()
        .filter_map(|e| match e {
            Effect::FetchCover { id } => Some(*id),
            _ => None,
        })
        .collect();
    assert!(matches!(eff[0], Effect::ClearCovers));
    assert_eq!(fetched, vec![1, 2, 3]);
    assert_eq!(shown_ids(&s), vec![1, 2, 3]);
}

#[test]
fn filter_matches_lower_case_names() {
    let mut s = state();
    s.set_filter("  blue ".to_string());
    assert_eq!(shown_ids(&s), vec![1, 3]);
    s.set_filter("TEA".to_string());
    assert_eq!(shown_ids(&s), vec![2]);
    s.set_filter("".to_string());
    assert_eq!(shown_ids(&s), vec![1, 2, 3]);
    s.set_filter("nothing".to_string());
    assert!(shown_ids(&s).is_empty());
}

#[test]
fn covers_are_fetched_once() {
    let mut s = state();
    let eff = s.enqueue_music_cover_fetches(vec![1, 2, 2, 5, 5]);
    let ids: Vec<i64> = eff
        .iter()
        .map(|e| match e {
            Effect::FetchCover { id } => *id,
            _ => panic!("unexpected effect"),
        })
        .collect();
    // 1..3 are already on their way since the catalogue arrived.
    assert_eq!(ids, vec![5]);
    let (refresh, eff) = s.apply_main_task(MainTask::MusicCover { id: 5, bytes: Err(()) }, 0);
    assert_eq!(refresh, UiRefresh::Covers);
    assert!(eff.is_empty());
    assert!(s.enqueue_music_cover_fetches(vec![5]).is_empty());
    let (_, eff) = s.apply_main_task(MainTask::MusicCover { id: 1, bytes: Ok(vec![0xFF, 0xD8, 1]) }, 0);
    assert!(matches!(eff.as_slice(), [Effect::ShowCover { id: 1, .. }]));
    assert!(s.covers.shown.contains(&1));
}

#[test]
fn selecting_a_song_starts_a_new_load() {
    let mut s = state();
    let eff = s.select_music(item(2, "Green Tea"));
    assert!(matches!(
        eff.as_slice(),
        [Effect::Audio(UiToAudio::Stop), Effect::LoadTrack { music_id: 2, generation: 1 }]
    ));
    assert_eq!(current_id(&s), Some(2));
    // Selecting it again changes nothing.
    assert!(s.select_music(item(2, "Green Tea")).is_empty());
    let eff = s.select_music(item(3, "BLUE sky"));
    assert!(matches!(eff.as_slice(), [_, Effect::LoadTrack { music_id: 3, generation: 2 }]));
}

#[test]
fn play_needs_a_song() {
    let mut s = state();
    assert!(s.play_playback(7).is_empty());
    assert_eq!(s.toasts.current.as_deref(), Some("请先选择一首歌曲哦"));
    assert_eq!(s.toasts.shown_at_ms, Some(7));
    s.select_music(item(1, "Blue Moon"));
    assert!(matches!(s.play_playback(8).as_slice(), [Effect::Audio(UiToAudio::Resume)]));
    assert!(s.playback.is_playing);
    assert!(matches!(s.pause_playback().as_slice(), [Effect::Audio(UiToAudio::Pause)]));
    assert!(!s.playback.is_playing);
}

#[test]
fn next_and_previous_wrap_around() {
    let mut s = state();
    assert!(s.next_track().is_empty());
    s.select_music(item(3, "BLUE sky"));
    let eff = s.next_track();
    assert!(matches!(eff[0], Effect::Audio(UiToAudio::Pause)));
    assert_eq!(current_id(&s), Some(1));
    s.previous_track();
    assert_eq!(current_id(&s), Some(3));
    s.previous_track();
    assert_eq!(current_id(&s), Some(2));
}

#[test]
fn events_for_other_songs_are_ignored() {
    let mut s = state();
    s.select_music(item(1, "Blue Moon"));
    let (r, eff) = s.apply_main_task(MainTask::DurationHint { music_id: 2, duration_ms: 9000 }, 0);
    assert_eq!(r, UiRefresh::Nothing);
    assert!(eff.is_empty());
    assert_eq!(s.playback.duration_ms, 0);
    let (r, _) = s.apply_main_task(MainTask::DurationHint { music_id: 1, duration_ms: 9000 }, 0);
    assert_eq!(r, UiRefresh::Playback);
    assert_eq!(s.playback.duration_ms, 9000);
}

#[test]
fn lyrics_arrive_and_follow_the_position() {
    let mut s = state();
    s.select_music(item(1, "Blue Moon"));
    let text = "[00:00.00]a\n[00:05.00]b\n[00:10.00]c".to_string();
    let (r, _) = s.apply_main_task(MainTask::Lyrics { music_id: 1, text: Ok(text) }, 0);
    assert_eq!(r, UiRefresh::Full);
    assert_eq!(s.playback.lyrics.len(), 3);
    assert_eq!(s.playback.current_lyric_index, Some(0));
    let (r, _) = s.apply_main_task(
        MainTask::Audio(AudioToUi::Tick { music_id: 1, position_ms: 5500, duration_ms: 12000 }),
        0,
    );
    assert_eq!(r, UiRefresh::Playback);
    assert_eq!(s.playback.current_lyric_index, Some(1));
    let (_, _) = s.apply_main_task(MainTask::Audio(AudioToUi::Ended { music_id: 1 }), 0);
    assert_eq!(s.playback.current_time_ms, 0);
    assert_eq!(s.playback.current_lyric_index, Some(0));
    assert!(!s.playback.is_playing);
}

#[test]
fn seek_is_limited_to_the_download_and_settles() {
    let mut s = state();
    s.select_music(item(1, "Blue Moon"));
    s.apply_main_task(MainTask::DurationHint { music_id: 1, duration_ms: 200_000 }, 0);
    s.apply_main_task(
        MainTask::LoadProgress { music_id: 1, bytes_loaded: 250, total_bytes: Some(1000) },
        0,
    );
    assert_eq!(s.buffered_end_ms(), 50_000);
    let eff = s.seek(90_000, 1000);
    assert!(matches!(eff.as_slice(), [Effect::Audio(UiToAudio::Seek(50_000))]));
    assert_eq!(s.playback.current_time_ms, 50_000);
    // A report far from the target right after the seek is dropped ...
    let (r, _) = s.apply_main_task(
        MainTask::Audio(AudioToUi::Tick { music_id: 1, position_ms: 10_000, duration_ms: 200_000 }),
        1200,
    );
    assert_eq!(r, UiRefresh::Nothing);
    assert_eq!(s.playback.current_time_ms, 50_000);
    // ... one close to it is taken ...
    let (r, _) = s.apply_main_task(
        MainTask::Audio(AudioToUi::Tick { music_id: 1, position_ms: 50_300, duration_ms: 200_000 }),
        1300,
    );
    assert_eq!(r, UiRefresh::Playback);
    assert_eq!(s.playback.current_time_ms, 50_300);
    // ... and after the settling time any report is taken.
    let (r, _) = s.apply_main_task(
        MainTask::Audio(AudioToUi::Tick { music_id: 1, position_ms: 10_000, duration_ms: 200_000 }),
        1400,
    );
    assert_eq!(r, UiRefresh::Playback);
    assert_eq!(s.playback.current_time_ms, 10_000);
    assert_eq!(s.playback.pending_seek_ms, None);
}

#[test]
fn buffered_end_without_total() {
    let mut s = state();
    s.select_music(item(1, "Blue Moon"));
    assert_eq!(s.buffered_end_ms(), 0);
    s.apply_main_task(MainTask::DurationHint { music_id: 1, duration_ms: 1000 }, 0);
    assert_eq!(s.buffered_end_ms(), 0);
    s.apply_main_task(MainTask::LoadProgress { music_id: 1, bytes_loaded: 1, total_bytes: None }, 0);
    assert_eq!(s.buffered_end_ms(), 1000);
    s.apply_main_task(MainTask::LoadProgress { music_id: 1, bytes_loaded: 7, total_bytes: Some(0) }, 0);
    assert_eq!(s.playback.load_total_bytes, None);
}

#[test]
fn stream_ready_loads_and_resumes_when_playing() {
    let mut s = state();
    s.select_music(item(1, "Blue Moon"));
    s.play_playback(0);
    let (r, eff) = s.apply_main_task(
        MainTask::StreamReady { music_id: 1, path: "/tmp/1.mp3".to_string(), duration_ms: 3000 },
        0,
    );
    assert_eq!(r, UiRefresh::Nothing);
    assert!(matches!(
        eff.as_slice(),
        [
            Effect::Audio(UiToAudio::LoadStream { music_id: 1, duration_ms: 3000, .. }),
            Effect::Audio(UiToAudio::Resume)
        ]
    ));
}

#[test]
fn toasts_queue_and_expire() {
    let mut s = state();
    s.apply_main_task(MainTask::Toast("one".to_string()), 100);
    s.apply_main_task(MainTask::Audio(AudioToUi::Error("two".to_string())), 200);
    assert_eq!(s.toasts.current.as_deref(), Some("one"));
    assert!(!s.tick_toast_auto_dismiss(10_099));
    assert!(s.tick_toast_auto_dismiss(10_100));
    assert_eq!(s.toasts.current.as_deref(), Some("two"));
    assert_eq!(s.toasts.shown_at_ms, Some(10_100));
    s.dismiss_toast(10_200);
    assert_eq!(s.toasts.current, None);
    assert!(!s.tick_toast_auto_dismiss(99_999));
}

#[test]
fn script_hotkeys_only_in_script_mode() {
    let mut s = state();
    s.select_music(item(2, "Green Tea"));
    assert!(s.handle_hotkey(HotkeyKind::F1).is_empty());
    s.play_mode = PlayMode::Script;
    let (r, eff) = s.apply_main_task(MainTask::Hotkey(HotkeyKind::F1), 0);
    assert_eq!(r, UiRefresh::Full);
    assert!(matches!(eff.as_slice(), [Effect::StartScript { music_id: 2 }]));
    assert!(s.modal_script && s.script_continue);
    assert!(s.handle_hotkey(HotkeyKind::F1).is_empty());
    assert!(matches!(s.handle_hotkey(HotkeyKind::F2).as_slice(), [Effect::StopScript]));
    assert!(!s.script_continue);
    let (_, eff) = s.apply_main_task(MainTask::ScriptFinished, 0);
    assert!(matches!(eff.as_slice(), [Effect::StopScript]));
    assert!(!s.modal_script);
}

#[test]
fn hotkey_events() {
    let ids = HotkeyIds { f1: 10, f2: 20 };
    assert_eq!(hotkey_for_event(&ids, 10, true), Some(HotkeyKind::F1));
    assert_eq!(hotkey_for_event(&ids, 20, true), Some(HotkeyKind::F2));
    assert_eq!(hotkey_for_event(&ids, 20, false), None);
    assert_eq!(hotkey_for_event(&ids, 30, true), None);
}

#[test]
fn app_info_and_settings() {
    let mut s = state();
    let info = AppInfo {
        id: 9,
        announcement: "hi".to_string(),
        app_version: "2.0".to_string(),
        app_download_link: "l".to_string(),
        app_version_description: "d".to_string(),
    };
    s.apply_main_task(MainTask::AppInfo(Ok(info)), 0);
    assert_eq!(s.app_info.app_version, "2.0");
    let eff = s.set_launch_as_administrator(true);
    assert!(matches!(eff.as_slice(), [Effect::SaveConfig { launch_as_administrator: true }]));
    assert!(s.launch_as_administrator);
}

#[test]
fn clock_text_of_positions() {
    assert_eq!(fmt_time(0), "00:00");
    assert_eq!(fmt_time(65_999), "01:05");
    assert_eq!(fmt_time(6_000_000), "100:00");
}

#[test]
fn typed_search_asks_for_the_covers_of_the_results() {
    let (mut s, _) = ClxState::new("https://srv".to_string(), "1.0".to_string(), false, None, 0);
    let many: Vec<MusicItem> = (1..=50).map(|i| item(i, &format!("song {i}"))).collect();
    s.apply_main_task(MainTask::MusicList(Ok(many)), 0);
    // The catalogue asked for the first 40 covers; the search results past them
    // are asked for now, at most 32 results in all.
    let eff = s.apply_filter("song".to_string());
    let ids: Vec<i64> = eff
        .iter()
        .map(|e| match e {
            Effect::FetchCover { id } => *id,
            _ => panic!("unexpected effect"),
        })
        .collect();
    assert!(ids.is_empty());
    let eff = s.apply_filter("song 4".to_string());
    let ids: Vec<i64> = eff
        .iter()
        .map(|e| match e {
            Effect::FetchCover { id } => *id,
            _ => panic!("unexpected effect"),
        })
        .collect();
    // Results: 4 and 40..=49; 41..=49 are new.
    assert_eq!(ids, (41..=49).collect::<Vec<i64>>());
    assert_eq!(s.library.filter, "song 4");
}

#[test]
fn rebuild_restores_the_shown_songs() {
    let mut s = state();
    s.set_filter("blue".to_string());
    s.library.filtered_display.clear();
    s.rebuild_filtered_display();
    assert_eq!(shown_ids(&s), vec![1, 3]);
}

#[test]
fn notices_show_in_push_order() {
    let mut s = state();
    s.push_toast("m1".to_string(), 0);
    s.push_toast("m2".to_string(), 1);
    s.push_toast("m3".to_string(), 2);
    assert_eq!(s.toasts.current.as_deref(), Some("m1"));
    s.dismiss_toast(3);
    assert_eq!(s.toasts.current.as_deref(), Some("m2"));
    s.dismiss_toast(4);
    assert_eq!(s.toasts.current.as_deref(), Some("m3"));
    s.dismiss_toast(5);
    assert_eq!(s.toasts.current, None);
    assert_eq!(s.toasts.shown_at_ms, None);
}
