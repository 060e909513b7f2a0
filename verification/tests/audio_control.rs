use clx_music::audio_control::stream_duration_ms;
use clx_music::audio_control::{at_track_end, AudioAction, AudioLoop, SoundInfo, SoundState};
use clx_music::player::{AudioToUi, UiToAudio};

fn playing(pos: u64) -> Option<SoundInfo> {
    Some(SoundInfo { state: SoundState::Playing, position_ms: pos })
}

fn stopped() -> Option<SoundInfo> {
    Some(SoundInfo { state: SoundState::Stopped, position_ms: 0 })
}

#[test]
fn track_end_margin() {
    assert!(at_track_end(9950, 10000));
    assert!(!at_track_end(9949, 10000));
    assert!(at_track_end(20000, 10000));
    assert!(!at_track_end(0, 0));
}

#[test]
fn load_then_pause_until_wanted() {
    let mut a = AudioLoop::new(0);
    let acts = a.on_command(
        UiToAudio::LoadStream { music_id: 7, path: "p".to_string(), duration_ms: 1000 },
        None,
        0,
    );
    assert!(matches!(
        acts.as_slice(),
        [AudioAction::StopCurrent, AudioAction::DropCurrent, AudioAction::Load { music_id: 7, hinted_duration_ms: 1000, .. }]
    ));
    let acts = a.on_load_result(7, Ok(1000));
    assert!(matches!(
        acts.as_slice(),
        [
            AudioAction::InstallNew,
            AudioAction::Report(AudioToUi::Loaded { music_id: 7, duration_ms: 1000 }),
            AudioAction::PauseCurrent
        ]
    ));
    assert_eq!(a.track_id, Some(7));
    let acts = a.on_command(UiToAudio::Resume, Some(SoundInfo { state: SoundState::Other, position_ms: 0 }), 5);
    assert!(matches!(acts.as_slice(), [AudioAction::ResumeCurrent]));
    assert!(a.want_playing);
}

#[test]
fn failed_load_forgets_the_track() {
    let mut a = AudioLoop::new(0);
    a.on_load_result(1, Ok(10));
    let acts = a.on_load_result(2, Err("bad".to_string()));
    assert!(matches!(acts.as_slice(), [AudioAction::Report(AudioToUi::Error(_))]));
    assert_eq!(a.track_id, None);
}

#[test]
fn resume_at_end_restarts_and_ended_sound_is_replayed() {
    let mut a = AudioLoop::new(0);
    a.on_command(UiToAudio::LoadStream { music_id: 3, path: "f".to_string(), duration_ms: 0 }, None, 0);
    a.on_load_result(3, Ok(10_000));
    let acts = a.on_command(UiToAudio::Resume, playing(9_990), 0);
    assert!(matches!(
        acts.as_slice(),
        [
            AudioAction::SeekCurrent(0),
            AudioAction::Report(AudioToUi::Tick { music_id: 3, position_ms: 0, duration_ms: 10_000 }),
            AudioAction::ResumeCurrent
        ]
    ));
    let acts = a.on_command(UiToAudio::Resume, stopped(), 0);
    assert!(matches!(acts.as_slice(), [AudioAction::Replay { hinted_duration_ms: 10_000, .. }]));
    let acts = a.on_replay_result(Ok(9_000));
    assert!(matches!(
        acts.as_slice(),
        [
            AudioAction::StopCurrent,
            AudioAction::InstallNew,
            AudioAction::ResumeCurrent,
            AudioAction::Report(AudioToUi::Tick { music_id: 3, position_ms: 0, duration_ms: 9_000 })
        ]
    ));
}

#[test]
fn end_is_reported_once_and_ticks_are_spaced() {
    let mut a = AudioLoop::new(0);
    a.on_load_result(4, Ok(5000));
    assert!(a.on_poll(playing(10), 100).is_empty());
    let acts = a.on_poll(playing(210), 200);
    assert!(matches!(
        acts.as_slice(),
        [AudioAction::Report(AudioToUi::Tick { music_id: 4, position_ms: 210, duration_ms: 5000 })]
    ));
    assert!(a.on_poll(playing(300), 399).is_empty());
    let acts = a.on_poll(stopped(), 500);
    assert!(matches!(acts.as_slice(), [AudioAction::Report(AudioToUi::Ended { music_id: 4 })]));
    assert!(a.on_poll(stopped(), 900).is_empty());
    assert!(!a.want_playing);
}

#[test]
fn seek_and_stop() {
    let mut a = AudioLoop::new(0);
    a.on_load_result(5, Ok(5000));
    let acts = a.on_command(UiToAudio::Seek(1234), playing(0), 77);
    assert!(matches!(
        acts.as_slice(),
        [
            AudioAction::SeekCurrent(1234),
            AudioAction::Report(AudioToUi::Tick { music_id: 5, position_ms: 1234, duration_ms: 5000 })
        ]
    ));
    assert_eq!(a.last_tick_ms, 77);
    assert!(a.on_command(UiToAudio::Seek(1), stopped(), 80).is_empty());
    assert!(a.on_command(UiToAudio::Seek(1), None, 80).is_empty());
    let acts = a.on_command(UiToAudio::Stop, playing(0), 90);
    assert!(matches!(acts.as_slice(), [AudioAction::StopCurrent, AudioAction::DropCurrent]));
    assert_eq!(a.track_id, None);
    assert_eq!(a.duration_ms, 0);
    assert!(matches!(a.on_command(UiToAudio::Pause, None, 0).as_slice(), []));
}

#[test]
fn stream_length_prefers_the_hint() {
    assert_eq!(stream_duration_ms(1234, 99), 1234);
    assert_eq!(stream_duration_ms(0, 99), 99);
}

#[test]
fn quiet_after_stop_until_loaded() {
    let mut a = AudioLoop::new(0);
    a.on_command(
        UiToAudio::LoadStream { music_id: 4, path: "x.mp3".to_string(), duration_ms: 1000 },
        None,
        0,
    );
    a.on_load_result(4, Ok(1000));
    let acts = a.on_command(UiToAudio::Stop, playing(10), 10);
    assert!(matches!(acts.as_slice(), [AudioAction::StopCurrent, AudioAction::DropCurrent]));
    assert!(a.on_command(UiToAudio::Resume, None, 20).is_empty());
    assert!(a.on_command(UiToAudio::Pause, None, 30).is_empty());
    assert!(a.on_command(UiToAudio::Seek(500), None, 40).is_empty());
    assert!(a.on_poll(None, 1000).is_empty());
    assert!(a.track_id.is_none());
}
