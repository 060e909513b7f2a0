//! The player's state machine. The user interface and the background workers hand
//! it events; it updates its state and answers with the effects that the caller
//! carries out (commands to the audio thread, downloads to start, settings to
//! save) and with the part of the screen to redraw.

use vstd::prelude::*;
use crate::api::{AppInfo, MusicItem};
use crate::catalogue::{Covers, Library, cover_plan, filter_query, shown_items};
use crate::lyrics::{lyric_lines_view, parse_lrc_spec, parse_lrc_text};
use crate::playback::{
    Playback, buffered_end_spec, current_is, lyric_index_for_ms, next_generation,
};
use crate::text::{chars_of, string_of, trim, trim_spec};
use crate::toasts::{ToastEvent, Toasts, toast_step};

verus! {

/// How many covers are asked for as soon as the catalogue arrives.
pub const COVER_PRELOAD_COUNT: usize = 40;

/// How many covers of the search results are asked for when the search changes.
pub const FILTER_COVER_COUNT: usize = 32;

/// Which part of the screen to redraw after an event.
#[derive(Clone, Copy, Debug, PartialEq, Eq, Structural)]
pub enum UiRefresh {
    /// Nothing to redraw.
    Nothing,
    /// Lists, settings, dialogs, lyric text.
    Full,
    /// Progress bar and lyric highlight.
    Playback,
    /// Cover pictures only.
    Covers,
}

/// Listening plays songs; in script mode F1 plays a song's key notation.
#[derive(Clone, Copy, Debug, PartialEq, Eq, Structural)]
pub enum PlayMode {
    Listen,
    Script,
}

/// The global hot keys of script mode.
#[derive(Clone, Copy, Debug, PartialEq, Eq, Structural)]
pub enum HotkeyKind {
    F1,
    F2,
}

/// The ids under which the hot keys were registered.
#[derive(Clone, Copy, Debug, PartialEq, Eq, Structural)]
pub struct HotkeyIds {
    pub f1: u32,
    pub f2: u32,
}

/// The hot key that a key event stands for: only presses count, and only of a
/// registered key (F1 checked first).
pub fn hotkey_for_event(ids: &HotkeyIds, event_id: u32, pressed: bool) -> (r: Option<HotkeyKind>)
    ensures
        !pressed ==> r is None,
        pressed && event_id == ids.f1 ==> r == Some(HotkeyKind::F1),
        pressed && event_id != ids.f1 && event_id == ids.f2 ==> r == Some(HotkeyKind::F2),
        pressed && event_id != ids.f1 && event_id != ids.f2 ==> r is None,
{
    if !pressed {
        None
    } else if event_id == ids.f1 {
        Some(HotkeyKind::F1)
    } else if event_id == ids.f2 {
        Some(HotkeyKind::F2)
    } else {
        None
    }
}

/// What the audio thread reports.
pub enum AudioToUi {
    Tick { music_id: i64, position_ms: u64, duration_ms: u64 },
    Loaded { music_id: i64, duration_ms: u64 },
    /// The track played to its end.
    Ended { music_id: i64 },
    Error(String),
}

/// Commands for the audio thread.
pub enum UiToAudio {
    LoadStream { music_id: i64, path: String, duration_ms: u64 },
    /// Stops the current sound at once and forgets it (sent on a track change).
    Stop,
    Resume,
    Pause,
    Seek(u64),
}

/// Events for the player.
pub enum MainTask {
    MusicList(Result<Vec<MusicItem>, String>),
    AppInfo(Result<AppInfo, String>),
    Lyrics { music_id: i64, text: Result<String, String> },
    DurationHint { music_id: i64, duration_ms: u64 },
    /// Bytes of the current track in the local cache.
    LoadProgress { music_id: i64, bytes_loaded: u64, total_bytes: Option<u64> },
    /// The start of the track is cached; playing may begin while the rest arrives.
    StreamReady { music_id: i64, path: String, duration_ms: u64 },
    Audio(AudioToUi),
    Hotkey(HotkeyKind),
    ScriptFinished,
    Toast(String),
    MusicCover { id: i64, bytes: Result<Vec<u8>, ()> },
}

/// What the caller carries out for the player.
pub enum Effect {
    /// Send a command to the audio thread.
    Audio(UiToAudio),
    /// Fetch the catalogue and the application information.
    FetchCatalogue,
    /// Fetch the cover of a song.
    FetchCover { id: i64 },
    /// Show the cover picture made from these bytes.
    ShowCover { id: i64, bytes: Vec<u8> },
    /// Drop all cover pictures.
    ClearCovers,
    /// Load the audio and lyrics of a song; results of an older generation are stale.
    LoadTrack { music_id: i64, generation: u64 },
    /// Play the key notation of a song.
    StartScript { music_id: i64 },
    /// Stop playing a key notation.
    StopScript,
    /// Save the settings.
    SaveConfig { launch_as_administrator: bool },
    /// Hand this notice back to the player as a `MainTask::Toast` event.
    Notify(String),
}

/// The cover fetches for `ids`.
pub open spec fn fetch_effects(ids: Seq<i64>) -> Seq<Effect> {
    ids.map_values(|id: i64| Effect::FetchCover { id })
}

/// The ids of the first `k` songs of `list` (all of them when there are fewer).
pub open spec fn first_ids(list: Seq<MusicItem>, k: nat) -> Seq<i64> {
    list.take(if list.len() < k {
        list.len() as int
    } else {
        k as int
    }).map_values(|m: MusicItem| m.id)
}

/// The ids of the first songs of a new catalogue, whose covers are asked for at once.
pub open spec fn preload_ids(list: Seq<MusicItem>) -> Seq<i64> {
    first_ids(list, COVER_PRELOAD_COUNT as nat)
}

/// The ids of the first `k` songs of `list`.
pub fn first_ids_of(list: &Vec<MusicItem>, k: usize) -> (ids: Vec<i64>)
    ensures
        ids@ == first_ids(list@, k as nat),
{
    let n: usize = if list.len() < k {
        list.len()
    } else {
        k
    };
    let mut ids: Vec<i64> = Vec::new();
    let mut i: usize = 0;
    while i < n
        invariant
            n <= list@.len(),
            i <= n,
            ids@ == list@.take(i as int).map_values(|m: MusicItem| m.id),
            n == (if list@.len() < k {
                list@.len() as int
            } else {
                k as int
            }),
        decreases n - i,
    {
        ids.push(list[i].id);
        i = i + 1;
        assert(ids@ =~= list@.take(i as int).map_values(|m: MusicItem| m.id));
    }
    ids
}

/// The notice for a missing server address.
pub open spec fn no_server_notice() -> Seq<char> {
    "未配置服务器地址：请在项目根目录 .env 填写 CLX_BASE_URL 后重新构建"@
}

/// The notice for pressing play with no song selected.
pub open spec fn no_song_notice() -> Seq<char> {
    "请先选择一首歌曲哦"@
}

/// The index of the first song with id `id` from position `k` on; 0 when there is none.
pub open spec fn index_of_id_from(list: Seq<MusicItem>, id: i64, k: int) -> int
    decreases list.len() - k,
{
    if k < 0 || k >= list.len() {
        0
    } else if list[k].id == id {
        k
    } else {
        index_of_id_from(list, id, k + 1)
    }
}

/// The index of the first song with id `id`; 0 when there is none.
pub open spec fn index_of_id(list: Seq<MusicItem>, id: i64) -> int {
    index_of_id_from(list, id, 0)
}

/// The song after the one with id `id` (after the last comes the first).
pub open spec fn next_item(list: Seq<MusicItem>, id: i64) -> MusicItem {
    let i = index_of_id(list, id);
    if i + 1 < list.len() {
        list[i + 1]
    } else {
        list[0]
    }
}

/// The song before the one with id `id` (before the first comes the last).
pub open spec fn previous_item(list: Seq<MusicItem>, id: i64) -> MusicItem {
    let i = index_of_id(list, id);
    if i > 0 {
        list[i - 1]
    } else {
        list[list.len() - 1]
    }
}

/// The effect of a hot key on state `s0`: nothing outside script mode; F1 starts
/// the current song's key notation unless no song is selected or a notation is
/// playing; F2 asks a playing notation to stop.
pub open spec fn hotkey_post(s0: ClxState, s1: ClxState, k: HotkeyKind, eff: Seq<Effect>) -> bool {
    if s0.play_mode != PlayMode::Script {
        s1 == s0 && eff.len() == 0
    } else if k == HotkeyKind::F1 {
        match s0.playback.current {
            Some(c) => if s0.modal_script {
                s1 == s0 && eff.len() == 0
            } else {
                &&& eff == seq![Effect::StartScript { music_id: c.id }]
                &&& s1 == (ClxState { modal_script: true, script_continue: true, ..s0 })
            },
            None => s1 == s0 && eff.len() == 0,
        }
    } else {
        &&& eff == seq![Effect::StopScript]
        &&& s1 == (ClxState { script_continue: false, ..s0 })
    }
}

/// `msg` joined the notices of `s0`; nothing else changed.
pub open spec fn toast_pushed(s0: ClxState, s1: ClxState, msg: String) -> bool {
    &&& s1.toasts.pending() == s0.toasts.pending().push(msg)
    &&& s1 == (ClxState { toasts: s1.toasts, ..s0 })
}

/// The state after an event that concerns the song `id` when another song (or
/// none) is selected: unchanged, no effect, nothing to redraw.
pub open spec fn ignored(s0: ClxState, s1: ClxState, refresh: UiRefresh, eff: Seq<Effect>) -> bool {
    s1 == s0 && eff.len() == 0 && refresh == UiRefresh::Nothing
}

/// The audio commands after the audio thread is told about a new stream: load it,
/// and play on when playing was asked for.
pub open spec fn resume_if_playing(is_playing: bool) -> Seq<Effect> {
    if is_playing {
        seq![Effect::Audio(UiToAudio::Resume)]
    } else {
        Seq::empty()
    }
}

/// How one event changes the state `s0` into `s1`, what is redrawn and which
/// effects follow.
pub open spec fn apply_main_task_post(
    s0: ClxState,
    s1: ClxState,
    task: MainTask,
    now_ms: u64,
    refresh: UiRefresh,
    eff: Seq<Effect>,
) -> bool {
    match task {
        MainTask::MusicList(Ok(list)) => {
            let plan = cover_plan(preload_ids(list@), Set::empty(), Set::empty(), Set::empty());
            &&& s1.library.music_list == list
            &&& s1.library.filter == s0.library.filter
            &&& s1.covers.shown@ == Set::<i64>::empty()
            &&& s1.covers.failed@ == Set::<i64>::empty()
            &&& s1.covers.inflight@ == plan.1
            &&& eff == seq![Effect::ClearCovers] + fetch_effects(plan.0)
            &&& s1 == (ClxState { library: s1.library, covers: s1.covers, ..s0 })
            &&& refresh == UiRefresh::Full
        },
        MainTask::MusicList(Err(e)) => toast_pushed(s0, s1, e) && eff.len() == 0 && refresh
            == UiRefresh::Full,
        MainTask::MusicCover { id, bytes } => {
            &&& s1.covers.inflight@ == s0.covers.inflight@.remove(id)
            &&& match bytes {
                Ok(b) => {
                    &&& s1.covers.shown@ == s0.covers.shown@.insert(id)
                    &&& s1.covers.failed@ == s0.covers.failed@
                    &&& eff == seq![Effect::ShowCover { id, bytes: b }]
                },
                Err(_) => {
                    &&& s1.covers.failed@ == s0.covers.failed@.insert(id)
                    &&& s1.covers.shown@ == s0.covers.shown@
                    &&& eff.len() == 0
                },
            }
            &&& s1 == (ClxState { covers: s1.covers, ..s0 })
            &&& refresh == UiRefresh::Covers
        },
        MainTask::AppInfo(Ok(info)) => s1 == (ClxState { app_info: info, ..s0 }) && eff.len() == 0
            && refresh == UiRefresh::Full,
        MainTask::AppInfo(Err(e)) => toast_pushed(s0, s1, e) && eff.len() == 0 && refresh
            == UiRefresh::Full,
        MainTask::Lyrics { music_id, text } => if !current_is(s0.playback.current, music_id) {
            ignored(s0, s1, refresh, eff)
        } else {
            &&& refresh == UiRefresh::Full
            &&& eff.len() == 0
            &&& match text {
                Ok(t) => {
                    &&& lyric_lines_view(s1.playback.lyrics@) == parse_lrc_spec(t@)
                    &&& s1.playback == (Playback {
                        lyrics: s1.playback.lyrics,
                        current_lyric_index: lyric_index_for_ms(s1.playback.lyrics@, 0),
                        ..s0.playback
                    })
                    &&& s1 == (ClxState { playback: s1.playback, ..s0 })
                },
                Err(e) => toast_pushed(s0, s1, e),
            }
        },
        MainTask::DurationHint { music_id, duration_ms } => if !current_is(
            s0.playback.current,
            music_id,
        ) {
            ignored(s0, s1, refresh, eff)
        } else {
            &&& s1 == (ClxState { playback: (Playback { duration_ms, ..s0.playback }), ..s0 })
            &&& eff.len() == 0
            &&& refresh == UiRefresh::Playback
        },
        MainTask::LoadProgress { music_id, bytes_loaded, total_bytes } => if !current_is(
            s0.playback.current,
            music_id,
        ) {
            ignored(s0, s1, refresh, eff)
        } else {
            &&& s1 == (ClxState {
                playback: (Playback {
                    load_bytes: bytes_loaded,
                    load_total_bytes: match total_bytes {
                        Some(t) => if t > 0 {
                            Some(t)
                        } else {
                            s0.playback.load_total_bytes
                        },
                        None => s0.playback.load_total_bytes,
                    },
                    ..s0.playback
                }),
                ..s0
            })
            &&& eff.len() == 0
            &&& refresh == UiRefresh::Playback
        },
        MainTask::StreamReady { music_id, path, duration_ms } => if !current_is(
            s0.playback.current,
            music_id,
        ) {
            ignored(s0, s1, refresh, eff)
        } else {
            &&& s1 == s0
            &&& eff == seq![Effect::Audio(UiToAudio::LoadStream { music_id, path, duration_ms })]
                + resume_if_playing(s0.playback.is_playing)
            &&& refresh == UiRefresh::Nothing
        },
        MainTask::Audio(AudioToUi::Tick { music_id, position_ms, duration_ms }) => if !current_is(
            s0.playback.current,
            music_id,
        ) {
            ignored(s0, s1, refresh, eff)
        } else {
            let taken = !s0.playback.tick_rejected(position_ms, now_ms);
            &&& crate::playback::tick_post(s0.playback, s1.playback, position_ms, duration_ms, now_ms, taken)
            &&& s1 == (ClxState { playback: s1.playback, ..s0 })
            &&& eff.len() == 0
            &&& refresh == (if taken {
                UiRefresh::Playback
            } else {
                UiRefresh::Nothing
            })
        },
        MainTask::Audio(AudioToUi::Loaded { music_id, duration_ms }) => if !current_is(
            s0.playback.current,
            music_id,
        ) {
            ignored(s0, s1, refresh, eff)
        } else {
            &&& s1 == (ClxState { playback: (Playback { duration_ms, ..s0.playback }), ..s0 })
            &&& eff == resume_if_playing(s0.playback.is_playing)
            &&& refresh == UiRefresh::Playback
        },
        MainTask::Audio(AudioToUi::Ended { music_id }) => if !current_is(
            s0.playback.current,
            music_id,
        ) {
            ignored(s0, s1, refresh, eff)
        } else {
            &&& crate::playback::ended_post(s0.playback, s1.playback)
            &&& s1 == (ClxState { playback: s1.playback, ..s0 })
            &&& eff.len() == 0
            &&& refresh == UiRefresh::Playback
        },
        MainTask::Audio(AudioToUi::Error(e)) => toast_pushed(s0, s1, e) && eff.len() == 0 && refresh
            == UiRefresh::Full,
        MainTask::Hotkey(k) => hotkey_post(s0, s1, k, eff) && refresh == UiRefresh::Full,
        MainTask::ScriptFinished => {
            &&& s1 == (ClxState { modal_script: false, script_continue: false, ..s0 })
            &&& eff == seq![Effect::StopScript]
            &&& refresh == UiRefresh::Full
        },
        MainTask::Toast(m) => toast_pushed(s0, s1, m) && eff.len() == 0 && refresh
            == UiRefresh::Full,
    }
}

/// The whole state of the player.
pub struct ClxState {
    pub base_url: String,
    pub app_info: AppInfo,
    pub library: Library,
    pub covers: Covers,
    pub toasts: Toasts,
    pub playback: Playback,
    pub play_mode: PlayMode,
    /// Whether the next start asks for administrator rights (Windows).
    pub launch_as_administrator: bool,
    pub show_settings: bool,
    /// A key notation is being played.
    pub modal_script: bool,
    /// Whether a playing key notation may go on.
    pub script_continue: bool,
}

/// The state after a track change to `item`: a new track in `playback`, the rest
/// as before.
pub open spec fn track_started(s0: ClxState, s1: ClxState, item: MusicItem) -> bool {
    &&& s1.playback.current == Some(item)
    &&& s1.playback.lyrics@.len() == 0
    &&& s1.playback.current_lyric_index is None
    &&& !s1.playback.is_playing
    &&& s1.playback.current_time_ms == 0
    &&& s1.playback.duration_ms == 0
    &&& s1.playback.load_bytes == 0
    &&& s1.playback.load_total_bytes is None
    &&& s1.playback.pending_seek_ms is None
    &&& s1.playback.pending_seek_at_ms is None
    &&& s1.playback.load_generation == next_generation(s0.playback.load_generation)
    &&& s1 == (ClxState { playback: s1.playback, ..s0 })
}

/// The effects of a track change to `item` at the new generation `s1`.
pub open spec fn track_change_effects(s1: ClxState, item: MusicItem) -> Seq<Effect> {
    seq![
        Effect::Audio(UiToAudio::Stop),
        Effect::LoadTrack { music_id: item.id, generation: s1.playback.load_generation },
    ]
}

/// Selecting `item` from state `s0` gives `s1` with effects `eff`: nothing happens
/// when it is already selected; otherwise the track changes.
pub open spec fn select_music_post(s0: ClxState, s1: ClxState, item: MusicItem, eff: Seq<Effect>) -> bool {
    if current_is(s0.playback.current, item.id) {
        s1 == s0 && eff.len() == 0
    } else {
        track_started(s0, s1, item) && eff == track_change_effects(s1, item)
    }
}

impl ClxState {
    /// The state's invariant: the shown songs follow the catalogue and the search,
    /// and notices wait only behind one on screen.
    pub open spec fn wf(self) -> bool {
        self.library.wf() && self.toasts.wf()
    }

    /// The start state for the server `base_url`: the settings' choice about
    /// administrator rights, and `startup_toast` on screen from `now_ms`. Without a
    /// server address a notice says so; otherwise the catalogue is fetched.
    pub fn new(
        base_url: String,
        app_version: String,
        launch_as_administrator: bool,
        startup_toast: Option<String>,
        now_ms: u64,
    ) -> (r: (ClxState, Vec<Effect>))
        ensures
            r.0.wf(),
            r.0.base_url == base_url,
            r.0.app_info.id == 1,
            r.0.app_info.app_version == app_version,
            r.0.app_info.announcement@.len() == 0,
            r.0.app_info.app_download_link@.len() == 0,
            r.0.app_info.app_version_description@.len() == 0,
            r.0.library.music_list@.len() == 0,
            r.0.library.filtered_display@.len() == 0,
            r.0.library.filter@.len() == 0,
            r.0.playback.current is None,
            !r.0.playback.is_playing,
            r.0.playback.lyrics@.len() == 0,
            r.0.playback.current_lyric_index is None,
            r.0.playback.current_time_ms == 0,
            r.0.playback.duration_ms == 0,
            r.0.playback.load_bytes == 0,
            r.0.playback.load_total_bytes is None,
            r.0.playback.pending_seek_ms is None,
            r.0.playback.pending_seek_at_ms is None,
            r.0.playback.load_generation == 0,
            r.0.play_mode == PlayMode::Listen,
            r.0.launch_as_administrator == launch_as_administrator,
            !r.0.show_settings,
            !r.0.modal_script,
            r.0.script_continue,
            r.0.covers.shown@.len() == 0 && r.0.covers.failed@.len() == 0
                && r.0.covers.inflight@.len() == 0,
            r.0.toasts.current == startup_toast,
            r.0.toasts.queue@.len() == 0,
            r.0.toasts.shown_at_ms == (if startup_toast is Some {
                Some(now_ms)
            } else {
                None::<u64>
            }),
            trim_spec(base_url@).len() == 0 ==> r.1@.len() == 1 && (r.1@[0] matches Effect::Notify(
                m,
            ) && m@ == no_server_notice()),
            trim_spec(base_url@).len() != 0 ==> r.1@ == seq![Effect::FetchCatalogue],
    {
        let b = chars_of(base_url.as_str());
        let empty_url = trim(&b).len() == 0;
        let toasts = Toasts::new(startup_toast, now_ms);
        let mut effects: Vec<Effect> = Vec::new();
        if empty_url {
            let msg = string_of(&chars_of("未配置服务器地址：请在项目根目录 .env 填写 CLX_BASE_URL 后重新构建"));
            effects.push(Effect::Notify(msg));
        } else {
            effects.push(Effect::FetchCatalogue);
        }
        let s = ClxState {
            base_url,
            app_info: AppInfo {
                id: 1,
                announcement: String::new(),
                app_version,
                app_download_link: String::new(),
                app_version_description: String::new(),
            },
            library: Library::new(),
            covers: Covers::new(),
            toasts,
            playback: Playback::new(),
            play_mode: PlayMode::Listen,
            launch_as_administrator,
            show_settings: false,
            modal_script: false,
            script_continue: true,
        };
        (s, effects)
    }

    /// Shows `msg` now, or queues it behind the notice on screen.
    pub fn push_toast(&mut self, msg: String, now_ms: u64)
        requires
            old(self).wf(),
        ensures
            final(self).wf(),
            final(self).toasts.pending() == old(self).toasts.pending().push(msg),
            old(self).toasts.current is None ==> final(self).toasts.shown_at_ms == Some(now_ms),
            old(self).toasts.current is Some ==> final(self).toasts.current == old(self).toasts.current && final(self).toasts.shown_at_ms == old(self).toasts.shown_at_ms,
            toast_step(old(self).toasts, final(self).toasts, ToastEvent::Pushed(msg)),
            *final(self) == (ClxState { toasts: final(self).toasts, ..*old(self) }),
    {
        self.toasts.push(msg, now_ms);
    }

    /// Closes the notice on screen; the next waiting one appears.
    pub fn dismiss_toast(&mut self, now_ms: u64)
        requires
            old(self).wf(),
        ensures
            final(self).wf(),
            old(self).toasts.current is Some ==> final(self).toasts.pending() == old(self).toasts.pending().drop_first(),
            old(self).toasts.current is None ==> final(self).toasts.pending().len() == 0,
            final(self).toasts.current is Some ==> final(self).toasts.shown_at_ms == Some(now_ms),
            final(self).toasts.current is None ==> final(self).toasts.shown_at_ms is None,
            toast_step(old(self).toasts, final(self).toasts, ToastEvent::Closed),
            *final(self) == (ClxState { toasts: final(self).toasts, ..*old(self) }),
    {
        self.toasts.dismiss(now_ms);
    }

    /// Closes the notice on screen once it has been there long enough; reports
    /// whether it did.
    pub fn tick_toast_auto_dismiss(&mut self, now_ms: u64) -> (closed: bool)
        requires
            old(self).wf(),
        ensures
            final(self).wf(),
            closed == (old(self).toasts.current is Some && ({
                let since = match old(self).toasts.shown_at_ms {
                    Some(t) => t,
                    None => now_ms,
                };
                now_ms >= since && now_ms - since >= crate::toasts::TOAST_AUTO_DISMISS_MS
            })),
            closed ==> final(self).toasts.pending() == old(self).toasts.pending().drop_first(),
            !closed ==> final(self).toasts.pending() == old(self).toasts.pending(),
            closed ==> toast_step(old(self).toasts, final(self).toasts, ToastEvent::Closed),
            old(self).toasts.current is None ==> final(self).toasts.shown_at_ms is None,
            closed && final(self).toasts.current is Some ==> final(self).toasts.shown_at_ms == Some(
                now_ms,
            ),
            closed && final(self).toasts.current is None ==> final(self).toasts.shown_at_ms is None,
            !closed && old(self).toasts.current is Some ==> final(self).toasts.current == old(
                self,
            ).toasts.current && final(self).toasts.shown_at_ms == Some(
                match old(self).toasts.shown_at_ms {
                    Some(t) => t,
                    None => now_ms,
                },
            ),
            *final(self) == (ClxState { toasts: final(self).toasts, ..*old(self) }),
    {
        self.toasts.tick_auto_dismiss(now_ms)
    }

    /// Recomputes the shown songs from the catalogue and the search text, whatever
    /// was shown before.
    pub fn rebuild_filtered_display(&mut self)
        ensures
            final(self).library.filtered_display@ == shown_items(
                old(self).library.music_list@,
                filter_query(old(self).library.filter@),
            ),
            final(self).library.wf(),
            old(self).toasts.wf() ==> final(self).wf(),
            final(self).library.music_list == old(self).library.music_list,
            final(self).library.filter == old(self).library.filter,
            *final(self) == (ClxState { library: final(self).library, ..*old(self) }),
    {
        self.library.rebuild_filtered_display();
    }

    /// Sets the search text; the shown songs follow it.
    pub fn set_filter(&mut self, filter: String)
        requires
            old(self).wf(),
        ensures
            final(self).wf(),
            final(self).library.filter == filter,
            final(self).library.music_list == old(self).library.music_list,
            *final(self) == (ClxState { library: final(self).library, ..*old(self) }),
    {
        self.library.set_filter(filter);
    }

    /// A new search text typed by the user: the shown songs follow it, and the
    /// covers of the first `FILTER_COVER_COUNT` of them are asked for.
    pub fn apply_filter(&mut self, filter: String) -> (eff: Vec<Effect>)
        requires
            old(self).wf(),
        ensures
            final(self).wf(),
            final(self).library.filter == filter,
            final(self).library.music_list == old(self).library.music_list,
            ({
                let plan = cover_plan(
                    first_ids(final(self).library.filtered_display@, FILTER_COVER_COUNT as nat),
                    old(self).covers.shown@,
                    old(self).covers.failed@,
                    old(self).covers.inflight@,
                );
                &&& eff@ == fetch_effects(plan.0)
                &&& final(self).covers.inflight@ == plan.1
            }),
            final(self).covers.shown@ == old(self).covers.shown@,
            final(self).covers.failed@ == old(self).covers.failed@,
            *final(self) == (ClxState {
                library: final(self).library,
                covers: final(self).covers,
                ..*old(self)
            }),
    {
        self.set_filter(filter);
        let ids = first_ids_of(&self.library.filtered_display, FILTER_COVER_COUNT);
        self.enqueue_music_cover_fetches(ids)
    }

    /// Asks for the covers of `ids` that are not shown, have not failed and are
    /// not already on their way.
    pub fn enqueue_music_cover_fetches(&mut self, ids: Vec<i64>) -> (eff: Vec<Effect>)
        requires
            old(self).wf(),
        ensures
            final(self).wf(),
            ({
                let plan = cover_plan(
                    ids@,
                    old(self).covers.shown@,
                    old(self).covers.failed@,
                    old(self).covers.inflight@,
                );
                &&& eff@ == fetch_effects(plan.0)
                &&& final(self).covers.inflight@ == plan.1
            }),
            final(self).covers.shown@ == old(self).covers.shown@,
            final(self).covers.failed@ == old(self).covers.failed@,
            *final(self) == (ClxState { covers: final(self).covers, ..*old(self) }),
    {
        let fetch = self.covers.enqueue_music_cover_fetches(ids.as_slice());
        fetch_effects_of(&fetch)
    }

    /// Selects `item`. When it is not already selected, the old sound stops, the
    /// new track starts from nothing, and its loading begins.
    pub fn select_music(&mut self, item: MusicItem) -> (eff: Vec<Effect>)
        requires
            old(self).wf(),
        ensures
            final(self).wf(),
            select_music_post(*old(self), *final(self), item, eff@),
    {
        if self.playback.is_current(item.id) {
            return Vec::new();
        }
        let id = item.id;
        let ghost it = item;
        self.playback.start_track(item);
        let mut eff: Vec<Effect> = Vec::new();
        eff.push(Effect::Audio(UiToAudio::Stop));
        eff.push(Effect::LoadTrack { music_id: id, generation: self.playback.load_generation });
        assert(eff@ =~= track_change_effects(*self, it));
        eff
    }

    /// Plays the selected song; with no song selected, a notice asks for one.
    pub fn play_playback(&mut self, now_ms: u64) -> (eff: Vec<Effect>)
        requires
            old(self).wf(),
        ensures
            final(self).wf(),
            old(self).playback.current is None ==> eff@.len() == 0 && final(self).toasts.pending().map_values(|m: String| m@) == old(self).toasts.pending().map_values(
                |m: String| m@,
            ).push(no_song_notice()) && *final(self) == (ClxState {
                toasts: final(self).toasts,
                ..*old(self)
            }),
            old(self).playback.current is Some ==> eff@ == seq![Effect::Audio(UiToAudio::Resume)]
                && final(self).playback == (Playback { is_playing: true, ..old(self).playback })
                && *final(self) == (ClxState { playback: final(self).playback, ..*old(self) }),
    {
        if self.playback.current.is_none() {
            let msg = string_of(&chars_of("请先选择一首歌曲哦"));
            let ghost t0 = self.toasts;
            self.push_toast(msg, now_ms);
            assert(t0.pending().push(msg).map_values(|m: String| m@) =~= t0.pending().map_values(
                |m: String| m@,
            ).push(msg@));
            return Vec::new();
        }
        self.playback.is_playing = true;
        let mut eff: Vec<Effect> = Vec::new();
        eff.push(Effect::Audio(UiToAudio::Resume));
        eff
    }

    /// Pauses.
    pub fn pause_playback(&mut self) -> (eff: Vec<Effect>)
        requires
            old(self).wf(),
        ensures
            final(self).wf(),
            eff@ == seq![Effect::Audio(UiToAudio::Pause)],
            final(self).playback == (Playback { is_playing: false, ..old(self).playback }),
            *final(self) == (ClxState { playback: final(self).playback, ..*old(self) }),
    {
        self.playback.is_playing = false;
        let mut eff: Vec<Effect> = Vec::new();
        eff.push(Effect::Audio(UiToAudio::Pause));
        eff
    }

    /// How far one can seek, in milliseconds.
    pub fn buffered_end_ms(&self) -> (r: u64)
        ensures
            r == buffered_end_spec(
                self.playback.duration_ms,
                self.playback.load_bytes,
                self.playback.load_total_bytes,
            ),
    {
        self.playback.buffered_end_ms()
    }

    /// Seeks to `target_ms`, limited to what is downloaded.
    pub fn seek(&mut self, target_ms: u64, now_ms: u64) -> (eff: Vec<Effect>)
        requires
            old(self).wf(),
        ensures
            final(self).wf(),
            ({
                let end = buffered_end_spec(
                    old(self).playback.duration_ms,
                    old(self).playback.load_bytes,
                    old(self).playback.load_total_bytes,
                );
                let t = if target_ms <= end {
                    target_ms as int
                } else {
                    end
                };
                &&& eff@ == seq![Effect::Audio(UiToAudio::Seek(t as u64))]
                &&& final(self).playback.current_time_ms == t
                &&& final(self).playback.pending_seek_ms == Some(t as u64)
                &&& final(self).playback.pending_seek_at_ms == Some(now_ms)
                &&& final(self).playback.current_lyric_index == lyric_index_for_ms(
                    old(self).playback.lyrics@,
                    t as u64,
                )
            }),
            final(self).playback.current == old(self).playback.current,
            final(self).playback.lyrics == old(self).playback.lyrics,
            final(self).playback.is_playing == old(self).playback.is_playing,
            final(self).playback.duration_ms == old(self).playback.duration_ms,
            final(self).playback.load_bytes == old(self).playback.load_bytes,
            final(self).playback.load_total_bytes == old(self).playback.load_total_bytes,
            final(self).playback.load_generation == old(self).playback.load_generation,
            *final(self) == (ClxState { playback: final(self).playback, ..*old(self) }),
    {
        let t = self.playback.seek(target_ms, now_ms);
        let mut eff: Vec<Effect> = Vec::new();
        eff.push(Effect::Audio(UiToAudio::Seek(t)));
        eff
    }

    /// The index of the first song with id `id` in the catalogue; 0 when there is none.
    fn index_of_id_exec(&self, id: i64) -> (r: usize)
        ensures
            r == index_of_id(self.library.music_list@, id),
            self.library.music_list@.len() > 0 ==> r < self.library.music_list@.len(),
    {
        let n = self.library.music_list.len();
        let mut k: usize = 0;
        while k < n
            invariant
                n == self.library.music_list@.len(),
                k <= n,
                index_of_id(self.library.music_list@, id) == index_of_id_from(
                    self.library.music_list@,
                    id,
                    k as int,
                ),
            decreases n - k,
        {
            if self.library.music_list[k].id == id {
                assert(index_of_id_from(self.library.music_list@, id, k as int) == k);
                return k;
            }
            k = k + 1;
        }
        0
    }

    /// Pauses and goes to the song before the current one in the catalogue (from
    /// the first to the last); nothing without a current song or a catalogue.
    pub fn previous_track(&mut self) -> (eff: Vec<Effect>)
        requires
            old(self).wf(),
        ensures
            final(self).wf(),
            old(self).playback.current is None ==> *final(self) == *old(self) && eff@.len() == 0,
            old(self).playback.current is Some && old(self).library.music_list@.len() == 0
                ==> eff@ == seq![Effect::Audio(UiToAudio::Pause)] && *final(self) == (ClxState {
                playback: Playback { is_playing: false, ..old(self).playback },
                ..*old(self)
            }),
            old(self).playback.current matches Some(c) ==> (old(self).library.music_list@.len() > 0
                ==> eff@.len() >= 1 && eff@[0] == Effect::Audio(UiToAudio::Pause)
                && select_music_post(
                (ClxState { playback: (Playback { is_playing: false, ..old(self).playback }), ..*old(self) }),
                *final(self),
                previous_item(old(self).library.music_list@, c.id),
                eff@.drop_first(),
            )),
    {
        let cur_id = match &self.playback.current {
            None => {
                return Vec::new();
            },
            Some(c) => c.id,
        };
        let mut eff = self.pause_playback();
        if self.library.music_list.len() == 0 {
            return eff;
        }
        let idx = self.index_of_id_exec(cur_id);
        let n = self.library.music_list.len();
        let pre = if idx > 0 {
            self.library.music_list[idx - 1].duplicate()
        } else {
            self.library.music_list[n - 1].duplicate()
        };
        let more = self.select_music(pre);
        let ghost e0 = eff@;
        append_effects(&mut eff, more);
        assert(eff@.drop_first() =~= more@);
        eff
    }

    /// Pauses and goes to the song after the current one in the catalogue (from
    /// the last to the first); nothing without a current song or a catalogue.
    pub fn next_track(&mut self) -> (eff: Vec<Effect>)
        requires
            old(self).wf(),
        ensures
            final(self).wf(),
            old(self).playback.current is None ==> *final(self) == *old(self) && eff@.len() == 0,
            old(self).playback.current is Some && old(self).library.music_list@.len() == 0
                ==> eff@ == seq![Effect::Audio(UiToAudio::Pause)] && *final(self) == (ClxState {
                playback: Playback { is_playing: false, ..old(self).playback },
                ..*old(self)
            }),
            old(self).playback.current matches Some(c) ==> (old(self).library.music_list@.len() > 0
                ==> eff@.len() >= 1 && eff@[0] == Effect::Audio(UiToAudio::Pause)
                && select_music_post(
                (ClxState { playback: (Playback { is_playing: false, ..old(self).playback }), ..*old(self) }),
                *final(self),
                next_item(old(self).library.music_list@, c.id),
                eff@.drop_first(),
            )),
    {
        let cur_id = match &self.playback.current {
            None => {
                return Vec::new();
            },
            Some(c) => c.id,
        };
        let mut eff = self.pause_playback();
        if self.library.music_list.len() == 0 {
            return eff;
        }
        let idx = self.index_of_id_exec(cur_id);
        let n = self.library.music_list.len();
        let nxt = if idx + 1 < n {
            self.library.music_list[idx + 1].duplicate()
        } else {
            self.library.music_list[0].duplicate()
        };
        let more = self.select_music(nxt);
        append_effects(&mut eff, more);
        assert(eff@.drop_first() =~= more@);
        eff
    }

    /// Points the lyric highlight at the line for the current position.
    pub fn sync_lyric_index(&mut self)
        requires
            old(self).wf(),
        ensures
            final(self).wf(),
            final(self).playback == (Playback {
                current_lyric_index: lyric_index_for_ms(
                    old(self).playback.lyrics@,
                    old(self).playback.current_time_ms,
                ),
                ..old(self).playback
            }),
            *final(self) == (ClxState { playback: final(self).playback, ..*old(self) }),
    {
        self.playback.sync_lyric_index();
    }

    /// Records the choice about administrator rights and asks for it to be saved.
    pub fn set_launch_as_administrator(&mut self, enabled: bool) -> (eff: Vec<Effect>)
        requires
            old(self).wf(),
        ensures
            final(self).wf(),
            eff@ == seq![Effect::SaveConfig { launch_as_administrator: enabled }],
            *final(self) == (ClxState { launch_as_administrator: enabled, ..*old(self) }),
    {
        self.launch_as_administrator = enabled;
        let mut eff: Vec<Effect> = Vec::new();
        eff.push(Effect::SaveConfig { launch_as_administrator: enabled });
        eff
    }

    /// The hot keys act in script mode only: F1 starts playing the current song's
    /// key notation (unless none is selected or one is already playing); F2 asks
    /// a playing notation to stop.
    pub fn handle_hotkey(&mut self, k: HotkeyKind) -> (eff: Vec<Effect>)
        requires
            old(self).wf(),
        ensures
            final(self).wf(),
            hotkey_post(*old(self), *final(self), k, eff@),
    {
        let mut eff: Vec<Effect> = Vec::new();
        match k {
            HotkeyKind::F1 => {
                if self.play_mode != PlayMode::Script || self.modal_script {
                    return eff;
                }
                let id = match &self.playback.current {
                    None => {
                        return eff;
                    },
                    Some(c) => c.id,
                };
                self.script_continue = true;
                self.modal_script = true;
                eff.push(Effect::StartScript { music_id: id });
            },
            HotkeyKind::F2 => {
                if self.play_mode != PlayMode::Script {
                    return eff;
                }
                self.script_continue = false;
                eff.push(Effect::StopScript);
            },
        }
        eff
    }
}

impl ClxState {
    fn on_music_list(&mut self, res: Result<Vec<MusicItem>, String>, now_ms: u64) -> (r: (UiRefresh, Vec<Effect>))
        requires
            old(self).wf(),
        ensures
            final(self).wf(),
            apply_main_task_post(*old(self), *final(self), MainTask::MusicList(res), now_ms, r.0, r.1@),
    {
        match res {
            Ok(list) => {
                let ghost l = list;
                self.library.set_music_list(list);
                self.covers.clear();
                let ids = first_ids_of(&self.library.music_list, COVER_PRELOAD_COUNT);
                let fetch = self.covers.enqueue_music_cover_fetches(ids.as_slice());
                let mut eff: Vec<Effect> = Vec::new();
                eff.push(Effect::ClearCovers);
                append_effects(&mut eff, fetch_effects_of(&fetch));
                assert(eff@ =~= seq![Effect::ClearCovers] + fetch_effects(fetch@));
                assert(self.library.music_list == l);
                (UiRefresh::Full, eff)
            },
            Err(e) => {
                self.push_toast(e, now_ms);
                (UiRefresh::Full, Vec::new())
            },
        }
    }

    fn on_music_cover(&mut self, id: i64, bytes: Result<Vec<u8>, ()>) -> (r: (UiRefresh, Vec<Effect>))
        requires
            old(self).wf(),
        ensures
            final(self).wf(),
            forall|now_ms: u64| apply_main_task_post(*old(self), *final(self), MainTask::MusicCover { id, bytes }, now_ms, r.0, r.1@),
    {
        match bytes {
            Ok(b) => {
                self.covers.cover_loaded(id);
                let mut eff: Vec<Effect> = Vec::new();
                eff.push(Effect::ShowCover { id, bytes: b });
                (UiRefresh::Covers, eff)
            },
            Err(()) => {
                self.covers.cover_failed(id);
                (UiRefresh::Covers, Vec::new())
            },
        }
    }

    fn on_app_info(&mut self, res: Result<AppInfo, String>, now_ms: u64) -> (r: (UiRefresh, Vec<Effect>))
        requires
            old(self).wf(),
        ensures
            final(self).wf(),
            apply_main_task_post(*old(self), *final(self), MainTask::AppInfo(res), now_ms, r.0, r.1@),
    {
        match res {
            Ok(info) => {
                self.app_info = info;
            },
            Err(e) => {
                self.push_toast(e, now_ms);
            },
        }
        (UiRefresh::Full, Vec::new())
    }

    fn on_lyrics(&mut self, music_id: i64, text: Result<String, String>, now_ms: u64) -> (r: (UiRefresh, Vec<Effect>))
        requires
            old(self).wf(),
        ensures
            final(self).wf(),
            apply_main_task_post(*old(self), *final(self), MainTask::Lyrics { music_id, text }, now_ms, r.0, r.1@),
    {
        if !self.playback.is_current(music_id) {
            return (UiRefresh::Nothing, Vec::new());
        }
        match text {
            Ok(t) => {
                let lines = parse_lrc_text(t.as_str());
                self.playback.lyrics = lines;
                self.playback.current_lyric_index = crate::lyrics::lyric_index_at_time(
                    self.playback.lyrics.as_slice(),
                    0,
                );
            },
            Err(e) => {
                self.push_toast(e, now_ms);
            },
        }
        (UiRefresh::Full, Vec::new())
    }

    fn on_load_progress(&mut self, music_id: i64, bytes_loaded: u64, total_bytes: Option<u64>) -> (r: (UiRefresh, Vec<Effect>))
        requires
            old(self).wf(),
        ensures
            final(self).wf(),
            forall|now_ms: u64| apply_main_task_post(*old(self), *final(self), MainTask::LoadProgress { music_id, bytes_loaded, total_bytes }, now_ms, r.0, r.1@),
    {
        if !self.playback.is_current(music_id) {
            return (UiRefresh::Nothing, Vec::new());
        }
        self.playback.load_bytes = bytes_loaded;
        match total_bytes {
            Some(t) => {
                if t > 0 {
                    self.playback.load_total_bytes = Some(t);
                }
            },
            None => {},
        }
        (UiRefresh::Playback, Vec::new())
    }

    fn on_stream_ready(&mut self, music_id: i64, path: String, duration_ms: u64) -> (r: (UiRefresh, Vec<Effect>))
        requires
            old(self).wf(),
        ensures
            final(self).wf(),
            forall|now_ms: u64| apply_main_task_post(*old(self), *final(self), MainTask::StreamReady { music_id, path, duration_ms }, now_ms, r.0, r.1@),
    {
        if !self.playback.is_current(music_id) {
            return (UiRefresh::Nothing, Vec::new());
        }
        let ghost p = path;
        let mut eff: Vec<Effect> = Vec::new();
        eff.push(Effect::Audio(UiToAudio::LoadStream { music_id, path, duration_ms }));
        if self.playback.is_playing {
            eff.push(Effect::Audio(UiToAudio::Resume));
        }
        assert(eff@ =~= seq![Effect::Audio(UiToAudio::LoadStream { music_id, path: p, duration_ms })]
            + resume_if_playing(self.playback.is_playing));
        (UiRefresh::Nothing, eff)
    }

    fn on_audio(&mut self, a: AudioToUi, now_ms: u64) -> (r: (UiRefresh, Vec<Effect>))
        requires
            old(self).wf(),
        ensures
            final(self).wf(),
            apply_main_task_post(*old(self), *final(self), MainTask::Audio(a), now_ms, r.0, r.1@),
    {
        match a {
            AudioToUi::Tick { music_id, position_ms, duration_ms } => {
                if !self.playback.is_current(music_id) {
                    return (UiRefresh::Nothing, Vec::new());
                }
                if self.playback.apply_playback_tick(position_ms, duration_ms, now_ms) {
                    (UiRefresh::Playback, Vec::new())
                } else {
                    (UiRefresh::Nothing, Vec::new())
                }
            },
            AudioToUi::Loaded { music_id, duration_ms } => {
                if !self.playback.is_current(music_id) {
                    return (UiRefresh::Nothing, Vec::new());
                }
                let ghost playing = self.playback.is_playing;
                self.playback.duration_ms = duration_ms;
                let mut eff: Vec<Effect> = Vec::new();
                if self.playback.is_playing {
                    eff.push(Effect::Audio(UiToAudio::Resume));
                }
                assert(eff@ =~= resume_if_playing(playing));
                (UiRefresh::Playback, eff)
            },
            AudioToUi::Ended { music_id } => {
                if !self.playback.is_current(music_id) {
                    return (UiRefresh::Nothing, Vec::new());
                }
                self.playback.on_track_ended();
                (UiRefresh::Playback, Vec::new())
            },
            AudioToUi::Error(e) => {
                self.push_toast(e, now_ms);
                (UiRefresh::Full, Vec::new())
            },
        }
    }

    /// Takes one event: updates the state and answers with the part of the screen
    /// to redraw and the effects to carry out. Events about a song other than the
    /// selected one are ignored.
    pub fn apply_main_task(&mut self, task: MainTask, now_ms: u64) -> (r: (UiRefresh, Vec<Effect>))
        requires
            old(self).wf(),
        ensures
            final(self).wf(),
            apply_main_task_post(*old(self), *final(self), task, now_ms, r.0, r.1@),
    {
        match task {
            MainTask::MusicList(res) => self.on_music_list(res, now_ms),
            MainTask::MusicCover { id, bytes } => self.on_music_cover(id, bytes),
            MainTask::AppInfo(res) => self.on_app_info(res, now_ms),
            MainTask::Lyrics { music_id, text } => self.on_lyrics(music_id, text, now_ms),
            MainTask::DurationHint { music_id, duration_ms } => {
                if !self.playback.is_current(music_id) {
                    return (UiRefresh::Nothing, Vec::new());
                }
                self.playback.duration_ms = duration_ms;
                (UiRefresh::Playback, Vec::new())
            },
            MainTask::LoadProgress { music_id, bytes_loaded, total_bytes } => self.on_load_progress(
                music_id,
                bytes_loaded,
                total_bytes,
            ),
            MainTask::StreamReady { music_id, path, duration_ms } => self.on_stream_ready(
                music_id,
                path,
                duration_ms,
            ),
            MainTask::Audio(a) => self.on_audio(a, now_ms),
            MainTask::Hotkey(k) => {
                let eff = self.handle_hotkey(k);
                (UiRefresh::Full, eff)
            },
            MainTask::ScriptFinished => {
                self.modal_script = false;
                self.script_continue = false;
                let mut eff: Vec<Effect> = Vec::new();
                eff.push(Effect::StopScript);
                (UiRefresh::Full, eff)
            },
            MainTask::Toast(m) => {
                self.push_toast(m, now_ms);
                (UiRefresh::Full, Vec::new())
            },
        }
    }
}

/// One cover fetch per id, in order.
fn fetch_effects_of(ids: &Vec<i64>) -> (eff: Vec<Effect>)
    ensures
        eff@ == fetch_effects(ids@),
{
    let mut eff: Vec<Effect> = Vec::new();
    let mut i: usize = 0;
    while i < ids.len()
        invariant
            i <= ids@.len(),
            eff@ == fetch_effects(ids@.subrange(0, i as int)),
        decreases ids.len() - i,
    {
        eff.push(Effect::FetchCover { id: ids[i] });
        i = i + 1;
        assert(eff@ =~= fetch_effects(ids@.subrange(0, i as int)));
    }
    assert(ids@.subrange(0, ids@.len() as int) =~= ids@);
    eff
}

/// Appends the effects `more` to `eff`.
fn append_effects(eff: &mut Vec<Effect>, more: Vec<Effect>)
    ensures
        final(eff)@ == old(eff)@ + more@,
{
    let mut more = more;
    let ghost m0 = more@;
    let ghost e0 = eff@;
    let mut rest: Vec<Effect> = Vec::new();
    // Reverse `more` so that popping yields its items in order.
    while more.len() > 0
        invariant
            rest@.reverse() + more@ == m0 || rest@.len() + more@.len() == m0.len(),
            m0 == more@ + rest@.reverse(),
        decreases more.len(),
    {
        let x = more.pop().unwrap();
        let ghost r0 = rest@;
        rest.push(x);
        assert(rest@.reverse() =~= seq![x] + r0.reverse());
    }
    assert(more@ =~= Seq::<Effect>::empty());
    assert(rest@.reverse() =~= m0);
    while rest.len() > 0
        invariant
            eff@ + rest@.reverse() == e0 + m0,
        decreases rest.len(),
    {
        let ghost r0 = rest@;
        let x = rest.pop().unwrap();
        assert(r0.reverse() =~= seq![x] + rest@.reverse());
        eff.push(x);
    }
    assert(rest@.reverse() =~= Seq::<Effect>::empty());
    assert(eff@ =~= e0 + m0);
}

// ---------------------------------------------------------------------------
// Laws
// ---------------------------------------------------------------------------

/// No two songs of the catalogue share an id.
pub open spec fn ids_unique(list: Seq<MusicItem>) -> bool {
    forall|a: int, b: int| 0 <= a < b < list.len() ==> list[a].id != list[b].id
}

proof fn lemma_index_of_unique_id(list: Seq<MusicItem>, j: int, k: int)
    requires
        ids_unique(list),
        0 <= k <= j < list.len(),
    ensures
        index_of_id_from(list, list[j].id, k) == j,
    decreases j - k,
{
    if k < j {
        assert(list[k].id != list[j].id);
        lemma_index_of_unique_id(list, j, k + 1);
    }
}

/// In a catalogue whose ids are unique, the song before the song after song `j`
/// is song `j` again: "next" then "previous" comes back.
pub proof fn lemma_next_then_previous(list: Seq<MusicItem>, j: int)
    requires
        ids_unique(list),
        0 <= j < list.len(),
    ensures
        previous_item(list, next_item(list, list[j].id).id) == list[j],
        next_item(list, previous_item(list, list[j].id).id) == list[j],
{
    lemma_index_of_unique_id(list, j, 0);
    let n = list.len() as int;
    let nx = if j + 1 < n {
        j + 1
    } else {
        0
    };
    lemma_index_of_unique_id(list, nx, 0);
    let pv = if j > 0 {
        j - 1
    } else {
        n - 1
    };
    lemma_index_of_unique_id(list, pv, 0);
}

} // verus!
