//! The decisions of the audio thread. The thread owns the sound engine; it tells
//! this state machine what the engine reports and carries out the actions that
//! come back. Times are whole milliseconds.

use vstd::prelude::*;
use crate::player::{AudioToUi, UiToAudio};

verus! {

/// How often the playing position is reported.
pub const TICK_INTERVAL_MS: u64 = 200;

/// How close to its end a track counts as finished.
pub const TRACK_END_MARGIN_MS: u64 = 50;

/// What the engine says of the current sound.
#[derive(Clone, Copy, Debug, PartialEq, Eq, Structural)]
pub enum SoundState {
    Playing,
    Stopped,
    /// Paused, or on its way between states.
    Other,
}

/// The current sound: its state and its position.
#[derive(Clone, Copy, Debug, PartialEq, Eq, Structural)]
pub struct SoundInfo {
    pub state: SoundState,
    pub position_ms: u64,
}

/// What the audio thread does for the state machine.
pub enum AudioAction {
    /// Stop the current sound (a dropped handle would keep playing).
    StopCurrent,
    /// Forget the current sound.
    DropCurrent,
    /// Open the file as a new stream; report the outcome to `on_load_result`.
    Load { music_id: i64, path: String, hinted_duration_ms: u64 },
    /// Open the file again after the sound ended; report the outcome to
    /// `on_replay_result`.
    Replay { path: String, hinted_duration_ms: u64 },
    /// The stream just opened becomes the current sound.
    InstallNew,
    PauseCurrent,
    ResumeCurrent,
    SeekCurrent(u64),
    /// Send this report to the player.
    Report(AudioToUi),
}

/// A track counts as finished within `TRACK_END_MARGIN_MS` of its end.
pub open spec fn at_track_end_spec(position_ms: u64, duration_ms: u64) -> bool {
    duration_ms > 0 && position_ms + TRACK_END_MARGIN_MS >= duration_ms
}

/// Whether a track counts as finished at `position_ms`.
pub fn at_track_end(position_ms: u64, duration_ms: u64) -> (r: bool)
    ensures
        r == at_track_end_spec(position_ms, duration_ms),
{
    duration_ms > 0 && (position_ms >= duration_ms || duration_ms - position_ms <= TRACK_END_MARGIN_MS)
}

/// The length of a newly opened stream: the hint given with the command where
/// there is one, else what the decoder reports.
pub fn stream_duration_ms(hinted_ms: u64, decoded_ms: u64) -> (r: u64)
    ensures
        r == (if hinted_ms > 0 { hinted_ms } else { decoded_ms }),
{
    if hinted_ms > 0 {
        hinted_ms
    } else {
        decoded_ms
    }
}

/// The audio thread's memory.
pub struct AudioLoop {
    /// The track of the current sound, once it loaded.
    pub track_id: Option<i64>,
    /// The file of the current track, to play again after it ended.
    pub stream_path: Option<String>,
    pub duration_ms: u64,
    /// Whether the player wants sound.
    pub want_playing: bool,
    /// Whether the end of the current sound was reported.
    pub ended_notified: bool,
    /// When the position was last reported.
    pub last_tick_ms: u64,
}

impl AudioLoop {
    /// No sound, not playing.
    pub fn new(now_ms: u64) -> (r: AudioLoop)
        ensures
            r.track_id is None,
            r.stream_path is None,
            r.duration_ms == 0,
            !r.want_playing,
            !r.ended_notified,
            r.last_tick_ms == now_ms,
    {
        AudioLoop {
            track_id: None,
            stream_path: None,
            duration_ms: 0,
            want_playing: false,
            ended_notified: false,
            last_tick_ms: now_ms,
        }
    }

    /// Takes a command of the player, given the current sound (if any).
    ///
    /// * `LoadStream`: stop and forget the current sound, remember the file, open it.
    /// * `Stop`: not playing; stop and forget the sound and the track.
    /// * `Resume`: playing is wanted. With a track and a sound: a sound that ended
    ///   is opened again from its file; one at its end goes back to the start
    ///   (reported); then it resumes.
    /// * `Pause`: not playing; the sound pauses.
    /// * `Seek`: a sound that has not ended moves there, which is reported.
    pub fn on_command(&mut self, cmd: UiToAudio, sound: Option<SoundInfo>, now_ms: u64) -> (acts:
        Vec<AudioAction>)
        ensures
            command_post(*old(self), *final(self), cmd, sound, now_ms, acts@),
    {
        let mut acts: Vec<AudioAction> = Vec::new();
        match cmd {
            UiToAudio::LoadStream { music_id, path, duration_ms } => {
                acts.push(AudioAction::StopCurrent);
                acts.push(AudioAction::DropCurrent);
                self.stream_path = Some(path.clone());
                self.ended_notified = false;
                let ghost p = path;
                acts.push(AudioAction::Load { music_id, path, hinted_duration_ms: duration_ms });
                assert(acts@ =~= seq![
                    AudioAction::StopCurrent,
                    AudioAction::DropCurrent,
                    AudioAction::Load { music_id, path: p, hinted_duration_ms: duration_ms },
                ]);
            },
            UiToAudio::Stop => {
                self.want_playing = false;
                self.ended_notified = false;
                acts.push(AudioAction::StopCurrent);
                acts.push(AudioAction::DropCurrent);
                self.track_id = None;
                self.stream_path = None;
                self.duration_ms = 0;
                assert(acts@ =~= seq![AudioAction::StopCurrent, AudioAction::DropCurrent]);
            },
            UiToAudio::Resume => {
                self.want_playing = true;
                match (self.track_id, sound) {
                    (Some(id), Some(info)) => {
                        if info.state == SoundState::Stopped {
                            match &self.stream_path {
                                Some(p) => {
                                    acts.push(
                                        AudioAction::Replay {
                                            path: p.clone(),
                                            hinted_duration_ms: self.duration_ms,
                                        },
                                    );
                                },
                                None => {},
                            }
                        } else {
                            if at_track_end(info.position_ms, self.duration_ms) {
                                acts.push(AudioAction::SeekCurrent(0));
                                acts.push(
                                    AudioAction::Report(
                                        AudioToUi::Tick {
                                            music_id: id,
                                            position_ms: 0,
                                            duration_ms: self.duration_ms,
                                        },
                                    ),
                                );
                            }
                            acts.push(AudioAction::ResumeCurrent);
                        }
                        assert(info.state != SoundState::Stopped && at_track_end_spec(
                            info.position_ms,
                            self.duration_ms,
                        ) ==> acts@ =~= seq![
                            AudioAction::SeekCurrent(0),
                            AudioAction::Report(
                                AudioToUi::Tick {
                                    music_id: id,
                                    position_ms: 0,
                                    duration_ms: self.duration_ms,
                                },
                            ),
                            AudioAction::ResumeCurrent,
                        ]);
                    },
                    _ => {},
                }
            },
            UiToAudio::Pause => {
                self.want_playing = false;
                if sound.is_some() {
                    acts.push(AudioAction::PauseCurrent);
                }
            },
            UiToAudio::Seek(t) => {
                match sound {
                    Some(info) => {
                        if info.state != SoundState::Stopped {
                            acts.push(AudioAction::SeekCurrent(t));
                            self.ended_notified = false;
                            self.last_tick_ms = now_ms;
                            match self.track_id {
                                Some(id) => {
                                    acts.push(
                                        AudioAction::Report(
                                            AudioToUi::Tick {
                                                music_id: id,
                                                position_ms: t,
                                                duration_ms: self.duration_ms,
                                            },
                                        ),
                                    );
                                },
                                None => {},
                            }
                            assert(acts@ =~= seq![AudioAction::SeekCurrent(t)] + match self.track_id {
                                Some(id) => seq![
                                    AudioAction::Report(
                                        AudioToUi::Tick {
                                            music_id: id,
                                            position_ms: t,
                                            duration_ms: self.duration_ms,
                                        },
                                    ),
                                ],
                                None => Seq::<AudioAction>::empty(),
                            });
                        }
                    },
                    None => {},
                }
            },
        }
        acts
    }

    /// The outcome of opening a new stream for `music_id`: its duration, or why it
    /// failed. A loaded stream becomes the current sound, is reported, and pauses
    /// unless playing is wanted; a failure forgets the track and is reported.
    pub fn on_load_result(&mut self, music_id: i64, result: Result<u64, String>) -> (acts: Vec<
        AudioAction,
    >)
        ensures
            result matches Ok(d) ==> final(self).duration_ms == d && final(self).track_id == Some(
                music_id,
            ) && acts@ == seq![
                AudioAction::InstallNew,
                AudioAction::Report(AudioToUi::Loaded { music_id, duration_ms: d }),
            ] + (if old(self).want_playing {
                Seq::<AudioAction>::empty()
            } else {
                seq![AudioAction::PauseCurrent]
            }) && *final(self) == (AudioLoop {
                duration_ms: d,
                track_id: Some(music_id),
                ..*old(self)
            }),
            result matches Err(e) ==> load_failed_post(*old(self), *final(self), e, acts@),
    {
        let mut acts: Vec<AudioAction> = Vec::new();
        match result {
            Ok(d) => {
                self.duration_ms = d;
                acts.push(AudioAction::InstallNew);
                acts.push(AudioAction::Report(AudioToUi::Loaded { music_id, duration_ms: d }));
                if !self.want_playing {
                    acts.push(AudioAction::PauseCurrent);
                }
                self.track_id = Some(music_id);
                assert(acts@ =~= seq![
                    AudioAction::InstallNew,
                    AudioAction::Report(AudioToUi::Loaded { music_id, duration_ms: d }),
                ] + (if old(self).want_playing {
                    Seq::<AudioAction>::empty()
                } else {
                    seq![AudioAction::PauseCurrent]
                }));
            },
            Err(e) => {
                self.track_id = None;
                acts.push(AudioAction::Report(AudioToUi::Error(e)));
            },
        }
        acts
    }

    /// The outcome of opening an ended track again: the new stream replaces the
    /// old one, plays from the start, and that is reported; a failure is reported.
    pub fn on_replay_result(&mut self, result: Result<u64, String>) -> (acts: Vec<AudioAction>)
        ensures
            result matches Ok(d) ==> (old(self).track_id matches Some(id) ==> acts@ == seq![
                AudioAction::StopCurrent,
                AudioAction::InstallNew,
                AudioAction::ResumeCurrent,
                AudioAction::Report(AudioToUi::Tick { music_id: id, position_ms: 0, duration_ms: d }),
            ]) && *final(self) == (AudioLoop { ended_notified: false, ..*old(self) }),
            result matches Ok(d) ==> (old(self).track_id is None ==> acts@ == seq![
                AudioAction::StopCurrent,
                AudioAction::InstallNew,
                AudioAction::ResumeCurrent,
            ]),
            result matches Err(e) ==> acts@ == seq![AudioAction::Report(AudioToUi::Error(e))]
                && *final(self) == *old(self),
    {
        let mut acts: Vec<AudioAction> = Vec::new();
        match result {
            Ok(d) => {
                acts.push(AudioAction::StopCurrent);
                self.ended_notified = false;
                acts.push(AudioAction::InstallNew);
                acts.push(AudioAction::ResumeCurrent);
                match self.track_id {
                    Some(id) => {
                        acts.push(
                            AudioAction::Report(
                                AudioToUi::Tick { music_id: id, position_ms: 0, duration_ms: d },
                            ),
                        );
                    },
                    None => {},
                }
            },
            Err(e) => {
                acts.push(AudioAction::Report(AudioToUi::Error(e)));
            },
        }
        acts
    }

    /// The regular look at the current sound: its end is reported once (and
    /// playing is no longer wanted); while it plays, its position is reported at
    /// most every `TICK_INTERVAL_MS`.
    pub fn on_poll(&mut self, sound: Option<SoundInfo>, now_ms: u64) -> (acts: Vec<AudioAction>)
        ensures
            poll_post(*old(self), *final(self), sound, now_ms, acts@),
    {
        let mut acts: Vec<AudioAction> = Vec::new();
        match (self.track_id, sound) {
            (Some(id), Some(info)) => {
                if info.state == SoundState::Stopped {
                    if !self.ended_notified {
                        self.ended_notified = true;
                        self.want_playing = false;
                        acts.push(AudioAction::Report(AudioToUi::Ended { music_id: id }));
                    }
                } else if info.state == SoundState::Playing && now_ms >= self.last_tick_ms
                    && now_ms - self.last_tick_ms >= TICK_INTERVAL_MS {
                    self.last_tick_ms = now_ms;
                    acts.push(
                        AudioAction::Report(
                            AudioToUi::Tick {
                                music_id: id,
                                position_ms: info.position_ms,
                                duration_ms: self.duration_ms,
                            },
                        ),
                    );
                }
            },
            _ => {},
        }
        acts
    }
}

/// What a command does, as stated on `AudioLoop::on_command`.
pub open spec fn command_post(
    s0: AudioLoop,
    s1: AudioLoop,
    cmd: UiToAudio,
    sound: Option<SoundInfo>,
    now_ms: u64,
    acts: Seq<AudioAction>,
) -> bool {
    match cmd {
        UiToAudio::LoadStream { music_id, path, duration_ms } => {
            &&& acts == seq![
                AudioAction::StopCurrent,
                AudioAction::DropCurrent,
                AudioAction::Load { music_id, path, hinted_duration_ms: duration_ms },
            ]
            &&& s1 == (AudioLoop { stream_path: Some(path), ended_notified: false, ..s0 })
        },
        UiToAudio::Stop => {
            &&& acts == seq![AudioAction::StopCurrent, AudioAction::DropCurrent]
            &&& s1 == (AudioLoop {
                want_playing: false,
                ended_notified: false,
                track_id: None,
                stream_path: None,
                duration_ms: 0,
                ..s0
            })
        },
        UiToAudio::Resume => {
            &&& s1 == (AudioLoop { want_playing: true, ..s0 })
            &&& match (s0.track_id, sound) {
                (Some(id), Some(info)) => if info.state == SoundState::Stopped {
                    match s0.stream_path {
                        Some(p) => acts == seq![
                            AudioAction::Replay { path: p, hinted_duration_ms: s0.duration_ms },
                        ],
                        None => acts.len() == 0,
                    }
                } else if at_track_end_spec(info.position_ms, s0.duration_ms) {
                    acts == seq![
                        AudioAction::SeekCurrent(0),
                        AudioAction::Report(
                            AudioToUi::Tick { music_id: id, position_ms: 0, duration_ms: s0.duration_ms },
                        ),
                        AudioAction::ResumeCurrent,
                    ]
                } else {
                    acts == seq![AudioAction::ResumeCurrent]
                },
                _ => acts.len() == 0,
            }
        },
        UiToAudio::Pause => {
            &&& s1 == (AudioLoop { want_playing: false, ..s0 })
            &&& acts == (if sound is Some {
                seq![AudioAction::PauseCurrent]
            } else {
                Seq::<AudioAction>::empty()
            })
        },
        UiToAudio::Seek(t) => match sound {
            Some(info) => if info.state != SoundState::Stopped {
                &&& s1 == (AudioLoop { ended_notified: false, last_tick_ms: now_ms, ..s0 })
                &&& acts == seq![AudioAction::SeekCurrent(t)] + match s0.track_id {
                    Some(id) => seq![
                        AudioAction::Report(
                            AudioToUi::Tick { music_id: id, position_ms: t, duration_ms: s0.duration_ms },
                        ),
                    ],
                    None => Seq::<AudioAction>::empty(),
                }
            } else {
                s1 == s0 && acts.len() == 0
            },
            None => s1 == s0 && acts.len() == 0,
        },
    }
}

/// What a failed load does, as stated on `AudioLoop::on_load_result`: the error is
/// reported and no track is current.
pub open spec fn load_failed_post(s0: AudioLoop, s1: AudioLoop, e: String, acts: Seq<AudioAction>) -> bool {
    &&& acts == seq![AudioAction::Report(AudioToUi::Error(e))]
    &&& s1 == (AudioLoop { track_id: None, ..s0 })
}

/// What a regular look does, as stated on `AudioLoop::on_poll`.
pub open spec fn poll_post(
    s0: AudioLoop,
    s1: AudioLoop,
    sound: Option<SoundInfo>,
    now_ms: u64,
    acts: Seq<AudioAction>,
) -> bool {
    match (s0.track_id, sound) {
        (Some(id), Some(info)) => if info.state == SoundState::Stopped {
            if !s0.ended_notified {
                &&& s1 == (AudioLoop { ended_notified: true, want_playing: false, ..s0 })
                &&& acts == seq![AudioAction::Report(AudioToUi::Ended { music_id: id })]
            } else {
                s1 == s0 && acts.len() == 0
            }
        } else if info.state == SoundState::Playing && now_ms >= s0.last_tick_ms && now_ms
            - s0.last_tick_ms >= TICK_INTERVAL_MS {
            &&& s1 == (AudioLoop { last_tick_ms: now_ms, ..s0 })
            &&& acts == seq![
                AudioAction::Report(
                    AudioToUi::Tick {
                        music_id: id,
                        position_ms: info.position_ms,
                        duration_ms: s0.duration_ms,
                    },
                ),
            ]
        } else {
            s1 == s0 && acts.len() == 0
        },
        _ => s1 == s0 && acts.len() == 0,
    }
}

/// The end of a sound is reported once: a second look at the same ended sound
/// reports nothing.
pub proof fn lemma_end_reported_once(s0: AudioLoop, s1: AudioLoop, s2: AudioLoop, sound: SoundInfo, t1: u64, t2: u64, a1: Seq<AudioAction>, a2: Seq<AudioAction>)
    requires
        sound.state == SoundState::Stopped,
        poll_post(s0, s1, Some(sound), t1, a1),
        poll_post(s1, s2, Some(sound), t2, a2),
    ensures
        a2.len() == 0,
        s2 == s1,
{
}

/// `a` reports a position, a loaded track or a track's end.
pub open spec fn reports_progress(a: AudioAction) -> bool {
    a matches AudioAction::Report(r) && (r is Tick || r is Loaded || r is Ended)
}

/// `a` opens a file or sets a sound playing.
pub open spec fn starts_sound(a: AudioAction) -> bool {
    a is Load || a is Replay || a is InstallNew || a is ResumeCurrent
}

/// A stop stops the current sound in the engine before forgetting it, and
/// leaves no current track.
pub proof fn lemma_stop_forgets_track(s0: AudioLoop, s1: AudioLoop, sound: Option<SoundInfo>, now_ms: u64, acts: Seq<AudioAction>)
    requires
        command_post(s0, s1, UiToAudio::Stop, sound, now_ms, acts),
    ensures
        acts == seq![AudioAction::StopCurrent, AudioAction::DropCurrent],
        s1.track_id is None,
{
}

/// Without a current track (as after a stop, until a stream loads again), no
/// position, load or end is reported: a command other than loading a stream
/// keeps it that way and starts no sound, and so does a regular look. Once the
/// stopped sound is forgotten (no current sound), resuming, pausing and seeking
/// do nothing at all.
pub proof fn lemma_quiet_without_track(
    s0: AudioLoop,
    s1: AudioLoop,
    cmd: UiToAudio,
    sound: Option<SoundInfo>,
    now_ms: u64,
    acts: Seq<AudioAction>,
    s2: AudioLoop,
    poll_acts: Seq<AudioAction>,
)
    requires
        s0.track_id is None,
        command_post(s0, s1, cmd, sound, now_ms, acts),
        poll_post(s0, s2, sound, now_ms, poll_acts),
    ensures
        s1.track_id is None,
        forall|i: int| 0 <= i < acts.len() ==> !reports_progress(#[trigger] acts[i]),
        !(cmd is LoadStream) ==> forall|i: int| 0 <= i < acts.len() ==> !starts_sound(#[trigger] acts[i]),
        sound is None && (cmd is Resume || cmd is Pause || cmd is Seek) ==> acts.len() == 0,
        poll_acts.len() == 0,
        s2 == s0,
{
    match cmd {
        UiToAudio::Seek(t) => {
            if let Some(info) = sound {
                if info.state != SoundState::Stopped {
                    assert(acts =~= seq![AudioAction::SeekCurrent(t)]);
                }
            }
        },
        _ => {},
    }
}

/// What the audio thread hands the state machine: a command with the current
/// sound and the time, a regular look, or a load that failed.
pub enum AudioEvent {
    Command(UiToAudio, Option<SoundInfo>, u64),
    Poll(Option<SoundInfo>, u64),
    LoadFailed(String),
}

/// `b` and `acts` are what `a` gives on `e`.
pub open spec fn audio_step(a: AudioLoop, b: AudioLoop, e: AudioEvent, acts: Seq<AudioAction>) -> bool {
    match e {
        AudioEvent::Command(cmd, sound, now_ms) => command_post(a, b, cmd, sound, now_ms, acts),
        AudioEvent::Poll(sound, now_ms) => poll_post(a, b, sound, now_ms, acts),
        AudioEvent::LoadFailed(err) => load_failed_post(a, b, err, acts),
    }
}

/// A run of `events` from `states[0]`: step `i` takes `states[i]` to
/// `states[i + 1]` with the actions `acts[i]`.
pub open spec fn audio_run(
    states: Seq<AudioLoop>,
    events: Seq<AudioEvent>,
    acts: Seq<Seq<AudioAction>>,
) -> bool {
    &&& states.len() == events.len() + 1
    &&& acts.len() == events.len()
    &&& forall|i: int| 0 <= i < events.len() ==> audio_step(#[trigger] states[i], states[i + 1], events[i], acts[i])
}

proof fn lemma_run_keeps_no_track(
    states: Seq<AudioLoop>,
    events: Seq<AudioEvent>,
    acts: Seq<Seq<AudioAction>>,
    i: int,
)
    requires
        audio_run(states, events, acts),
        states[0].track_id is None,
        0 <= i <= events.len(),
    ensures
        states[i].track_id is None,
    decreases i,
{
    if i > 0 {
        lemma_run_keeps_no_track(states, events, acts, i - 1);
        assert(audio_step(states[i - 1], states[i], events[i - 1], acts[i - 1]));
        match events[i - 1] {
            AudioEvent::Command(cmd, sound, now_ms) => {
                match cmd {
                    UiToAudio::Seek(t) => {},
                    _ => {},
                }
            },
            _ => {},
        }
    }
}

/// After a stop, the sound that played is stopped in the engine before it is
/// dropped; then, along any run of commands, regular looks and failed loads
/// (that is, until a stream loads again), no track is current, no position,
/// load or end is reported, and no command but loading a stream opens a file or
/// sets a sound playing.
pub proof fn lemma_quiet_after_stop(
    before: AudioLoop,
    stop_sound: Option<SoundInfo>,
    stop_ms: u64,
    stop_acts: Seq<AudioAction>,
    states: Seq<AudioLoop>,
    events: Seq<AudioEvent>,
    acts: Seq<Seq<AudioAction>>,
)
    requires
        command_post(before, states[0], UiToAudio::Stop, stop_sound, stop_ms, stop_acts),
        audio_run(states, events, acts),
    ensures
        stop_acts == seq![AudioAction::StopCurrent, AudioAction::DropCurrent],
        forall|i: int| 0 <= i < states.len() ==> (#[trigger] states[i]).track_id is None,
        forall|i: int, k: int|
            0 <= i < events.len() && 0 <= k < acts[i].len() ==> !reports_progress(
                #[trigger] acts[i][k],
            ),
        forall|i: int, k: int|
            0 <= i < events.len() && 0 <= k < acts[i].len() && !(events[i] matches AudioEvent::Command(
                UiToAudio::LoadStream { .. },
                _,
                _,
            )) ==> !starts_sound(#[trigger] acts[i][k]),
{
    lemma_stop_forgets_track(before, states[0], stop_sound, stop_ms, stop_acts);
    assert forall|i: int| 0 <= i < states.len() implies (#[trigger] states[i]).track_id is None by {
        lemma_run_keeps_no_track(states, events, acts, i);
    }
    assert forall|i: int, k: int|
        0 <= i < events.len() && 0 <= k < acts[i].len() implies !reports_progress(
            #[trigger] acts[i][k],
        ) && (!(events[i] matches AudioEvent::Command(UiToAudio::LoadStream { .. }, _, _))
            ==> !starts_sound(acts[i][k])) by {
        lemma_run_keeps_no_track(states, events, acts, i);
        assert(audio_step(states[i], states[i + 1], events[i], acts[i]));
        match events[i] {
            AudioEvent::Command(cmd, sound, now_ms) => {
                lemma_quiet_without_track(
                    states[i],
                    states[i + 1],
                    cmd,
                    sound,
                    now_ms,
                    acts[i],
                    states[i],
                    Seq::empty(),
                );
            },
            AudioEvent::Poll(sound, now_ms) => {},
            AudioEvent::LoadFailed(err) => {},
        }
    }
}

/// Pausing stops wanting sound, and a current sound, whatever its state, is
/// paused (and nothing else is done); without one nothing is done.
pub proof fn lemma_pause_pauses_sound(
    s0: AudioLoop,
    s1: AudioLoop,
    sound: Option<SoundInfo>,
    now_ms: u64,
    acts: Seq<AudioAction>,
)
    requires
        command_post(s0, s1, UiToAudio::Pause, sound, now_ms, acts),
    ensures
        !s1.want_playing,
        sound is Some ==> acts.len() == 1 && acts[0] == AudioAction::PauseCurrent,
        sound is None ==> acts.len() == 0,
        s1.track_id == s0.track_id,
{
}

} // verus!
