//! Verified core logic of the Clx music player.

pub mod text;
pub mod lyrics;
pub mod mp3_probe;
pub mod app_config;
pub mod elevation;
pub mod api;
pub mod toasts;
pub mod catalogue;
pub mod playback;
pub mod player;
pub mod track_load;
pub mod input;
pub mod audio_control;
