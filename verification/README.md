# clx_music

The logic of a desktop music player that streams MP3 files from a server, shows
time-synchronised LRC lyrics, and can "play" a song on the keyboard by simulating
key presses (F1 starts, F2 stops).

`src/` is a Verus library. Verus proves the contract of every function in it
except three small trusted wrappers, whose contracts are believed as written:
`to_lowercase` (around `str::to_lowercase`), `string_of` (around
`String::from_iter`) and `mp3_duration_of` (around `mp3_duration::from_read`).
The modules:

- `text`: the string operations the rest is built on (trimming, searching,
  splitting into lines, decimal numbers), each against a specification.
- `lyrics`: the LRC format and the lyric line active at a position.
- `mp3_probe`: the duration of an MP3 file from its first bytes (the
  `mp3-duration` crate first, then a constant-bit-rate estimate).
- `app_config`: the settings file (`config.ini`) and its round trip.
- `api`: server addresses and the verdicts on HTTP answers, ranges and sizes.
- `catalogue`, `toasts`, `playback`, `player`: the player's state and how each
  user action and each background result changes it, with the effects to carry
  out.
- `track_load`, `audio_control`, `input`, `elevation`: the decisions of the
  download worker, the audio thread, the key simulator and the start-up check for
  administrator rights.

`app/` is the program around the library: HTTP (`ureq`), files, the audio engine
(`kira`), global hot keys (`global-hotkey`), key simulation (`enigo`) and a
text-command event loop. `tests/` runs the library on concrete values.
