# soundboard

A desktop soundboard: a library of sound files that can be played, renamed
and removed, shown in a window.

- `src/` is the verified library (Verus):
  - `sound.rs`: the library of sounds and the ids it hands out;
  - `marked.rs`: keeping the items of a vector that a flag vector marks;
  - `audio.rs`, `audio/player.rs`: the pools of players that sounds play on;
  - `board.rs`: the state that the window shows and edits;
  - `model/keybind.rs`: key combinations.
- `app/` is the program around it: the window, the audio device, file
  decoding, the playback volume and reading and writing the library as JSON.
- `tests/` exercise the library with the real audio crate linked.
