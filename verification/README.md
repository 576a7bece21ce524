# hikaru

The editing, launching and voice-scheduling logic of a clip-launcher and
piano-roll audio workstation, written in Verus with its contracts proved.

- `src/` — the verified library:
  - `engine` — clips, voices, launching and the per-block read plan of the
    audio engine; `transport` — the sample clock and its loop; `dms` — the
    drum machine's voice pool.
  - `matrix` — the session matrix (tracks × scenes): loading, launching,
    copying, pasting, duplicating, deleting and polling finished voices;
    `audio_event` — the frame windows of a clip's audio events.
  - `piano_roll` — note quantization, resizing, moving, selection,
    duplication, the playhead trigger and the editing gestures.
  - `midi` — MIDI messages, controllers and reading MIDI files;
    `text` — note names; `open_dms` — drum pads; `plugins` — plugin
    formats and scanning; `dsp_rack`, `footer`, `clip_editor` — view state.
- `tests/` — tests run against the compiled library.
- `app/` — the host around it: WAV decoding, mixing the engine's plans into
  sound, commands to the audio thread, plugin scanning on disk, MIDI input
  and screen geometry.
