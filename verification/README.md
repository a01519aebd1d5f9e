# controller_music

Play chords and lead notes on a DualShock 4 game controller.

`src/` is the verified library (Verus):

- `chord_engine` – note names, keys, octaves, chord tables; writing and
  reading notes such as `C#4`; the chord notes and chord names of a key.
- `voice_manager` – which voice of a bank takes a new note and which voices a
  release reaches.
- `controller`, `intermediate_controller_state`, `dualshock` – controller
  inputs, reading DualShock input reports, and the events between two
  readings.
- `sound_engine`, `display_engine` – the notes and names chosen in answer to
  input events.
- `instrument` – finding the effect and parameter a control addresses.
- `text` – comparing strings and reading signed decimal numbers.

`app/` is the program around it: the HID device, audio output (cpal), the
window (raylib), channels between threads, and all floating-point sound
synthesis (oscillators, envelopes, effects).
