# mts_client_rs

A client for MTS-ESP, ODDSound's microtuning protocol for audio plugins, with its integer logic
verified by Verus.

- `src/` is the verified library: the registered client handle (`Client`) and the tuning view of
  one channel on it (`MtsTuning`); the conversions between the client's arguments and answers and
  those of the C API (channel and note arguments, keyboard map answers, the nearest note and
  channel, MIDI block lengths, the scale name); and the integer side of walking a scale: which
  keys a scale maps (`KeyboardMap`), and which keyboard key a key off the keyboard stands for
  and how far a search for the next note reaches (`KeyWalk`).
- `app/` holds what Verus cannot take: the calls into the C client library, and the
  floating-point pitch arithmetic of the `Tuning` trait, `ScaleTuning` and the scale walk.
- `tests/` exercises the library on concrete values.
