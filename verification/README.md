# harmonium

The verified core of a generative music engine, written in Verus.

`src/` holds the parts of the engine that decide and compute on plain
values, each with a contract that Verus proves:

- `chord`, `lydian_chromatic`, `harmony`: chords, chord tones, voice-leading
  distance, and the Lydian Chromatic Concept (parent Lydian tonics, the
  twelve levels of tonal gravity and their scales).
- `melody`: the melody navigator's integer side — Markov step tables,
  weighted draws, gap fill, run-length limits, motif development, register
  jumps, and the MIDI note of a scale position.
- `generator`: decisions of the measure generator (chord names, lead note
  lengths, rhythmic cells, drum and bass voices, chart stepping).
- `timeline`, `report`, `pages`: measures, the sliding score timeline, the
  snapshots shown to a score renderer, and the pages shared with playback.
- `midi_export`, `midi_laws`, `stable_sort`: the Standard MIDI File export
  (through `midly`) and its laws.
- `playback`, `transport`, `engine_control`: transport packing, and the
  state machines that turn transport commands into audio actions.
- `session`, `rhythm`, `lookahead`, `render`: session keys from seeds
  (through `rand_chacha`), rhythm settings, the practice lookahead (chord
  names, scales, tempo markings).

`app/` is the runtime around the library: floating-point conversions,
random draws (the measure generator's and the melody voice's choices),
file output, serialisable copies of the records, and the
audio-thread driver.

`tests/` exercises the library on concrete values.
