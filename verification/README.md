# nongle

A multi-layered one-shot sampler whose core is verified with Verus.

Each MIDI pitch has a stack of velocity layers. Instead of tying every layer
to a fixed velocity, the engine keeps, per pitch, a window that moves one
step with every note, so that repeated notes of the same velocity land on
neighbouring layers and no layer plays twice in a row.

- `src/` — the verified library: the engine (`engine`: library of notes,
  per-pitch queues, layer selection), the simpler players (`performer`,
  `note`, `que`, `byte_que`), MIDI message decoding (`midi`), buffer
  handling (`playback`) and the voice and block logic of the plugin
  (`voices`).
- `tests/` — tests of the library.
- `app/` — the program around it: reading sample folders and decoding
  audio (rodio), MIDI input (midir), audio output (cpal), the command line
  (clap), and the plugin shell (nih-plug).
