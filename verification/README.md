# handy_core

The decision logic of a desktop dictation app, written in Verus and proved
against its contracts: what the streaming and multi-model merge sessions do
with text and audio, how transcription settings resolve per model, how
statistics rows are validated and finished, how downloads are resumed and
checked, and the small decisions around recording, plugins, llama.cpp
server releases and continuous-voice turns.

Layout:

- `src/` — the verified library, one module per area. Calls into other
  crates (`sha2`, `serde_json`, `chrono`, `base64`, and a few std functions
  Verus has no specification for) go through small trusted wrappers whose
  doc comments say what is assumed of them.
- `tests/` — executable tests of the library with the real outside crates
  linked.
- `app/` — a command-line front end: the SQLite statistics store, the
  resumable HTTP download, the GitHub release listing, the plugin directory
  scan and the system mute probes. It does the I/O and leaves every decision
  to the library.
