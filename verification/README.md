# alliot

The command logic of Alliot, a Russian-speaking desktop voice assistant,
written in Verus and proved against its contracts.

- `src/` — the verified library:
  - `text.rs`: character classes, whitespace collapsing, substring search,
    replacement, trimming and the transcript normal form, with their laws;
  - `command_parser.rs`, `assistant.rs`: a transcript becomes an action;
  - `wake_word.rs`, `voice/wake_word.rs`: finding and cutting off the wake word;
  - `actions.rs`, `commands.rs`: which program an action starts and what the
    user is told;
  - `voice.rs`, `voice/vad.rs`: when a recording stops, when the wake-word
    listener transcribes, which audio is worth transcribing, and how
    Whisper's segments become a transcript;
  - `audio_buffer.rs`, `voice_state.rs`, `config.rs`: the ring buffer of
    recent samples, the assistant's state, the configuration.
- `tests/` — tests on concrete values.
- `app/` — the Tauri shell: microphone (cpal), speech recognition
  (whisper-rs), process spawning, threads and the floating-point signal
  processing, calling the library for every decision.
