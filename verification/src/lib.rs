//! Alliot: the command logic of a voice assistant.
//!
//! The library holds what the assistant decides: how transcribed speech is
//! normalised, how the wake word is found and cut off, how a command is
//! parsed into an action, which program an action launches, what the user
//! is told, and the state machines that decide when a recording ends.
//! Audio capture, speech recognition and process spawning are done by the
//! caller, which hands the results to these functions.
pub mod actions;
pub mod assistant;
pub mod audio_buffer;
pub mod command_parser;
pub mod commands;
pub mod config;
pub mod text;
pub mod voice;
pub mod voice_state;
pub mod wake_word;
