//! Decision and text-processing logic of a Discord bot that squawks at people
//! and reads voice-channel text aloud through a Piper text-to-speech server.

pub mod text;
pub mod config;
pub mod database;
pub mod features;
pub mod save_data;
