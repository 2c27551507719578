//! Reading guild messages aloud in a voice channel with a Piper server.

pub mod commands;
pub mod listener;
pub mod piper;
pub mod queue;
pub mod replacements;
