//! The bot's two features: squawking, and reading text aloud.

pub mod squawk;
pub mod tts;
