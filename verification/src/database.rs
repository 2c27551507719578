//! The per-user text-to-speech settings kept in the database.

use vstd::prelude::*;

verus! {

/// A user's text-to-speech settings; `None` means the default.
pub struct TTSUser {
    pub nick: Option<String>,
    pub model: Option<String>,
    pub speaker: Option<String>,
}

impl TTSUser {
    /// The settings of a user the database does not know.
    pub fn default_settings() -> (r: Self)
        ensures
            r.nick is None,
            r.model is None,
            r.speaker is None,
    {
        TTSUser { nick: None, model: None, speaker: None }
    }
}

/// Marks where the database pool is kept in the bot's shared data.
pub struct DatabaseKey;

} // verus!
