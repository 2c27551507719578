//! When a message is read aloud, and when the bot leaves a voice channel.

use vstd::prelude::*;
use crate::text::contains_id;

verus! {

/// Reads guild messages aloud in the voice channel the bot is in.
pub struct TTSListener;

/// A message is queued when it was sent in a text-to-speech channel or in the
/// chat of the bot's voice channel, by someone in the bot's voice channel.
pub open spec fn queues_message(
    message_channel: u64,
    tts_channels: Seq<u64>,
    bot_channel: u64,
    author_channel: Option<u64>,
) -> bool {
    &&& (tts_channels.contains(message_channel) || message_channel == bot_channel)
    &&& author_channel == Some(bot_channel)
}

/// The bot stays in its voice channel while someone other than itself is there.
pub open spec fn leaves_channel(bot_id: u64, bot_channel: u64, voice_states: Seq<(u64, Option<u64>)>) -> bool {
    !exists|i: int|
        0 <= i < voice_states.len() && #[trigger] voice_states[i].0 != bot_id && voice_states[i].1
            == Some(bot_channel)
}

/// A message from someone in the bot's voice channel is queued when it was
/// sent in any of the text-to-speech channels or in the voice channel's chat,
/// and in no other case; a message from anyone else is never queued.
pub proof fn lemma_queue_rule(
    message_channel: u64,
    tts_channels: Seq<u64>,
    bot_channel: u64,
    author_channel: Option<u64>,
)
    ensures
        forall|i: int|
            0 <= i < tts_channels.len() ==> queues_message(
                #[trigger] tts_channels[i],
                tts_channels,
                bot_channel,
                Some(bot_channel),
            ),
        queues_message(bot_channel, tts_channels, bot_channel, Some(bot_channel)),
        author_channel != Some(bot_channel) ==> !queues_message(
            message_channel,
            tts_channels,
            bot_channel,
            author_channel,
        ),
        (forall|i: int| 0 <= i < tts_channels.len() ==> #[trigger] tts_channels[i] != message_channel)
            && message_channel != bot_channel ==> !queues_message(
            message_channel,
            tts_channels,
            bot_channel,
            author_channel,
        ),
{
    assert forall|i: int| 0 <= i < tts_channels.len() implies queues_message(
        #[trigger] tts_channels[i],
        tts_channels,
        bot_channel,
        Some(bot_channel),
    ) by {
        assert(tts_channels.contains(tts_channels[i]));
    }
}

impl TTSListener {
    /// Messages by bots and messages without text are never read.
    pub fn reads_message(author_is_bot: bool, content: &str) -> (r: bool)
        ensures
            r == (!author_is_bot && content@.len() > 0),
    {
        !author_is_bot && !content.is_empty()
    }

    /// Whether a message goes to the guild's speaking queue; `author_channel`
    /// is the voice channel of the author, if any.
    pub fn should_queue(
        message_channel: u64,
        tts_channels: &Vec<u64>,
        bot_channel: u64,
        author_channel: Option<u64>,
    ) -> (r: bool)
        ensures
            r == queues_message(message_channel, tts_channels@, bot_channel, author_channel),
    {
        if !contains_id(tts_channels, message_channel) && message_channel != bot_channel {
            return false;
        }
        match author_channel {
            Some(c) => c == bot_channel,
            None => false,
        }
    }

    /// After a voice state changes: whether the bot, in `bot_channel`, is now
    /// alone there and leaves. `voice_states` holds each user of the guild with
    /// their voice channel.
    pub fn should_leave(bot_id: u64, bot_channel: u64, voice_states: &Vec<(u64, Option<u64>)>) -> (r: bool)
        ensures
            r == leaves_channel(bot_id, bot_channel, voice_states@),
    {
        let mut i: usize = 0;
        while i < voice_states.len()
            invariant
                i <= voice_states.len(),
                forall|k: int|
                    0 <= k < i ==> !(#[trigger] voice_states@[k].0 != bot_id && voice_states@[k].1
                        == Some(bot_channel)),
            decreases voice_states.len() - i,
        {
            let (user, channel) = voice_states[i];
            let here = match channel {
                Some(c) => c == bot_channel,
                None => false,
            };
            if user != bot_id && here {
                assert(voice_states@[i as int].0 != bot_id);
                return false;
            }
            i = i + 1;
        }
        true
    }
}

} // verus!
