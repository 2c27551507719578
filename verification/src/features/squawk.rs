//! When the bot squawks: in reply to a mention, at random in reply to a
//! message, and on its own on a random schedule.

use vstd::prelude::*;
use crate::text::contains_id;
use crate::save_data::{SaveData, Timestamp, MAX_SPAN_SECS};

verus! {

/// The usual squawk.
pub const SQUAWK: &'static str = "Squawk!";
/// The rare rude answer.
pub const FUK_U: &'static str = "frick u";

/// The integer settings that govern squawking.
pub struct SquawkConfig {
    /// Seconds without squawks after a squawk.
    pub squawk_cooldown: i64,
    /// The longest wait, in seconds, between scheduled squawks.
    pub max_random_squawk_time: i64,
    /// Channels where the bot squawks on its own and replies at random.
    pub random_squawk_channels: Vec<u64>,
    /// Channels where the bot does not answer mentions.
    pub squawk_blacklist_channels: Vec<u64>,
}

/// Calls `rand::random_range(lo..=hi)`, which panics on an empty range; every
/// outcome lies in the range.
#[verifier::external_body]
fn random_between(lo: i64, hi: i64) -> (r: i64)
    requires
        lo <= hi,
    ensures
        lo <= r <= hi,
{
    rand::random_range(lo..=hi)
}

/// Whether a number of seconds can be turned into a time span.
pub fn seconds_in_range(secs: i64) -> (r: bool)
    ensures
        r == (-MAX_SPAN_SECS <= secs <= MAX_SPAN_SECS),
{
    -MAX_SPAN_SECS <= secs && secs <= MAX_SPAN_SECS
}

/// The text of a squawk: the rude answer when the roll for it succeeded.
pub fn squawk_text(rude: bool) -> (r: &'static str)
    ensures
        r == (if rude { FUK_U } else { SQUAWK }),
{
    if rude {
        FUK_U
    } else {
        SQUAWK
    }
}

/// Answers mentions and sometimes other messages with a squawk.
pub struct SquawkListener;

/// The outcome of checking whether a message mentions the bot.
pub enum MentionCheck {
    Mentioned,
    NotMentioned,
    /// The check itself failed; the message is treated as not mentioning the bot.
    Failed,
}

/// The next thing to do with a message.
pub enum SquawkStep {
    /// Nothing more.
    Ignore,
    /// Find out whether the message mentions the bot.
    CheckMention,
    /// Reply with a squawk to the mention.
    ReplyToMention,
    /// Read the cooldown and consider a random reply.
    ConsiderRandomReply,
}

impl SquawkListener {
    /// First step: messages by bots are ignored.
    pub fn first_step(author_is_bot: bool) -> (r: SquawkStep)
        ensures
            r == (if author_is_bot { SquawkStep::Ignore } else { SquawkStep::CheckMention }),
    {
        if author_is_bot {
            SquawkStep::Ignore
        } else {
            SquawkStep::CheckMention
        }
    }

    /// After the mention check: a mention is answered unless the channel is
    /// blacklisted, where the message is then ignored altogether.
    pub fn after_mention_check(mention: MentionCheck, channel: u64, config: &SquawkConfig) -> (r: SquawkStep)
        ensures
            r == match mention {
                MentionCheck::Mentioned => if config.squawk_blacklist_channels@.contains(channel) {
                    SquawkStep::Ignore
                } else {
                    SquawkStep::ReplyToMention
                },
                _ => SquawkStep::ConsiderRandomReply,
            },
    {
        match mention {
            MentionCheck::Mentioned => {
                if contains_id(&config.squawk_blacklist_channels, channel) {
                    SquawkStep::Ignore
                } else {
                    SquawkStep::ReplyToMention
                }
            },
            _ => SquawkStep::ConsiderRandomReply,
        }
    }

    /// Whether a random reply may be rolled for: the cooldown is over and the
    /// message is in a random-squawk channel.
    pub fn random_reply_allowed(now: &Timestamp, data: &SaveData, channel: u64, config: &SquawkConfig) -> (r: bool)
        requires
            now.wf(),
            data.wf(),
        ensures
            r == reply_allowed(*now, *data, channel, config.random_squawk_channels@),
    {
        !now.is_before(&data.squawk_cooldown) && contains_id(&config.random_squawk_channels, channel)
    }

    /// After a random reply the cooldown starts again from `now`.
    pub fn start_cooldown(data: &mut SaveData, now: &Timestamp, config: &SquawkConfig)
        requires
            old(data).wf(),
            now.wf(),
            now.can_add(config.squawk_cooldown),
        ensures
            final(data).wf(),
            final(data).next_random_squawk == old(data).next_random_squawk,
            final(data).squawk_cooldown.total_nanos() == now.total_nanos() + config.squawk_cooldown
                * 1_000_000_000,
    {
        data.squawk_cooldown = now.plus_seconds(config.squawk_cooldown);
    }
}

/// Random replies wait for the cooldown and stay in the random-squawk channels.
pub open spec fn reply_allowed(now: Timestamp, data: SaveData, channel: u64, random_channels: Seq<u64>) -> bool {
    data.squawk_cooldown.total_nanos() <= now.total_nanos() && random_channels.contains(channel)
}

/// After a squawk at `now` with a positive cooldown, no random reply is
/// allowed until the cooldown has passed, and no scheduled squawk is due.
pub proof fn lemma_cooldown_silences(
    before: SaveData,
    after: SaveData,
    now: Timestamp,
    later: Timestamp,
    cooldown_secs: i64,
    channel: u64,
    random_channels: Seq<u64>,
)
    requires
        cooldown_secs > 0,
        after.squawk_cooldown.total_nanos() == now.total_nanos() + cooldown_secs * 1_000_000_000,
        now.total_nanos() <= later.total_nanos() < now.total_nanos() + cooldown_secs * 1_000_000_000,
    ensures
        !reply_allowed(later, after, channel, random_channels),
        !squawk_due(later, after, cooldown_secs),
{
}

/// After rescheduling at `now`, a scheduled squawk that wakes up after the
/// appointed time and less than a cooldown later is due.
pub proof fn lemma_rescheduled_squawk_due(data: SaveData, now: Timestamp, wake: Timestamp, config: SquawkConfig)
    requires
        data.squawk_cooldown.total_nanos() == now.total_nanos() + config.squawk_cooldown * 1_000_000_000,
        now.total_nanos() + config.squawk_cooldown * 1_000_000_000 <= data.next_random_squawk.total_nanos(),
        data.next_random_squawk.total_nanos() < wake.total_nanos() < data.next_random_squawk.total_nanos()
            + config.squawk_cooldown * 1_000_000_000,
    ensures
        squawk_due(wake, data, config.squawk_cooldown),
{
}

/// Scheduled squawks run only when there are channels to squawk in.
pub fn self_squawk_enabled(config: &SquawkConfig) -> (r: bool)
    ensures
        r == (config.random_squawk_channels@.len() > 0),
{
    config.random_squawk_channels.len() > 0
}

/// Whether the scheduled squawk happens at `now`: the cooldown is over, and
/// the squawk is not overdue by a whole cooldown or more.
pub open spec fn squawk_due(now: Timestamp, data: SaveData, cooldown_secs: i64) -> bool {
    &&& data.squawk_cooldown.total_nanos() < now.total_nanos()
    &&& now.total_nanos() < data.next_random_squawk.total_nanos() + cooldown_secs * 1_000_000_000
}

/// Decides whether the scheduled squawk happens at `now`.
pub fn self_squawk_due(now: &Timestamp, data: &SaveData, config: &SquawkConfig) -> (r: bool)
    requires
        now.wf(),
        data.wf(),
        data.next_random_squawk.can_add(config.squawk_cooldown),
    ensures
        r == squawk_due(*now, *data, config.squawk_cooldown),
{
    let deadline = data.next_random_squawk.plus_seconds(config.squawk_cooldown);
    data.squawk_cooldown.is_before(now) && now.is_before(&deadline)
}

/// Picks the channel of a scheduled squawk at random.
pub fn pick_squawk_channel(config: &SquawkConfig) -> (r: u64)
    requires
        0 < config.random_squawk_channels@.len() <= i64::MAX,
    ensures
        config.random_squawk_channels@.contains(r),
{
    let last = (config.random_squawk_channels.len() - 1) as i64;
    let k = random_between(0, last);
    let r = config.random_squawk_channels[k as usize];
    assert(config.random_squawk_channels@[k as int] == r);
    r
}

/// Schedules the next squawk after a scheduled one: the next one comes a
/// random number of seconds between the cooldown and the maximum wait after
/// `now`, and the cooldown runs from `now`.
pub fn reschedule(data: &mut SaveData, now: &Timestamp, config: &SquawkConfig)
    requires
        now.wf(),
        config.squawk_cooldown <= config.max_random_squawk_time,
        now.can_add(config.squawk_cooldown),
        now.can_add(config.max_random_squawk_time),
    ensures
        final(data).wf(),
        final(data).squawk_cooldown.total_nanos() == now.total_nanos() + config.squawk_cooldown
            * 1_000_000_000,
        now.total_nanos() + config.squawk_cooldown * 1_000_000_000
            <= final(data).next_random_squawk.total_nanos()
            <= now.total_nanos() + config.max_random_squawk_time * 1_000_000_000,
{
    let offset = random_between(config.squawk_cooldown, config.max_random_squawk_time);
    data.next_random_squawk = now.plus_seconds(offset);
    data.squawk_cooldown = now.plus_seconds(config.squawk_cooldown);
}

} // verus!
