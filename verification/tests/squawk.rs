use lemonbot::features::squawk::{
    pick_squawk_channel, reschedule, self_squawk_due, self_squawk_enabled, seconds_in_range,
    squawk_text, MentionCheck, SquawkConfig, SquawkListener, SquawkStep, FUK_U, SQUAWK,
};
use lemonbot::save_data::{SaveData, Timestamp};

fn config(random: Vec<u64>, blacklist: Vec<u64>) -> SquawkConfig {
    SquawkConfig {
        squawk_cooldown: 100,
        max_random_squawk_time: 1000,
        random_squawk_channels: random,
        squawk_blacklist_channels: blacklist,
    }
}

fn at(secs: i64) -> Timestamp {
    Timestamp { secs, nanos: 0 }
}

#[test]
fn squawk_texts() {
    assert_eq!(squawk_text(false), "Squawk!");
    assert_eq!(squawk_text(true), "frick u");
    assert_eq!((SQUAWK, FUK_U), ("Squawk!", "frick u"));
}

#[test]
fn message_steps() {
    let c = config(vec![1], vec![9]);
    assert!(matches!(SquawkListener::first_step(true), SquawkStep::Ignore));
    assert!(matches!(SquawkListener::first_step(false), SquawkStep::CheckMention));
    assert!(matches!(SquawkListener::after_mention_check(MentionCheck::Mentioned, 5, &c), SquawkStep::ReplyToMention));
    assert!(matches!(SquawkListener::after_mention_check(MentionCheck::Mentioned, 9, &c), SquawkStep::Ignore));
    assert!(matches!(SquawkListener::after_mention_check(MentionCheck::NotMentioned, 9, &c), SquawkStep::ConsiderRandomReply));
    assert!(matches!(SquawkListener::after_mention_check(MentionCheck::Failed, 5, &c), SquawkStep::ConsiderRandomReply));
}

#[test]
fn random_reply_needs_cooldown_and_channel() {
    let c = config(vec![1], vec![]);
    let data = SaveData { squawk_cooldown: at(50), next_random_squawk: at(0) };
    assert!(SquawkListener::random_reply_allowed(&at(50), &data, 1, &c));
    assert!(!SquawkListener::random_reply_allowed(&Timestamp { secs: 49, nanos: 999_999_999 }, &data, 1, &c));
    assert!(!SquawkListener::random_reply_allowed(&at(60), &data, 2, &c));
    let mut data = data;
    SquawkListener::start_cooldown(&mut data, &at(60), &c);
    assert_eq!((data.squawk_cooldown.secs, data.squawk_cooldown.nanos), (160, 0));
}

#[test]
fn scheduled_squawks() {
    let c = config(vec![4, 5], vec![]);
    assert!(self_squawk_enabled(&c));
    assert!(!self_squawk_enabled(&config(vec![], vec![])));
    let data = SaveData { squawk_cooldown: at(10), next_random_squawk: at(20) };
    assert!(self_squawk_due(&at(20), &data, &c));
    assert!(self_squawk_due(&at(119), &data, &c));
    assert!(!self_squawk_due(&at(120), &data, &c));
    assert!(!self_squawk_due(&at(10), &data, &c));
    for _ in 0..20 {
        let ch = pick_squawk_channel(&c);
        assert!(ch == 4 || ch == 5);
        let mut d = SaveData::default_data();
        reschedule(&mut d, &at(1000), &c);
        assert_eq!(d.squawk_cooldown.secs, 1100);
        assert!(1100 <= d.next_random_squawk.secs && d.next_random_squawk.secs <= 2000);
    }
    assert!(seconds_in_range(604800));
    assert!(!seconds_in_range(i64::MAX));
}

#[test]
fn timestamps() {
    let a = Timestamp { secs: 10, nanos: 500 };
    let b = Timestamp { secs: 12, nanos: 100 };
    assert!(a.is_before(&b));
    assert!(!b.is_before(&a));
    let d = a.until(&b).expect("b is later");
    assert_eq!((d.secs, d.nanos), (1, 999_999_600));
    assert!(b.until(&a).is_none());
    assert!(a.until(&a).is_none());
    let c = a.plus_seconds(-10);
    assert_eq!((c.secs, c.nanos), (0, 500));
    assert!(Timestamp::from_parts(1, 1_000_000_000).is_none());
    assert_eq!(Timestamp::epoch().secs, 0);
}
