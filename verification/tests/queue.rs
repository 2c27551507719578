use lemonbot::database::TTSUser;
use lemonbot::features::tts::queue::{
    author_name_finish, author_name_start, clean_links, make_attachment_text,
    make_single_attachment_text, AuthorNameStep, MessageExtras, SpeakQueueState,
};

fn extras(types: Vec<Option<&str>>, has_poll: bool, has_reference: bool) -> MessageExtras {
    MessageExtras {
        attachment_types: types.into_iter().map(|t| t.map(|s| s.to_string())).collect(),
        has_poll,
        has_reference,
    }
}

#[test]
fn single_attachment_text_counts() {
    assert_eq!(make_single_attachment_text(0, "image", true), "");
    assert_eq!(make_single_attachment_text(1, "image", true), "an image");
    assert_eq!(make_single_attachment_text(1, "video", false), "a video");
    assert_eq!(make_single_attachment_text(2, "image", true), "2 images");
    assert_eq!(make_single_attachment_text(12, "link", false), "12 links");
    assert_eq!(make_single_attachment_text(4294967295, "file", false), "4294967295 files");
}

#[test]
fn attachment_text_empty() {
    assert_eq!(make_attachment_text(&extras(vec![], false, false), 0), "");
}

#[test]
fn attachment_text_single_kind() {
    assert_eq!(make_attachment_text(&extras(vec![Some("image/png")], false, false), 0), "an image");
    assert_eq!(make_attachment_text(&extras(vec![Some("audio/ogg")], false, false), 0), "an audio file");
    assert_eq!(make_attachment_text(&extras(vec![], false, false), 1), "a link");
    assert_eq!(make_attachment_text(&extras(vec![], true, false), 0), "a poll");
    assert_eq!(make_attachment_text(&extras(vec![], false, true), 0), "a forwarded message");
}

#[test]
fn attachment_text_unknown_types_are_files() {
    let e = extras(vec![None, Some("application/pdf"), Some("imag/png")], false, false);
    assert_eq!(make_attachment_text(&e, 0), "3 files");
}

#[test]
fn attachment_text_joins_in_order() {
    let e = extras(vec![Some("image/png"), Some("image/jpeg"), Some("video/mp4")], true, true);
    assert_eq!(
        make_attachment_text(&e, 2),
        "2 images. a video. 2 links. a poll.  and a forwarded message"
    );
    let e = extras(vec![Some("image/png")], false, false);
    assert_eq!(make_attachment_text(&e, 1), "an image.  and a link");
}

#[test]
fn utterance_names_author_once() {
    let mut q = SpeakQueueState::new();
    let first = q.next_utterance("hello".to_string(), "Ann".to_string(), String::new());
    assert_eq!(first.as_deref(), Some("Ann said hello"));
    assert_eq!(q.last_author.as_deref(), Some("Ann"));
    let second = q.next_utterance("again".to_string(), "Ann".to_string(), String::new());
    assert_eq!(second.as_deref(), Some("again"));
    let third = q.next_utterance("hi".to_string(), "Bob".to_string(), String::new());
    assert_eq!(third.as_deref(), Some("Bob said hi"));
}

#[test]
fn utterance_with_attachments() {
    let mut q = SpeakQueueState::new();
    let r = q.next_utterance(String::new(), "Ann".to_string(), "an image".to_string());
    assert_eq!(r.as_deref(), Some("Ann sent an image"));
    let r = q.next_utterance("look".to_string(), "Ann".to_string(), "a link".to_string());
    assert_eq!(r.as_deref(), Some("Ann said look and sent a link"));
}

#[test]
fn utterance_skips_empty_message() {
    let mut q = SpeakQueueState::new();
    q.next_utterance("x".to_string(), "Ann".to_string(), String::new());
    let r = q.next_utterance(String::new(), "Bob".to_string(), String::new());
    assert_eq!(r, None);
    assert_eq!(q.last_author.as_deref(), Some("Ann"));
}

#[test]
fn clean_links_removes_links() {
    let mut t = "look at https://example.com/page now".to_string();
    assert_eq!(clean_links(&mut t), 1);
    assert_eq!(t, "look at  now");
    let mut t = "write to someone@example.org or http://a.example.net".to_string();
    assert_eq!(clean_links(&mut t), 2);
    assert_eq!(t, "write to  or ");
}

#[test]
fn clean_links_keeps_plain_text() {
    let mut t = "no links here".to_string();
    assert_eq!(clean_links(&mut t), 0);
    assert_eq!(t, "no links here");
    let mut t = String::new();
    assert_eq!(clean_links(&mut t), 0);
    assert_eq!(t, "");
}

#[test]
fn author_name_priority() {
    let user = TTSUser { nick: Some("Nicky".to_string()), model: None, speaker: None };
    match author_name_start(&user) {
        AuthorNameStep::Known(n) => assert_eq!(n, "Nicky"),
        AuthorNameStep::NeedGuildNickname => panic!("the nickname is known"),
    }
    let user = TTSUser::default_settings();
    assert!(matches!(author_name_start(&user), AuthorNameStep::NeedGuildNickname));
    assert_eq!(
        author_name_finish(Some("Guildy".to_string()), Some("Global".to_string()), "user".to_string()),
        "Guildy"
    );
    assert_eq!(author_name_finish(None, Some("Global".to_string()), "user".to_string()), "Global");
    assert_eq!(author_name_finish(None, None, "user".to_string()), "user");
}
