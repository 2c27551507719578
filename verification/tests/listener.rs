use lemonbot::features::tts::listener::TTSListener;

#[test]
fn reads_only_human_text() {
    assert!(TTSListener::reads_message(false, "hi"));
    assert!(!TTSListener::reads_message(true, "hi"));
    assert!(!TTSListener::reads_message(false, ""));
}

#[test]
fn queue_conditions() {
    let tts = vec![100, 200];
    assert!(TTSListener::should_queue(100, &tts, 7, Some(7)));
    assert!(TTSListener::should_queue(7, &tts, 7, Some(7)));
    assert!(!TTSListener::should_queue(300, &tts, 7, Some(7)));
    assert!(!TTSListener::should_queue(100, &tts, 7, Some(8)));
    assert!(!TTSListener::should_queue(100, &tts, 7, None));
}

#[test]
fn leaves_when_alone() {
    let bot = 1;
    assert!(TTSListener::should_leave(bot, 7, &vec![(1, Some(7)), (2, Some(8)), (3, None)]));
    assert!(!TTSListener::should_leave(bot, 7, &vec![(1, Some(7)), (2, Some(7))]));
    assert!(TTSListener::should_leave(bot, 7, &vec![]));
}
