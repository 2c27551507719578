use lemonbot::features::tts::commands::{
    autocomplete_choices, is_rejected_choice, join_outcome, leave_outcome, model_page,
    model_set_reply, speaker_page, speaker_set_reply, stop_outcome, ButtonPayload, StopChoice,
    VcCommandOutcome, ViewModelsListener, ViewSpeakersListener, MODELS_HEADER,
};
use lemonbot::features::tts::piper::GetSpeakers;

fn strings(v: &[&str]) -> Vec<String> {
    v.iter().map(|s| s.to_string()).collect()
}

fn reply(o: VcCommandOutcome) -> &'static str {
    match o {
        VcCommandOutcome::Reply(r) => r,
        _ => panic!("expected a reply"),
    }
}

#[test]
fn join_cases() {
    assert_eq!(reply(join_outcome(None, None)), "You are not in a VC");
    assert_eq!(reply(join_outcome(Some(5), Some(6))), "I'm currently in a VC");
    assert_eq!(reply(join_outcome(Some(5), Some(5))), "I'm already in that VC");
    assert!(matches!(join_outcome(Some(5), None), VcCommandOutcome::Join(5)));
}

#[test]
fn leave_cases() {
    assert_eq!(reply(leave_outcome(None, Some(5))), "I'm not in a vc");
    assert_eq!(reply(leave_outcome(Some(Some(5)), None)), "You are not in the same VC as me");
    assert_eq!(reply(leave_outcome(Some(Some(6)), Some(5))), "You are not in the same VC as the bot");
    assert_eq!(reply(leave_outcome(Some(None), Some(5))), "You are not in the same VC as the bot");
    assert!(matches!(leave_outcome(Some(Some(5)), Some(5)), VcCommandOutcome::Leave));
}

#[test]
fn stop_cases() {
    assert_eq!(reply(stop_outcome(None, Some(5), StopChoice::Current)), "I'm not in a vc");
    assert_eq!(reply(stop_outcome(Some(Some(5)), None, StopChoice::All)), "You are not in the same VC as me");
    assert_eq!(reply(stop_outcome(Some(Some(6)), Some(5), StopChoice::All)), "we are not in the same vc");
    assert!(matches!(stop_outcome(Some(Some(5)), Some(5), StopChoice::Current), VcCommandOutcome::SkipCurrent));
    assert!(matches!(stop_outcome(Some(Some(5)), Some(5), StopChoice::All), VcCommandOutcome::StopAll));
}

#[test]
fn setting_replies() {
    assert_eq!(model_set_reply(&Some("en_US-amy".to_string())), ":thumbsup: Your model is now en_US-amy.");
    assert_eq!(model_set_reply(&None), ":thumbsup: Your model is now the default.");
    assert_eq!(speaker_set_reply(&Some("p225".to_string())), ":thumbsup: Your speaker is now p225.");
    assert_eq!(speaker_set_reply(&None), ":thumbsup: Your speaker is now the default.");
}

#[test]
fn choice_validation() {
    let offered = strings(&["a", "b"]);
    assert!(!is_rejected_choice(&None, &offered));
    assert!(!is_rejected_choice(&Some("b".to_string()), &offered));
    assert!(is_rejected_choice(&Some("c".to_string()), &offered));
    assert!(is_rejected_choice(&Some("c".to_string()), &vec![]));
}

#[test]
fn autocomplete_filters_and_sorts() {
    let options = strings(&["en_US-ryan", "de_DE-thorsten", "en_GB-alan", "En_AU-x", "fr"]);
    assert_eq!(autocomplete_choices(&options, "en"), strings(&["En_AU-x", "en_GB-alan", "en_US-ryan"]));
    assert_eq!(autocomplete_choices(&options, ""), strings(&["En_AU-x", "de_DE-thorsten", "en_GB-alan", "en_US-ryan", "fr"]));
    assert_eq!(autocomplete_choices(&options, "EN"), Vec::<String>::new());
}

#[test]
fn model_pages_wrap() {
    let models: Vec<String> = (0..23).map(|i| format!("m{:02}", 22 - i)).collect();
    let p = model_page(models.clone(), 0);
    assert_eq!(p.title, "Model List (1/3)");
    let lines: String = (0..10).map(|i| format!("- m{:02}\n", i)).collect();
    assert_eq!(p.description, format!("{MODELS_HEADER}{lines}"));
    assert_eq!((p.prev_page, p.next_page), (-1, 1));
    let p = model_page(models.clone(), -1);
    assert_eq!(p.title, "Model List (3/3)");
    assert_eq!(p.description, format!("{MODELS_HEADER}- m20\n- m21\n- m22\n"));
    assert_eq!((p.prev_page, p.next_page), (1, 3));
    let p = model_page(models, 4);
    assert_eq!(p.title, "Model List (2/3)");
}

#[test]
fn speaker_pages() {
    let p = speaker_page(GetSpeakers { model: "vctk".to_string(), speakers: vec![] }, 3);
    assert_eq!(p.title, "Speaker List for vctk (0/0)");
    assert_eq!(p.description, "There are no speakers for this model.");
    assert_eq!((p.prev_page, p.next_page), (-1, 1));
    let p = speaker_page(GetSpeakers { model: "vctk".to_string(), speakers: strings(&["b", "a"]) }, 7);
    assert_eq!(p.title, "Speaker List for vctk (1/1)");
    assert_eq!(p.description, "- a\n- b\n");
}

#[test]
fn button_payloads() {
    match ViewModelsListener::button_payload("view_models {\"page\":2}") {
        ButtonPayload::Payload(p) => assert_eq!(p, "{\"page\":2}"),
        _ => panic!("a model list button"),
    }
    assert!(matches!(ViewModelsListener::button_payload("view_speakers {}"), ButtonPayload::NotOurs));
    assert!(matches!(ViewModelsListener::button_payload("view_models"), ButtonPayload::Malformed));
    assert!(matches!(ViewModelsListener::button_payload("view_modelsé{}"), ButtonPayload::Malformed));
    match ViewSpeakersListener::button_payload("view_speakers {\"page\":-1}") {
        ButtonPayload::Payload(p) => assert_eq!(p, " {\"page\":-1}"),
        _ => panic!("a speaker list button"),
    }
    match ViewSpeakersListener::button_payload("view_speakers{\"page\":1}") {
        ButtonPayload::Payload(p) => assert_eq!(p, "{\"page\":1}"),
        _ => panic!("a speaker list button"),
    }
    match ViewSpeakersListener::button_payload("view_speakers") {
        ButtonPayload::Payload(p) => assert_eq!(p, ""),
        _ => panic!("a speaker list button"),
    }
    assert!(matches!(ViewSpeakersListener::button_payload("view_models {}"), ButtonPayload::NotOurs));
}
