use lemonbot::features::tts::piper::{models_url, speak_url, speakers_url, ErrorResponse, RetryCounter};

#[test]
fn error_description() {
    let e = ErrorResponse { error: 400, error_code: 1, message: "bad model".to_string() };
    assert_eq!(e.describe(), "piper server error 400. code=1. message=bad model");
    assert!(e.is_bad_model());
    let e = ErrorResponse { error: -5, error_code: i32::MIN, message: String::new() };
    assert_eq!(e.describe(), "piper server error -5. code=-2147483648. message=");
    assert!(!e.is_bad_model());
}

#[test]
fn urls() {
    assert_eq!(speak_url("http://piper:5000"), "http://piper:5000/speak");
    assert_eq!(models_url("http://piper:5000"), "http://piper:5000/models");
    assert_eq!(speakers_url("http://p", &None), "http://p/speakers");
    assert_eq!(speakers_url("http://p", &Some("vctk".to_string())), "http://p/speakers?model=vctk");
}

#[test]
fn retries_three_times() {
    let mut c = RetryCounter::new();
    assert!(c.retry_after_failure());
    assert!(c.retry_after_failure());
    assert!(c.retry_after_failure());
    assert!(!c.retry_after_failure());
    assert!(!c.retry_after_failure());
    assert_eq!(c.attempts, 3);
}
