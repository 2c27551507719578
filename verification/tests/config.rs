use lemonbot::config::{
    parse_i64, secret_from_file, secret_source, tts_enabled, var_list, var_or_default,
    var_or_default_i64, ConfigError, SecretSource,
};

#[test]
fn parse_i64_like_from_str() {
    let cases = ["0", "42", "-42", "+7", "007", "-0", "9223372036854775807", "-9223372036854775808",
        "9223372036854775808", "-9223372036854775809", "", "-", "+", "12a", " 1", "1 ", "1_000", "--1",
        "00000000000000000000000000000000001"];
    for c in cases {
        assert_eq!(parse_i64(c), c.parse::<i64>().ok(), "{c}");
    }
}

#[test]
fn var_or_default_cases() {
    assert_eq!(var_or_default_i64("SQUAWK_COOLDOWN", None, 604800).ok(), Some(604800));
    assert_eq!(var_or_default_i64("SQUAWK_COOLDOWN", Some("60".to_string()), 604800).ok(), Some(60));
    match var_or_default_i64("SQUAWK_COOLDOWN", Some("soon".to_string()), 604800) {
        Err(ConfigError::BadVar(n)) => assert_eq!(n, "SQUAWK_COOLDOWN"),
        _ => panic!("a bad value is refused"),
    }
    assert_eq!(var_or_default::<u8>("X", Some(Some(3)), 1).ok(), Some(3));
    assert!(matches!(var_or_default::<u8>("X", Some(None), 1), Err(ConfigError::BadVar(_))));
}

#[test]
fn var_list_cases() {
    assert_eq!(var_list("CHANNELS", None).ok(), Some(vec![]));
    assert_eq!(var_list("CHANNELS", Some("[1, 2, 18446744073709551615]".to_string())).ok(), Some(vec![1, 2, u64::MAX]));
    match var_list("CHANNELS", Some("1, 2".to_string())) {
        Err(ConfigError::BadVar(n)) => assert_eq!(n, "CHANNELS"),
        _ => panic!("a bad list is refused"),
    }
}

#[test]
fn secret_lookup() {
    match secret_source("DISCORD_TOKEN", "TOKEN_PATH", Some("abc".to_string()), Some("/x".to_string())) {
        Ok(SecretSource::Value(v)) => assert_eq!(v, "abc"),
        _ => panic!("the variable wins"),
    }
    match secret_source("DISCORD_TOKEN", "TOKEN_PATH", None, Some("/x".to_string())) {
        Ok(SecretSource::File(p)) => assert_eq!(p, "/x"),
        _ => panic!("the file is next"),
    }
    match secret_source("DISCORD_TOKEN", "TOKEN_PATH", None, None) {
        Err(ConfigError::MissingVar(n)) => assert_eq!(n, "DISCORD_TOKEN or TOKEN_PATH"),
        _ => panic!("neither is set"),
    }
    assert_eq!(secret_from_file(Ok("tok\n".to_string())).ok(), Some("tok\n".to_string()));
    let err = std::io::Error::new(std::io::ErrorKind::NotFound, "gone");
    assert!(matches!(secret_from_file(Err(err)), Err(ConfigError::SecretIO(_))));
}

#[test]
fn tts_needs_database() {
    assert_eq!(tts_enabled(false, false).ok(), Some(false));
    assert_eq!(tts_enabled(false, true).ok(), Some(false));
    assert_eq!(tts_enabled(true, true).ok(), Some(true));
    match tts_enabled(true, false) {
        Err(ConfigError::MissingVar(n)) => assert_eq!(n, "POSTGRES_URL"),
        _ => panic!("a database is needed"),
    }
}
