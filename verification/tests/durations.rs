use wake::durations::{parse, MAX_SECONDS};
use wake::error::AppError;

#[test]
fn supported_forms_and_invalid_syntax() {
    for (raw, seconds) in [
        ("3600", 3600),
        ("90s", 90),
        ("5m", 300),
        ("1h30m", 5400),
        ("2h45m30s", 9930),
        ("1d", 86_400),
        ("  1H30M  ", 5400),
    ] {
        assert_eq!(parse(raw).unwrap(), seconds, "duration={raw:?}");
    }
    for raw in [
        "", "   ", "0", "0s", "abc", "1h30", "30m1h", "1h1h", "m", "1x", "h30m", "-5",
    ] {
        assert!(parse(raw).is_err(), "duration={raw:?}");
    }
}

#[test]
fn caps_at_30d() {
    assert_eq!(parse("30d").unwrap(), MAX_SECONDS);
    assert!(parse("31d").is_err());
    assert!(parse("2592001").is_err());
}

#[test]
fn overflow_is_too_large() {
    assert!(parse("99999999999999999999s").is_err());
}

#[test]
fn all_units_add_up_and_errors_are_usage() {
    assert_eq!(parse("1d1h1m1s").unwrap(), 90_061);
    assert_eq!(parse("2592000").unwrap(), MAX_SECONDS);
    for raw in ["", "31d", "1h30", "0"] {
        assert!(matches!(parse(raw), Err(AppError::Usage(_))));
    }
}

#[test]
fn letters_beyond_ascii_are_lowered_before_they_are_read() {
    // The Kelvin sign is not a unit, but it lowers to an ordinary letter.
    assert!(parse("1\u{212a}").is_err());
    assert!(parse("1\u{130}").is_err());
}
