use acpr_haptics::config::{Config, LogLevel, STRENGTH_DEN_LIMIT, STRENGTH_NUM_LIMIT};
use acpr_haptics::ratio::Ratio;

#[test]
fn default_config_values() {
    let config = Config::default();
    assert_eq!(config.vibration_strength, Ratio { num: 1, den: 1 });
    assert_eq!(config.vibration_time, None);
    assert_eq!(config.log_level, LogLevel::Error);
    assert!(config.is_usable());
}

#[test]
fn loaded_config_is_kept() {
    let loaded = Config {
        vibration_strength: Ratio { num: 3, den: 4 },
        vibration_time: Some(200),
        log_level: LogLevel::Trace,
    };
    let resolved = Config::resolve(Ok(loaded));
    assert_eq!(resolved.config, loaded);
    assert_eq!(resolved.report, None);
}

#[test]
fn unparsable_config_falls_back_with_a_report() {
    let resolved = Config::resolve(Err(String::from("expected an equals, found eof")));
    assert_eq!(resolved.config, Config::default());
    assert_eq!(resolved.report, Some(String::from("error: expected an equals, found eof")));
}

#[test]
fn empty_cause_still_gives_a_report() {
    let resolved = Config::resolve(Err(String::new()));
    assert_eq!(resolved.config, Config::default());
    let report = resolved.report.unwrap();
    assert!(!report.is_empty());
    assert_eq!(report, "error: ");
}

#[test]
fn unusable_strength_falls_back_with_a_report() {
    let loaded = Config {
        vibration_strength: Ratio { num: 1, den: 0 },
        vibration_time: None,
        log_level: LogLevel::Info,
    };
    assert!(!loaded.is_usable());
    let resolved = Config::resolve(Ok(loaded));
    assert_eq!(resolved.config, Config::default());
    assert_eq!(
        resolved.report,
        Some(String::from("error: vibration_strength is out of range"))
    );
    let large = Config {
        vibration_strength: Ratio { num: STRENGTH_NUM_LIMIT + 1, den: 1 },
        vibration_time: None,
        log_level: LogLevel::Info,
    };
    assert!(!large.is_usable());
    let fine = Config {
        vibration_strength: Ratio { num: 1, den: STRENGTH_DEN_LIMIT + 1 },
        vibration_time: None,
        log_level: LogLevel::Info,
    };
    assert!(!fine.is_usable());
    let widest = Config {
        vibration_strength: Ratio { num: STRENGTH_NUM_LIMIT, den: STRENGTH_DEN_LIMIT },
        vibration_time: None,
        log_level: LogLevel::Info,
    };
    assert!(widest.is_usable());
    assert_eq!(STRENGTH_NUM_LIMIT, u64::MAX / 255);
    assert_eq!(STRENGTH_DEN_LIMIT, u64::MAX / 510);
}

#[test]
fn log_levels_by_name() {
    let cases = [
        ("off", Some(LogLevel::Off)),
        ("error", Some(LogLevel::Error)),
        ("warn", Some(LogLevel::Warn)),
        ("info", Some(LogLevel::Info)),
        ("debug", Some(LogLevel::Debug)),
        ("trace", Some(LogLevel::Trace)),
        ("verbose", None),
        ("", None),
    ];
    for (name, expected) in cases {
        assert_eq!(LogLevel::from_name(&String::from(name)), expected);
    }
}
