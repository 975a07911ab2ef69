use domo::bridge::{accept_color, observe_color};
use domo::color::{Color, ColorMode};
use domo::messages::{MsgColor, MsgSensorLog};
use domo::telemetry::{seconds_until_next_log, LOG_INTERVAL};

#[test]
fn unchanged_word_is_not_reported() {
    let mut color = Color::from_raw(0x00102030);
    assert_eq!(observe_color(&mut color, 0x00102030), None);
    assert_eq!(color, Color::from_raw(0x00102030));
}

#[test]
fn changed_word_is_read_and_reported() {
    let mut color = Color::from_raw(0x00102030);
    let report = observe_color(&mut color, 0x4148ffff).unwrap();
    assert_eq!(color.mode, ColorMode::Hsv);
    assert_eq!(color.time, 368);
    assert_eq!(color.red, 0x10);
    assert_eq!(
        report,
        MsgColor { message: "actuator".to_string(), name: "color".to_string(), value: color }
    );
}

#[test]
fn first_word_is_always_reported() {
    let mut color = Color::new();
    assert!(observe_color(&mut color, 0x00000000).is_some());
    assert_eq!(observe_color(&mut color, 0x00000000), None);
}

#[test]
fn wanted_state_with_a_word_is_accepted() {
    let mut held = Color::new();
    let wanted = Color::from_raw(0x80ff0000);
    assert_eq!(accept_color(&mut held, wanted), Some(0x80ff0000));
    assert_eq!(held, wanted);
}

#[test]
fn wanted_state_without_a_mode_is_refused() {
    let mut held = Color::from_raw(0x00102030);
    let wanted = Color::from_raw(0x03000000);
    assert_eq!(accept_color(&mut held, wanted), None);
    assert_eq!(held, Color::from_raw(0x00102030));
}

#[test]
fn temperature_log_entry_has_the_fixed_fields() {
    assert_eq!(
        MsgSensorLog::temperature(6000, 1_700_000_100),
        MsgSensorLog {
            message: "sensorLog".to_string(),
            name: "temp".to_string(),
            value: 500,
            time: 1_700_000_100,
            sensor_type: "temperature".to_string(),
            interval: 300,
        }
    );
}

#[test]
fn next_log_is_due_at_the_next_multiple_of_the_interval() {
    assert_eq!(LOG_INTERVAL, 300);
    assert_eq!(seconds_until_next_log(0), 300);
    assert_eq!(seconds_until_next_log(1), 299);
    assert_eq!(seconds_until_next_log(299), 1);
    assert_eq!(seconds_until_next_log(300), 300);
    assert_eq!(seconds_until_next_log(1_700_000_000), 100);
    assert_eq!(seconds_until_next_log(1_700_000_100), 300);
    assert_eq!(seconds_until_next_log(i64::MAX), 300 - (i64::MAX % 300) as u64);
    assert_eq!(seconds_until_next_log(-1), 301);
    assert_eq!(seconds_until_next_log(-300), 300);
    assert_eq!(seconds_until_next_log(i64::MIN), 300 + ((1u64 << 63) % 300));
}
