use fw_fanctrl::fan_config::default::default_fan_config;
use fw_fanctrl::notify::{notice_line, Notifier};
use fw_fanctrl::state::RuntimeState;
use fw_fanctrl::status::{Status, StatusError};

fn status(name: &str, speed: u8, active: bool) -> Status {
    Status { strategy: name.to_string(), speed, active }
}

#[test]
fn first_status_is_announced() {
    let mut notifier = Notifier::new();
    assert_eq!(
        notifier.observe(status("lazy", 0, false)),
        Some("{\"strategy\":\"lazy\",\"speed\":0,\"active\":false}\n".to_string())
    );
}

#[test]
fn unchanged_status_is_not_announced_again() {
    let mut notifier = Notifier::new();
    assert!(notifier.observe(status("lazy", 20, false)).is_some());
    assert_eq!(notifier.observe(status("lazy", 20, false)), None);
    assert_eq!(notifier.observe(status("lazy", 20, false)), None);
}

#[test]
fn status_equal_to_the_initial_one_is_not_announced() {
    let mut notifier = Notifier::new();
    assert_eq!(notifier.observe(status("", 0, false)), None);
}

#[test]
fn each_changed_field_is_announced() {
    let mut notifier = Notifier::new();
    notifier.observe(status("lazy", 20, false));
    assert_eq!(
        notifier.observe(status("agile", 20, false)),
        Some("{\"strategy\":\"agile\",\"speed\":20,\"active\":false}\n".to_string())
    );
    assert_eq!(
        notifier.observe(status("agile", 21, false)),
        Some("{\"strategy\":\"agile\",\"speed\":21,\"active\":false}\n".to_string())
    );
    assert_eq!(
        notifier.observe(status("agile", 21, true)),
        Some("{\"strategy\":\"agile\",\"speed\":21,\"active\":true}\n".to_string())
    );
    assert_eq!(notifier.observe(status("agile", 21, true)), None);
    assert!(notifier.observe(status("agile", 21, false)).is_some());
}

#[test]
fn notice_is_one_line_of_json() {
    let mut notifier = Notifier::new();
    let line = notifier.observe(status("two\nlines", 3, true)).unwrap();
    assert!(line.ends_with('\n'));
    assert_eq!(line.matches('\n').count(), 1);
    let value: serde_json::Value = serde_json::from_str(line.trim_end()).unwrap();
    assert_eq!(value["strategy"].as_str(), Some("two\nlines"));
}

#[test]
fn failed_encoding_is_not_broadcast() {
    assert_eq!(notice_line(Err(StatusError::Encoding)), None);
    assert_eq!(notice_line(Ok("{}".to_string())), Some("{}\n".to_string()));
}

#[test]
fn notifier_follows_the_runtime_state() {
    let mut state = RuntimeState::new(default_fan_config()).unwrap();
    let mut notifier = Notifier::new();
    assert!(notifier.observe(state.status()).is_some());
    assert!(notifier.observe(state.status()).is_none());
    state.record_duty(15);
    assert_eq!(
        notifier.observe(state.status()),
        Some("{\"strategy\":\"lazy\",\"speed\":15,\"active\":false}\n".to_string())
    );
    state.pause();
    assert!(notifier.observe(state.status()).is_some());
    state.use_strategy("nope");
    assert!(notifier.observe(state.status()).is_none());
}
