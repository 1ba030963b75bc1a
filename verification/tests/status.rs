use fw_fanctrl::status::{decimal, frame_status_json, status_json_from, Status, StatusError};

fn status(name: &str, speed: u8, active: bool) -> Status {
    Status { strategy: name.to_string(), speed, active }
}

#[test]
fn json_has_the_three_fields_in_order() {
    let text = status("lazy", 42, false).to_json().unwrap();
    assert_eq!(text, "{\"strategy\":\"lazy\",\"speed\":42,\"active\":false}");
    let paused = status("very-agile", 0, true).to_json().unwrap();
    assert_eq!(paused, "{\"strategy\":\"very-agile\",\"speed\":0,\"active\":true}");
}

#[test]
fn json_escapes_the_strategy_name() {
    let text = status("a\"b\\c\nd", 7, true).to_json().unwrap();
    assert_eq!(text, "{\"strategy\":\"a\\\"b\\\\c\\nd\",\"speed\":7,\"active\":true}");
    let value: serde_json::Value = serde_json::from_str(&text).unwrap();
    assert_eq!(value["strategy"].as_str(), Some("a\"b\\c\nd"));
    assert_eq!(value["speed"].as_u64(), Some(7));
    assert_eq!(value["active"].as_bool(), Some(true));
}

#[test]
fn json_reads_back_for_every_speed() {
    let mut speed: u8 = 0;
    loop {
        let text = status("w\u{fc}st", speed, speed % 2 == 0).to_json().unwrap();
        let value: serde_json::Value = serde_json::from_str(&text).unwrap();
        assert_eq!(value["strategy"].as_str(), Some("w\u{fc}st"));
        assert_eq!(value["speed"].as_u64(), Some(speed as u64));
        assert_eq!(value["active"].as_bool(), Some(speed % 2 == 0));
        assert_eq!(value.as_object().unwrap().len(), 3);
        if speed == u8::MAX {
            break;
        }
        speed += 1;
    }
}

#[test]
fn frame_takes_the_literal_as_it_is() {
    assert_eq!(
        frame_status_json("\"x\"", 100, false),
        "{\"strategy\":\"x\",\"speed\":100,\"active\":false}"
    );
    assert_eq!(frame_status_json("", 5, true), "{\"strategy\":,\"speed\":5,\"active\":true}");
}

#[test]
fn human_text_has_three_labelled_lines() {
    assert_eq!(status("lazy", 42, false).to_human(), "Strategy: lazy\nSpeed: 42\nActive: false");
    assert_eq!(status("", 100, true).to_human(), "Strategy: \nSpeed: 100\nActive: true");
}

#[test]
fn decimal_writes_every_byte_as_the_standard_library_does() {
    let mut value: u8 = 0;
    loop {
        assert_eq!(decimal(value), value.to_string());
        if value == u8::MAX {
            break;
        }
        value += 1;
    }
    assert_eq!(decimal(0), "0");
    assert_eq!(decimal(9), "9");
    assert_eq!(decimal(10), "10");
    assert_eq!(decimal(100), "100");
    assert_eq!(decimal(255), "255");
}

#[test]
fn encoded_name_is_framed_and_a_refusal_becomes_the_error() {
    assert_eq!(
        status_json_from(Ok("\"lazy\"".to_string()), 42, true),
        Ok("{\"strategy\":\"lazy\",\"speed\":42,\"active\":true}".to_string())
    );
    let refusal = serde_json::from_str::<u8>("x").unwrap_err();
    assert_eq!(status_json_from(Err(refusal), 42, true), Err(StatusError::Encoding));
}

#[test]
fn to_json_gives_the_same_text_each_time() {
    let s = status("a\tb", 9, false);
    assert_eq!(s.to_json(), s.to_json());
    assert_eq!(
        s.to_json(),
        Ok("{\"strategy\":\"a\\tb\",\"speed\":9,\"active\":false}".to_string())
    );
}

fn escaped(c: char) -> String {
    match c {
        '"' => "\\\"".to_string(),
        '\\' => "\\\\".to_string(),
        '\u{8}' => "\\b".to_string(),
        '\t' => "\\t".to_string(),
        '\n' => "\\n".to_string(),
        '\u{c}' => "\\f".to_string(),
        '\r' => "\\r".to_string(),
        c if (c as u32) < 0x20 => format!("\\u00{:02x}", c as u32),
        c => c.to_string(),
    }
}

#[test]
fn every_character_is_written_as_its_escape_or_as_itself() {
    let mut code: u32 = 0;
    while code <= 0x10ffff {
        if let Some(c) = char::from_u32(code) {
            let name: String = [c, 'x', c].iter().collect();
            let literal = format!("\"{}x{}\"", escaped(c), escaped(c));
            let expected = format!("{{\"strategy\":{},\"speed\":1,\"active\":true}}", literal);
            assert_eq!(status(&name, 1, true).to_json(), Ok(expected));
        }
        code += if code < 0x3000 { 1 } else { 97 };
    }
}

#[test]
fn control_characters_have_their_short_or_their_long_escape() {
    let text = status("\u{0}\u{7}\u{8}\t\n\u{b}\u{c}\r\u{1f} \u{7f}/", 0, false).to_json();
    let literal = "\"\\u0000\\u0007\\b\\t\\n\\u000b\\f\\r\\u001f \u{7f}/\"";
    assert_eq!(
        text,
        Ok(format!("{{\"strategy\":{},\"speed\":0,\"active\":false}}", literal))
    );
}

#[test]
fn to_json_never_fails() {
    assert!(status("", 0, false).to_json().is_ok());
    assert!(status("\u{0}\u{10ffff}\u{feff}", 255, true).to_json().is_ok());
}

#[test]
fn json_of_any_name_is_one_line() {
    let text = status("a\nb\r\nc\u{b}\u{85}", 3, true).to_json().unwrap();
    assert!(!text.contains('\n'));
    assert!(!text.chars().any(|c| (c as u32) < 0x20));
}
