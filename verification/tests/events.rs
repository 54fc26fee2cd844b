use remote_desktop::error::ProtocolError;
use remote_desktop::event::{ButtonMouse, DeviceInput, KeyboardState, MouseState};
use remote_desktop::keys::{KeySymbol, KEY_COUNT};

fn all_keys() -> Vec<KeySymbol> {
    (0..KEY_COUNT).map(|i| KeySymbol::from_index(i).unwrap()).collect()
}

fn all_buttons() -> Vec<ButtonMouse> {
    vec![ButtonMouse::Left, ButtonMouse::Middle, ButtonMouse::Right]
}

fn sample_points() -> Vec<(i32, i32)> {
    vec![
        (0, 0),
        (5, 5),
        (-1, 1),
        (1919, 1079),
        (i32::MAX, i32::MIN),
        (i32::MIN, i32::MAX),
        (i32::MIN, i32::MIN),
        (i32::MAX, i32::MAX),
    ]
}

fn all_events() -> Vec<DeviceInput> {
    let mut events = Vec::new();
    for k in all_keys() {
        events.push(DeviceInput::Keyboard(KeyboardState::KeyDown(k)));
        events.push(DeviceInput::Keyboard(KeyboardState::KeyClick(k)));
        events.push(DeviceInput::Keyboard(KeyboardState::KeyUp(k)));
    }
    for b in all_buttons() {
        events.push(DeviceInput::Mouse(MouseState::MouseUp(b)));
        events.push(DeviceInput::Mouse(MouseState::MouseDown(b)));
        events.push(DeviceInput::Mouse(MouseState::MouseClick(b)));
    }
    for p in sample_points() {
        events.push(DeviceInput::Mouse(MouseState::MouseMove(p)));
    }
    events
}

fn text(e: DeviceInput) -> String {
    String::from_utf8(e.to_record()).unwrap()
}

#[test]
fn there_are_ninety_six_keys() {
    assert_eq!(KEY_COUNT, 96);
    assert_eq!(all_keys().len(), 96);
    assert_eq!(KeySymbol::from_index(0), Some(KeySymbol::Key0));
    assert_eq!(KeySymbol::from_index(10), Some(KeySymbol::A));
    assert_eq!(KeySymbol::from_index(95), Some(KeySymbol::Slash));
    assert_eq!(KeySymbol::from_index(96), None);
    assert_eq!(KeySymbol::from_index(usize::MAX), None);
}

#[test]
fn key_names_are_the_variant_names() {
    for k in all_keys() {
        assert_eq!(k.as_str(), format!("{:?}", k));
    }
}

#[test]
fn key_names_are_found_again() {
    for k in all_keys() {
        assert_eq!(KeySymbol::from_name(k.as_str().as_bytes()), Some(k));
    }
    assert_eq!(KeySymbol::from_name(b""), None);
    assert_eq!(KeySymbol::from_name(b"a"), None);
    assert_eq!(KeySymbol::from_name(b"Key"), None);
    assert_eq!(KeySymbol::from_name(b"Key10"), None);
    assert_eq!(KeySymbol::from_name(b"F13"), None);
    assert_eq!(KeySymbol::from_name(b"escape"), None);
    assert_eq!(KeySymbol::from_name(b"Escape "), None);
}

#[test]
fn button_names_are_found_again() {
    for b in all_buttons() {
        assert_eq!(b.as_str(), format!("{:?}", b));
        assert_eq!(ButtonMouse::from_name(b.as_str().as_bytes()), Some(b));
    }
    assert_eq!(ButtonMouse::from_name(b"left"), None);
    assert_eq!(ButtonMouse::from_name(b""), None);
    assert_eq!(ButtonMouse::from_name(b"ScrollUp"), None);
}

#[test]
fn records_are_spelled_exactly() {
    assert_eq!(
        text(DeviceInput::Mouse(MouseState::MouseMove((5, 5)))),
        r#"{"Mouse":{"MouseMove":[5,5]}}"#
    );
    assert_eq!(
        text(DeviceInput::Mouse(MouseState::MouseMove((-12, 1080)))),
        r#"{"Mouse":{"MouseMove":[-12,1080]}}"#
    );
    assert_eq!(
        text(DeviceInput::Mouse(MouseState::MouseClick(ButtonMouse::Left))),
        r#"{"Mouse":{"MouseClick":"Left"}}"#
    );
    assert_eq!(
        text(DeviceInput::Mouse(MouseState::MouseDown(ButtonMouse::Middle))),
        r#"{"Mouse":{"MouseDown":"Middle"}}"#
    );
    assert_eq!(
        text(DeviceInput::Mouse(MouseState::MouseUp(ButtonMouse::Right))),
        r#"{"Mouse":{"MouseUp":"Right"}}"#
    );
    assert_eq!(
        text(DeviceInput::Keyboard(KeyboardState::KeyClick(KeySymbol::A))),
        r#"{"Keyboard":{"KeyClick":"A"}}"#
    );
    assert_eq!(
        text(DeviceInput::Keyboard(KeyboardState::KeyDown(KeySymbol::LControl))),
        r#"{"Keyboard":{"KeyDown":"LControl"}}"#
    );
    assert_eq!(
        text(DeviceInput::Keyboard(KeyboardState::KeyUp(KeySymbol::NumpadMultiply))),
        r#"{"Keyboard":{"KeyUp":"NumpadMultiply"}}"#
    );
}

#[test]
fn write_record_appends() {
    let mut out = b"x|".to_vec();
    DeviceInput::Keyboard(KeyboardState::KeyClick(KeySymbol::Z)).write_record(&mut out);
    assert_eq!(out, br#"x|{"Keyboard":{"KeyClick":"Z"}}"#.to_vec());
}

#[test]
fn every_event_comes_back_from_its_record() {
    for e in all_events() {
        assert_eq!(DeviceInput::parse_record(&e.to_record()), Ok(e));
    }
}

#[test]
fn no_record_holds_the_separator() {
    for e in all_events() {
        let record = e.to_record();
        assert!(!record.is_empty());
        assert!(!record.contains(&b'|'), "{:?}", e);
        assert!(record.is_ascii());
    }
}

#[test]
fn different_events_have_different_records() {
    let events = all_events();
    let mut records: Vec<Vec<u8>> = events.iter().map(|e| e.to_record()).collect();
    records.sort();
    records.dedup();
    assert_eq!(records.len(), events.len());
}

#[test]
fn other_spellings_are_malformed() {
    let bad: [&str; 22] = [
        "",
        "{}",
        "null",
        "|",
        r#"{"Mouse":{"MouseMove":[5,5]}} "#,
        r#" {"Mouse":{"MouseMove":[5,5]}}"#,
        r#"{"Mouse":{"MouseMove":[5, 5]}}"#,
        r#"{"Mouse": {"MouseMove":[5,5]}}"#,
        r#"{"Mouse":{"MouseMove":[5,5,5]}}"#,
        r#"{"Mouse":{"MouseMove":[5]}}"#,
        r#"{"Mouse":{"MouseMove":[,]}}"#,
        r#"{"Mouse":{"MouseMove":[05,5]}}"#,
        r#"{"Mouse":{"MouseMove":[5,-0]}}"#,
        r#"{"Mouse":{"MouseMove":[2147483648,0]}}"#,
        r#"{"Mouse":{"MouseMove":[0,-2147483649]}}"#,
        r#"{"Mouse":{"MouseMove":[5,5]}"#,
        r#"{"Mouse":{"MouseClick":"ScrollUp"}}"#,
        r#"{"Mouse":{"KeyClick":"A"}}"#,
        r#"{"Keyboard":{"KeyClick":"a"}}"#,
        r#"{"Keyboard":{"KeyClick":"A"}}}"#,
        r#"{"Keyboard":{"KeyPress":"A"}}"#,
        r#"{"Keyboard":{"KeyClick":A}}"#,
    ];
    for record in bad {
        assert_eq!(
            DeviceInput::parse_record(record.as_bytes()),
            Err(ProtocolError::MalformedEvent),
            "{:?}",
            record
        );
    }
}

#[test]
fn bytes_that_are_no_text_are_malformed() {
    let mut record = br#"{"Keyboard":{"KeyClick":"A"}}"#.to_vec();
    record[25] = 0xff;
    assert_eq!(DeviceInput::parse_record(&record), Err(ProtocolError::MalformedEvent));
}

fn tagged(outer: &str, inner: &str, value: serde_json::Value) -> serde_json::Value {
    let mut inner_map = serde_json::Map::new();
    inner_map.insert(inner.to_string(), value);
    let mut outer_map = serde_json::Map::new();
    outer_map.insert(outer.to_string(), serde_json::Value::Object(inner_map));
    serde_json::Value::Object(outer_map)
}

fn as_json(e: DeviceInput) -> serde_json::Value {
    match e {
        DeviceInput::Keyboard(KeyboardState::KeyDown(k)) => {
            tagged("Keyboard", "KeyDown", serde_json::Value::from(k.as_str()))
        }
        DeviceInput::Keyboard(KeyboardState::KeyClick(k)) => {
            tagged("Keyboard", "KeyClick", serde_json::Value::from(k.as_str()))
        }
        DeviceInput::Keyboard(KeyboardState::KeyUp(k)) => {
            tagged("Keyboard", "KeyUp", serde_json::Value::from(k.as_str()))
        }
        DeviceInput::Mouse(MouseState::MouseUp(b)) => {
            tagged("Mouse", "MouseUp", serde_json::Value::from(b.as_str()))
        }
        DeviceInput::Mouse(MouseState::MouseDown(b)) => {
            tagged("Mouse", "MouseDown", serde_json::Value::from(b.as_str()))
        }
        DeviceInput::Mouse(MouseState::MouseClick(b)) => {
            tagged("Mouse", "MouseClick", serde_json::Value::from(b.as_str()))
        }
        DeviceInput::Mouse(MouseState::MouseMove((x, y))) => tagged(
            "Mouse",
            "MouseMove",
            serde_json::Value::Array(vec![serde_json::Value::from(x), serde_json::Value::from(y)]),
        ),
    }
}

#[test]
fn records_are_the_json_of_the_tagged_value() {
    for e in all_events() {
        let parsed: serde_json::Value = serde_json::from_slice(&e.to_record()).unwrap();
        assert_eq!(parsed, as_json(e));
    }
}

#[test]
fn records_are_what_a_json_writer_writes() {
    for e in all_events() {
        assert_eq!(serde_json::to_vec(&as_json(e)).unwrap(), e.to_record());
    }
}

#[test]
fn what_a_json_writer_writes_is_read_back() {
    for e in all_events() {
        let written = serde_json::to_string(&as_json(e)).unwrap();
        assert_eq!(DeviceInput::parse_record(written.as_bytes()), Ok(e));
    }
}
