use operator_view::command::{command_event, command_events, command_lines};
use operator_view::event::EventSource;
use serde_json::Value;

fn is_clock_text(stamp: &str) -> bool {
    let bytes = stamp.as_bytes();
    bytes.len() == 8
        && bytes[2] == b':'
        && bytes[5] == b':'
        && [0usize, 1, 3, 4, 6, 7].iter().all(|&i| bytes[i].is_ascii_digit())
}

fn command_data(command: &str, sender: &str) -> serde_json::Map<String, Value> {
    let mut data = serde_json::Map::new();
    data.insert("command".to_string(), Value::String(command.to_string()));
    data.insert("sender".to_string(), Value::String(sender.to_string()));
    data
}

#[test]
fn metadata_line_is_no_command() {
    assert_eq!(command_lines("METADATA:foo"), Vec::<String>::new());
    assert!(command_events(b"METADATA:foo", "10.0.0.7:40000").is_empty());
    assert!(command_events(b"METADATA:foo\n", "10.0.0.7:40000").is_empty());
}

#[test]
fn padded_line_gives_one_trimmed_command() {
    assert_eq!(command_lines("  move 10  "), vec!["move 10"]);
    let events = command_events(b"  move 10  ", "10.0.0.7:40000");
    assert_eq!(events.len(), 1);
    assert_eq!(events[0].message, "Command: move 10");
    assert_eq!(events[0].data, Some(command_data("move 10", "10.0.0.7:40000")));
}

#[test]
fn command_lines_keeps_order_and_drops_the_rest() {
    let text = "arm\r\n\n   \nMETADATA:seq=4\n  METADATA: padded\n takeoff 5 \nmetadata:lower\nland";
    assert_eq!(command_lines(text), vec!["arm", "takeoff 5", "metadata:lower", "land"]);
}

#[test]
fn command_lines_of_nothing() {
    assert_eq!(command_lines(""), Vec::<String>::new());
    assert_eq!(command_lines("\n\n\r\n"), Vec::<String>::new());
    assert_eq!(command_lines(" \t "), Vec::<String>::new());
}

#[test]
fn marker_must_stand_at_the_start() {
    assert_eq!(command_lines("xMETADATA:foo"), vec!["xMETADATA:foo"]);
    assert_eq!(command_lines("METADATA"), vec!["METADATA"]);
    assert_eq!(command_lines("METADATA:"), Vec::<String>::new());
    assert_eq!(command_lines("METADATA :x"), vec!["METADATA :x"]);
}

#[test]
fn command_event_is_an_envelope_for_the_command() {
    let event = command_event("move 10", "192.168.1.20:51000", "12:34:56".to_string());
    assert_eq!(event.timestamp, "12:34:56");
    assert_eq!(event.source, EventSource::Command);
    assert_eq!(event.source.label(), "PAYLOAD");
    assert_eq!(event.message, "Command: move 10");
    let data = event.data.expect("a command event has data");
    assert_eq!(data.len(), 2);
    assert_eq!(data.get("command"), Some(&Value::String("move 10".to_string())));
    assert_eq!(data.get("sender"), Some(&Value::String("192.168.1.20:51000".to_string())));
}

#[test]
fn command_events_one_for_each_command() {
    let events = command_events(b"arm\nMETADATA:x\n  go north \r\n", "peer:1");
    assert_eq!(events.len(), 2);
    assert_eq!(events[0].message, "Command: arm");
    assert_eq!(events[0].data, Some(command_data("arm", "peer:1")));
    assert_eq!(events[1].message, "Command: go north");
    assert_eq!(events[1].data, Some(command_data("go north", "peer:1")));
    for event in &events {
        assert_eq!(event.source, EventSource::Command);
        assert!(is_clock_text(&event.timestamp), "{:?}", event.timestamp);
    }
}

#[test]
fn bytes_that_are_no_text_give_no_event() {
    assert!(command_events(&[b'g', b'o', 0xFF, b'\n'], "peer:1").is_empty());
    assert!(command_events(&[0xC3], "peer:1").is_empty());
}

#[test]
fn command_text_may_hold_any_characters() {
    let events = command_events("\u{3000}z\u{fc}nd \u{1F680}\u{A0}\n".as_bytes(), "peer:1");
    assert_eq!(events.len(), 1);
    assert_eq!(events[0].message, "Command: z\u{fc}nd \u{1F680}");
}
