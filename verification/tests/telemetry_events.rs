use operator_view::clock::timestamp_now;
use operator_view::event::EventSource;
use operator_view::telemetry::{
    datagram_event, receive_datagram, telemetry_data, telemetry_event, TelemetryPacket,
};
use serde_json::{Number, Value};

fn decimal(value: f64) -> Number {
    Number::from_f64(value).expect("a finite number")
}

fn bare_packet(kind: &str) -> TelemetryPacket {
    TelemetryPacket {
        packet_type: kind.to_string(),
        lat: None,
        lon: None,
        alt: None,
        battery_remaining: None,
        heading: None,
        system_status: None,
    }
}

fn full_packet() -> TelemetryPacket {
    TelemetryPacket {
        packet_type: "GLOBAL_POSITION_INT".to_string(),
        lat: Some(decimal(47.397742)),
        lon: Some(decimal(8.545594)),
        alt: Some(488),
        battery_remaining: Some(87),
        heading: Some(decimal(271.5)),
        system_status: Some("ACTIVE".to_string()),
    }
}

#[test]
fn every_reported_field_is_an_entry() {
    let data = telemetry_data(full_packet());
    let mut expected = serde_json::Map::new();
    expected.insert("lat".to_string(), Value::Number(decimal(47.397742)));
    expected.insert("lon".to_string(), Value::Number(decimal(8.545594)));
    expected.insert("alt".to_string(), Value::Number(Number::from(488)));
    expected.insert("battery_remaining".to_string(), Value::Number(Number::from(87)));
    expected.insert("heading".to_string(), Value::Number(decimal(271.5)));
    expected.insert("system_status".to_string(), Value::String("ACTIVE".to_string()));
    assert_eq!(data, expected);
}

#[test]
fn entries_keep_their_kind() {
    let data = telemetry_data(full_packet());
    assert_eq!(data.get("lat").and_then(Value::as_f64), Some(47.397742));
    assert!(data.get("lat").map_or(false, Value::is_f64));
    assert!(data.get("alt").map_or(false, Value::is_i64));
    assert_eq!(data.get("alt").and_then(Value::as_i64), Some(488));
    assert!(data.get("battery_remaining").map_or(false, Value::is_i64));
    assert!(data.get("heading").map_or(false, Value::is_f64));
    assert!(data.get("system_status").map_or(false, Value::is_string));
}

#[test]
fn absent_fields_are_left_out() {
    assert!(telemetry_data(bare_packet("HEARTBEAT")).is_empty());

    let mut packet = bare_packet("ATTITUDE");
    packet.heading = Some(decimal(90.0));
    packet.alt = Some(-12);
    let data = telemetry_data(packet);
    assert_eq!(data.len(), 2);
    assert_eq!(data.get("heading"), Some(&Value::Number(decimal(90.0))));
    assert_eq!(data.get("alt"), Some(&Value::Number(Number::from(-12))));
    assert!(!data.contains_key("lat"));
    assert!(!data.contains_key("lon"));
    assert!(!data.contains_key("battery_remaining"));
    assert!(!data.contains_key("system_status"));
}

#[test]
fn each_field_alone() {
    let mut packet = bare_packet("P");
    packet.lat = Some(decimal(1.5));
    let data = telemetry_data(packet);
    assert_eq!(data.len(), 1);
    assert_eq!(data.get("lat"), Some(&Value::Number(decimal(1.5))));

    let mut packet = bare_packet("P");
    packet.lon = Some(decimal(-2.25));
    let data = telemetry_data(packet);
    assert_eq!(data.len(), 1);
    assert_eq!(data.get("lon"), Some(&Value::Number(decimal(-2.25))));

    let mut packet = bare_packet("P");
    packet.battery_remaining = Some(0);
    let data = telemetry_data(packet);
    assert_eq!(data.len(), 1);
    assert_eq!(data.get("battery_remaining"), Some(&Value::Number(Number::from(0))));

    let mut packet = bare_packet("P");
    packet.system_status = Some(String::new());
    let data = telemetry_data(packet);
    assert_eq!(data.len(), 1);
    assert_eq!(data.get("system_status"), Some(&Value::String(String::new())));
}

#[test]
fn zero_is_reported_as_zero() {
    let mut packet = bare_packet("P");
    packet.lat = Some(decimal(0.0));
    packet.alt = Some(0);
    let data = telemetry_data(packet);
    assert_eq!(data.len(), 2);
    assert_eq!(data.get("lat"), Some(&Value::Number(decimal(0.0))));
    assert_eq!(data.get("alt"), Some(&Value::Number(Number::from(0))));
}

#[test]
fn extreme_integers_are_kept() {
    let mut packet = bare_packet("P");
    packet.alt = Some(i32::MAX);
    packet.battery_remaining = Some(i32::MIN);
    let data = telemetry_data(packet);
    assert_eq!(data.get("alt").and_then(Value::as_i64), Some(2147483647));
    assert_eq!(data.get("battery_remaining").and_then(Value::as_i64), Some(-2147483648));
}

#[test]
fn telemetry_event_is_an_envelope_for_the_packet() {
    let event = telemetry_event(full_packet(), "08:15:00".to_string());
    assert_eq!(event.timestamp, "08:15:00");
    assert_eq!(event.source, EventSource::Telemetry);
    assert_eq!(event.source.label(), "DRONE");
    assert_eq!(event.message, "Position update: GLOBAL_POSITION_INT");
    assert_eq!(event.data, Some(telemetry_data(full_packet())));
}

#[test]
fn a_packet_without_fields_still_has_data() {
    let event = telemetry_event(bare_packet("HEARTBEAT"), "00:00:00".to_string());
    assert_eq!(event.message, "Position update: HEARTBEAT");
    assert_eq!(event.data, Some(serde_json::Map::new()));
}

#[test]
fn no_packet_no_event() {
    assert_eq!(datagram_event(None), None);
}

#[test]
fn a_decoded_packet_is_published_with_the_time_of_day() {
    let event = datagram_event(Some(full_packet())).expect("an event for the packet");
    assert_eq!(event.source, EventSource::Telemetry);
    assert_eq!(event.message, "Position update: GLOBAL_POSITION_INT");
    assert_eq!(event.data, Some(telemetry_data(full_packet())));
    let stamp = event.timestamp.as_bytes();
    assert_eq!(stamp.len(), 8);
    assert_eq!(stamp[2], b':');
    assert_eq!(stamp[5], b':');
}

#[test]
fn timestamp_is_a_time_of_day() {
    let stamp = timestamp_now();
    let parts: Vec<&str> = stamp.split(':').collect();
    assert_eq!(parts.len(), 3);
    for part in &parts {
        assert_eq!(part.len(), 2);
        assert!(part.bytes().all(|b| b.is_ascii_digit()));
    }
    let hour: u32 = parts[0].parse().expect("an hour");
    let minute: u32 = parts[1].parse().expect("a minute");
    let second: u32 = parts[2].parse().expect("a second");
    assert!(hour < 24);
    assert!(minute < 60);
    assert!(second <= 60);
}

fn parse_kind(text: &str) -> Option<TelemetryPacket> {
    let value: Value = serde_json::from_str(text).ok()?;
    let kind = value.get("packet_type")?.as_str()?;
    let mut packet = bare_packet(kind);
    packet.alt = value.get("alt").and_then(Value::as_i64).map(|alt| alt as i32);
    Some(packet)
}

#[test]
fn a_datagram_that_is_no_text_is_dropped_unparsed() {
    let published = receive_datagram(&[0x7B, 0xFF, 0x7D], |_text| panic!("nothing to parse"));
    assert_eq!(published, None);
    let published = receive_datagram(&[0xC3, 0x28], |_text| Some(bare_packet("HEARTBEAT")));
    assert_eq!(published, None);
}

#[test]
fn a_datagram_that_holds_no_packet_is_dropped() {
    assert_eq!(receive_datagram(b"not json", parse_kind), None);
    assert_eq!(receive_datagram(b"{\"lat\": 1.0}", parse_kind), None);
    assert_eq!(receive_datagram(b"{\"packet_type\": \"HEARTBEAT\"", parse_kind), None);
    assert_eq!(receive_datagram(b"", parse_kind), None);
}

#[test]
fn a_datagram_that_holds_a_packet_is_published() {
    let datagram = b"{\"packet_type\": \"VFR_HUD\", \"alt\": 120}";
    let event = receive_datagram(datagram, parse_kind).expect("an event for the packet");
    assert_eq!(event.source, EventSource::Telemetry);
    assert_eq!(event.message, "Position update: VFR_HUD");
    let data = event.data.expect("a telemetry event has data");
    assert_eq!(data.len(), 1);
    assert_eq!(data.get("alt"), Some(&Value::Number(Number::from(120))));
    assert_eq!(event.timestamp.len(), 8);
}

#[test]
fn the_parser_sees_the_decoded_text() {
    let seen = std::cell::RefCell::new(String::new());
    let published = receive_datagram("{\"k\": \"\u{e9}\"}".as_bytes(), |text| {
        seen.borrow_mut().push_str(text);
        None
    });
    assert_eq!(published, None);
    assert_eq!(seen.into_inner(), "{\"k\": \"\u{e9}\"}");
}

#[test]
fn packets_with_decimals_are_valid() {
    assert!(full_packet().is_valid());
    assert!(bare_packet("HEARTBEAT").is_valid());
    let mut packet = bare_packet("P");
    packet.heading = Some(decimal(7.0));
    assert!(packet.is_valid());
}

#[test]
fn a_whole_number_in_a_decimal_field_makes_a_packet_invalid() {
    let mut packet = bare_packet("P");
    packet.lat = Some(Number::from(7));
    assert!(!packet.is_valid());

    let mut packet = full_packet();
    packet.lon = Some(Number::from(-3));
    assert!(!packet.is_valid());

    let mut packet = full_packet();
    packet.heading = Some(Number::from(0));
    assert!(!packet.is_valid());
}

#[test]
fn an_invalid_packet_is_discarded() {
    let mut packet = full_packet();
    packet.lat = Some(Number::from(47));
    assert_eq!(datagram_event(Some(packet)), None);

    let published = receive_datagram(b"{}", |_text| {
        let mut packet = bare_packet("P");
        packet.heading = Some(Number::from(90));
        Some(packet)
    });
    assert_eq!(published, None);
}

#[test]
fn a_decimal_entry_is_no_integer_entry() {
    let mut packet = bare_packet("P");
    packet.lat = Some(decimal(7.0));
    packet.alt = Some(7);
    let data = telemetry_data(packet);
    assert_ne!(data.get("lat"), data.get("alt"));
    assert_eq!(data.get("lat").map(Value::to_string), Some("7.0".to_string()));
    assert_eq!(data.get("alt").map(Value::to_string), Some("7".to_string()));
}
