//! Telemetry packets and the events that report them.

use vstd::prelude::*;
use vstd::string::*;
use vstd::utf8::{decode_utf8, valid_utf8};
use crate::clock::{is_clock_text, timestamp_now};
use crate::event::{BackendEvent, EventSource, EventView};
use crate::json::{
    is_float_number, number_is_float, object_entries, object_new, object_put_decimal,
    object_put_integer, object_put_text, Entries, Scalar,
};
use crate::text::decode_text;

verus! {

/// A periodic report of a vehicle's position and state. A field that is
/// absent was not reported: it does not stand for zero. The latitude, the
/// longitude and the heading are decimal numbers: a packet is valid where each
/// of them, if present, is a JSON number that holds a float.
#[derive(Clone, Debug, PartialEq)]
pub struct TelemetryPacket {
    /// The kind of the report.
    pub packet_type: String,
    /// The latitude.
    pub lat: Option<serde_json::Number>,
    /// The longitude.
    pub lon: Option<serde_json::Number>,
    /// The altitude.
    pub alt: Option<i32>,
    /// What is left of the battery.
    pub battery_remaining: Option<i32>,
    /// The heading.
    pub heading: Option<serde_json::Number>,
    /// The state of the system, in words.
    pub system_status: Option<String>,
}

/// Whether a decimal field, if present, holds a float.
pub open spec fn decimal_is_float(field: Option<serde_json::Number>) -> bool {
    match field {
        Some(number) => number_is_float(number),
        None => true,
    }
}

impl TelemetryPacket {
    /// Whether the packet is valid: each of its decimal fields, if present,
    /// holds a float.
    pub open spec fn valid(self) -> bool {
        &&& decimal_is_float(self.lat)
        &&& decimal_is_float(self.lon)
        &&& decimal_is_float(self.heading)
    }

    /// Whether the packet is valid.
    pub fn is_valid(&self) -> (b: bool)
        ensures
            b == self.valid(),
    {
        let lat = match &self.lat {
            Some(number) => is_float_number(number),
            None => true,
        };
        let lon = match &self.lon {
            Some(number) => is_float_number(number),
            None => true,
        };
        let heading = match &self.heading {
            Some(number) => is_float_number(number),
            None => true,
        };
        lat && lon && heading
    }
}

/// Whether what decoding a datagram gave is published: a packet was decoded
/// and is valid.
pub open spec fn publishable(decoded: Option<TelemetryPacket>) -> bool {
    decoded matches Some(packet) && packet.valid()
}

/// A decimal field as an entry.
pub open spec fn decimal_entry(field: Option<serde_json::Number>) -> Option<Scalar> {
    match field {
        Some(number) => Some(Scalar::Decimal(number)),
        None => None,
    }
}

/// An integer field as an entry.
pub open spec fn integer_entry(field: Option<i32>) -> Option<Scalar> {
    match field {
        Some(value) => Some(Scalar::Integer(value as int)),
        None => None,
    }
}

/// A text field as an entry.
pub open spec fn text_entry(field: Option<String>) -> Option<Scalar> {
    match field {
        Some(text) => Some(Scalar::Text(text@)),
        None => None,
    }
}

/// What a packet reports under a key, if anything.
pub open spec fn reported(packet: TelemetryPacket, key: Seq<char>) -> Option<Scalar> {
    if key == "lat"@ {
        decimal_entry(packet.lat)
    } else if key == "lon"@ {
        decimal_entry(packet.lon)
    } else if key == "alt"@ {
        integer_entry(packet.alt)
    } else if key == "battery_remaining"@ {
        integer_entry(packet.battery_remaining)
    } else if key == "heading"@ {
        decimal_entry(packet.heading)
    } else if key == "system_status"@ {
        text_entry(packet.system_status)
    } else {
        None
    }
}

/// The data of a packet's event: an entry for each field that the packet
/// reports, under the field's name and of the field's kind, and no other.
pub open spec fn telemetry_entries(packet: TelemetryPacket) -> Entries {
    Map::new(
        |key: Seq<char>| reported(packet, key) is Some,
        |key: Seq<char>| reported(packet, key)->0,
    )
}

/// The message of a packet's event.
pub open spec fn telemetry_message(packet: TelemetryPacket) -> Seq<char> {
    "Position update: "@ + packet.packet_type@
}

/// The event that reports a packet at a given time.
pub open spec fn telemetry_event_view(packet: TelemetryPacket, timestamp: Seq<char>) -> EventView {
    EventView {
        timestamp,
        source: EventSource::Telemetry,
        message: telemetry_message(packet),
        data: Some(telemetry_entries(packet)),
    }
}

/// The names of the fields differ from one another.
pub proof fn lemma_field_names_differ()
    ensures
        "lat"@ != "lon"@,
        "lat"@ != "alt"@,
        "lat"@ != "battery_remaining"@,
        "lat"@ != "heading"@,
        "lat"@ != "system_status"@,
        "lon"@ != "alt"@,
        "lon"@ != "battery_remaining"@,
        "lon"@ != "heading"@,
        "lon"@ != "system_status"@,
        "alt"@ != "battery_remaining"@,
        "alt"@ != "heading"@,
        "alt"@ != "system_status"@,
        "battery_remaining"@ != "heading"@,
        "battery_remaining"@ != "system_status"@,
        "heading"@ != "system_status"@,
{
    reveal_strlit("lat");
    reveal_strlit("lon");
    reveal_strlit("alt");
    reveal_strlit("battery_remaining");
    reveal_strlit("heading");
    reveal_strlit("system_status");
    assert("lat"@[0] == 'l' && "alt"@[0] == 'a' && "lon"@[1] == 'o' && "lat"@[1] == 'a');
    assert("lat"@.len() == 3 && "lon"@.len() == 3 && "alt"@.len() == 3);
    assert("battery_remaining"@.len() == 17 && "heading"@.len() == 7);
    assert("system_status"@.len() == 13);
}

/// The data of a valid packet's event.
pub fn telemetry_data(packet: TelemetryPacket) -> (data: serde_json::Map<String, serde_json::Value>)
    requires
        packet.valid(),
    ensures
        object_entries(data) == telemetry_entries(packet),
{
    let ghost whole = packet;
    let TelemetryPacket {
        packet_type: _,
        lat,
        lon,
        alt,
        battery_remaining,
        heading,
        system_status,
    } = packet;
    let mut data = object_new();
    if let Some(number) = lat {
        object_put_decimal(&mut data, "lat", number);
    }
    if let Some(number) = lon {
        object_put_decimal(&mut data, "lon", number);
    }
    if let Some(value) = alt {
        object_put_integer(&mut data, "alt", value);
    }
    if let Some(value) = battery_remaining {
        object_put_integer(&mut data, "battery_remaining", value);
    }
    if let Some(number) = heading {
        object_put_decimal(&mut data, "heading", number);
    }
    if let Some(text) = system_status {
        object_put_text(&mut data, "system_status", text);
    }
    proof {
        lemma_field_names_differ();
        assert(object_entries(data) =~= telemetry_entries(whole));
    }
    data
}

/// The event that reports a valid packet at a given time.
pub fn telemetry_event(packet: TelemetryPacket, timestamp: String) -> (event: BackendEvent)
    requires
        packet.valid(),
    ensures
        event@ == telemetry_event_view(packet, timestamp@),
{
    let mut message = String::from_str("Position update: ");
    message.append(packet.packet_type.as_str());
    let data = telemetry_data(packet);
    BackendEvent { timestamp, source: EventSource::Telemetry, message, data: Some(data) }
}

/// What is published for a datagram, given what decoding it as a packet gave:
/// the packet's event, stamped with the time of day, where a packet was
/// decoded and is valid. Where none was decoded nothing is published, and
/// nothing for a packet that is not valid: it is discarded as malformed.
pub fn datagram_event(decoded: Option<TelemetryPacket>) -> (published: Option<BackendEvent>)
    ensures
        published is Some <==> publishable(decoded),
        published matches Some(event) ==> {
            &&& is_clock_text(event.timestamp@)
            &&& event@ == telemetry_event_view(decoded->0, event.timestamp@)
        },
{
    match decoded {
        Some(packet) => {
            if packet.is_valid() {
                Some(telemetry_event(packet, timestamp_now()))
            } else {
                None
            }
        },
        None => None,
    }
}

/// What is published for a datagram. The bytes are decoded as text, the text
/// is handed to `parse`, which decodes it as a packet where it can, and the
/// packet's event is published. Bytes that are no text are never handed to
/// `parse`, and nothing is published for them, nor for a text in which `parse`
/// finds no packet, nor for a packet that is not valid.
pub fn receive_datagram<F: Fn(&str) -> Option<TelemetryPacket>>(bytes: &[u8], parse: F) -> (published:
    Option<BackendEvent>)
    requires
        forall|text: &str| parse.requires((text,)),
    ensures
        !valid_utf8(bytes@) ==> published is None,
        valid_utf8(bytes@) ==> exists|text: &str, decoded: Option<TelemetryPacket>|
            {
                &&& text@ == decode_utf8(bytes@)
                &&& #[trigger] parse.ensures((text,), decoded)
                &&& published is Some <==> publishable(decoded)
                &&& published matches Some(event) ==> {
                    &&& is_clock_text(event.timestamp@)
                    &&& event@ == telemetry_event_view(decoded->0, event.timestamp@)
                }
            },
{
    match decode_text(bytes) {
        Some(text) => {
            let decoded = parse(text.as_str());
            datagram_event(decoded)
        },
        None => None,
    }
}

} // verus!
