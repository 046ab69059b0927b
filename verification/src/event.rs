//! The uniform envelope in which every occurrence reaches the presentation
//! layer.

use vstd::prelude::*;
use vstd::string::*;
use crate::json::{object_entries, Entries};

verus! {

/// Where an event comes from.
#[derive(Clone, Copy, Debug, PartialEq, Eq, Structural)]
pub enum EventSource {
    /// The telemetry listener.
    Telemetry,
    /// The command listener.
    Command,
}

impl EventSource {
    /// The name under which the presentation layer knows the source.
    pub open spec fn label_text(self) -> Seq<char> {
        match self {
            EventSource::Telemetry => "DRONE"@,
            EventSource::Command => "PAYLOAD"@,
        }
    }

    /// The name under which the presentation layer knows the source.
    pub fn label(&self) -> (name: String)
        ensures
            name@ == self.label_text(),
    {
        match self {
            EventSource::Telemetry => String::from_str("DRONE"),
            EventSource::Command => String::from_str("PAYLOAD"),
        }
    }
}

/// An event as it is published.
#[derive(Clone, Debug, PartialEq)]
pub struct BackendEvent {
    /// The time of day at which the event was made.
    pub timestamp: String,
    /// Where the event comes from.
    pub source: EventSource,
    /// A sentence for a human reader.
    pub message: String,
    /// The structured data of the event, where it has any.
    pub data: Option<serde_json::Map<String, serde_json::Value>>,
}

/// What an event says.
pub struct EventView {
    pub timestamp: Seq<char>,
    pub source: EventSource,
    pub message: Seq<char>,
    pub data: Option<Entries>,
}

impl View for BackendEvent {
    type V = EventView;

    open spec fn view(&self) -> EventView {
        EventView {
            timestamp: self.timestamp@,
            source: self.source,
            message: self.message@,
            data: match self.data {
                Some(object) => Some(object_entries(object)),
                None => None,
            },
        }
    }
}

} // verus!
