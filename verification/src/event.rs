//! The event record this subsystem delivers: an opaque payload variant
//! plus context carrying an optional source timestamp (in seconds).

use vstd::prelude::*;

verus! {

/// Payload of one pipeline event. The variant tag is what the webhook
/// body reports as `variant`; the carried data is opaque to this
/// subsystem and is only ever serialized whole.
#[derive(Clone, Debug, PartialEq, Eq)]
pub enum EventData {
    Foo(String),
    Bar(u64),
}

impl EventData {
    /// The tag naming this payload's variant.
    pub open spec fn spec_variant_name(self) -> Seq<char> {
        match self {
            EventData::Foo(_) => "Foo"@,
            EventData::Bar(_) => "Bar"@,
        }
    }

    /// Returns the variant tag as a string.
    pub fn variant_name(&self) -> (r: String)
        ensures
            r@ == self.spec_variant_name(),
    {
        match self {
            EventData::Foo(_) => "Foo".to_string(),
            EventData::Bar(_) => "Bar".to_string(),
        }
    }
}

/// Context attached to one event by the upstream pipeline.
#[derive(Clone, Debug, PartialEq, Eq)]
pub struct EventContext {
    /// Source timestamp in seconds, when the upstream stage had one.
    pub timestamp: Option<u64>,
}

/// One pipeline event, immutable once received by this subsystem.
#[derive(Clone, Debug, PartialEq, Eq)]
pub struct Event {
    pub data: EventData,
    pub context: EventContext,
}

} // verus!
