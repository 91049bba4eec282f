//! Names of metrics and labels.
//!
//! Metrics and labels are named by identifiers rather than by words, because
//! words change. A name starts with a letter, as the names of a metrics
//! registry must, followed by the text form of the identifier.

use vstd::prelude::*;
use crate::text::push_text;
use crate::ulid::ULID;

verus! {

/// Identifies a label.
#[derive(Debug, Clone, Copy, PartialEq, Eq, Hash, PartialOrd, Ord, Structural)]
pub struct LabelId(pub u128);

impl LabelId {
    /// The identifier made at `timestamp_ms`, in milliseconds since the Unix
    /// epoch, with the random bits `randomness`: the lower 48 bits of the one
    /// above the lower 80 bits of the other.
    pub fn generate(timestamp_ms: u64, randomness: u128) -> (id: LabelId)
        ensures
            id.0 == ULID::compose(timestamp_ms, randomness),
    {
        LabelId(ULID::from_parts(timestamp_ms, randomness).0)
    }

    /// The name of the label: `L`, followed by the identifier as a ULID.
    pub fn name(&self) -> (name: String)
        ensures
            name@ == "L"@ + ULID::text_of(self.0),
    {
        let mut name = String::from_str("L");
        push_text(&mut name, ULID(self.0).to_string().as_str());
        name
    }

    /// The identifier as a ULID.
    pub fn ulid(&self) -> (ulid: ULID)
        ensures
            ulid.0 == self.0,
    {
        ULID(self.0)
    }
}

/// Identifies a metric.
#[derive(Debug, Clone, Copy, PartialEq, Eq, Hash, PartialOrd, Ord, Structural)]
pub struct MetricId(pub u128);

impl MetricId {
    /// The identifier made at `timestamp_ms`, in milliseconds since the Unix
    /// epoch, with the random bits `randomness`: the lower 48 bits of the one
    /// above the lower 80 bits of the other.
    pub fn generate(timestamp_ms: u64, randomness: u128) -> (id: MetricId)
        ensures
            id.0 == ULID::compose(timestamp_ms, randomness),
    {
        MetricId(ULID::from_parts(timestamp_ms, randomness).0)
    }

    /// The number of the identifier.
    pub fn id(&self) -> (id: u128)
        ensures
            id == self.0,
    {
        self.0
    }

    /// The identifier as a ULID.
    pub fn ulid(&self) -> (ulid: ULID)
        ensures
            ulid.0 == self.0,
    {
        ULID(self.0)
    }

    /// The name of the metric: `M`, followed by the identifier as a ULID.
    pub fn name(&self) -> (name: String)
        ensures
            name@ == "M"@ + ULID::text_of(self.0),
    {
        let mut name = String::from_str("M");
        push_text(&mut name, ULID(self.0).to_string().as_str());
        name
    }
}

impl From<ULID> for MetricId {
    /// The identifier of the metric that is the ULID `ulid`.
    fn from(ulid: ULID) -> (id: MetricId)
        ensures
            id.0 == ulid.0,
    {
        MetricId(ulid.0)
    }
}

impl vstd::std_specs::convert::FromSpecImpl<ULID> for MetricId {
    open spec fn obeys_from_spec() -> bool {
        true
    }

    open spec fn from_spec(ulid: ULID) -> MetricId {
        MetricId(ulid.0)
    }
}

} // verus!
