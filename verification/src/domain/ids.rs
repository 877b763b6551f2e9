//! Identifiers owned by the domain layer; session, segment and artifact IDs
//! are the wire protocol's own types.
use vstd::prelude::*;

pub use crate::protocol::types::{ArtifactId, SegmentId, SessionId};

verus! {

/// Provider-opaque identifier of a capture device.
#[derive(Debug, Clone, PartialEq, Eq, PartialOrd, Ord, Hash)]
pub struct CaptureDeviceId(pub String);

impl View for CaptureDeviceId {
    type V = Seq<char>;

    open spec fn view(&self) -> Seq<char> {
        self.0@
    }
}

impl CaptureDeviceId {
    pub fn new(value: String) -> (r: Self)
        ensures
            r@ == value@,
    {
        CaptureDeviceId(value)
    }

    /// The identifier's text.
    pub fn as_str(&self) -> (r: &str)
        ensures
            r@ == self@,
    {
        self.0.as_str()
    }
}

impl From<&str> for CaptureDeviceId {
    fn from(value: &str) -> (r: Self)
        ensures
            r@ == value@,
    {
        CaptureDeviceId(value.to_owned())
    }
}

impl vstd::std_specs::convert::FromSpecImpl<&str> for CaptureDeviceId {
    open spec fn obeys_from_spec() -> bool {
        false
    }

    open spec fn from_spec(v: &str) -> Self {
        CaptureDeviceId(arbitrary())
    }
}

/// Idempotency key of one capture operation.
#[derive(Debug, Clone, PartialEq, Eq, PartialOrd, Ord, Hash)]
pub struct CaptureOperationId(pub String);

impl View for CaptureOperationId {
    type V = Seq<char>;

    open spec fn view(&self) -> Seq<char> {
        self.0@
    }
}

impl CaptureOperationId {
    pub fn new(value: String) -> (r: Self)
        ensures
            r@ == value@,
    {
        CaptureOperationId(value)
    }

    /// The identifier's text.
    pub fn as_str(&self) -> (r: &str)
        ensures
            r@ == self@,
    {
        self.0.as_str()
    }
}

impl From<&str> for CaptureOperationId {
    fn from(value: &str) -> (r: Self)
        ensures
            r@ == value@,
    {
        CaptureOperationId(value.to_owned())
    }
}

impl vstd::std_specs::convert::FromSpecImpl<&str> for CaptureOperationId {
    open spec fn obeys_from_spec() -> bool {
        false
    }

    open spec fn from_spec(v: &str) -> Self {
        CaptureOperationId(arbitrary())
    }
}

/// Label of a diarized speaker.
#[derive(Debug, Clone, PartialEq, Eq, PartialOrd, Ord, Hash)]
pub struct SpeakerId(pub String);

impl View for SpeakerId {
    type V = Seq<char>;

    open spec fn view(&self) -> Seq<char> {
        self.0@
    }
}

impl SpeakerId {
    pub fn new(value: String) -> (r: Self)
        ensures
            r@ == value@,
    {
        SpeakerId(value)
    }

    /// The identifier's text.
    pub fn as_str(&self) -> (r: &str)
        ensures
            r@ == self@,
    {
        self.0.as_str()
    }
}

impl From<&str> for SpeakerId {
    fn from(value: &str) -> (r: Self)
        ensures
            r@ == value@,
    {
        SpeakerId(value.to_owned())
    }
}

impl vstd::std_specs::convert::FromSpecImpl<&str> for SpeakerId {
    open spec fn obeys_from_spec() -> bool {
        false
    }

    open spec fn from_spec(v: &str) -> Self {
        SpeakerId(arbitrary())
    }
}

/// Stable identifier of a transcript entry.
#[derive(Debug, Clone, PartialEq, Eq, PartialOrd, Ord, Hash)]
pub struct TranscriptEntryId(pub String);

impl View for TranscriptEntryId {
    type V = Seq<char>;

    open spec fn view(&self) -> Seq<char> {
        self.0@
    }
}

impl TranscriptEntryId {
    pub fn new(value: String) -> (r: Self)
        ensures
            r@ == value@,
    {
        TranscriptEntryId(value)
    }

    /// The identifier's text.
    pub fn as_str(&self) -> (r: &str)
        ensures
            r@ == self@,
    {
        self.0.as_str()
    }
}

impl From<&str> for TranscriptEntryId {
    fn from(value: &str) -> (r: Self)
        ensures
            r@ == value@,
    {
        TranscriptEntryId(value.to_owned())
    }
}

impl vstd::std_specs::convert::FromSpecImpl<&str> for TranscriptEntryId {
    open spec fn obeys_from_spec() -> bool {
        false
    }

    open spec fn from_spec(v: &str) -> Self {
        TranscriptEntryId(arbitrary())
    }
}

/// Position of an event in one session's event stream.
#[derive(Debug, Clone, Copy, PartialEq, Eq, PartialOrd, Ord, Hash, Structural)]
pub struct EventSequence(pub u64);

} // verus!
