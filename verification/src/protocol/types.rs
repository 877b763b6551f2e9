//! Transport-neutral wire values of the V1 meeting protocol.
//!
//! `==` on these values is the field-wise equality of the `same_*` functions:
//! text is compared by its characters and lists element by element.
use vstd::prelude::*;

verus! {

/// The only protocol version understood by the `V1` values.
pub const PROTOCOL_VERSION_V1: u16 = 1;

/// Largest integer that JSON/JavaScript clients can represent exactly.
pub const MAX_SAFE_JSON_INTEGER: u64 = 9_007_199_254_740_991;

/// Text of an optional string.
pub open spec fn opt_text(o: Option<String>) -> Option<Seq<char>> {
    match o {
        Some(s) => Some(s@),
        None => None,
    }
}

/// Two optional values agree: both absent, or both present and related by `f`.
pub open spec fn opt_same<T>(a: Option<T>, b: Option<T>, f: spec_fn(T, T) -> bool) -> bool {
    match a {
        Some(x) => match b {
            Some(y) => f(x, y),
            None => false,
        },
        None => b is None,
    }
}

/// Text of key/value pairs.
pub open spec fn pairs_text(v: Seq<(String, String)>) -> Seq<(Seq<char>, Seq<char>)> {
    v.map_values(|p: (String, String)| (p.0@, p.1@))
}

/// Compares two optional strings by their text.
pub fn opt_string_eq(a: &Option<String>, b: &Option<String>) -> (r: bool)
    ensures
        r == (opt_text(*a) == opt_text(*b)),
{
    match a {
        Some(x) => match b {
            Some(y) => *x == *y,
            None => false,
        },
        None => b.is_none(),
    }
}

/// Compares two byte strings.
pub fn bytes_eq(a: &Vec<u8>, b: &Vec<u8>) -> (r: bool)
    ensures
        r == (a@ == b@),
{
    if a.len() != b.len() {
        return false;
    }
    let mut i: usize = 0;
    while i < a.len()
        invariant
            a.len() == b.len(),
            i <= a.len(),
            forall|k: int| 0 <= k < i ==> a@[k] == b@[k],
        decreases a.len() - i,
    {
        if a[i] != b[i] {
            return false;
        }
        i = i + 1;
    }
    assert(a@ =~= b@);
    true
}

/// Compares two key/value lists by their text, pair by pair.
pub fn string_pairs_eq(a: &Vec<(String, String)>, b: &Vec<(String, String)>) -> (r: bool)
    ensures
        r == (pairs_text(a@) == pairs_text(b@)),
{
    if a.len() != b.len() {
        proof {
            assert(pairs_text(a@).len() != pairs_text(b@).len());
        }
        return false;
    }
    let mut i: usize = 0;
    while i < a.len()
        invariant
            a.len() == b.len(),
            i <= a.len(),
            forall|k: int| 0 <= k < i ==> pairs_text(a@)[k] == pairs_text(b@)[k],
        decreases a.len() - i,
    {
        if !(a[i].0 == b[i].0 && a[i].1 == b[i].1) {
            proof {
                assert(pairs_text(a@)[i as int] != pairs_text(b@)[i as int]);
            }
            return false;
        }
        i = i + 1;
    }
    proof {
        assert(pairs_text(a@) =~= pairs_text(b@));
    }
    true
}

/// A copy of an optional string.
pub fn copy_opt_string(a: &Option<String>) -> (r: Option<String>)
    ensures
        opt_text(r) == opt_text(*a),
{
    match a {
        Some(x) => Some(x.clone()),
        None => None,
    }
}

/// A copy of a byte string.
pub fn copy_bytes(a: &Vec<u8>) -> (r: Vec<u8>)
    ensures
        r@ == a@,
{
    let mut out: Vec<u8> = Vec::new();
    let mut i: usize = 0;
    while i < a.len()
        invariant
            i <= a.len(),
            out@ == a@.take(i as int),
        decreases a.len() - i,
    {
        out.push(a[i]);
        assert(a@.take(i + 1) =~= a@.take(i as int).push(a@[i as int]));
        i = i + 1;
    }
    assert(a@.take(a.len() as int) =~= a@);
    out
}

/// A copy of key/value pairs.
pub fn copy_string_pairs(a: &Vec<(String, String)>) -> (r: Vec<(String, String)>)
    ensures
        pairs_text(r@) == pairs_text(a@),
{
    let mut out: Vec<(String, String)> = Vec::new();
    let mut i: usize = 0;
    while i < a.len()
        invariant
            i <= a.len(),
            out.len() == i,
            forall|k: int| 0 <= k < i ==> (#[trigger] out@[k]).0@ == a@[k].0@ && out@[k].1@ == a@[k].1@,
        decreases a.len() - i,
    {
        let key = a[i].0.clone();
        let value = a[i].1.clone();
        out.push((key, value));
        i = i + 1;
    }
    assert(pairs_text(out@) =~= pairs_text(a@));
    out
}

/// A wire-level version marker that stands for the integer `1`.
#[derive(Debug, Clone, Copy, Default, PartialEq, Eq, Structural)]
pub struct ProtocolVersionV1;

/// Stable ID for a meeting session. Session IDs are chosen by the creator.
#[derive(Debug, Clone, PartialEq, Eq, PartialOrd, Ord, Hash)]
pub struct SessionId(pub String);

impl View for SessionId {
    type V = Seq<char>;

    open spec fn view(&self) -> Seq<char> {
        self.0@
    }
}

impl SessionId {
    /// The identifier's text.
    pub fn as_str(&self) -> (r: &str)
        ensures
            r@ == self@,
    {
        self.0.as_str()
    }
}

impl From<&str> for SessionId {
    fn from(value: &str) -> (r: Self)
        ensures
            r@ == value@,
    {
        SessionId(value.to_owned())
    }
}

impl vstd::std_specs::convert::FromSpecImpl<&str> for SessionId {
    open spec fn obeys_from_spec() -> bool {
        false
    }

    open spec fn from_spec(v: &str) -> Self {
        SessionId(arbitrary())
    }
}

impl From<String> for SessionId {
    fn from(value: String) -> (r: Self)
        ensures
            r@ == value@,
    {
        SessionId(value)
    }
}

impl vstd::std_specs::convert::FromSpecImpl<String> for SessionId {
    open spec fn obeys_from_spec() -> bool {
        false
    }

    open spec fn from_spec(v: String) -> Self {
        SessionId(v)
    }
}

impl AsRef<str> for SessionId {
    fn as_ref(&self) -> (r: &str)
        ensures
            r@ == self@,
    {
        self.0.as_str()
    }
}

/// Globally unique ID for one command or event.
#[derive(Debug, Clone, PartialEq, Eq, PartialOrd, Ord, Hash)]
pub struct MessageId(pub String);

impl View for MessageId {
    type V = Seq<char>;

    open spec fn view(&self) -> Seq<char> {
        self.0@
    }
}

impl MessageId {
    /// The identifier's text.
    pub fn as_str(&self) -> (r: &str)
        ensures
            r@ == self@,
    {
        self.0.as_str()
    }
}

impl From<&str> for MessageId {
    fn from(value: &str) -> (r: Self)
        ensures
            r@ == value@,
    {
        MessageId(value.to_owned())
    }
}

impl vstd::std_specs::convert::FromSpecImpl<&str> for MessageId {
    open spec fn obeys_from_spec() -> bool {
        false
    }

    open spec fn from_spec(v: &str) -> Self {
        MessageId(arbitrary())
    }
}

impl From<String> for MessageId {
    fn from(value: String) -> (r: Self)
        ensures
            r@ == value@,
    {
        MessageId(value)
    }
}

impl vstd::std_specs::convert::FromSpecImpl<String> for MessageId {
    open spec fn obeys_from_spec() -> bool {
        false
    }

    open spec fn from_spec(v: String) -> Self {
        MessageId(v)
    }
}

impl AsRef<str> for MessageId {
    fn as_ref(&self) -> (r: &str)
        ensures
            r@ == self@,
    {
        self.0.as_str()
    }
}

/// Stable ID for a capture source.
#[derive(Debug, Clone, PartialEq, Eq, PartialOrd, Ord, Hash)]
pub struct SourceId(pub String);

impl View for SourceId {
    type V = Seq<char>;

    open spec fn view(&self) -> Seq<char> {
        self.0@
    }
}

impl SourceId {
    /// The identifier's text.
    pub fn as_str(&self) -> (r: &str)
        ensures
            r@ == self@,
    {
        self.0.as_str()
    }
}

impl From<&str> for SourceId {
    fn from(value: &str) -> (r: Self)
        ensures
            r@ == value@,
    {
        SourceId(value.to_owned())
    }
}

impl vstd::std_specs::convert::FromSpecImpl<&str> for SourceId {
    open spec fn obeys_from_spec() -> bool {
        false
    }

    open spec fn from_spec(v: &str) -> Self {
        SourceId(arbitrary())
    }
}

impl From<String> for SourceId {
    fn from(value: String) -> (r: Self)
        ensures
            r@ == value@,
    {
        SourceId(value)
    }
}

impl vstd::std_specs::convert::FromSpecImpl<String> for SourceId {
    open spec fn obeys_from_spec() -> bool {
        false
    }

    open spec fn from_spec(v: String) -> Self {
        SourceId(v)
    }
}

impl AsRef<str> for SourceId {
    fn as_ref(&self) -> (r: &str)
        ensures
            r@ == self@,
    {
        self.0.as_str()
    }
}

/// Stable ID for an ordered audio lane.
#[derive(Debug, Clone, PartialEq, Eq, PartialOrd, Ord, Hash)]
pub struct LaneId(pub String);

impl View for LaneId {
    type V = Seq<char>;

    open spec fn view(&self) -> Seq<char> {
        self.0@
    }
}

impl LaneId {
    /// The identifier's text.
    pub fn as_str(&self) -> (r: &str)
        ensures
            r@ == self@,
    {
        self.0.as_str()
    }
}

impl From<&str> for LaneId {
    fn from(value: &str) -> (r: Self)
        ensures
            r@ == value@,
    {
        LaneId(value.to_owned())
    }
}

impl vstd::std_specs::convert::FromSpecImpl<&str> for LaneId {
    open spec fn obeys_from_spec() -> bool {
        false
    }

    open spec fn from_spec(v: &str) -> Self {
        LaneId(arbitrary())
    }
}

impl From<String> for LaneId {
    fn from(value: String) -> (r: Self)
        ensures
            r@ == value@,
    {
        LaneId(value)
    }
}

impl vstd::std_specs::convert::FromSpecImpl<String> for LaneId {
    open spec fn obeys_from_spec() -> bool {
        false
    }

    open spec fn from_spec(v: String) -> Self {
        LaneId(v)
    }
}

impl AsRef<str> for LaneId {
    fn as_ref(&self) -> (r: &str)
        ensures
            r@ == self@,
    {
        self.0.as_str()
    }
}

/// Stable ID for a recording segment.
#[derive(Debug, Clone, PartialEq, Eq, PartialOrd, Ord, Hash)]
pub struct SegmentId(pub String);

impl View for SegmentId {
    type V = Seq<char>;

    open spec fn view(&self) -> Seq<char> {
        self.0@
    }
}

impl SegmentId {
    /// The identifier's text.
    pub fn as_str(&self) -> (r: &str)
        ensures
            r@ == self@,
    {
        self.0.as_str()
    }
}

impl From<&str> for SegmentId {
    fn from(value: &str) -> (r: Self)
        ensures
            r@ == value@,
    {
        SegmentId(value.to_owned())
    }
}

impl vstd::std_specs::convert::FromSpecImpl<&str> for SegmentId {
    open spec fn obeys_from_spec() -> bool {
        false
    }

    open spec fn from_spec(v: &str) -> Self {
        SegmentId(arbitrary())
    }
}

impl From<String> for SegmentId {
    fn from(value: String) -> (r: Self)
        ensures
            r@ == value@,
    {
        SegmentId(value)
    }
}

impl vstd::std_specs::convert::FromSpecImpl<String> for SegmentId {
    open spec fn obeys_from_spec() -> bool {
        false
    }

    open spec fn from_spec(v: String) -> Self {
        SegmentId(v)
    }
}

impl AsRef<str> for SegmentId {
    fn as_ref(&self) -> (r: &str)
        ensures
            r@ == self@,
    {
        self.0.as_str()
    }
}

/// Stable ID for a reported capture discontinuity.
#[derive(Debug, Clone, PartialEq, Eq, PartialOrd, Ord, Hash)]
pub struct DiscontinuityId(pub String);

impl View for DiscontinuityId {
    type V = Seq<char>;

    open spec fn view(&self) -> Seq<char> {
        self.0@
    }
}

impl DiscontinuityId {
    /// The identifier's text.
    pub fn as_str(&self) -> (r: &str)
        ensures
            r@ == self@,
    {
        self.0.as_str()
    }
}

impl From<&str> for DiscontinuityId {
    fn from(value: &str) -> (r: Self)
        ensures
            r@ == value@,
    {
        DiscontinuityId(value.to_owned())
    }
}

impl vstd::std_specs::convert::FromSpecImpl<&str> for DiscontinuityId {
    open spec fn obeys_from_spec() -> bool {
        false
    }

    open spec fn from_spec(v: &str) -> Self {
        DiscontinuityId(arbitrary())
    }
}

impl From<String> for DiscontinuityId {
    fn from(value: String) -> (r: Self)
        ensures
            r@ == value@,
    {
        DiscontinuityId(value)
    }
}

impl vstd::std_specs::convert::FromSpecImpl<String> for DiscontinuityId {
    open spec fn obeys_from_spec() -> bool {
        false
    }

    open spec fn from_spec(v: String) -> Self {
        DiscontinuityId(v)
    }
}

impl AsRef<str> for DiscontinuityId {
    fn as_ref(&self) -> (r: &str)
        ensures
            r@ == self@,
    {
        self.0.as_str()
    }
}

/// Stable ID for a partial transcript hypothesis.
#[derive(Debug, Clone, PartialEq, Eq, PartialOrd, Ord, Hash)]
pub struct HypothesisId(pub String);

impl View for HypothesisId {
    type V = Seq<char>;

    open spec fn view(&self) -> Seq<char> {
        self.0@
    }
}

impl HypothesisId {
    /// The identifier's text.
    pub fn as_str(&self) -> (r: &str)
        ensures
            r@ == self@,
    {
        self.0.as_str()
    }
}

impl From<&str> for HypothesisId {
    fn from(value: &str) -> (r: Self)
        ensures
            r@ == value@,
    {
        HypothesisId(value.to_owned())
    }
}

impl vstd::std_specs::convert::FromSpecImpl<&str> for HypothesisId {
    open spec fn obeys_from_spec() -> bool {
        false
    }

    open spec fn from_spec(v: &str) -> Self {
        HypothesisId(arbitrary())
    }
}

impl From<String> for HypothesisId {
    fn from(value: String) -> (r: Self)
        ensures
            r@ == value@,
    {
        HypothesisId(value)
    }
}

impl vstd::std_specs::convert::FromSpecImpl<String> for HypothesisId {
    open spec fn obeys_from_spec() -> bool {
        false
    }

    open spec fn from_spec(v: String) -> Self {
        HypothesisId(v)
    }
}

impl AsRef<str> for HypothesisId {
    fn as_ref(&self) -> (r: &str)
        ensures
            r@ == self@,
    {
        self.0.as_str()
    }
}

/// Stable ID for a transcript span.
#[derive(Debug, Clone, PartialEq, Eq, PartialOrd, Ord, Hash)]
pub struct TranscriptSpanId(pub String);

impl View for TranscriptSpanId {
    type V = Seq<char>;

    open spec fn view(&self) -> Seq<char> {
        self.0@
    }
}

impl TranscriptSpanId {
    /// The identifier's text.
    pub fn as_str(&self) -> (r: &str)
        ensures
            r@ == self@,
    {
        self.0.as_str()
    }
}

impl From<&str> for TranscriptSpanId {
    fn from(value: &str) -> (r: Self)
        ensures
            r@ == value@,
    {
        TranscriptSpanId(value.to_owned())
    }
}

impl vstd::std_specs::convert::FromSpecImpl<&str> for TranscriptSpanId {
    open spec fn obeys_from_spec() -> bool {
        false
    }

    open spec fn from_spec(v: &str) -> Self {
        TranscriptSpanId(arbitrary())
    }
}

impl From<String> for TranscriptSpanId {
    fn from(value: String) -> (r: Self)
        ensures
            r@ == value@,
    {
        TranscriptSpanId(value)
    }
}

impl vstd::std_specs::convert::FromSpecImpl<String> for TranscriptSpanId {
    open spec fn obeys_from_spec() -> bool {
        false
    }

    open spec fn from_spec(v: String) -> Self {
        TranscriptSpanId(v)
    }
}

impl AsRef<str> for TranscriptSpanId {
    fn as_ref(&self) -> (r: &str)
        ensures
            r@ == self@,
    {
        self.0.as_str()
    }
}

/// Stable ID for a transcript commit.
#[derive(Debug, Clone, PartialEq, Eq, PartialOrd, Ord, Hash)]
pub struct CommitId(pub String);

impl View for CommitId {
    type V = Seq<char>;

    open spec fn view(&self) -> Seq<char> {
        self.0@
    }
}

impl CommitId {
    /// The identifier's text.
    pub fn as_str(&self) -> (r: &str)
        ensures
            r@ == self@,
    {
        self.0.as_str()
    }
}

impl From<&str> for CommitId {
    fn from(value: &str) -> (r: Self)
        ensures
            r@ == value@,
    {
        CommitId(value.to_owned())
    }
}

impl vstd::std_specs::convert::FromSpecImpl<&str> for CommitId {
    open spec fn obeys_from_spec() -> bool {
        false
    }

    open spec fn from_spec(v: &str) -> Self {
        CommitId(arbitrary())
    }
}

impl From<String> for CommitId {
    fn from(value: String) -> (r: Self)
        ensures
            r@ == value@,
    {
        CommitId(value)
    }
}

impl vstd::std_specs::convert::FromSpecImpl<String> for CommitId {
    open spec fn obeys_from_spec() -> bool {
        false
    }

    open spec fn from_spec(v: String) -> Self {
        CommitId(v)
    }
}

impl AsRef<str> for CommitId {
    fn as_ref(&self) -> (r: &str)
        ensures
            r@ == self@,
    {
        self.0.as_str()
    }
}

/// Stable ID for a generated memo.
#[derive(Debug, Clone, PartialEq, Eq, PartialOrd, Ord, Hash)]
pub struct MemoId(pub String);

impl View for MemoId {
    type V = Seq<char>;

    open spec fn view(&self) -> Seq<char> {
        self.0@
    }
}

impl MemoId {
    /// The identifier's text.
    pub fn as_str(&self) -> (r: &str)
        ensures
            r@ == self@,
    {
        self.0.as_str()
    }
}

impl From<&str> for MemoId {
    fn from(value: &str) -> (r: Self)
        ensures
            r@ == value@,
    {
        MemoId(value.to_owned())
    }
}

impl vstd::std_specs::convert::FromSpecImpl<&str> for MemoId {
    open spec fn obeys_from_spec() -> bool {
        false
    }

    open spec fn from_spec(v: &str) -> Self {
        MemoId(arbitrary())
    }
}

impl From<String> for MemoId {
    fn from(value: String) -> (r: Self)
        ensures
            r@ == value@,
    {
        MemoId(value)
    }
}

impl vstd::std_specs::convert::FromSpecImpl<String> for MemoId {
    open spec fn obeys_from_spec() -> bool {
        false
    }

    open spec fn from_spec(v: String) -> Self {
        MemoId(v)
    }
}

impl AsRef<str> for MemoId {
    fn as_ref(&self) -> (r: &str)
        ensures
            r@ == self@,
    {
        self.0.as_str()
    }
}

/// Stable ID for a generated artifact.
#[derive(Debug, Clone, PartialEq, Eq, PartialOrd, Ord, Hash)]
pub struct ArtifactId(pub String);

impl View for ArtifactId {
    type V = Seq<char>;

    open spec fn view(&self) -> Seq<char> {
        self.0@
    }
}

impl ArtifactId {
    /// The identifier's text.
    pub fn as_str(&self) -> (r: &str)
        ensures
            r@ == self@,
    {
        self.0.as_str()
    }
}

impl From<&str> for ArtifactId {
    fn from(value: &str) -> (r: Self)
        ensures
            r@ == value@,
    {
        ArtifactId(value.to_owned())
    }
}

impl vstd::std_specs::convert::FromSpecImpl<&str> for ArtifactId {
    open spec fn obeys_from_spec() -> bool {
        false
    }

    open spec fn from_spec(v: &str) -> Self {
        ArtifactId(arbitrary())
    }
}

impl From<String> for ArtifactId {
    fn from(value: String) -> (r: Self)
        ensures
            r@ == value@,
    {
        ArtifactId(value)
    }
}

impl vstd::std_specs::convert::FromSpecImpl<String> for ArtifactId {
    open spec fn obeys_from_spec() -> bool {
        false
    }

    open spec fn from_spec(v: String) -> Self {
        ArtifactId(v)
    }
}

impl AsRef<str> for ArtifactId {
    fn as_ref(&self) -> (r: &str)
        ensures
            r@ == self@,
    {
        self.0.as_str()
    }
}

/// Milliseconds since the Unix epoch.
#[derive(Debug, Clone, Copy, PartialEq, Eq, PartialOrd, Ord, Hash)]
pub struct UnixMillis(pub u64);

/// Milliseconds from the session's monotonic time origin.
#[derive(Debug, Clone, Copy, PartialEq, Eq, PartialOrd, Ord, Hash)]
pub struct SessionMillis(pub u64);

/// An elapsed duration in milliseconds.
#[derive(Debug, Clone, Copy, PartialEq, Eq, PartialOrd, Ord, Hash)]
pub struct DurationMillis(pub u64);

#[derive(Debug, Clone, Copy, PartialEq, Eq, Structural)]
pub enum CaptureSourceKindV1 {
    Microphone,
    SystemAudio,
    RemoteParticipant,
    Media,
    Mixed,
}

#[derive(Debug, Clone, Copy, PartialEq, Eq, Structural)]
pub enum AudioCodecV1 {
    PcmS16Le,
    PcmF32Le,
    Opus,
    AacLc,
}

#[derive(Debug, Clone, Copy, PartialEq, Eq, Structural)]
pub enum AudioContainerV1 {
    Raw,
    Webm,
    Ogg,
    Mp4,
}

#[derive(Debug, Clone, Copy, PartialEq, Eq, Structural)]
pub enum DigestAlgorithmV1 {
    Sha256,
    Blake3,
}

#[derive(Debug, Clone, Copy, PartialEq, Eq, Structural)]
pub enum DiscontinuityReasonV1 {
    QueueOverflow,
    DeviceUnavailable,
    PermissionRevoked,
    ClockReset,
    SuspendResume,
    NetworkLoss,
    SourceEnded,
    Unknown,
}

#[derive(Debug, Clone, Copy, PartialEq, Eq, Structural)]
pub enum CaptureHealthStateV1 {
    Healthy,
    Degraded,
    Stalled,
    Recovered,
    Ended,
}

#[derive(Debug, Clone, Copy, PartialEq, Eq, Structural)]
pub enum CaptureModeV1 {
    Live,
    Imported,
    Relayed,
}

#[derive(Debug, Clone, Copy, PartialEq, Eq, Structural)]
pub enum SegmentCloseReasonV1 {
    Pause,
    Rollover,
    SourceEnded,
    Stop,
    Error,
}

#[derive(Debug, Clone, Copy, PartialEq, Eq, Structural)]
pub enum SessionFinalizeReasonV1 {
    Completed,
    Cancelled,
    SourceEnded,
    Error,
}

#[derive(Debug, Clone, Copy, PartialEq, Eq, Structural)]
pub enum MemoStatusV1 {
    Partial,
    Final,
}

#[derive(Debug, Clone, Copy, PartialEq, Eq, Structural)]
pub enum ArtifactKindV1 {
    Transcript,
    Memo,
    Audio,
    Captions,
    Other,
}

/// A half-open lane sequence range: `[start, end_exclusive)`.
#[derive(Debug, Clone, Copy, PartialEq, Eq)]
pub struct SequenceRangeV1 {
    pub start: u64,
    pub end_exclusive: u64,
}

/// Field-wise equality of two `SequenceRangeV1` values.
pub open spec fn spec_same_sequence_range_v1(a: SequenceRangeV1, b: SequenceRangeV1) -> bool {
    &&& a.start == b.start
    &&& a.end_exclusive == b.end_exclusive
}

/// `==` on `SequenceRangeV1`.
pub fn same_sequence_range_v1(a: &SequenceRangeV1, b: &SequenceRangeV1) -> (r: bool)
    ensures
        r == spec_same_sequence_range_v1(*a, *b),
{
    a.start == b.start
        && a.end_exclusive == b.end_exclusive
}

#[derive(Debug, Clone, Copy, PartialEq, Eq)]
pub struct AudioFormatV1 {
    pub codec: AudioCodecV1,
    pub container: AudioContainerV1,
    pub sample_rate_hz: u32,
    pub channel_count: u16,
}

/// Field-wise equality of two `AudioFormatV1` values.
pub open spec fn spec_same_audio_format_v1(a: AudioFormatV1, b: AudioFormatV1) -> bool {
    &&& a.codec == b.codec
    &&& a.container == b.container
    &&& a.sample_rate_hz == b.sample_rate_hz
    &&& a.channel_count == b.channel_count
}

/// `==` on `AudioFormatV1`.
pub fn same_audio_format_v1(a: &AudioFormatV1, b: &AudioFormatV1) -> (r: bool)
    ensures
        r == spec_same_audio_format_v1(*a, *b),
{
    a.codec == b.codec
        && a.container == b.container
        && a.sample_rate_hz == b.sample_rate_hz
        && a.channel_count == b.channel_count
}

/// Dependency-free representation of a content digest; `hex` holds lowercase hexadecimal digest bytes.
#[derive(Debug, Clone, PartialEq, Eq)]
pub struct ContentDigestV1 {
    pub algorithm: DigestAlgorithmV1,
    pub hex: String,
}

/// Field-wise equality of two `ContentDigestV1` values.
pub open spec fn spec_same_content_digest_v1(a: ContentDigestV1, b: ContentDigestV1) -> bool {
    &&& a.algorithm == b.algorithm
    &&& a.hex@ == b.hex@
}

/// `==` on `ContentDigestV1`.
pub fn same_content_digest_v1(a: &ContentDigestV1, b: &ContentDigestV1) -> (r: bool)
    ensures
        r == spec_same_content_digest_v1(*a, *b),
{
    a.algorithm == b.algorithm
        && a.hex == b.hex
}

/// A logical source from which one or more capture lanes are derived. `external_id` is opaque.
#[derive(Debug, Clone, PartialEq, Eq)]
pub struct CaptureSourceV1 {
    pub source_id: SourceId,
    pub kind: CaptureSourceKindV1,
    pub label: Option<String>,
    pub external_id: Option<String>,
}

/// Field-wise equality of two `CaptureSourceV1` values.
pub open spec fn spec_same_capture_source_v1(a: CaptureSourceV1, b: CaptureSourceV1) -> bool {
    &&& a.source_id@ == b.source_id@
    &&& a.kind == b.kind
    &&& opt_text(a.label) == opt_text(b.label)
    &&& opt_text(a.external_id) == opt_text(b.external_id)
}

/// `==` on `CaptureSourceV1`.
pub fn same_capture_source_v1(a: &CaptureSourceV1, b: &CaptureSourceV1) -> (r: bool)
    ensures
        r == spec_same_capture_source_v1(*a, *b),
{
    a.source_id.0 == b.source_id.0
        && a.kind == b.kind
        && opt_string_eq(&a.label, &b.label)
        && opt_string_eq(&a.external_id, &b.external_id)
}

/// An independently ordered stream of encoded audio chunks.
#[derive(Debug, Clone, PartialEq, Eq)]
pub struct CaptureLaneV1 {
    pub lane_id: LaneId,
    pub source_ids: Vec<SourceId>,
    pub label: Option<String>,
    pub format: AudioFormatV1,
}

/// Field-wise equality of two `CaptureLaneV1` values.
pub open spec fn spec_same_capture_lane_v1(a: CaptureLaneV1, b: CaptureLaneV1) -> bool {
    &&& a.lane_id@ == b.lane_id@
    &&& spec_same_seq_source_id(a.source_ids@, b.source_ids@)
    &&& opt_text(a.label) == opt_text(b.label)
    &&& spec_same_audio_format_v1(a.format, b.format)
}

/// `==` on `CaptureLaneV1`.
pub fn same_capture_lane_v1(a: &CaptureLaneV1, b: &CaptureLaneV1) -> (r: bool)
    ensures
        r == spec_same_capture_lane_v1(*a, *b),
{
    a.lane_id.0 == b.lane_id.0
        && same_vec_source_id(&a.source_ids, &b.source_ids)
        && opt_string_eq(&a.label, &b.label)
        && same_audio_format_v1(&a.format, &b.format)
}

/// One hop of capture lineage. `attributes` are small, non-secret labels as key/value pairs in key order.
#[derive(Debug, Clone, PartialEq, Eq)]
pub struct CaptureProvenanceHopV1 {
    pub producer: String,
    pub producer_version: Option<String>,
    pub mode: CaptureModeV1,
    pub observed_at_unix_ms: UnixMillis,
    pub attributes: Vec<(String, String)>,
}

/// Field-wise equality of two `CaptureProvenanceHopV1` values.
pub open spec fn spec_same_capture_provenance_hop_v1(a: CaptureProvenanceHopV1, b: CaptureProvenanceHopV1) -> bool {
    &&& a.producer@ == b.producer@
    &&& opt_text(a.producer_version) == opt_text(b.producer_version)
    &&& a.mode == b.mode
    &&& a.observed_at_unix_ms.0 == b.observed_at_unix_ms.0
    &&& pairs_text(a.attributes@) == pairs_text(b.attributes@)
}

/// `==` on `CaptureProvenanceHopV1`.
pub fn same_capture_provenance_hop_v1(a: &CaptureProvenanceHopV1, b: &CaptureProvenanceHopV1) -> (r: bool)
    ensures
        r == spec_same_capture_provenance_hop_v1(*a, *b),
{
    a.producer == b.producer
        && opt_string_eq(&a.producer_version, &b.producer_version)
        && a.mode == b.mode
        && a.observed_at_unix_ms.0 == b.observed_at_unix_ms.0
        && string_pairs_eq(&a.attributes, &b.attributes)
}

/// Ordered capture lineage, from the original producer through any relay.
#[derive(Debug, Clone, PartialEq, Eq)]
pub struct CaptureProvenanceV1 {
    pub hops: Vec<CaptureProvenanceHopV1>,
}

/// Field-wise equality of two `CaptureProvenanceV1` values.
pub open spec fn spec_same_capture_provenance_v1(a: CaptureProvenanceV1, b: CaptureProvenanceV1) -> bool {
    &&& spec_same_seq_capture_provenance_hop_v1(a.hops@, b.hops@)
}

/// `==` on `CaptureProvenanceV1`.
pub fn same_capture_provenance_v1(a: &CaptureProvenanceV1, b: &CaptureProvenanceV1) -> (r: bool)
    ensures
        r == spec_same_capture_provenance_v1(*a, *b),
{
    same_vec_capture_provenance_hop_v1(&a.hops, &b.hops)
}

/// Creates a session and declares its initial capture graph. `idempotency_key` is stable across retries.
#[derive(Debug, Clone, PartialEq, Eq)]
pub struct CreateSessionV1 {
    pub idempotency_key: String,
    pub started_at_unix_ms: UnixMillis,
    pub title: Option<String>,
    pub sources: Vec<CaptureSourceV1>,
    pub lanes: Vec<CaptureLaneV1>,
    pub provenance: CaptureProvenanceV1,
}

/// Field-wise equality of two `CreateSessionV1` values.
pub open spec fn spec_same_create_session_v1(a: CreateSessionV1, b: CreateSessionV1) -> bool {
    &&& a.idempotency_key@ == b.idempotency_key@
    &&& a.started_at_unix_ms.0 == b.started_at_unix_ms.0
    &&& opt_text(a.title) == opt_text(b.title)
    &&& spec_same_seq_capture_source_v1(a.sources@, b.sources@)
    &&& spec_same_seq_capture_lane_v1(a.lanes@, b.lanes@)
    &&& spec_same_capture_provenance_v1(a.provenance, b.provenance)
}

/// `==` on `CreateSessionV1`.
pub fn same_create_session_v1(a: &CreateSessionV1, b: &CreateSessionV1) -> (r: bool)
    ensures
        r == spec_same_create_session_v1(*a, *b),
{
    a.idempotency_key == b.idempotency_key
        && a.started_at_unix_ms.0 == b.started_at_unix_ms.0
        && opt_string_eq(&a.title, &b.title)
        && same_vec_capture_source_v1(&a.sources, &b.sources)
        && same_vec_capture_lane_v1(&a.lanes, &b.lanes)
        && same_capture_provenance_v1(&a.provenance, &b.provenance)
}

/// Confirms that a create command resolved to a durable session.
#[derive(Debug, Clone, PartialEq, Eq)]
pub struct SessionCreatedV1 {
    pub create_message_id: MessageId,
    pub created_at_unix_ms: UnixMillis,
}

/// Field-wise equality of two `SessionCreatedV1` values.
pub open spec fn spec_same_session_created_v1(a: SessionCreatedV1, b: SessionCreatedV1) -> bool {
    &&& a.create_message_id@ == b.create_message_id@
    &&& a.created_at_unix_ms.0 == b.created_at_unix_ms.0
}

/// `==` on `SessionCreatedV1`.
pub fn same_session_created_v1(a: &SessionCreatedV1, b: &SessionCreatedV1) -> (r: bool)
    ensures
        r == spec_same_session_created_v1(*a, *b),
{
    a.create_message_id.0 == b.create_message_id.0
        && a.created_at_unix_ms.0 == b.created_at_unix_ms.0
}

/// Requests replay of server events after a reconnect; `None` requests the complete retained stream.
#[derive(Debug, Clone, PartialEq, Eq)]
pub struct ResumeSessionV1 {
    pub after_server_sequence: Option<u64>,
}

/// Field-wise equality of two `ResumeSessionV1` values.
pub open spec fn spec_same_resume_session_v1(a: ResumeSessionV1, b: ResumeSessionV1) -> bool {
    &&& opt_same(a.after_server_sequence, b.after_server_sequence, |x: u64, y: u64| x == y)
}

/// `==` on `ResumeSessionV1`.
pub fn same_resume_session_v1(a: &ResumeSessionV1, b: &ResumeSessionV1) -> (r: bool)
    ensures
        r == spec_same_resume_session_v1(*a, *b),
{
    (match (&a.after_server_sequence, &b.after_server_sequence) { (Some(x), Some(y)) => *x == *y, (None, None) => true, _ => false })
}

/// Marks the durable watermark covered by one replay request.
#[derive(Debug, Clone, PartialEq, Eq)]
pub struct ReplayCompletedV1 {
    pub resume_message_id: MessageId,
    pub replayed_through_server_sequence: Option<u64>,
}

/// Field-wise equality of two `ReplayCompletedV1` values.
pub open spec fn spec_same_replay_completed_v1(a: ReplayCompletedV1, b: ReplayCompletedV1) -> bool {
    &&& a.resume_message_id@ == b.resume_message_id@
    &&& opt_same(a.replayed_through_server_sequence, b.replayed_through_server_sequence, |x: u64, y: u64| x == y)
}

/// `==` on `ReplayCompletedV1`.
pub fn same_replay_completed_v1(a: &ReplayCompletedV1, b: &ReplayCompletedV1) -> (r: bool)
    ensures
        r == spec_same_replay_completed_v1(*a, *b),
{
    a.resume_message_id.0 == b.resume_message_id.0
        && (match (&a.replayed_through_server_sequence, &b.replayed_through_server_sequence) { (Some(x), Some(y)) => *x == *y, (None, None) => true, _ => false })
}

/// A stable, machine-readable rejection of a client command. `details` are key/value pairs in key order.
#[derive(Debug, Clone, PartialEq, Eq)]
pub struct CommandRejectedV1 {
    pub rejected_message_id: MessageId,
    pub code: String,
    pub retryable: bool,
    pub message: Option<String>,
    pub details: Vec<(String, String)>,
}

/// Field-wise equality of two `CommandRejectedV1` values.
pub open spec fn spec_same_command_rejected_v1(a: CommandRejectedV1, b: CommandRejectedV1) -> bool {
    &&& a.rejected_message_id@ == b.rejected_message_id@
    &&& a.code@ == b.code@
    &&& a.retryable == b.retryable
    &&& opt_text(a.message) == opt_text(b.message)
    &&& pairs_text(a.details@) == pairs_text(b.details@)
}

/// `==` on `CommandRejectedV1`.
pub fn same_command_rejected_v1(a: &CommandRejectedV1, b: &CommandRejectedV1) -> (r: bool)
    ensures
        r == spec_same_command_rejected_v1(*a, *b),
{
    a.rejected_message_id.0 == b.rejected_message_id.0
        && a.code == b.code
        && a.retryable == b.retryable
        && opt_string_eq(&a.message, &b.message)
        && string_pairs_eq(&a.details, &b.details)
}

/// One audio payload in the lane-local sequence namespace.
#[derive(Debug, Clone, PartialEq, Eq)]
pub struct AudioChunkV1 {
    pub segment_id: SegmentId,
    pub lane_id: LaneId,
    pub sequence: u64,
    pub starts_at_ms: SessionMillis,
    pub duration_ms: DurationMillis,
    pub payload_digest: ContentDigestV1,
    pub payload: Vec<u8>,
}

/// Field-wise equality of two `AudioChunkV1` values.
pub open spec fn spec_same_audio_chunk_v1(a: AudioChunkV1, b: AudioChunkV1) -> bool {
    &&& a.segment_id@ == b.segment_id@
    &&& a.lane_id@ == b.lane_id@
    &&& a.sequence == b.sequence
    &&& a.starts_at_ms.0 == b.starts_at_ms.0
    &&& a.duration_ms.0 == b.duration_ms.0
    &&& spec_same_content_digest_v1(a.payload_digest, b.payload_digest)
    &&& a.payload@ == b.payload@
}

/// `==` on `AudioChunkV1`.
pub fn same_audio_chunk_v1(a: &AudioChunkV1, b: &AudioChunkV1) -> (r: bool)
    ensures
        r == spec_same_audio_chunk_v1(*a, *b),
{
    a.segment_id.0 == b.segment_id.0
        && a.lane_id.0 == b.lane_id.0
        && a.sequence == b.sequence
        && a.starts_at_ms.0 == b.starts_at_ms.0
        && a.duration_ms.0 == b.duration_ms.0
        && same_content_digest_v1(&a.payload_digest, &b.payload_digest)
        && bytes_eq(&a.payload, &b.payload)
}

/// Cumulative durable receipt state for one ordered lane.
#[derive(Debug, Clone, PartialEq, Eq)]
pub struct AudioAcknowledgementV1 {
    pub segment_id: SegmentId,
    pub lane_id: LaneId,
    pub durable_through_sequence: u64,
    pub durable_out_of_order: Vec<SequenceRangeV1>,
}

/// Field-wise equality of two `AudioAcknowledgementV1` values.
pub open spec fn spec_same_audio_acknowledgement_v1(a: AudioAcknowledgementV1, b: AudioAcknowledgementV1) -> bool {
    &&& a.segment_id@ == b.segment_id@
    &&& a.lane_id@ == b.lane_id@
    &&& a.durable_through_sequence == b.durable_through_sequence
    &&& spec_same_seq_sequence_range_v1(a.durable_out_of_order@, b.durable_out_of_order@)
}

/// `==` on `AudioAcknowledgementV1`.
pub fn same_audio_acknowledgement_v1(a: &AudioAcknowledgementV1, b: &AudioAcknowledgementV1) -> (r: bool)
    ensures
        r == spec_same_audio_acknowledgement_v1(*a, *b),
{
    a.segment_id.0 == b.segment_id.0
        && a.lane_id.0 == b.lane_id.0
        && a.durable_through_sequence == b.durable_through_sequence
        && same_vec_sequence_range_v1(&a.durable_out_of_order, &b.durable_out_of_order)
}

/// Declares audio that cannot be retransmitted.
#[derive(Debug, Clone, PartialEq, Eq)]
pub struct CaptureDiscontinuityV1 {
    pub discontinuity_id: DiscontinuityId,
    pub segment_id: SegmentId,
    pub lane_id: LaneId,
    pub sequence_range: SequenceRangeV1,
    pub starts_at_ms: SessionMillis,
    pub duration_ms: DurationMillis,
    pub reason: DiscontinuityReasonV1,
    pub detail: Option<String>,
}

/// Field-wise equality of two `CaptureDiscontinuityV1` values.
pub open spec fn spec_same_capture_discontinuity_v1(a: CaptureDiscontinuityV1, b: CaptureDiscontinuityV1) -> bool {
    &&& a.discontinuity_id@ == b.discontinuity_id@
    &&& a.segment_id@ == b.segment_id@
    &&& a.lane_id@ == b.lane_id@
    &&& spec_same_sequence_range_v1(a.sequence_range, b.sequence_range)
    &&& a.starts_at_ms.0 == b.starts_at_ms.0
    &&& a.duration_ms.0 == b.duration_ms.0
    &&& a.reason == b.reason
    &&& opt_text(a.detail) == opt_text(b.detail)
}

/// `==` on `CaptureDiscontinuityV1`.
pub fn same_capture_discontinuity_v1(a: &CaptureDiscontinuityV1, b: &CaptureDiscontinuityV1) -> (r: bool)
    ensures
        r == spec_same_capture_discontinuity_v1(*a, *b),
{
    a.discontinuity_id.0 == b.discontinuity_id.0
        && a.segment_id.0 == b.segment_id.0
        && a.lane_id.0 == b.lane_id.0
        && same_sequence_range_v1(&a.sequence_range, &b.sequence_range)
        && a.starts_at_ms.0 == b.starts_at_ms.0
        && a.duration_ms.0 == b.duration_ms.0
        && a.reason == b.reason
        && opt_string_eq(&a.detail, &b.detail)
}

/// A capture-health observation.
#[derive(Debug, Clone, PartialEq, Eq)]
pub struct CaptureHealthV1 {
    pub observed_at_ms: SessionMillis,
    pub lane_id: Option<LaneId>,
    pub state: CaptureHealthStateV1,
    pub queued_audio_ms: Option<DurationMillis>,
    pub dropped_chunk_count: u64,
    pub clock_skew_ms: Option<i64>,
    pub detail: Option<String>,
}

/// Field-wise equality of two `CaptureHealthV1` values.
pub open spec fn spec_same_capture_health_v1(a: CaptureHealthV1, b: CaptureHealthV1) -> bool {
    &&& a.observed_at_ms.0 == b.observed_at_ms.0
    &&& opt_same(a.lane_id, b.lane_id, |x: LaneId, y: LaneId| x@ == y@)
    &&& a.state == b.state
    &&& opt_same(a.queued_audio_ms, b.queued_audio_ms, |x: DurationMillis, y: DurationMillis| x.0 == y.0)
    &&& a.dropped_chunk_count == b.dropped_chunk_count
    &&& opt_same(a.clock_skew_ms, b.clock_skew_ms, |x: i64, y: i64| x == y)
    &&& opt_text(a.detail) == opt_text(b.detail)
}

/// `==` on `CaptureHealthV1`.
pub fn same_capture_health_v1(a: &CaptureHealthV1, b: &CaptureHealthV1) -> (r: bool)
    ensures
        r == spec_same_capture_health_v1(*a, *b),
{
    a.observed_at_ms.0 == b.observed_at_ms.0
        && (match (&a.lane_id, &b.lane_id) { (Some(x), Some(y)) => x.0 == y.0, (None, None) => true, _ => false })
        && a.state == b.state
        && (match (&a.queued_audio_ms, &b.queued_audio_ms) { (Some(x), Some(y)) => x.0 == y.0, (None, None) => true, _ => false })
        && a.dropped_chunk_count == b.dropped_chunk_count
        && (match (&a.clock_skew_ms, &b.clock_skew_ms) { (Some(x), Some(y)) => *x == *y, (None, None) => true, _ => false })
        && opt_string_eq(&a.detail, &b.detail)
}

/// Appends relay lineage without rewriting an idempotent original command.
#[derive(Debug, Clone, PartialEq, Eq)]
pub struct AppendProvenanceHopV1 {
    pub provenance_hop_id: String,
    pub hop: CaptureProvenanceHopV1,
}

/// Field-wise equality of two `AppendProvenanceHopV1` values.
pub open spec fn spec_same_append_provenance_hop_v1(a: AppendProvenanceHopV1, b: AppendProvenanceHopV1) -> bool {
    &&& a.provenance_hop_id@ == b.provenance_hop_id@
    &&& spec_same_capture_provenance_hop_v1(a.hop, b.hop)
}

/// `==` on `AppendProvenanceHopV1`.
pub fn same_append_provenance_hop_v1(a: &AppendProvenanceHopV1, b: &AppendProvenanceHopV1) -> (r: bool)
    ensures
        r == spec_same_append_provenance_hop_v1(*a, *b),
{
    a.provenance_hop_id == b.provenance_hop_id
        && same_capture_provenance_hop_v1(&a.hop, &b.hop)
}

/// Confirms that a relay provenance hop was durably recorded.
#[derive(Debug, Clone, PartialEq, Eq)]
pub struct ProvenanceHopRecordedV1 {
    pub append_message_id: MessageId,
    pub provenance_hop_id: String,
}

/// Field-wise equality of two `ProvenanceHopRecordedV1` values.
pub open spec fn spec_same_provenance_hop_recorded_v1(a: ProvenanceHopRecordedV1, b: ProvenanceHopRecordedV1) -> bool {
    &&& a.append_message_id@ == b.append_message_id@
    &&& a.provenance_hop_id@ == b.provenance_hop_id@
}

/// `==` on `ProvenanceHopRecordedV1`.
pub fn same_provenance_hop_recorded_v1(a: &ProvenanceHopRecordedV1, b: &ProvenanceHopRecordedV1) -> (r: bool)
    ensures
        r == spec_same_provenance_hop_recorded_v1(*a, *b),
{
    a.append_message_id.0 == b.append_message_id.0
        && a.provenance_hop_id == b.provenance_hop_id
}

/// Exclusive next sequence expected for a lane when a segment closes.
#[derive(Debug, Clone, PartialEq, Eq)]
pub struct LaneBoundaryV1 {
    pub lane_id: LaneId,
    pub next_sequence: u64,
}

/// Field-wise equality of two `LaneBoundaryV1` values.
pub open spec fn spec_same_lane_boundary_v1(a: LaneBoundaryV1, b: LaneBoundaryV1) -> bool {
    &&& a.lane_id@ == b.lane_id@
    &&& a.next_sequence == b.next_sequence
}

/// `==` on `LaneBoundaryV1`.
pub fn same_lane_boundary_v1(a: &LaneBoundaryV1, b: &LaneBoundaryV1) -> (r: bool)
    ensures
        r == spec_same_lane_boundary_v1(*a, *b),
{
    a.lane_id.0 == b.lane_id.0
        && a.next_sequence == b.next_sequence
}

/// Announces an immutable end boundary for a segment.
#[derive(Debug, Clone, PartialEq, Eq)]
pub struct CloseSegmentV1 {
    pub segment_id: SegmentId,
    pub ended_at_ms: SessionMillis,
    pub lane_boundaries: Vec<LaneBoundaryV1>,
    pub reason: SegmentCloseReasonV1,
}

/// Field-wise equality of two `CloseSegmentV1` values.
pub open spec fn spec_same_close_segment_v1(a: CloseSegmentV1, b: CloseSegmentV1) -> bool {
    &&& a.segment_id@ == b.segment_id@
    &&& a.ended_at_ms.0 == b.ended_at_ms.0
    &&& spec_same_seq_lane_boundary_v1(a.lane_boundaries@, b.lane_boundaries@)
    &&& a.reason == b.reason
}

/// `==` on `CloseSegmentV1`.
pub fn same_close_segment_v1(a: &CloseSegmentV1, b: &CloseSegmentV1) -> (r: bool)
    ensures
        r == spec_same_close_segment_v1(*a, *b),
{
    a.segment_id.0 == b.segment_id.0
        && a.ended_at_ms.0 == b.ended_at_ms.0
        && same_vec_lane_boundary_v1(&a.lane_boundaries, &b.lane_boundaries)
        && a.reason == b.reason
}

/// Confirms all chunks or discontinuities below the close boundary are durable.
#[derive(Debug, Clone, PartialEq, Eq)]
pub struct SegmentFinalizedV1 {
    pub segment_id: SegmentId,
    pub close_message_id: MessageId,
    pub finalized_at_unix_ms: UnixMillis,
    pub duration_ms: DurationMillis,
    pub lane_boundaries: Vec<LaneBoundaryV1>,
}

/// Field-wise equality of two `SegmentFinalizedV1` values.
pub open spec fn spec_same_segment_finalized_v1(a: SegmentFinalizedV1, b: SegmentFinalizedV1) -> bool {
    &&& a.segment_id@ == b.segment_id@
    &&& a.close_message_id@ == b.close_message_id@
    &&& a.finalized_at_unix_ms.0 == b.finalized_at_unix_ms.0
    &&& a.duration_ms.0 == b.duration_ms.0
    &&& spec_same_seq_lane_boundary_v1(a.lane_boundaries@, b.lane_boundaries@)
}

/// `==` on `SegmentFinalizedV1`.
pub fn same_segment_finalized_v1(a: &SegmentFinalizedV1, b: &SegmentFinalizedV1) -> (r: bool)
    ensures
        r == spec_same_segment_finalized_v1(*a, *b),
{
    a.segment_id.0 == b.segment_id.0
        && a.close_message_id.0 == b.close_message_id.0
        && a.finalized_at_unix_ms.0 == b.finalized_at_unix_ms.0
        && a.duration_ms.0 == b.duration_ms.0
        && same_vec_lane_boundary_v1(&a.lane_boundaries, &b.lane_boundaries)
}

/// Identifies the exact close operation that must finalize a segment.
#[derive(Debug, Clone, PartialEq, Eq)]
pub struct SegmentCloseReferenceV1 {
    pub segment_id: SegmentId,
    pub close_message_id: MessageId,
}

/// Field-wise equality of two `SegmentCloseReferenceV1` values.
pub open spec fn spec_same_segment_close_reference_v1(a: SegmentCloseReferenceV1, b: SegmentCloseReferenceV1) -> bool {
    &&& a.segment_id@ == b.segment_id@
    &&& a.close_message_id@ == b.close_message_id@
}

/// `==` on `SegmentCloseReferenceV1`.
pub fn same_segment_close_reference_v1(a: &SegmentCloseReferenceV1, b: &SegmentCloseReferenceV1) -> (r: bool)
    ensures
        r == spec_same_segment_close_reference_v1(*a, *b),
{
    a.segment_id.0 == b.segment_id.0
        && a.close_message_id.0 == b.close_message_id.0
}

/// Requests that no unlisted segments be accepted for the session.
#[derive(Debug, Clone, PartialEq, Eq)]
pub struct FinalizeSessionV1 {
    pub ended_at_ms: SessionMillis,
    pub segment_closes: Vec<SegmentCloseReferenceV1>,
    pub reason: SessionFinalizeReasonV1,
}

/// Field-wise equality of two `FinalizeSessionV1` values.
pub open spec fn spec_same_finalize_session_v1(a: FinalizeSessionV1, b: FinalizeSessionV1) -> bool {
    &&& a.ended_at_ms.0 == b.ended_at_ms.0
    &&& spec_same_seq_segment_close_reference_v1(a.segment_closes@, b.segment_closes@)
    &&& a.reason == b.reason
}

/// `==` on `FinalizeSessionV1`.
pub fn same_finalize_session_v1(a: &FinalizeSessionV1, b: &FinalizeSessionV1) -> (r: bool)
    ensures
        r == spec_same_finalize_session_v1(*a, *b),
{
    a.ended_at_ms.0 == b.ended_at_ms.0
        && same_vec_segment_close_reference_v1(&a.segment_closes, &b.segment_closes)
        && a.reason == b.reason
}

/// Confirms the session boundary and exact finalized segment set.
#[derive(Debug, Clone, PartialEq, Eq)]
pub struct SessionFinalizedV1 {
    pub finalize_message_id: MessageId,
    pub finalized_at_unix_ms: UnixMillis,
    pub duration_ms: DurationMillis,
    pub segment_closes: Vec<SegmentCloseReferenceV1>,
}

/// Field-wise equality of two `SessionFinalizedV1` values.
pub open spec fn spec_same_session_finalized_v1(a: SessionFinalizedV1, b: SessionFinalizedV1) -> bool {
    &&& a.finalize_message_id@ == b.finalize_message_id@
    &&& a.finalized_at_unix_ms.0 == b.finalized_at_unix_ms.0
    &&& a.duration_ms.0 == b.duration_ms.0
    &&& spec_same_seq_segment_close_reference_v1(a.segment_closes@, b.segment_closes@)
}

/// `==` on `SessionFinalizedV1`.
pub fn same_session_finalized_v1(a: &SessionFinalizedV1, b: &SessionFinalizedV1) -> (r: bool)
    ensures
        r == spec_same_session_finalized_v1(*a, *b),
{
    a.finalize_message_id.0 == b.finalize_message_id.0
        && a.finalized_at_unix_ms.0 == b.finalized_at_unix_ms.0
        && a.duration_ms.0 == b.duration_ms.0
        && same_vec_segment_close_reference_v1(&a.segment_closes, &b.segment_closes)
}

/// One transcript span; confidence is an integer per mille in 0..=1000.
#[derive(Debug, Clone, PartialEq, Eq)]
pub struct TranscriptSpanV1 {
    pub span_id: TranscriptSpanId,
    pub starts_at_ms: SessionMillis,
    pub ends_at_ms: SessionMillis,
    pub speaker: Option<String>,
    pub text: String,
    pub confidence_per_mille: Option<u16>,
}

/// Field-wise equality of two `TranscriptSpanV1` values.
pub open spec fn spec_same_transcript_span_v1(a: TranscriptSpanV1, b: TranscriptSpanV1) -> bool {
    &&& a.span_id@ == b.span_id@
    &&& a.starts_at_ms.0 == b.starts_at_ms.0
    &&& a.ends_at_ms.0 == b.ends_at_ms.0
    &&& opt_text(a.speaker) == opt_text(b.speaker)
    &&& a.text@ == b.text@
    &&& opt_same(a.confidence_per_mille, b.confidence_per_mille, |x: u16, y: u16| x == y)
}

/// `==` on `TranscriptSpanV1`.
pub fn same_transcript_span_v1(a: &TranscriptSpanV1, b: &TranscriptSpanV1) -> (r: bool)
    ensures
        r == spec_same_transcript_span_v1(*a, *b),
{
    a.span_id.0 == b.span_id.0
        && a.starts_at_ms.0 == b.starts_at_ms.0
        && a.ends_at_ms.0 == b.ends_at_ms.0
        && opt_string_eq(&a.speaker, &b.speaker)
        && a.text == b.text
        && (match (&a.confidence_per_mille, &b.confidence_per_mille) { (Some(x), Some(y)) => *x == *y, (None, None) => true, _ => false })
}

/// Replaceable transcript hypothesis. Revisions are monotonic per hypothesis ID.
#[derive(Debug, Clone, PartialEq, Eq)]
pub struct TranscriptPartialV1 {
    pub segment_id: SegmentId,
    pub hypothesis_id: HypothesisId,
    pub revision: u64,
    pub spans: Vec<TranscriptSpanV1>,
}

/// Field-wise equality of two `TranscriptPartialV1` values.
pub open spec fn spec_same_transcript_partial_v1(a: TranscriptPartialV1, b: TranscriptPartialV1) -> bool {
    &&& a.segment_id@ == b.segment_id@
    &&& a.hypothesis_id@ == b.hypothesis_id@
    &&& a.revision == b.revision
    &&& spec_same_seq_transcript_span_v1(a.spans@, b.spans@)
}

/// `==` on `TranscriptPartialV1`.
pub fn same_transcript_partial_v1(a: &TranscriptPartialV1, b: &TranscriptPartialV1) -> (r: bool)
    ensures
        r == spec_same_transcript_partial_v1(*a, *b),
{
    a.segment_id.0 == b.segment_id.0
        && a.hypothesis_id.0 == b.hypothesis_id.0
        && a.revision == b.revision
        && same_vec_transcript_span_v1(&a.spans, &b.spans)
}

/// Immutable, ordered transcript material.
#[derive(Debug, Clone, PartialEq, Eq)]
pub struct TranscriptCommittedV1 {
    pub segment_id: SegmentId,
    pub commit_id: CommitId,
    pub commit_sequence: u64,
    pub committed_through_ms: SessionMillis,
    pub spans: Vec<TranscriptSpanV1>,
}

/// Field-wise equality of two `TranscriptCommittedV1` values.
pub open spec fn spec_same_transcript_committed_v1(a: TranscriptCommittedV1, b: TranscriptCommittedV1) -> bool {
    &&& a.segment_id@ == b.segment_id@
    &&& a.commit_id@ == b.commit_id@
    &&& a.commit_sequence == b.commit_sequence
    &&& a.committed_through_ms.0 == b.committed_through_ms.0
    &&& spec_same_seq_transcript_span_v1(a.spans@, b.spans@)
}

/// `==` on `TranscriptCommittedV1`.
pub fn same_transcript_committed_v1(a: &TranscriptCommittedV1, b: &TranscriptCommittedV1) -> (r: bool)
    ensures
        r == spec_same_transcript_committed_v1(*a, *b),
{
    a.segment_id.0 == b.segment_id.0
        && a.commit_id.0 == b.commit_id.0
        && a.commit_sequence == b.commit_sequence
        && a.committed_through_ms.0 == b.committed_through_ms.0
        && same_vec_transcript_span_v1(&a.spans, &b.spans)
}

/// A replaceable generated memo.
#[derive(Debug, Clone, PartialEq, Eq)]
pub struct MemoEventV1 {
    pub memo_id: MemoId,
    pub revision: u64,
    pub status: MemoStatusV1,
    pub markdown: String,
    pub based_on_commit_sequence: u64,
    pub generated_at_unix_ms: UnixMillis,
}

/// Field-wise equality of two `MemoEventV1` values.
pub open spec fn spec_same_memo_event_v1(a: MemoEventV1, b: MemoEventV1) -> bool {
    &&& a.memo_id@ == b.memo_id@
    &&& a.revision == b.revision
    &&& a.status == b.status
    &&& a.markdown@ == b.markdown@
    &&& a.based_on_commit_sequence == b.based_on_commit_sequence
    &&& a.generated_at_unix_ms.0 == b.generated_at_unix_ms.0
}

/// `==` on `MemoEventV1`.
pub fn same_memo_event_v1(a: &MemoEventV1, b: &MemoEventV1) -> (r: bool)
    ensures
        r == spec_same_memo_event_v1(*a, *b),
{
    a.memo_id.0 == b.memo_id.0
        && a.revision == b.revision
        && a.status == b.status
        && a.markdown == b.markdown
        && a.based_on_commit_sequence == b.based_on_commit_sequence
        && a.generated_at_unix_ms.0 == b.generated_at_unix_ms.0
}

/// Announces a durable artifact without prescribing how its locator is resolved.
#[derive(Debug, Clone, PartialEq, Eq)]
pub struct ArtifactReadyV1 {
    pub artifact_id: ArtifactId,
    pub revision: u64,
    pub kind: ArtifactKindV1,
    pub media_type: String,
    pub byte_length: u64,
    pub digest: ContentDigestV1,
    pub locator: String,
    pub generated_at_unix_ms: UnixMillis,
}

/// Field-wise equality of two `ArtifactReadyV1` values.
pub open spec fn spec_same_artifact_ready_v1(a: ArtifactReadyV1, b: ArtifactReadyV1) -> bool {
    &&& a.artifact_id@ == b.artifact_id@
    &&& a.revision == b.revision
    &&& a.kind == b.kind
    &&& a.media_type@ == b.media_type@
    &&& a.byte_length == b.byte_length
    &&& spec_same_content_digest_v1(a.digest, b.digest)
    &&& a.locator@ == b.locator@
    &&& a.generated_at_unix_ms.0 == b.generated_at_unix_ms.0
}

/// `==` on `ArtifactReadyV1`.
pub fn same_artifact_ready_v1(a: &ArtifactReadyV1, b: &ArtifactReadyV1) -> (r: bool)
    ensures
        r == spec_same_artifact_ready_v1(*a, *b),
{
    a.artifact_id.0 == b.artifact_id.0
        && a.revision == b.revision
        && a.kind == b.kind
        && a.media_type == b.media_type
        && a.byte_length == b.byte_length
        && same_content_digest_v1(&a.digest, &b.digest)
        && a.locator == b.locator
        && a.generated_at_unix_ms.0 == b.generated_at_unix_ms.0
}

/// A server event introduced after V1; its payload is kept as raw JSON text.
#[derive(Debug, Clone, PartialEq, Eq)]
pub struct UnknownServerMessageV1 {
    pub message_type: String,
    pub payload_json: String,
}

/// Field-wise equality of two `UnknownServerMessageV1` values.
pub open spec fn spec_same_unknown_server_message_v1(a: UnknownServerMessageV1, b: UnknownServerMessageV1) -> bool {
    &&& a.message_type@ == b.message_type@
    &&& a.payload_json@ == b.payload_json@
}

/// `==` on `UnknownServerMessageV1`.
pub fn same_unknown_server_message_v1(a: &UnknownServerMessageV1, b: &UnknownServerMessageV1) -> (r: bool)
    ensures
        r == spec_same_unknown_server_message_v1(*a, *b),
{
    a.message_type == b.message_type
        && a.payload_json == b.payload_json
}

/// Commands and observations accepted by a meeting runtime.
#[derive(Debug, Clone, PartialEq, Eq)]
pub enum ClientMessageBodyV1 {
    CreateSession(CreateSessionV1),
    ResumeSession(ResumeSessionV1),
    AppendProvenanceHop(AppendProvenanceHopV1),
    AudioChunk(AudioChunkV1),
    CaptureDiscontinuity(CaptureDiscontinuityV1),
    CaptureHealth(CaptureHealthV1),
    CloseSegment(CloseSegmentV1),
    FinalizeSession(FinalizeSessionV1),
}

/// Variant-wise equality of two `ClientMessageBodyV1` values.
pub open spec fn spec_same_client_message_body_v1(a: ClientMessageBodyV1, b: ClientMessageBodyV1) -> bool {
    match a {
        ClientMessageBodyV1::CreateSession(x) => match b {
            ClientMessageBodyV1::CreateSession(y) => spec_same_create_session_v1(x, y),
            _ => false,
        },
        ClientMessageBodyV1::ResumeSession(x) => match b {
            ClientMessageBodyV1::ResumeSession(y) => spec_same_resume_session_v1(x, y),
            _ => false,
        },
        ClientMessageBodyV1::AppendProvenanceHop(x) => match b {
            ClientMessageBodyV1::AppendProvenanceHop(y) => spec_same_append_provenance_hop_v1(x, y),
            _ => false,
        },
        ClientMessageBodyV1::AudioChunk(x) => match b {
            ClientMessageBodyV1::AudioChunk(y) => spec_same_audio_chunk_v1(x, y),
            _ => false,
        },
        ClientMessageBodyV1::CaptureDiscontinuity(x) => match b {
            ClientMessageBodyV1::CaptureDiscontinuity(y) => spec_same_capture_discontinuity_v1(x, y),
            _ => false,
        },
        ClientMessageBodyV1::CaptureHealth(x) => match b {
            ClientMessageBodyV1::CaptureHealth(y) => spec_same_capture_health_v1(x, y),
            _ => false,
        },
        ClientMessageBodyV1::CloseSegment(x) => match b {
            ClientMessageBodyV1::CloseSegment(y) => spec_same_close_segment_v1(x, y),
            _ => false,
        },
        ClientMessageBodyV1::FinalizeSession(x) => match b {
            ClientMessageBodyV1::FinalizeSession(y) => spec_same_finalize_session_v1(x, y),
            _ => false,
        },
    }
}

/// `==` on `ClientMessageBodyV1`.
pub fn same_client_message_body_v1(a: &ClientMessageBodyV1, b: &ClientMessageBodyV1) -> (r: bool)
    ensures
        r == spec_same_client_message_body_v1(*a, *b),
{
    match a {
        ClientMessageBodyV1::CreateSession(x) => match b {
            ClientMessageBodyV1::CreateSession(y) => same_create_session_v1(x, y),
            _ => false,
        },
        ClientMessageBodyV1::ResumeSession(x) => match b {
            ClientMessageBodyV1::ResumeSession(y) => same_resume_session_v1(x, y),
            _ => false,
        },
        ClientMessageBodyV1::AppendProvenanceHop(x) => match b {
            ClientMessageBodyV1::AppendProvenanceHop(y) => same_append_provenance_hop_v1(x, y),
            _ => false,
        },
        ClientMessageBodyV1::AudioChunk(x) => match b {
            ClientMessageBodyV1::AudioChunk(y) => same_audio_chunk_v1(x, y),
            _ => false,
        },
        ClientMessageBodyV1::CaptureDiscontinuity(x) => match b {
            ClientMessageBodyV1::CaptureDiscontinuity(y) => same_capture_discontinuity_v1(x, y),
            _ => false,
        },
        ClientMessageBodyV1::CaptureHealth(x) => match b {
            ClientMessageBodyV1::CaptureHealth(y) => same_capture_health_v1(x, y),
            _ => false,
        },
        ClientMessageBodyV1::CloseSegment(x) => match b {
            ClientMessageBodyV1::CloseSegment(y) => same_close_segment_v1(x, y),
            _ => false,
        },
        ClientMessageBodyV1::FinalizeSession(x) => match b {
            ClientMessageBodyV1::FinalizeSession(y) => same_finalize_session_v1(x, y),
            _ => false,
        },
    }
}

/// Events emitted by a meeting runtime.
#[derive(Debug, Clone, PartialEq, Eq)]
pub enum ServerMessageBodyV1 {
    SessionCreated(SessionCreatedV1),
    ReplayCompleted(ReplayCompletedV1),
    ProvenanceHopRecorded(ProvenanceHopRecordedV1),
    CommandRejected(CommandRejectedV1),
    AudioAcknowledged(AudioAcknowledgementV1),
    SegmentFinalized(SegmentFinalizedV1),
    SessionFinalized(SessionFinalizedV1),
    TranscriptPartial(TranscriptPartialV1),
    TranscriptCommitted(TranscriptCommittedV1),
    Memo(MemoEventV1),
    ArtifactReady(ArtifactReadyV1),
    Unknown(UnknownServerMessageV1),
}

/// Variant-wise equality of two `ServerMessageBodyV1` values.
pub open spec fn spec_same_server_message_body_v1(a: ServerMessageBodyV1, b: ServerMessageBodyV1) -> bool {
    match a {
        ServerMessageBodyV1::SessionCreated(x) => match b {
            ServerMessageBodyV1::SessionCreated(y) => spec_same_session_created_v1(x, y),
            _ => false,
        },
        ServerMessageBodyV1::ReplayCompleted(x) => match b {
            ServerMessageBodyV1::ReplayCompleted(y) => spec_same_replay_completed_v1(x, y),
            _ => false,
        },
        ServerMessageBodyV1::ProvenanceHopRecorded(x) => match b {
            ServerMessageBodyV1::ProvenanceHopRecorded(y) => spec_same_provenance_hop_recorded_v1(x, y),
            _ => false,
        },
        ServerMessageBodyV1::CommandRejected(x) => match b {
            ServerMessageBodyV1::CommandRejected(y) => spec_same_command_rejected_v1(x, y),
            _ => false,
        },
        ServerMessageBodyV1::AudioAcknowledged(x) => match b {
            ServerMessageBodyV1::AudioAcknowledged(y) => spec_same_audio_acknowledgement_v1(x, y),
            _ => false,
        },
        ServerMessageBodyV1::SegmentFinalized(x) => match b {
            ServerMessageBodyV1::SegmentFinalized(y) => spec_same_segment_finalized_v1(x, y),
            _ => false,
        },
        ServerMessageBodyV1::SessionFinalized(x) => match b {
            ServerMessageBodyV1::SessionFinalized(y) => spec_same_session_finalized_v1(x, y),
            _ => false,
        },
        ServerMessageBodyV1::TranscriptPartial(x) => match b {
            ServerMessageBodyV1::TranscriptPartial(y) => spec_same_transcript_partial_v1(x, y),
            _ => false,
        },
        ServerMessageBodyV1::TranscriptCommitted(x) => match b {
            ServerMessageBodyV1::TranscriptCommitted(y) => spec_same_transcript_committed_v1(x, y),
            _ => false,
        },
        ServerMessageBodyV1::Memo(x) => match b {
            ServerMessageBodyV1::Memo(y) => spec_same_memo_event_v1(x, y),
            _ => false,
        },
        ServerMessageBodyV1::ArtifactReady(x) => match b {
            ServerMessageBodyV1::ArtifactReady(y) => spec_same_artifact_ready_v1(x, y),
            _ => false,
        },
        ServerMessageBodyV1::Unknown(x) => match b {
            ServerMessageBodyV1::Unknown(y) => spec_same_unknown_server_message_v1(x, y),
            _ => false,
        },
    }
}

/// `==` on `ServerMessageBodyV1`.
pub fn same_server_message_body_v1(a: &ServerMessageBodyV1, b: &ServerMessageBodyV1) -> (r: bool)
    ensures
        r == spec_same_server_message_body_v1(*a, *b),
{
    match a {
        ServerMessageBodyV1::SessionCreated(x) => match b {
            ServerMessageBodyV1::SessionCreated(y) => same_session_created_v1(x, y),
            _ => false,
        },
        ServerMessageBodyV1::ReplayCompleted(x) => match b {
            ServerMessageBodyV1::ReplayCompleted(y) => same_replay_completed_v1(x, y),
            _ => false,
        },
        ServerMessageBodyV1::ProvenanceHopRecorded(x) => match b {
            ServerMessageBodyV1::ProvenanceHopRecorded(y) => same_provenance_hop_recorded_v1(x, y),
            _ => false,
        },
        ServerMessageBodyV1::CommandRejected(x) => match b {
            ServerMessageBodyV1::CommandRejected(y) => same_command_rejected_v1(x, y),
            _ => false,
        },
        ServerMessageBodyV1::AudioAcknowledged(x) => match b {
            ServerMessageBodyV1::AudioAcknowledged(y) => same_audio_acknowledgement_v1(x, y),
            _ => false,
        },
        ServerMessageBodyV1::SegmentFinalized(x) => match b {
            ServerMessageBodyV1::SegmentFinalized(y) => same_segment_finalized_v1(x, y),
            _ => false,
        },
        ServerMessageBodyV1::SessionFinalized(x) => match b {
            ServerMessageBodyV1::SessionFinalized(y) => same_session_finalized_v1(x, y),
            _ => false,
        },
        ServerMessageBodyV1::TranscriptPartial(x) => match b {
            ServerMessageBodyV1::TranscriptPartial(y) => same_transcript_partial_v1(x, y),
            _ => false,
        },
        ServerMessageBodyV1::TranscriptCommitted(x) => match b {
            ServerMessageBodyV1::TranscriptCommitted(y) => same_transcript_committed_v1(x, y),
            _ => false,
        },
        ServerMessageBodyV1::Memo(x) => match b {
            ServerMessageBodyV1::Memo(y) => same_memo_event_v1(x, y),
            _ => false,
        },
        ServerMessageBodyV1::ArtifactReady(x) => match b {
            ServerMessageBodyV1::ArtifactReady(y) => same_artifact_ready_v1(x, y),
            _ => false,
        },
        ServerMessageBodyV1::Unknown(x) => match b {
            ServerMessageBodyV1::Unknown(y) => same_unknown_server_message_v1(x, y),
            _ => false,
        },
    }
}

/// A client-to-runtime message.
#[derive(Debug, Clone, PartialEq, Eq)]
pub struct ClientMessageV1 {
    pub protocol_version: ProtocolVersionV1,
    pub message_id: MessageId,
    pub session_id: SessionId,
    pub sent_at_unix_ms: UnixMillis,
    pub body: ClientMessageBodyV1,
}

/// Field-wise equality of two `ClientMessageV1` values.
pub open spec fn spec_same_client_message_v1(a: ClientMessageV1, b: ClientMessageV1) -> bool {
    &&& a.protocol_version == b.protocol_version
    &&& a.message_id@ == b.message_id@
    &&& a.session_id@ == b.session_id@
    &&& a.sent_at_unix_ms.0 == b.sent_at_unix_ms.0
    &&& spec_same_client_message_body_v1(a.body, b.body)
}

/// `==` on `ClientMessageV1`.
pub fn same_client_message_v1(a: &ClientMessageV1, b: &ClientMessageV1) -> (r: bool)
    ensures
        r == spec_same_client_message_v1(*a, *b),
{
    a.protocol_version == b.protocol_version
        && a.message_id.0 == b.message_id.0
        && a.session_id.0 == b.session_id.0
        && a.sent_at_unix_ms.0 == b.sent_at_unix_ms.0
        && same_client_message_body_v1(&a.body, &b.body)
}

/// A runtime-to-client message. `sequence` is zero-based and strictly increasing within a session.
#[derive(Debug, Clone, PartialEq, Eq)]
pub struct ServerMessageV1 {
    pub protocol_version: ProtocolVersionV1,
    pub message_id: MessageId,
    pub session_id: SessionId,
    pub sequence: u64,
    pub sent_at_unix_ms: UnixMillis,
    pub body: ServerMessageBodyV1,
}

/// Field-wise equality of two `ServerMessageV1` values.
pub open spec fn spec_same_server_message_v1(a: ServerMessageV1, b: ServerMessageV1) -> bool {
    &&& a.protocol_version == b.protocol_version
    &&& a.message_id@ == b.message_id@
    &&& a.session_id@ == b.session_id@
    &&& a.sequence == b.sequence
    &&& a.sent_at_unix_ms.0 == b.sent_at_unix_ms.0
    &&& spec_same_server_message_body_v1(a.body, b.body)
}

/// `==` on `ServerMessageV1`.
pub fn same_server_message_v1(a: &ServerMessageV1, b: &ServerMessageV1) -> (r: bool)
    ensures
        r == spec_same_server_message_v1(*a, *b),
{
    a.protocol_version == b.protocol_version
        && a.message_id.0 == b.message_id.0
        && a.session_id.0 == b.session_id.0
        && a.sequence == b.sequence
        && a.sent_at_unix_ms.0 == b.sent_at_unix_ms.0
        && same_server_message_body_v1(&a.body, &b.body)
}

pub open spec fn spec_same_seq_capture_lane_v1(a: Seq<CaptureLaneV1>, b: Seq<CaptureLaneV1>) -> bool {
    &&& a.len() == b.len()
    &&& forall|i: int| #![trigger a[i]] 0 <= i < a.len() ==> spec_same_capture_lane_v1(a[i], b[i])
}

pub fn same_vec_capture_lane_v1(a: &Vec<CaptureLaneV1>, b: &Vec<CaptureLaneV1>) -> (r: bool)
    ensures
        r == spec_same_seq_capture_lane_v1(a@, b@),
{
    if a.len() != b.len() {
        return false;
    }
    let mut i: usize = 0;
    while i < a.len()
        invariant
            a.len() == b.len(),
            i <= a.len(),
            forall|k: int| #![trigger a@[k]] 0 <= k < i ==> spec_same_capture_lane_v1(a@[k], b@[k]),
        decreases a.len() - i,
    {
        if !(same_capture_lane_v1(&a[i], &b[i])) {
            return false;
        }
        i = i + 1;
    }
    true
}

pub open spec fn spec_same_seq_capture_provenance_hop_v1(a: Seq<CaptureProvenanceHopV1>, b: Seq<CaptureProvenanceHopV1>) -> bool {
    &&& a.len() == b.len()
    &&& forall|i: int| #![trigger a[i]] 0 <= i < a.len() ==> spec_same_capture_provenance_hop_v1(a[i], b[i])
}

pub fn same_vec_capture_provenance_hop_v1(a: &Vec<CaptureProvenanceHopV1>, b: &Vec<CaptureProvenanceHopV1>) -> (r: bool)
    ensures
        r == spec_same_seq_capture_provenance_hop_v1(a@, b@),
{
    if a.len() != b.len() {
        return false;
    }
    let mut i: usize = 0;
    while i < a.len()
        invariant
            a.len() == b.len(),
            i <= a.len(),
            forall|k: int| #![trigger a@[k]] 0 <= k < i ==> spec_same_capture_provenance_hop_v1(a@[k], b@[k]),
        decreases a.len() - i,
    {
        if !(same_capture_provenance_hop_v1(&a[i], &b[i])) {
            return false;
        }
        i = i + 1;
    }
    true
}

pub open spec fn spec_same_seq_capture_source_v1(a: Seq<CaptureSourceV1>, b: Seq<CaptureSourceV1>) -> bool {
    &&& a.len() == b.len()
    &&& forall|i: int| #![trigger a[i]] 0 <= i < a.len() ==> spec_same_capture_source_v1(a[i], b[i])
}

pub fn same_vec_capture_source_v1(a: &Vec<CaptureSourceV1>, b: &Vec<CaptureSourceV1>) -> (r: bool)
    ensures
        r == spec_same_seq_capture_source_v1(a@, b@),
{
    if a.len() != b.len() {
        return false;
    }
    let mut i: usize = 0;
    while i < a.len()
        invariant
            a.len() == b.len(),
            i <= a.len(),
            forall|k: int| #![trigger a@[k]] 0 <= k < i ==> spec_same_capture_source_v1(a@[k], b@[k]),
        decreases a.len() - i,
    {
        if !(same_capture_source_v1(&a[i], &b[i])) {
            return false;
        }
        i = i + 1;
    }
    true
}

pub open spec fn spec_same_seq_lane_boundary_v1(a: Seq<LaneBoundaryV1>, b: Seq<LaneBoundaryV1>) -> bool {
    &&& a.len() == b.len()
    &&& forall|i: int| #![trigger a[i]] 0 <= i < a.len() ==> spec_same_lane_boundary_v1(a[i], b[i])
}

pub fn same_vec_lane_boundary_v1(a: &Vec<LaneBoundaryV1>, b: &Vec<LaneBoundaryV1>) -> (r: bool)
    ensures
        r == spec_same_seq_lane_boundary_v1(a@, b@),
{
    if a.len() != b.len() {
        return false;
    }
    let mut i: usize = 0;
    while i < a.len()
        invariant
            a.len() == b.len(),
            i <= a.len(),
            forall|k: int| #![trigger a@[k]] 0 <= k < i ==> spec_same_lane_boundary_v1(a@[k], b@[k]),
        decreases a.len() - i,
    {
        if !(same_lane_boundary_v1(&a[i], &b[i])) {
            return false;
        }
        i = i + 1;
    }
    true
}

pub open spec fn spec_same_seq_segment_close_reference_v1(a: Seq<SegmentCloseReferenceV1>, b: Seq<SegmentCloseReferenceV1>) -> bool {
    &&& a.len() == b.len()
    &&& forall|i: int| #![trigger a[i]] 0 <= i < a.len() ==> spec_same_segment_close_reference_v1(a[i], b[i])
}

pub fn same_vec_segment_close_reference_v1(a: &Vec<SegmentCloseReferenceV1>, b: &Vec<SegmentCloseReferenceV1>) -> (r: bool)
    ensures
        r == spec_same_seq_segment_close_reference_v1(a@, b@),
{
    if a.len() != b.len() {
        return false;
    }
    let mut i: usize = 0;
    while i < a.len()
        invariant
            a.len() == b.len(),
            i <= a.len(),
            forall|k: int| #![trigger a@[k]] 0 <= k < i ==> spec_same_segment_close_reference_v1(a@[k], b@[k]),
        decreases a.len() - i,
    {
        if !(same_segment_close_reference_v1(&a[i], &b[i])) {
            return false;
        }
        i = i + 1;
    }
    true
}

pub open spec fn spec_same_seq_sequence_range_v1(a: Seq<SequenceRangeV1>, b: Seq<SequenceRangeV1>) -> bool {
    &&& a.len() == b.len()
    &&& forall|i: int| #![trigger a[i]] 0 <= i < a.len() ==> spec_same_sequence_range_v1(a[i], b[i])
}

pub fn same_vec_sequence_range_v1(a: &Vec<SequenceRangeV1>, b: &Vec<SequenceRangeV1>) -> (r: bool)
    ensures
        r == spec_same_seq_sequence_range_v1(a@, b@),
{
    if a.len() != b.len() {
        return false;
    }
    let mut i: usize = 0;
    while i < a.len()
        invariant
            a.len() == b.len(),
            i <= a.len(),
            forall|k: int| #![trigger a@[k]] 0 <= k < i ==> spec_same_sequence_range_v1(a@[k], b@[k]),
        decreases a.len() - i,
    {
        if !(same_sequence_range_v1(&a[i], &b[i])) {
            return false;
        }
        i = i + 1;
    }
    true
}

pub open spec fn spec_same_seq_source_id(a: Seq<SourceId>, b: Seq<SourceId>) -> bool {
    &&& a.len() == b.len()
    &&& forall|i: int| #![trigger a[i]] 0 <= i < a.len() ==> a[i]@ == b[i]@
}

pub fn same_vec_source_id(a: &Vec<SourceId>, b: &Vec<SourceId>) -> (r: bool)
    ensures
        r == spec_same_seq_source_id(a@, b@),
{
    if a.len() != b.len() {
        return false;
    }
    let mut i: usize = 0;
    while i < a.len()
        invariant
            a.len() == b.len(),
            i <= a.len(),
            forall|k: int| #![trigger a@[k]] 0 <= k < i ==> a@[k]@ == b@[k]@,
        decreases a.len() - i,
    {
        if !(a[i].0 == b[i].0) {
            return false;
        }
        i = i + 1;
    }
    true
}

pub open spec fn spec_same_seq_transcript_span_v1(a: Seq<TranscriptSpanV1>, b: Seq<TranscriptSpanV1>) -> bool {
    &&& a.len() == b.len()
    &&& forall|i: int| #![trigger a[i]] 0 <= i < a.len() ==> spec_same_transcript_span_v1(a[i], b[i])
}

pub fn same_vec_transcript_span_v1(a: &Vec<TranscriptSpanV1>, b: &Vec<TranscriptSpanV1>) -> (r: bool)
    ensures
        r == spec_same_seq_transcript_span_v1(a@, b@),
{
    if a.len() != b.len() {
        return false;
    }
    let mut i: usize = 0;
    while i < a.len()
        invariant
            a.len() == b.len(),
            i <= a.len(),
            forall|k: int| #![trigger a@[k]] 0 <= k < i ==> spec_same_transcript_span_v1(a@[k], b@[k]),
        decreases a.len() - i,
    {
        if !(same_transcript_span_v1(&a[i], &b[i])) {
            return false;
        }
        i = i + 1;
    }
    true
}

/// A field-wise copy of a `SequenceRangeV1`.
pub fn copy_sequence_range_v1(a: &SequenceRangeV1) -> (r: SequenceRangeV1)
    ensures
        spec_same_sequence_range_v1(r, *a),
{
    SequenceRangeV1 {
        start: a.start,
        end_exclusive: a.end_exclusive,
    }
}

/// A field-wise copy of a `AudioFormatV1`.
pub fn copy_audio_format_v1(a: &AudioFormatV1) -> (r: AudioFormatV1)
    ensures
        spec_same_audio_format_v1(r, *a),
{
    AudioFormatV1 {
        codec: a.codec,
        container: a.container,
        sample_rate_hz: a.sample_rate_hz,
        channel_count: a.channel_count,
    }
}

/// A field-wise copy of a `ContentDigestV1`.
pub fn copy_content_digest_v1(a: &ContentDigestV1) -> (r: ContentDigestV1)
    ensures
        spec_same_content_digest_v1(r, *a),
{
    ContentDigestV1 {
        algorithm: a.algorithm,
        hex: a.hex.clone(),
    }
}

/// A field-wise copy of a `CaptureSourceV1`.
pub fn copy_capture_source_v1(a: &CaptureSourceV1) -> (r: CaptureSourceV1)
    ensures
        spec_same_capture_source_v1(r, *a),
{
    CaptureSourceV1 {
        source_id: SourceId(a.source_id.0.clone()),
        kind: a.kind,
        label: copy_opt_string(&a.label),
        external_id: copy_opt_string(&a.external_id),
    }
}

/// A field-wise copy of a `CaptureLaneV1`.
pub fn copy_capture_lane_v1(a: &CaptureLaneV1) -> (r: CaptureLaneV1)
    ensures
        spec_same_capture_lane_v1(r, *a),
{
    CaptureLaneV1 {
        lane_id: LaneId(a.lane_id.0.clone()),
        source_ids: copy_vec_source_id(&a.source_ids),
        label: copy_opt_string(&a.label),
        format: copy_audio_format_v1(&a.format),
    }
}

/// A field-wise copy of a `CaptureProvenanceHopV1`.
pub fn copy_capture_provenance_hop_v1(a: &CaptureProvenanceHopV1) -> (r: CaptureProvenanceHopV1)
    ensures
        spec_same_capture_provenance_hop_v1(r, *a),
{
    CaptureProvenanceHopV1 {
        producer: a.producer.clone(),
        producer_version: copy_opt_string(&a.producer_version),
        mode: a.mode,
        observed_at_unix_ms: a.observed_at_unix_ms,
        attributes: copy_string_pairs(&a.attributes),
    }
}

/// A field-wise copy of a `CaptureProvenanceV1`.
pub fn copy_capture_provenance_v1(a: &CaptureProvenanceV1) -> (r: CaptureProvenanceV1)
    ensures
        spec_same_capture_provenance_v1(r, *a),
{
    CaptureProvenanceV1 {
        hops: copy_vec_capture_provenance_hop_v1(&a.hops),
    }
}

/// A field-wise copy of a `CreateSessionV1`.
pub fn copy_create_session_v1(a: &CreateSessionV1) -> (r: CreateSessionV1)
    ensures
        spec_same_create_session_v1(r, *a),
{
    CreateSessionV1 {
        idempotency_key: a.idempotency_key.clone(),
        started_at_unix_ms: a.started_at_unix_ms,
        title: copy_opt_string(&a.title),
        sources: copy_vec_capture_source_v1(&a.sources),
        lanes: copy_vec_capture_lane_v1(&a.lanes),
        provenance: copy_capture_provenance_v1(&a.provenance),
    }
}

/// A field-wise copy of a `SessionCreatedV1`.
pub fn copy_session_created_v1(a: &SessionCreatedV1) -> (r: SessionCreatedV1)
    ensures
        spec_same_session_created_v1(r, *a),
{
    SessionCreatedV1 {
        create_message_id: MessageId(a.create_message_id.0.clone()),
        created_at_unix_ms: a.created_at_unix_ms,
    }
}

/// A field-wise copy of a `ResumeSessionV1`.
pub fn copy_resume_session_v1(a: &ResumeSessionV1) -> (r: ResumeSessionV1)
    ensures
        spec_same_resume_session_v1(r, *a),
{
    ResumeSessionV1 {
        after_server_sequence: (match &a.after_server_sequence { Some(x) => Some(*x), None => None }),
    }
}

/// A field-wise copy of a `ReplayCompletedV1`.
pub fn copy_replay_completed_v1(a: &ReplayCompletedV1) -> (r: ReplayCompletedV1)
    ensures
        spec_same_replay_completed_v1(r, *a),
{
    ReplayCompletedV1 {
        resume_message_id: MessageId(a.resume_message_id.0.clone()),
        replayed_through_server_sequence: (match &a.replayed_through_server_sequence { Some(x) => Some(*x), None => None }),
    }
}

/// A field-wise copy of a `CommandRejectedV1`.
pub fn copy_command_rejected_v1(a: &CommandRejectedV1) -> (r: CommandRejectedV1)
    ensures
        spec_same_command_rejected_v1(r, *a),
{
    CommandRejectedV1 {
        rejected_message_id: MessageId(a.rejected_message_id.0.clone()),
        code: a.code.clone(),
        retryable: a.retryable,
        message: copy_opt_string(&a.message),
        details: copy_string_pairs(&a.details),
    }
}

/// A field-wise copy of a `AudioChunkV1`.
pub fn copy_audio_chunk_v1(a: &AudioChunkV1) -> (r: AudioChunkV1)
    ensures
        spec_same_audio_chunk_v1(r, *a),
{
    AudioChunkV1 {
        segment_id: SegmentId(a.segment_id.0.clone()),
        lane_id: LaneId(a.lane_id.0.clone()),
        sequence: a.sequence,
        starts_at_ms: a.starts_at_ms,
        duration_ms: a.duration_ms,
        payload_digest: copy_content_digest_v1(&a.payload_digest),
        payload: copy_bytes(&a.payload),
    }
}

/// A field-wise copy of a `AudioAcknowledgementV1`.
pub fn copy_audio_acknowledgement_v1(a: &AudioAcknowledgementV1) -> (r: AudioAcknowledgementV1)
    ensures
        spec_same_audio_acknowledgement_v1(r, *a),
{
    AudioAcknowledgementV1 {
        segment_id: SegmentId(a.segment_id.0.clone()),
        lane_id: LaneId(a.lane_id.0.clone()),
        durable_through_sequence: a.durable_through_sequence,
        durable_out_of_order: copy_vec_sequence_range_v1(&a.durable_out_of_order),
    }
}

/// A field-wise copy of a `CaptureDiscontinuityV1`.
pub fn copy_capture_discontinuity_v1(a: &CaptureDiscontinuityV1) -> (r: CaptureDiscontinuityV1)
    ensures
        spec_same_capture_discontinuity_v1(r, *a),
{
    CaptureDiscontinuityV1 {
        discontinuity_id: DiscontinuityId(a.discontinuity_id.0.clone()),
        segment_id: SegmentId(a.segment_id.0.clone()),
        lane_id: LaneId(a.lane_id.0.clone()),
        sequence_range: copy_sequence_range_v1(&a.sequence_range),
        starts_at_ms: a.starts_at_ms,
        duration_ms: a.duration_ms,
        reason: a.reason,
        detail: copy_opt_string(&a.detail),
    }
}

/// A field-wise copy of a `CaptureHealthV1`.
pub fn copy_capture_health_v1(a: &CaptureHealthV1) -> (r: CaptureHealthV1)
    ensures
        spec_same_capture_health_v1(r, *a),
{
    CaptureHealthV1 {
        observed_at_ms: a.observed_at_ms,
        lane_id: (match &a.lane_id { Some(x) => Some(LaneId(x.0.clone())), None => None }),
        state: a.state,
        queued_audio_ms: (match &a.queued_audio_ms { Some(x) => Some(*x), None => None }),
        dropped_chunk_count: a.dropped_chunk_count,
        clock_skew_ms: (match &a.clock_skew_ms { Some(x) => Some(*x), None => None }),
        detail: copy_opt_string(&a.detail),
    }
}

/// A field-wise copy of a `AppendProvenanceHopV1`.
pub fn copy_append_provenance_hop_v1(a: &AppendProvenanceHopV1) -> (r: AppendProvenanceHopV1)
    ensures
        spec_same_append_provenance_hop_v1(r, *a),
{
    AppendProvenanceHopV1 {
        provenance_hop_id: a.provenance_hop_id.clone(),
        hop: copy_capture_provenance_hop_v1(&a.hop),
    }
}

/// A field-wise copy of a `ProvenanceHopRecordedV1`.
pub fn copy_provenance_hop_recorded_v1(a: &ProvenanceHopRecordedV1) -> (r: ProvenanceHopRecordedV1)
    ensures
        spec_same_provenance_hop_recorded_v1(r, *a),
{
    ProvenanceHopRecordedV1 {
        append_message_id: MessageId(a.append_message_id.0.clone()),
        provenance_hop_id: a.provenance_hop_id.clone(),
    }
}

/// A field-wise copy of a `LaneBoundaryV1`.
pub fn copy_lane_boundary_v1(a: &LaneBoundaryV1) -> (r: LaneBoundaryV1)
    ensures
        spec_same_lane_boundary_v1(r, *a),
{
    LaneBoundaryV1 {
        lane_id: LaneId(a.lane_id.0.clone()),
        next_sequence: a.next_sequence,
    }
}

/// A field-wise copy of a `CloseSegmentV1`.
pub fn copy_close_segment_v1(a: &CloseSegmentV1) -> (r: CloseSegmentV1)
    ensures
        spec_same_close_segment_v1(r, *a),
{
    CloseSegmentV1 {
        segment_id: SegmentId(a.segment_id.0.clone()),
        ended_at_ms: a.ended_at_ms,
        lane_boundaries: copy_vec_lane_boundary_v1(&a.lane_boundaries),
        reason: a.reason,
    }
}

/// A field-wise copy of a `SegmentFinalizedV1`.
pub fn copy_segment_finalized_v1(a: &SegmentFinalizedV1) -> (r: SegmentFinalizedV1)
    ensures
        spec_same_segment_finalized_v1(r, *a),
{
    SegmentFinalizedV1 {
        segment_id: SegmentId(a.segment_id.0.clone()),
        close_message_id: MessageId(a.close_message_id.0.clone()),
        finalized_at_unix_ms: a.finalized_at_unix_ms,
        duration_ms: a.duration_ms,
        lane_boundaries: copy_vec_lane_boundary_v1(&a.lane_boundaries),
    }
}

/// A field-wise copy of a `SegmentCloseReferenceV1`.
pub fn copy_segment_close_reference_v1(a: &SegmentCloseReferenceV1) -> (r: SegmentCloseReferenceV1)
    ensures
        spec_same_segment_close_reference_v1(r, *a),
{
    SegmentCloseReferenceV1 {
        segment_id: SegmentId(a.segment_id.0.clone()),
        close_message_id: MessageId(a.close_message_id.0.clone()),
    }
}

/// A field-wise copy of a `FinalizeSessionV1`.
pub fn copy_finalize_session_v1(a: &FinalizeSessionV1) -> (r: FinalizeSessionV1)
    ensures
        spec_same_finalize_session_v1(r, *a),
{
    FinalizeSessionV1 {
        ended_at_ms: a.ended_at_ms,
        segment_closes: copy_vec_segment_close_reference_v1(&a.segment_closes),
        reason: a.reason,
    }
}

/// A field-wise copy of a `SessionFinalizedV1`.
pub fn copy_session_finalized_v1(a: &SessionFinalizedV1) -> (r: SessionFinalizedV1)
    ensures
        spec_same_session_finalized_v1(r, *a),
{
    SessionFinalizedV1 {
        finalize_message_id: MessageId(a.finalize_message_id.0.clone()),
        finalized_at_unix_ms: a.finalized_at_unix_ms,
        duration_ms: a.duration_ms,
        segment_closes: copy_vec_segment_close_reference_v1(&a.segment_closes),
    }
}

/// A field-wise copy of a `TranscriptSpanV1`.
pub fn copy_transcript_span_v1(a: &TranscriptSpanV1) -> (r: TranscriptSpanV1)
    ensures
        spec_same_transcript_span_v1(r, *a),
{
    TranscriptSpanV1 {
        span_id: TranscriptSpanId(a.span_id.0.clone()),
        starts_at_ms: a.starts_at_ms,
        ends_at_ms: a.ends_at_ms,
        speaker: copy_opt_string(&a.speaker),
        text: a.text.clone(),
        confidence_per_mille: (match &a.confidence_per_mille { Some(x) => Some(*x), None => None }),
    }
}

/// A field-wise copy of a `TranscriptPartialV1`.
pub fn copy_transcript_partial_v1(a: &TranscriptPartialV1) -> (r: TranscriptPartialV1)
    ensures
        spec_same_transcript_partial_v1(r, *a),
{
    TranscriptPartialV1 {
        segment_id: SegmentId(a.segment_id.0.clone()),
        hypothesis_id: HypothesisId(a.hypothesis_id.0.clone()),
        revision: a.revision,
        spans: copy_vec_transcript_span_v1(&a.spans),
    }
}

/// A field-wise copy of a `TranscriptCommittedV1`.
pub fn copy_transcript_committed_v1(a: &TranscriptCommittedV1) -> (r: TranscriptCommittedV1)
    ensures
        spec_same_transcript_committed_v1(r, *a),
{
    TranscriptCommittedV1 {
        segment_id: SegmentId(a.segment_id.0.clone()),
        commit_id: CommitId(a.commit_id.0.clone()),
        commit_sequence: a.commit_sequence,
        committed_through_ms: a.committed_through_ms,
        spans: copy_vec_transcript_span_v1(&a.spans),
    }
}

/// A field-wise copy of a `MemoEventV1`.
pub fn copy_memo_event_v1(a: &MemoEventV1) -> (r: MemoEventV1)
    ensures
        spec_same_memo_event_v1(r, *a),
{
    MemoEventV1 {
        memo_id: MemoId(a.memo_id.0.clone()),
        revision: a.revision,
        status: a.status,
        markdown: a.markdown.clone(),
        based_on_commit_sequence: a.based_on_commit_sequence,
        generated_at_unix_ms: a.generated_at_unix_ms,
    }
}

/// A field-wise copy of a `ArtifactReadyV1`.
pub fn copy_artifact_ready_v1(a: &ArtifactReadyV1) -> (r: ArtifactReadyV1)
    ensures
        spec_same_artifact_ready_v1(r, *a),
{
    ArtifactReadyV1 {
        artifact_id: ArtifactId(a.artifact_id.0.clone()),
        revision: a.revision,
        kind: a.kind,
        media_type: a.media_type.clone(),
        byte_length: a.byte_length,
        digest: copy_content_digest_v1(&a.digest),
        locator: a.locator.clone(),
        generated_at_unix_ms: a.generated_at_unix_ms,
    }
}

/// A field-wise copy of a `UnknownServerMessageV1`.
pub fn copy_unknown_server_message_v1(a: &UnknownServerMessageV1) -> (r: UnknownServerMessageV1)
    ensures
        spec_same_unknown_server_message_v1(r, *a),
{
    UnknownServerMessageV1 {
        message_type: a.message_type.clone(),
        payload_json: a.payload_json.clone(),
    }
}

/// A field-wise copy of a `ClientMessageV1`.
pub fn copy_client_message_v1(a: &ClientMessageV1) -> (r: ClientMessageV1)
    ensures
        spec_same_client_message_v1(r, *a),
{
    ClientMessageV1 {
        protocol_version: a.protocol_version,
        message_id: MessageId(a.message_id.0.clone()),
        session_id: SessionId(a.session_id.0.clone()),
        sent_at_unix_ms: a.sent_at_unix_ms,
        body: copy_client_message_body_v1(&a.body),
    }
}

/// A field-wise copy of a `ServerMessageV1`.
pub fn copy_server_message_v1(a: &ServerMessageV1) -> (r: ServerMessageV1)
    ensures
        spec_same_server_message_v1(r, *a),
{
    ServerMessageV1 {
        protocol_version: a.protocol_version,
        message_id: MessageId(a.message_id.0.clone()),
        session_id: SessionId(a.session_id.0.clone()),
        sequence: a.sequence,
        sent_at_unix_ms: a.sent_at_unix_ms,
        body: copy_server_message_body_v1(&a.body),
    }
}

/// A variant-wise copy of a `ClientMessageBodyV1`.
pub fn copy_client_message_body_v1(a: &ClientMessageBodyV1) -> (r: ClientMessageBodyV1)
    ensures
        spec_same_client_message_body_v1(r, *a),
{
    match a {
        ClientMessageBodyV1::CreateSession(x) => ClientMessageBodyV1::CreateSession(copy_create_session_v1(x)),
        ClientMessageBodyV1::ResumeSession(x) => ClientMessageBodyV1::ResumeSession(copy_resume_session_v1(x)),
        ClientMessageBodyV1::AppendProvenanceHop(x) => ClientMessageBodyV1::AppendProvenanceHop(copy_append_provenance_hop_v1(x)),
        ClientMessageBodyV1::AudioChunk(x) => ClientMessageBodyV1::AudioChunk(copy_audio_chunk_v1(x)),
        ClientMessageBodyV1::CaptureDiscontinuity(x) => ClientMessageBodyV1::CaptureDiscontinuity(copy_capture_discontinuity_v1(x)),
        ClientMessageBodyV1::CaptureHealth(x) => ClientMessageBodyV1::CaptureHealth(copy_capture_health_v1(x)),
        ClientMessageBodyV1::CloseSegment(x) => ClientMessageBodyV1::CloseSegment(copy_close_segment_v1(x)),
        ClientMessageBodyV1::FinalizeSession(x) => ClientMessageBodyV1::FinalizeSession(copy_finalize_session_v1(x)),
    }
}

/// A variant-wise copy of a `ServerMessageBodyV1`.
pub fn copy_server_message_body_v1(a: &ServerMessageBodyV1) -> (r: ServerMessageBodyV1)
    ensures
        spec_same_server_message_body_v1(r, *a),
{
    match a {
        ServerMessageBodyV1::SessionCreated(x) => ServerMessageBodyV1::SessionCreated(copy_session_created_v1(x)),
        ServerMessageBodyV1::ReplayCompleted(x) => ServerMessageBodyV1::ReplayCompleted(copy_replay_completed_v1(x)),
        ServerMessageBodyV1::ProvenanceHopRecorded(x) => ServerMessageBodyV1::ProvenanceHopRecorded(copy_provenance_hop_recorded_v1(x)),
        ServerMessageBodyV1::CommandRejected(x) => ServerMessageBodyV1::CommandRejected(copy_command_rejected_v1(x)),
        ServerMessageBodyV1::AudioAcknowledged(x) => ServerMessageBodyV1::AudioAcknowledged(copy_audio_acknowledgement_v1(x)),
        ServerMessageBodyV1::SegmentFinalized(x) => ServerMessageBodyV1::SegmentFinalized(copy_segment_finalized_v1(x)),
        ServerMessageBodyV1::SessionFinalized(x) => ServerMessageBodyV1::SessionFinalized(copy_session_finalized_v1(x)),
        ServerMessageBodyV1::TranscriptPartial(x) => ServerMessageBodyV1::TranscriptPartial(copy_transcript_partial_v1(x)),
        ServerMessageBodyV1::TranscriptCommitted(x) => ServerMessageBodyV1::TranscriptCommitted(copy_transcript_committed_v1(x)),
        ServerMessageBodyV1::Memo(x) => ServerMessageBodyV1::Memo(copy_memo_event_v1(x)),
        ServerMessageBodyV1::ArtifactReady(x) => ServerMessageBodyV1::ArtifactReady(copy_artifact_ready_v1(x)),
        ServerMessageBodyV1::Unknown(x) => ServerMessageBodyV1::Unknown(copy_unknown_server_message_v1(x)),
    }
}

pub fn copy_vec_capture_lane_v1(a: &Vec<CaptureLaneV1>) -> (r: Vec<CaptureLaneV1>)
    ensures
        spec_same_seq_capture_lane_v1(r@, a@),
{
    let mut out: Vec<CaptureLaneV1> = Vec::new();
    let mut i: usize = 0;
    while i < a.len()
        invariant
            i <= a.len(),
            out.len() == i,
            forall|k: int| #![trigger out@[k]] 0 <= k < i ==> spec_same_capture_lane_v1(out@[k], a@[k]),
        decreases a.len() - i,
    {
        out.push(copy_capture_lane_v1(&a[i]));
        i = i + 1;
    }
    out
}

pub fn copy_vec_capture_provenance_hop_v1(a: &Vec<CaptureProvenanceHopV1>) -> (r: Vec<CaptureProvenanceHopV1>)
    ensures
        spec_same_seq_capture_provenance_hop_v1(r@, a@),
{
    let mut out: Vec<CaptureProvenanceHopV1> = Vec::new();
    let mut i: usize = 0;
    while i < a.len()
        invariant
            i <= a.len(),
            out.len() == i,
            forall|k: int| #![trigger out@[k]] 0 <= k < i ==> spec_same_capture_provenance_hop_v1(out@[k], a@[k]),
        decreases a.len() - i,
    {
        out.push(copy_capture_provenance_hop_v1(&a[i]));
        i = i + 1;
    }
    out
}

pub fn copy_vec_capture_source_v1(a: &Vec<CaptureSourceV1>) -> (r: Vec<CaptureSourceV1>)
    ensures
        spec_same_seq_capture_source_v1(r@, a@),
{
    let mut out: Vec<CaptureSourceV1> = Vec::new();
    let mut i: usize = 0;
    while i < a.len()
        invariant
            i <= a.len(),
            out.len() == i,
            forall|k: int| #![trigger out@[k]] 0 <= k < i ==> spec_same_capture_source_v1(out@[k], a@[k]),
        decreases a.len() - i,
    {
        out.push(copy_capture_source_v1(&a[i]));
        i = i + 1;
    }
    out
}

pub fn copy_vec_lane_boundary_v1(a: &Vec<LaneBoundaryV1>) -> (r: Vec<LaneBoundaryV1>)
    ensures
        spec_same_seq_lane_boundary_v1(r@, a@),
{
    let mut out: Vec<LaneBoundaryV1> = Vec::new();
    let mut i: usize = 0;
    while i < a.len()
        invariant
            i <= a.len(),
            out.len() == i,
            forall|k: int| #![trigger out@[k]] 0 <= k < i ==> spec_same_lane_boundary_v1(out@[k], a@[k]),
        decreases a.len() - i,
    {
        out.push(copy_lane_boundary_v1(&a[i]));
        i = i + 1;
    }
    out
}

pub fn copy_vec_segment_close_reference_v1(a: &Vec<SegmentCloseReferenceV1>) -> (r: Vec<SegmentCloseReferenceV1>)
    ensures
        spec_same_seq_segment_close_reference_v1(r@, a@),
{
    let mut out: Vec<SegmentCloseReferenceV1> = Vec::new();
    let mut i: usize = 0;
    while i < a.len()
        invariant
            i <= a.len(),
            out.len() == i,
            forall|k: int| #![trigger out@[k]] 0 <= k < i ==> spec_same_segment_close_reference_v1(out@[k], a@[k]),
        decreases a.len() - i,
    {
        out.push(copy_segment_close_reference_v1(&a[i]));
        i = i + 1;
    }
    out
}

pub fn copy_vec_sequence_range_v1(a: &Vec<SequenceRangeV1>) -> (r: Vec<SequenceRangeV1>)
    ensures
        spec_same_seq_sequence_range_v1(r@, a@),
{
    let mut out: Vec<SequenceRangeV1> = Vec::new();
    let mut i: usize = 0;
    while i < a.len()
        invariant
            i <= a.len(),
            out.len() == i,
            forall|k: int| #![trigger out@[k]] 0 <= k < i ==> spec_same_sequence_range_v1(out@[k], a@[k]),
        decreases a.len() - i,
    {
        out.push(copy_sequence_range_v1(&a[i]));
        i = i + 1;
    }
    out
}

pub fn copy_vec_source_id(a: &Vec<SourceId>) -> (r: Vec<SourceId>)
    ensures
        spec_same_seq_source_id(r@, a@),
{
    let mut out: Vec<SourceId> = Vec::new();
    let mut i: usize = 0;
    while i < a.len()
        invariant
            i <= a.len(),
            out.len() == i,
            forall|k: int| #![trigger out@[k]] 0 <= k < i ==> out@[k]@ == a@[k]@,
        decreases a.len() - i,
    {
        out.push(SourceId(a[i].0.clone()));
        i = i + 1;
    }
    out
}

pub fn copy_vec_transcript_span_v1(a: &Vec<TranscriptSpanV1>) -> (r: Vec<TranscriptSpanV1>)
    ensures
        spec_same_seq_transcript_span_v1(r@, a@),
{
    let mut out: Vec<TranscriptSpanV1> = Vec::new();
    let mut i: usize = 0;
    while i < a.len()
        invariant
            i <= a.len(),
            out.len() == i,
            forall|k: int| #![trigger out@[k]] 0 <= k < i ==> spec_same_transcript_span_v1(out@[k], a@[k]),
        decreases a.len() - i,
    {
        out.push(copy_transcript_span_v1(&a[i]));
        i = i + 1;
    }
    out
}

} // verus!
