//! Message-level V1 validation: invariants that can be checked without
//! session state. Idempotency conflicts, prior sequences, lifecycle and
//! cross-message time ordering remain the runtime's responsibility.
use crate::protocol::types::{
    AppendProvenanceHopV1, ArtifactReadyV1, AudioAcknowledgementV1, AudioChunkV1, AudioFormatV1,
    CaptureDiscontinuityV1, CaptureHealthV1, CaptureLaneV1, CaptureProvenanceHopV1,
    CaptureProvenanceV1, CaptureSourceV1, ClientMessageBodyV1, ClientMessageV1, CloseSegmentV1,
    CommandRejectedV1, ContentDigestV1, CreateSessionV1, DigestAlgorithmV1, FinalizeSessionV1, LaneBoundaryV1,
    MemoEventV1, ProvenanceHopRecordedV1, ReplayCompletedV1, ResumeSessionV1,
    SegmentCloseReferenceV1, SegmentFinalizedV1, SequenceRangeV1, ServerMessageBodyV1,
    ServerMessageV1, SessionFinalizedV1, TranscriptCommittedV1, TranscriptPartialV1,
    TranscriptSpanV1, MAX_SAFE_JSON_INTEGER,
};
use crate::text::{chars_of, is_blank, is_blank_text};
use vstd::prelude::*;

verus! {

/// A local, message-level V1 validation failure: the offending field and a
/// short description of the problem.
#[derive(Debug, Clone, PartialEq, Eq)]
pub struct ValidationErrorV1 {
    pub field: &'static str,
    pub problem: &'static str,
}

/// A non-empty identifier: something other than whitespace.
pub open spec fn id_ok(s: Seq<char>) -> bool {
    !is_blank_text(s)
}

/// Exactly representable by JSON/JavaScript numbers.
pub open spec fn json_ok(v: u64) -> bool {
    v <= MAX_SAFE_JSON_INTEGER
}

/// Pairwise distinct texts.
pub open spec fn distinct_texts(s: Seq<Seq<char>>) -> bool {
    forall|i: int, j: int| 0 <= i < j < s.len() ==> s[i] != s[j]
}

pub fn invalid(field: &'static str, problem: &'static str) -> (r: ValidationErrorV1)
    ensures
        r.field == field,
        r.problem == problem,
{
    ValidationErrorV1 { field, problem }
}

pub fn validate_id(field: &'static str, value: &str) -> (r: Result<(), ValidationErrorV1>)
    ensures
        r is Ok <==> id_ok(value@),
        r matches Err(e) ==> e.field == field && e.problem == "must not be empty",
{
    if is_blank(value) {
        Err(invalid(field, "must not be empty"))
    } else {
        Ok(())
    }
}

pub fn validate_json_integer(field: &'static str, value: u64) -> (r: Result<(), ValidationErrorV1>)
    ensures
        r is Ok <==> json_ok(value),
        r matches Err(e) ==> e.field == field,
{
    if value > MAX_SAFE_JSON_INTEGER {
        Err(invalid(field, "must be exactly representable by JSON/JavaScript"))
    } else {
        Ok(())
    }
}

// ---------------------------------------------------------------------------
// Validity predicates
// ---------------------------------------------------------------------------
pub open spec fn sequence_range_ok(r: SequenceRangeV1) -> bool {
    json_ok(r.start) && json_ok(r.end_exclusive) && r.start <= r.end_exclusive
}

pub open spec fn audio_format_ok(f: AudioFormatV1) -> bool {
    f.sample_rate_hz != 0 && f.channel_count != 0
}

pub open spec fn is_lower_hex(c: char) -> bool {
    ('0' <= c && c <= '9') || ('a' <= c && c <= 'f')
}

/// Both algorithms produce 32-byte digests: 64 lowercase hex characters.
pub open spec fn digest_ok(d: ContentDigestV1) -> bool {
    d.hex@.len() == 64 && forall|i: int| 0 <= i < d.hex@.len() ==> is_lower_hex(#[trigger] d.hex@[i])
}

pub open spec fn keys_ok(pairs: Seq<(String, String)>) -> bool {
    forall|i: int| 0 <= i < pairs.len() ==> id_ok(#[trigger] pairs[i].0@)
}

pub open spec fn provenance_hop_ok(h: CaptureProvenanceHopV1) -> bool {
    id_ok(h.producer@) && json_ok(h.observed_at_unix_ms.0) && keys_ok(h.attributes@)
}

pub open spec fn provenance_ok(p: CaptureProvenanceV1) -> bool {
    p.hops.len() > 0 && forall|i: int| 0 <= i < p.hops.len() ==> provenance_hop_ok(#[trigger] p.hops@[i])
}

pub open spec fn source_texts(sources: Seq<CaptureSourceV1>) -> Seq<Seq<char>> {
    sources.map_values(|s: CaptureSourceV1| s.source_id@)
}

pub open spec fn lane_source_texts(lane: CaptureLaneV1) -> Seq<Seq<char>> {
    lane.source_ids@.map_values(|s: crate::protocol::types::SourceId| s@)
}

pub open spec fn lane_texts(lanes: Seq<CaptureLaneV1>) -> Seq<Seq<char>> {
    lanes.map_values(|l: CaptureLaneV1| l.lane_id@)
}

/// A lane is well formed against the declared source IDs.
pub open spec fn lane_ok(lane: CaptureLaneV1, declared: Seq<Seq<char>>) -> bool {
    &&& id_ok(lane.lane_id@)
    &&& lane.source_ids.len() > 0
    &&& forall|k: int| 0 <= k < lane.source_ids.len() ==> declared.contains(#[trigger] lane_source_texts(lane)[k])
    &&& distinct_texts(lane_source_texts(lane))
    &&& audio_format_ok(lane.format)
}

pub open spec fn create_session_ok(c: CreateSessionV1) -> bool {
    &&& id_ok(c.idempotency_key@)
    &&& json_ok(c.started_at_unix_ms.0)
    &&& c.sources.len() > 0
    &&& c.lanes.len() > 0
    &&& provenance_ok(c.provenance)
    &&& forall|i: int| 0 <= i < c.sources.len() ==> id_ok(#[trigger] c.sources@[i].source_id@)
    &&& distinct_texts(source_texts(c.sources@))
    &&& forall|i: int| 0 <= i < c.lanes.len() ==> lane_ok(#[trigger] c.lanes@[i], source_texts(c.sources@))
    &&& distinct_texts(lane_texts(c.lanes@))
}

pub open spec fn resume_ok(r: ResumeSessionV1) -> bool {
    r.after_server_sequence matches Some(s) ==> json_ok(s)
}

pub open spec fn append_hop_ok(a: AppendProvenanceHopV1) -> bool {
    id_ok(a.provenance_hop_id@) && provenance_hop_ok(a.hop)
}

pub open spec fn audio_chunk_ok(c: AudioChunkV1) -> bool {
    &&& id_ok(c.segment_id@)
    &&& id_ok(c.lane_id@)
    &&& json_ok(c.sequence)
    &&& json_ok(c.starts_at_ms.0)
    &&& json_ok(c.duration_ms.0)
    &&& c.duration_ms.0 != 0
    &&& c.payload.len() > 0
    &&& digest_ok(c.payload_digest)
}

pub open spec fn discontinuity_ok(d: CaptureDiscontinuityV1) -> bool {
    &&& id_ok(d.discontinuity_id@)
    &&& id_ok(d.segment_id@)
    &&& id_ok(d.lane_id@)
    &&& sequence_range_ok(d.sequence_range)
    &&& json_ok(d.starts_at_ms.0)
    &&& json_ok(d.duration_ms.0)
    &&& d.duration_ms.0 != 0
}

pub open spec fn health_ok(h: CaptureHealthV1) -> bool {
    &&& json_ok(h.observed_at_ms.0)
    &&& json_ok(h.dropped_chunk_count)
    &&& (h.lane_id matches Some(l) ==> id_ok(l@))
    &&& (h.queued_audio_ms matches Some(q) ==> json_ok(q.0))
}

pub open spec fn boundary_texts(b: Seq<LaneBoundaryV1>) -> Seq<Seq<char>> {
    b.map_values(|x: LaneBoundaryV1| x.lane_id@)
}

pub open spec fn boundary_ok(b: LaneBoundaryV1) -> bool {
    id_ok(b.lane_id@) && json_ok(b.next_sequence)
}

pub open spec fn lane_boundaries_ok(b: Seq<LaneBoundaryV1>) -> bool {
    &&& forall|i: int| 0 <= i < b.len() ==> boundary_ok(#[trigger] b[i])
    &&& distinct_texts(boundary_texts(b))
}

pub open spec fn close_segment_ok(c: CloseSegmentV1) -> bool {
    &&& id_ok(c.segment_id@)
    &&& json_ok(c.ended_at_ms.0)
    &&& c.lane_boundaries.len() > 0
    &&& lane_boundaries_ok(c.lane_boundaries@)
}

pub open spec fn close_reference_ok(r: SegmentCloseReferenceV1) -> bool {
    id_ok(r.segment_id@) && id_ok(r.close_message_id@)
}

pub open spec fn segment_close_list_ok(refs: Seq<SegmentCloseReferenceV1>) -> bool {
    &&& forall|i: int| 0 <= i < refs.len() ==> close_reference_ok(#[trigger] refs[i])
    &&& distinct_texts(refs.map_values(|r: SegmentCloseReferenceV1| r.segment_id@))
    &&& distinct_texts(refs.map_values(|r: SegmentCloseReferenceV1| r.close_message_id@))
}

pub open spec fn finalize_ok(f: FinalizeSessionV1) -> bool {
    json_ok(f.ended_at_ms.0) && segment_close_list_ok(f.segment_closes@)
}

pub open spec fn client_body_ok(b: ClientMessageBodyV1) -> bool {
    match b {
        ClientMessageBodyV1::CreateSession(v) => create_session_ok(v),
        ClientMessageBodyV1::ResumeSession(v) => resume_ok(v),
        ClientMessageBodyV1::AppendProvenanceHop(v) => append_hop_ok(v),
        ClientMessageBodyV1::AudioChunk(v) => audio_chunk_ok(v),
        ClientMessageBodyV1::CaptureDiscontinuity(v) => discontinuity_ok(v),
        ClientMessageBodyV1::CaptureHealth(v) => health_ok(v),
        ClientMessageBodyV1::CloseSegment(v) => close_segment_ok(v),
        ClientMessageBodyV1::FinalizeSession(v) => finalize_ok(v),
    }
}

pub open spec fn client_message_ok(m: ClientMessageV1) -> bool {
    &&& id_ok(m.message_id@)
    &&& id_ok(m.session_id@)
    &&& json_ok(m.sent_at_unix_ms.0)
    &&& client_body_ok(m.body)
}

/// Out-of-order ranges of an acknowledgement: each valid and non-empty, and
/// each starting strictly above the end of the one before (or above the
/// cumulative boundary for the first).
pub open spec fn ack_ranges_ok(through: u64, rs: Seq<SequenceRangeV1>) -> bool {
    forall|i: int|
        0 <= i < rs.len() ==> {
            &&& sequence_range_ok(#[trigger] rs[i])
            &&& rs[i].start != rs[i].end_exclusive
            &&& rs[i].start > (if i == 0 { through } else { rs[i - 1].end_exclusive })
        }
}

pub open spec fn ack_ok(a: AudioAcknowledgementV1) -> bool {
    &&& id_ok(a.segment_id@)
    &&& id_ok(a.lane_id@)
    &&& json_ok(a.durable_through_sequence)
    &&& ack_ranges_ok(a.durable_through_sequence, a.durable_out_of_order@)
}

pub open spec fn range_contains(r: SequenceRangeV1, s: u64) -> bool {
    r.start <= s && s < r.end_exclusive
}

/// A sequence is known durable by an acknowledgement.
pub open spec fn ack_covers(a: AudioAcknowledgementV1, s: u64) -> bool {
    s < a.durable_through_sequence || exists|i: int|
        0 <= i < a.durable_out_of_order.len() && range_contains(#[trigger] a.durable_out_of_order@[i], s)
}

pub open spec fn span_ok(s: TranscriptSpanV1) -> bool {
    &&& id_ok(s.span_id@)
    &&& json_ok(s.starts_at_ms.0)
    &&& json_ok(s.ends_at_ms.0)
    &&& s.starts_at_ms.0 <= s.ends_at_ms.0
    &&& id_ok(s.text@)
    &&& (s.confidence_per_mille matches Some(c) ==> c <= 1000)
}

pub open spec fn spans_ok(spans: Seq<TranscriptSpanV1>) -> bool {
    forall|i: int| 0 <= i < spans.len() ==> span_ok(#[trigger] spans[i])
}

pub open spec fn server_body_ok(b: ServerMessageBodyV1) -> bool {
    match b {
        ServerMessageBodyV1::SessionCreated(v) => id_ok(v.create_message_id@) && json_ok(
            v.created_at_unix_ms.0,
        ),
        ServerMessageBodyV1::ReplayCompleted(v) => id_ok(v.resume_message_id@) && (
        v.replayed_through_server_sequence matches Some(s) ==> json_ok(s)),
        ServerMessageBodyV1::ProvenanceHopRecorded(v) => id_ok(v.append_message_id@) && id_ok(
            v.provenance_hop_id@,
        ),
        ServerMessageBodyV1::CommandRejected(v) => id_ok(v.rejected_message_id@) && id_ok(v.code@)
            && keys_ok(v.details@),
        ServerMessageBodyV1::AudioAcknowledged(v) => ack_ok(v),
        ServerMessageBodyV1::SegmentFinalized(v) => id_ok(v.segment_id@) && id_ok(
            v.close_message_id@,
        ) && json_ok(v.finalized_at_unix_ms.0) && json_ok(v.duration_ms.0) && lane_boundaries_ok(
            v.lane_boundaries@,
        ),
        ServerMessageBodyV1::SessionFinalized(v) => id_ok(v.finalize_message_id@) && json_ok(
            v.finalized_at_unix_ms.0,
        ) && json_ok(v.duration_ms.0) && segment_close_list_ok(v.segment_closes@),
        ServerMessageBodyV1::TranscriptPartial(v) => id_ok(v.segment_id@) && id_ok(
            v.hypothesis_id@,
        ) && json_ok(v.revision) && spans_ok(v.spans@),
        ServerMessageBodyV1::TranscriptCommitted(v) => id_ok(v.segment_id@) && id_ok(v.commit_id@)
            && json_ok(v.commit_sequence) && json_ok(v.committed_through_ms.0) && spans_ok(
            v.spans@,
        ) && forall|i: int|
            0 <= i < v.spans.len() ==> (#[trigger] v.spans@[i]).ends_at_ms.0
                <= v.committed_through_ms.0,
        ServerMessageBodyV1::Memo(v) => id_ok(v.memo_id@) && json_ok(v.revision) && json_ok(
            v.based_on_commit_sequence,
        ) && json_ok(v.generated_at_unix_ms.0),
        ServerMessageBodyV1::ArtifactReady(v) => id_ok(v.artifact_id@) && json_ok(v.revision)
            && json_ok(v.byte_length) && json_ok(v.generated_at_unix_ms.0) && id_ok(
            v.media_type@,
        ) && id_ok(v.locator@) && digest_ok(v.digest),
        ServerMessageBodyV1::Unknown(v) => id_ok(v.message_type@),
    }
}

pub open spec fn server_message_ok(m: ServerMessageV1) -> bool {
    &&& id_ok(m.message_id@)
    &&& id_ok(m.session_id@)
    &&& json_ok(m.sequence)
    &&& json_ok(m.sent_at_unix_ms.0)
    &&& server_body_ok(m.body)
}

/// Whether the text `t` occurs among the first `end` entries.
fn source_declared_before(v: &Vec<CaptureSourceV1>, end: usize, t: &String) -> (r: bool)
    requires
        end <= v.len(),
    ensures
        r == exists|k: int| 0 <= k < end && #[trigger] v@[k].source_id@ == t@,
{
    let mut k: usize = 0;
    while k < end
        invariant
            end <= v.len(),
            k <= end,
            forall|j: int| 0 <= j < k ==> #[trigger] v@[j].source_id@ != t@,
        decreases end - k,
    {
        if v[k].source_id.0 == *t {
            proof {
                let kk = k as int;
                assert(v@[kk].source_id@ == t@);
            }
            return true;
        }
        k = k + 1;
    }
    false
}

/// Whether the text `t` occurs among the first `end` entries.
fn lane_source_before(v: &Vec<crate::protocol::types::SourceId>, end: usize, t: &String) -> (r: bool)
    requires
        end <= v.len(),
    ensures
        r == exists|k: int| 0 <= k < end && #[trigger] v@[k]@ == t@,
{
    let mut k: usize = 0;
    while k < end
        invariant
            end <= v.len(),
            k <= end,
            forall|j: int| 0 <= j < k ==> #[trigger] v@[j]@ != t@,
        decreases end - k,
    {
        if v[k].0 == *t {
            proof {
                let kk = k as int;
                assert(v@[kk]@ == t@);
            }
            return true;
        }
        k = k + 1;
    }
    false
}

/// Whether the text `t` occurs among the first `end` entries.
fn lane_declared_before(v: &Vec<CaptureLaneV1>, end: usize, t: &String) -> (r: bool)
    requires
        end <= v.len(),
    ensures
        r == exists|k: int| 0 <= k < end && #[trigger] v@[k].lane_id@ == t@,
{
    let mut k: usize = 0;
    while k < end
        invariant
            end <= v.len(),
            k <= end,
            forall|j: int| 0 <= j < k ==> #[trigger] v@[j].lane_id@ != t@,
        decreases end - k,
    {
        if v[k].lane_id.0 == *t {
            proof {
                let kk = k as int;
                assert(v@[kk].lane_id@ == t@);
            }
            return true;
        }
        k = k + 1;
    }
    false
}

/// Whether the text `t` occurs among the first `end` entries.
fn boundary_declared_before(v: &Vec<LaneBoundaryV1>, end: usize, t: &String) -> (r: bool)
    requires
        end <= v.len(),
    ensures
        r == exists|k: int| 0 <= k < end && #[trigger] v@[k].lane_id@ == t@,
{
    let mut k: usize = 0;
    while k < end
        invariant
            end <= v.len(),
            k <= end,
            forall|j: int| 0 <= j < k ==> #[trigger] v@[j].lane_id@ != t@,
        decreases end - k,
    {
        if v[k].lane_id.0 == *t {
            proof {
                let kk = k as int;
                assert(v@[kk].lane_id@ == t@);
            }
            return true;
        }
        k = k + 1;
    }
    false
}

/// Whether the text `t` occurs among the first `end` entries.
fn close_segment_before(v: &Vec<SegmentCloseReferenceV1>, end: usize, t: &String) -> (r: bool)
    requires
        end <= v.len(),
    ensures
        r == exists|k: int| 0 <= k < end && #[trigger] v@[k].segment_id@ == t@,
{
    let mut k: usize = 0;
    while k < end
        invariant
            end <= v.len(),
            k <= end,
            forall|j: int| 0 <= j < k ==> #[trigger] v@[j].segment_id@ != t@,
        decreases end - k,
    {
        if v[k].segment_id.0 == *t {
            proof {
                let kk = k as int;
                assert(v@[kk].segment_id@ == t@);
            }
            return true;
        }
        k = k + 1;
    }
    false
}

/// Whether the text `t` occurs among the first `end` entries.
fn close_message_before(v: &Vec<SegmentCloseReferenceV1>, end: usize, t: &String) -> (r: bool)
    requires
        end <= v.len(),
    ensures
        r == exists|k: int| 0 <= k < end && #[trigger] v@[k].close_message_id@ == t@,
{
    let mut k: usize = 0;
    while k < end
        invariant
            end <= v.len(),
            k <= end,
            forall|j: int| 0 <= j < k ==> #[trigger] v@[j].close_message_id@ != t@,
        decreases end - k,
    {
        if v[k].close_message_id.0 == *t {
            proof {
                let kk = k as int;
                assert(v@[kk].close_message_id@ == t@);
            }
            return true;
        }
        k = k + 1;
    }
    false
}

// ---------------------------------------------------------------------------
// Validation
// ---------------------------------------------------------------------------
impl SequenceRangeV1 {
    pub fn is_empty(self) -> (r: bool)
        ensures
            r == (self.start == self.end_exclusive),
    {
        self.start == self.end_exclusive
    }

    pub fn is_valid(self) -> (r: bool)
        ensures
            r == (self.start <= self.end_exclusive),
    {
        self.start <= self.end_exclusive
    }

    pub fn contains(self, sequence: u64) -> (r: bool)
        ensures
            r == range_contains(self, sequence),
    {
        self.start <= sequence && sequence < self.end_exclusive
    }

    pub fn validate(self) -> (r: Result<(), ValidationErrorV1>)
        ensures
            r is Ok <==> sequence_range_ok(self),
    {
        validate_json_integer("sequence_range.start", self.start)?;
        validate_json_integer("sequence_range.end_exclusive", self.end_exclusive)?;
        if !self.is_valid() {
            return Err(invalid("sequence_range", "start must not exceed end_exclusive"));
        }
        Ok(())
    }
}

impl AudioFormatV1 {
    pub fn validate(&self) -> (r: Result<(), ValidationErrorV1>)
        ensures
            r is Ok <==> audio_format_ok(*self),
            self.sample_rate_hz == 0 ==> (r matches Err(e) && e.field@ == "format.sample_rate_hz"@ && e.problem@ == "must be nonzero"@),
            self.sample_rate_hz != 0 && self.channel_count == 0 ==> (r matches Err(e) && e.field@ == "format.channel_count"@
                && e.problem@ == "must be nonzero"@),
    {
        if self.sample_rate_hz == 0 {
            return Err(invalid("format.sample_rate_hz", "must be nonzero"));
        }
        if self.channel_count == 0 {
            return Err(invalid("format.channel_count", "must be nonzero"));
        }
        Ok(())
    }
}

impl ContentDigestV1 {
    pub fn validate(&self) -> (r: Result<(), ValidationErrorV1>)
        ensures
            r is Ok <==> digest_ok(*self),
            r matches Err(e) ==> e.field@ == "digest.hex"@ && e.problem@ == "must be a lowercase hexadecimal digest of the declared algorithm"@,
    {
        let expected_length: usize = match self.algorithm {
            DigestAlgorithmV1::Sha256 => 64,
            DigestAlgorithmV1::Blake3 => 64,
        };
        let chars = chars_of(self.hex.as_str());
        let mut all_hex = true;
        let mut i: usize = 0;
        while i < chars.len()
            invariant
                chars@ == self.hex@,
                i <= chars.len(),
                all_hex == (forall|k: int| 0 <= k < i ==> is_lower_hex(#[trigger] chars@[k])),
            decreases chars.len() - i,
        {
            let c = chars[i];
            let ok = ('0' <= c && c <= '9') || ('a' <= c && c <= 'f');
            all_hex = all_hex && ok;
            i = i + 1;
        }
        if chars.len() != expected_length || !all_hex {
            return Err(
                invalid(
                    "digest.hex",
                    "must be a lowercase hexadecimal digest of the declared algorithm",
                ),
            );
        }
        Ok(())
    }
}

/// Rejects blank keys in a key/value list.
fn validate_keys(field: &'static str, pairs: &Vec<(String, String)>) -> (r: Result<(), ValidationErrorV1>)
    ensures
        r is Ok <==> keys_ok(pairs@),
{
    let mut i: usize = 0;
    while i < pairs.len()
        invariant
            i <= pairs.len(),
            forall|k: int| 0 <= k < i ==> id_ok(#[trigger] pairs@[k].0@),
        decreases pairs.len() - i,
    {
        if is_blank(pairs[i].0.as_str()) {
            return Err(invalid(field, "keys must not be empty"));
        }
        i = i + 1;
    }
    Ok(())
}

impl CaptureProvenanceHopV1 {
    pub fn validate(&self) -> (r: Result<(), ValidationErrorV1>)
        ensures
            r is Ok <==> provenance_hop_ok(*self),
    {
        validate_id("provenance.hops[].producer", self.producer.as_str())?;
        validate_json_integer(
            "provenance.hops[].observed_at_unix_ms",
            self.observed_at_unix_ms.0,
        )?;
        validate_keys("provenance.hops[].attributes", &self.attributes)
    }
}

impl CaptureProvenanceV1 {
    pub fn validate(&self) -> (r: Result<(), ValidationErrorV1>)
        ensures
            r is Ok <==> provenance_ok(*self),
            self.hops@.len() == 0 ==> (r matches Err(e) && e.field@ == "provenance.hops"@ && e.problem@ == "must not be empty"@),
    {
        if self.hops.len() == 0 {
            return Err(invalid("provenance.hops", "must not be empty"));
        }
        let mut i: usize = 0;
        while i < self.hops.len()
            invariant
                i <= self.hops.len(),
                forall|k: int| 0 <= k < i ==> provenance_hop_ok(#[trigger] self.hops@[k]),
            decreases self.hops.len() - i,
        {
            self.hops[i].validate()?;
            i = i + 1;
        }
        Ok(())
    }
}

impl CaptureLaneV1 {
    /// Validates one lane against the declared sources.
    fn validate_against(&self, sources: &Vec<CaptureSourceV1>) -> (r: Result<(), ValidationErrorV1>)
        ensures
            r is Ok <==> lane_ok(*self, source_texts(sources@)),
    {
        validate_id("lanes[].lane_id", self.lane_id.as_str())?;
        if self.source_ids.len() == 0 {
            return Err(invalid("lanes[].source_ids", "must contain at least one source"));
        }
        let mut i: usize = 0;
        while i < self.source_ids.len()
            invariant
                i <= self.source_ids.len(),
                forall|k: int| 0 <= k < i ==> source_texts(sources@).contains(#[trigger] lane_source_texts(*self)[k]),
                forall|a: int, b: int| 0 <= a < b < i ==> lane_source_texts(*self)[a] != lane_source_texts(*self)[b],
            decreases self.source_ids.len() - i,
        {
            let declared = source_declared_before(sources, sources.len(), &self.source_ids[i].0);
            if !declared {
                proof {
                    assert(!source_texts(sources@).contains(lane_source_texts(*self)[i as int]));
                }
                return Err(invalid("lanes[].source_ids", "must reference a declared source"));
            }
            proof {
                let k = choose|k: int| 0 <= k < sources.len() && #[trigger] sources@[k].source_id@ == self.source_ids@[i as int]@;
                assert(source_texts(sources@)[k] == lane_source_texts(*self)[i as int]);
            }
            if lane_source_before(&self.source_ids, i, &self.source_ids[i].0) {
                proof {
                    let k = choose|k: int| 0 <= k < i && #[trigger] self.source_ids@[k]@ == self.source_ids@[i as int]@;
                    assert(lane_source_texts(*self)[k] == lane_source_texts(*self)[i as int]);
                }
                return Err(invalid("lanes[].source_ids", "must be unique"));
            }
            proof {
                assert forall|k: int| 0 <= k < i implies lane_source_texts(*self)[k] != lane_source_texts(*self)[i as int] by {
                    assert(lane_source_texts(*self)[k] == self.source_ids@[k]@);
                }
            }
            i = i + 1;
        }
        self.format.validate()
    }
}

impl CreateSessionV1 {
    pub fn validate(&self) -> (r: Result<(), ValidationErrorV1>)
        ensures
            r is Ok <==> create_session_ok(*self),
    {
        validate_id("idempotency_key", self.idempotency_key.as_str())?;
        validate_json_integer("started_at_unix_ms", self.started_at_unix_ms.0)?;
        if self.sources.len() == 0 {
            return Err(invalid("sources", "must contain at least one source"));
        }
        if self.lanes.len() == 0 {
            return Err(invalid("lanes", "must contain at least one lane"));
        }
        self.provenance.validate()?;
        let mut i: usize = 0;
        while i < self.sources.len()
            invariant
                i <= self.sources.len(),
                forall|k: int| 0 <= k < i ==> id_ok(#[trigger] self.sources@[k].source_id@),
                forall|a: int, b: int| 0 <= a < b < i ==> source_texts(self.sources@)[a] != source_texts(self.sources@)[b],
            decreases self.sources.len() - i,
        {
            validate_id("sources[].source_id", self.sources[i].source_id.as_str())?;
            if source_declared_before(&self.sources, i, &self.sources[i].source_id.0) {
                proof {
                    let k = choose|k: int| 0 <= k < i && #[trigger] self.sources@[k].source_id@ == self.sources@[i as int].source_id@;
                    assert(source_texts(self.sources@)[k] == source_texts(self.sources@)[i as int]);
                }
                return Err(invalid("sources[].source_id", "must be unique"));
            }
            proof {
                assert forall|k: int| 0 <= k < i implies source_texts(self.sources@)[k] != source_texts(self.sources@)[i as int] by {
                    assert(source_texts(self.sources@)[k] == self.sources@[k].source_id@);
                }
            }
            i = i + 1;
        }
        let mut j: usize = 0;
        while j < self.lanes.len()
            invariant
                j <= self.lanes.len(),
                forall|k: int| 0 <= k < self.sources.len() ==> id_ok(#[trigger] self.sources@[k].source_id@),
                distinct_texts(source_texts(self.sources@)),
                forall|k: int| 0 <= k < j ==> lane_ok(#[trigger] self.lanes@[k], source_texts(self.sources@)),
                forall|a: int, b: int| 0 <= a < b < j ==> lane_texts(self.lanes@)[a] != lane_texts(self.lanes@)[b],
            decreases self.lanes.len() - j,
        {
            validate_id("lanes[].lane_id", self.lanes[j].lane_id.as_str())?;
            if lane_declared_before(&self.lanes, j, &self.lanes[j].lane_id.0) {
                proof {
                    let k = choose|k: int| 0 <= k < j && #[trigger] self.lanes@[k].lane_id@ == self.lanes@[j as int].lane_id@;
                    assert(lane_texts(self.lanes@)[k] == lane_texts(self.lanes@)[j as int]);
                }
                return Err(invalid("lanes[].lane_id", "must be unique"));
            }
            proof {
                assert forall|k: int| 0 <= k < j implies lane_texts(self.lanes@)[k] != lane_texts(self.lanes@)[j as int] by {
                    assert(lane_texts(self.lanes@)[k] == self.lanes@[k].lane_id@);
                }
            }
            self.lanes[j].validate_against(&self.sources)?;
            j = j + 1;
        }
        Ok(())
    }
}

impl ResumeSessionV1 {
    pub fn validate(&self) -> (r: Result<(), ValidationErrorV1>)
        ensures
            r is Ok <==> resume_ok(*self),
    {
        if let Some(sequence) = self.after_server_sequence {
            validate_json_integer("after_server_sequence", sequence)?;
        }
        Ok(())
    }
}

impl ReplayCompletedV1 {
    pub fn validate(&self) -> (r: Result<(), ValidationErrorV1>)
        ensures
            r is Ok <==> server_body_ok(ServerMessageBodyV1::ReplayCompleted(*self)),
    {
        validate_id("resume_message_id", self.resume_message_id.as_str())?;
        if let Some(sequence) = self.replayed_through_server_sequence {
            validate_json_integer("replayed_through_server_sequence", sequence)?;
        }
        Ok(())
    }
}

impl CommandRejectedV1 {
    pub fn validate(&self) -> (r: Result<(), ValidationErrorV1>)
        ensures
            r is Ok <==> server_body_ok(ServerMessageBodyV1::CommandRejected(*self)),
    {
        validate_id("rejected_message_id", self.rejected_message_id.as_str())?;
        validate_id("code", self.code.as_str())?;
        validate_keys("details", &self.details)
    }
}

impl AppendProvenanceHopV1 {
    pub fn validate(&self) -> (r: Result<(), ValidationErrorV1>)
        ensures
            r is Ok <==> append_hop_ok(*self),
    {
        validate_id("provenance_hop_id", self.provenance_hop_id.as_str())?;
        self.hop.validate()
    }
}

impl ProvenanceHopRecordedV1 {
    pub fn validate(&self) -> (r: Result<(), ValidationErrorV1>)
        ensures
            r is Ok <==> server_body_ok(ServerMessageBodyV1::ProvenanceHopRecorded(*self)),
    {
        validate_id("append_message_id", self.append_message_id.as_str())?;
        validate_id("provenance_hop_id", self.provenance_hop_id.as_str())
    }
}

impl AudioChunkV1 {
    pub fn validate(&self) -> (r: Result<(), ValidationErrorV1>)
        ensures
            r is Ok <==> audio_chunk_ok(*self),
    {
        validate_id("segment_id", self.segment_id.as_str())?;
        validate_id("lane_id", self.lane_id.as_str())?;
        validate_json_integer("sequence", self.sequence)?;
        validate_json_integer("starts_at_ms", self.starts_at_ms.0)?;
        validate_json_integer("duration_ms", self.duration_ms.0)?;
        if self.duration_ms.0 == 0 {
            return Err(invalid("duration_ms", "must be nonzero"));
        }
        if self.payload.len() == 0 {
            return Err(invalid("payload", "must not be empty"));
        }
        self.payload_digest.validate()
    }
}

impl AudioAcknowledgementV1 {
    pub fn validate(&self) -> (r: Result<(), ValidationErrorV1>)
        ensures
            r is Ok <==> ack_ok(*self),
    {
        validate_id("segment_id", self.segment_id.as_str())?;
        validate_id("lane_id", self.lane_id.as_str())?;
        validate_json_integer("durable_through_sequence", self.durable_through_sequence)?;
        let mut previous_end = self.durable_through_sequence;
        let mut i: usize = 0;
        while i < self.durable_out_of_order.len()
            invariant
                i <= self.durable_out_of_order.len(),
                ack_ranges_ok(self.durable_through_sequence, self.durable_out_of_order@.take(i as int)),
                previous_end == (if i == 0 {
                    self.durable_through_sequence
                } else {
                    self.durable_out_of_order@[i - 1].end_exclusive
                }),
            decreases self.durable_out_of_order.len() - i,
        {
            let range = self.durable_out_of_order[i];
            proof {
                assert(self.durable_out_of_order@.take(i as int) =~= self.durable_out_of_order@.take(i + 1).take(i as int));
            }
            if range.validate().is_err() {
                proof {
                    assert(self.durable_out_of_order@.take(i + 1)[i as int] == range);
                    assert(!ack_ranges_ok(self.durable_through_sequence, self.durable_out_of_order@.take(i + 1)));
                    lemma_ack_ranges_prefix(self.durable_through_sequence, self.durable_out_of_order@, i + 1);
                }
                return Err(invalid("sequence_range", "start must not exceed end_exclusive"));
            }
            if range.is_empty() {
                proof {
                    assert(self.durable_out_of_order@.take(i + 1)[i as int] == range);
                    lemma_ack_ranges_prefix(self.durable_through_sequence, self.durable_out_of_order@, i + 1);
                }
                return Err(invalid("durable_out_of_order", "must not contain empty ranges"));
            }
            if range.start <= previous_end {
                proof {
                    assert(self.durable_out_of_order@.take(i + 1)[i as int] == range);
                    lemma_ack_ranges_prefix(self.durable_through_sequence, self.durable_out_of_order@, i + 1);
                }
                return Err(
                    invalid(
                        "durable_out_of_order",
                        "must be sorted, non-adjacent, disjoint, and above the cumulative boundary",
                    ),
                );
            }
            previous_end = range.end_exclusive;
            proof {
                assert forall|k: int| 0 <= k < i + 1 implies {
                    &&& sequence_range_ok(#[trigger] self.durable_out_of_order@.take(i + 1)[k])
                    &&& self.durable_out_of_order@.take(i + 1)[k].start != self.durable_out_of_order@.take(i + 1)[k].end_exclusive
                    &&& self.durable_out_of_order@.take(i + 1)[k].start > (if k == 0 {
                        self.durable_through_sequence
                    } else {
                        self.durable_out_of_order@.take(i + 1)[k - 1].end_exclusive
                    })
                } by {
                    if k < i {
                        assert(self.durable_out_of_order@.take(i + 1)[k] == self.durable_out_of_order@.take(i as int)[k]);
                        if k > 0 {
                            assert(self.durable_out_of_order@.take(i + 1)[k - 1] == self.durable_out_of_order@.take(i as int)[k - 1]);
                        }
                    }
                }
            }
            i = i + 1;
        }
        proof {
            assert(self.durable_out_of_order@.take(i as int) =~= self.durable_out_of_order@);
        }
        Ok(())
    }

    /// Whether a sequence is known durable by this acknowledgement.
    pub fn covers(&self, sequence: u64) -> (r: bool)
        ensures
            r == ack_covers(*self, sequence),
    {
        if sequence < self.durable_through_sequence {
            return true;
        }
        let mut i: usize = 0;
        while i < self.durable_out_of_order.len()
            invariant
                i <= self.durable_out_of_order.len(),
                forall|k: int| 0 <= k < i ==> !range_contains(#[trigger] self.durable_out_of_order@[k], sequence),
            decreases self.durable_out_of_order.len() - i,
        {
            if self.durable_out_of_order[i].contains(sequence) {
                return true;
            }
            i = i + 1;
        }
        false
    }
}

/// A failure in a prefix of the ranges is a failure of the whole list.
proof fn lemma_ack_ranges_prefix(through: u64, rs: Seq<SequenceRangeV1>, n: int)
    requires
        0 <= n <= rs.len(),
        !ack_ranges_ok(through, rs.take(n)),
    ensures
        !ack_ranges_ok(through, rs),
{
    let k = choose|k: int| 0 <= k < n && !({
        &&& sequence_range_ok(#[trigger] rs.take(n)[k])
        &&& rs.take(n)[k].start != rs.take(n)[k].end_exclusive
        &&& rs.take(n)[k].start > (if k == 0 { through } else { rs.take(n)[k - 1].end_exclusive })
    });
    assert(rs.take(n)[k] == rs[k]);
    if k > 0 {
        assert(rs.take(n)[k - 1] == rs[k - 1]);
    }
}

impl CaptureDiscontinuityV1 {
    pub fn validate(&self) -> (r: Result<(), ValidationErrorV1>)
        ensures
            r is Ok <==> discontinuity_ok(*self),
    {
        validate_id("discontinuity_id", self.discontinuity_id.as_str())?;
        validate_id("segment_id", self.segment_id.as_str())?;
        validate_id("lane_id", self.lane_id.as_str())?;
        self.sequence_range.validate()?;
        validate_json_integer("starts_at_ms", self.starts_at_ms.0)?;
        validate_json_integer("duration_ms", self.duration_ms.0)?;
        if self.duration_ms.0 == 0 {
            return Err(invalid("duration_ms", "must be nonzero"));
        }
        Ok(())
    }
}

impl CaptureHealthV1 {
    pub fn validate(&self) -> (r: Result<(), ValidationErrorV1>)
        ensures
            r is Ok <==> health_ok(*self),
    {
        validate_json_integer("observed_at_ms", self.observed_at_ms.0)?;
        validate_json_integer("dropped_chunk_count", self.dropped_chunk_count)?;
        if let Some(lane_id) = &self.lane_id {
            validate_id("lane_id", lane_id.as_str())?;
        }
        if let Some(queued) = self.queued_audio_ms {
            validate_json_integer("queued_audio_ms", queued.0)?;
        }
        Ok(())
    }
}

pub fn validate_lane_boundaries(boundaries: &Vec<LaneBoundaryV1>) -> (r: Result<(), ValidationErrorV1>)
    ensures
        r is Ok <==> lane_boundaries_ok(boundaries@),
{
    let mut i: usize = 0;
    while i < boundaries.len()
        invariant
            i <= boundaries.len(),
            forall|k: int| 0 <= k < i ==> boundary_ok(#[trigger] boundaries@[k]),
            forall|a: int, b: int| 0 <= a < b < i ==> boundary_texts(boundaries@)[a] != boundary_texts(boundaries@)[b],
        decreases boundaries.len() - i,
    {
        validate_id("lane_boundaries[].lane_id", boundaries[i].lane_id.as_str())?;
        validate_json_integer("lane_boundaries[].next_sequence", boundaries[i].next_sequence)?;
        assert(boundary_ok(boundaries@[i as int]));
        if boundary_declared_before(boundaries, i, &boundaries[i].lane_id.0) {
            proof {
                let k = choose|k: int| 0 <= k < i && #[trigger] boundaries@[k].lane_id@ == boundaries@[i as int].lane_id@;
                assert(boundary_texts(boundaries@)[k] == boundary_texts(boundaries@)[i as int]);
            }
            return Err(invalid("lane_boundaries[].lane_id", "must be unique"));
        }
        proof {
            assert forall|k: int| 0 <= k < i implies boundary_texts(boundaries@)[k] != boundary_texts(boundaries@)[i as int] by {
                assert(boundary_texts(boundaries@)[k] == boundaries@[k].lane_id@);
            }
        }
        i = i + 1;
    }
    Ok(())
}

impl CloseSegmentV1 {
    pub fn validate(&self) -> (r: Result<(), ValidationErrorV1>)
        ensures
            r is Ok <==> close_segment_ok(*self),
    {
        validate_id("segment_id", self.segment_id.as_str())?;
        validate_json_integer("ended_at_ms", self.ended_at_ms.0)?;
        if self.lane_boundaries.len() == 0 {
            return Err(invalid("lane_boundaries", "must contain every lane declared for the segment"));
        }
        validate_lane_boundaries(&self.lane_boundaries)
    }
}

impl SegmentFinalizedV1 {
    pub fn validate(&self) -> (r: Result<(), ValidationErrorV1>)
        ensures
            r is Ok <==> server_body_ok(ServerMessageBodyV1::SegmentFinalized(*self)),
    {
        validate_id("segment_id", self.segment_id.as_str())?;
        validate_id("close_message_id", self.close_message_id.as_str())?;
        validate_json_integer("finalized_at_unix_ms", self.finalized_at_unix_ms.0)?;
        validate_json_integer("duration_ms", self.duration_ms.0)?;
        validate_lane_boundaries(&self.lane_boundaries)
    }
}

impl SegmentCloseReferenceV1 {
    pub fn validate(&self) -> (r: Result<(), ValidationErrorV1>)
        ensures
            r is Ok <==> close_reference_ok(*self),
    {
        validate_id("segment_closes[].segment_id", self.segment_id.as_str())?;
        validate_id("segment_closes[].close_message_id", self.close_message_id.as_str())
    }
}

/// Each reference valid; segment IDs unique; close message IDs unique.
pub fn validate_segment_closes(refs: &Vec<SegmentCloseReferenceV1>) -> (r: Result<(), ValidationErrorV1>)
    ensures
        r is Ok <==> segment_close_list_ok(refs@),
{
    let ghost segs = refs@.map_values(|r: SegmentCloseReferenceV1| r.segment_id@);
    let ghost closes = refs@.map_values(|r: SegmentCloseReferenceV1| r.close_message_id@);
    let mut i: usize = 0;
    while i < refs.len()
        invariant
            i <= refs.len(),
            segs == refs@.map_values(|r: SegmentCloseReferenceV1| r.segment_id@),
            closes == refs@.map_values(|r: SegmentCloseReferenceV1| r.close_message_id@),
            forall|k: int| 0 <= k < i ==> close_reference_ok(#[trigger] refs@[k]),
            forall|a: int, b: int| 0 <= a < b < i ==> segs[a] != segs[b],
            forall|a: int, b: int| 0 <= a < b < i ==> closes[a] != closes[b],
        decreases refs.len() - i,
    {
        refs[i].validate()?;
        if close_segment_before(refs, i, &refs[i].segment_id.0) {
            proof {
                let k = choose|k: int| 0 <= k < i && #[trigger] refs@[k].segment_id@ == refs@[i as int].segment_id@;
                assert(segs[k] == segs[i as int]);
            }
            return Err(invalid("segment_closes[].segment_id", "must be unique"));
        }
        proof {
            assert forall|k: int| 0 <= k < i implies segs[k] != segs[i as int] by {
                assert(segs[k] == refs@[k].segment_id@);
            }
        }
        if close_message_before(refs, i, &refs[i].close_message_id.0) {
            proof {
                let k = choose|k: int| 0 <= k < i && #[trigger] refs@[k].close_message_id@ == refs@[i as int].close_message_id@;
                assert(closes[k] == closes[i as int]);
            }
            return Err(invalid("segment_closes[].close_message_id", "must be unique"));
        }
        proof {
            assert forall|k: int| 0 <= k < i implies closes[k] != closes[i as int] by {
                assert(closes[k] == refs@[k].close_message_id@);
            }
        }
        i = i + 1;
    }
    Ok(())
}

impl FinalizeSessionV1 {
    pub fn validate(&self) -> (r: Result<(), ValidationErrorV1>)
        ensures
            r is Ok <==> finalize_ok(*self),
    {
        validate_json_integer("ended_at_ms", self.ended_at_ms.0)?;
        validate_segment_closes(&self.segment_closes)
    }
}

impl SessionFinalizedV1 {
    pub fn validate(&self) -> (r: Result<(), ValidationErrorV1>)
        ensures
            r is Ok <==> server_body_ok(ServerMessageBodyV1::SessionFinalized(*self)),
    {
        validate_id("finalize_message_id", self.finalize_message_id.as_str())?;
        validate_json_integer("finalized_at_unix_ms", self.finalized_at_unix_ms.0)?;
        validate_json_integer("duration_ms", self.duration_ms.0)?;
        validate_json_integer("ended_at_ms", self.duration_ms.0)?;
        validate_segment_closes(&self.segment_closes)
    }
}

impl TranscriptSpanV1 {
    pub fn validate(&self) -> (r: Result<(), ValidationErrorV1>)
        ensures
            r is Ok <==> span_ok(*self),
    {
        validate_id("spans[].span_id", self.span_id.as_str())?;
        validate_json_integer("spans[].starts_at_ms", self.starts_at_ms.0)?;
        validate_json_integer("spans[].ends_at_ms", self.ends_at_ms.0)?;
        if self.starts_at_ms.0 > self.ends_at_ms.0 {
            return Err(invalid("spans[]", "starts_at_ms must not exceed ends_at_ms"));
        }
        if is_blank(self.text.as_str()) {
            return Err(invalid("spans[].text", "must not be empty"));
        }
        if let Some(value) = self.confidence_per_mille {
            if value > 1000 {
                return Err(
                    invalid("spans[].confidence_per_mille", "must be in the inclusive range 0..=1000"),
                );
            }
        }
        Ok(())
    }
}

/// Validates every span, and (when `through` is given) that no span ends after it.
fn validate_spans(spans: &Vec<TranscriptSpanV1>, through: Option<u64>) -> (r: Result<(), ValidationErrorV1>)
    ensures
        r is Ok <==> spans_ok(spans@) && (through matches Some(t) ==> forall|i: int|
            0 <= i < spans.len() ==> (#[trigger] spans@[i]).ends_at_ms.0 <= t),
{
    let mut i: usize = 0;
    while i < spans.len()
        invariant
            i <= spans.len(),
            forall|k: int| 0 <= k < i ==> span_ok(#[trigger] spans@[k]),
            through matches Some(t) ==> forall|k: int| 0 <= k < i ==> (#[trigger] spans@[k]).ends_at_ms.0 <= t,
        decreases spans.len() - i,
    {
        spans[i].validate()?;
        if let Some(t) = through {
            if spans[i].ends_at_ms.0 > t {
                return Err(invalid("spans[].ends_at_ms", "must not exceed committed_through_ms"));
            }
        }
        i = i + 1;
    }
    Ok(())
}

impl TranscriptPartialV1 {
    pub fn validate(&self) -> (r: Result<(), ValidationErrorV1>)
        ensures
            r is Ok <==> server_body_ok(ServerMessageBodyV1::TranscriptPartial(*self)),
    {
        validate_id("segment_id", self.segment_id.as_str())?;
        validate_id("hypothesis_id", self.hypothesis_id.as_str())?;
        validate_json_integer("revision", self.revision)?;
        validate_spans(&self.spans, None)
    }
}

impl TranscriptCommittedV1 {
    pub fn validate(&self) -> (r: Result<(), ValidationErrorV1>)
        ensures
            r is Ok <==> server_body_ok(ServerMessageBodyV1::TranscriptCommitted(*self)),
    {
        validate_id("segment_id", self.segment_id.as_str())?;
        validate_id("commit_id", self.commit_id.as_str())?;
        validate_json_integer("commit_sequence", self.commit_sequence)?;
        validate_json_integer("committed_through_ms", self.committed_through_ms.0)?;
        validate_spans(&self.spans, Some(self.committed_through_ms.0))
    }
}

impl MemoEventV1 {
    pub fn validate(&self) -> (r: Result<(), ValidationErrorV1>)
        ensures
            r is Ok <==> server_body_ok(ServerMessageBodyV1::Memo(*self)),
    {
        validate_id("memo_id", self.memo_id.as_str())?;
        validate_json_integer("revision", self.revision)?;
        validate_json_integer("based_on_commit_sequence", self.based_on_commit_sequence)?;
        validate_json_integer("generated_at_unix_ms", self.generated_at_unix_ms.0)
    }
}

impl ArtifactReadyV1 {
    pub fn validate(&self) -> (r: Result<(), ValidationErrorV1>)
        ensures
            r is Ok <==> server_body_ok(ServerMessageBodyV1::ArtifactReady(*self)),
    {
        validate_id("artifact_id", self.artifact_id.as_str())?;
        validate_json_integer("revision", self.revision)?;
        validate_json_integer("byte_length", self.byte_length)?;
        validate_json_integer("generated_at_unix_ms", self.generated_at_unix_ms.0)?;
        validate_id("media_type", self.media_type.as_str())?;
        validate_id("locator", self.locator.as_str())?;
        self.digest.validate()
    }
}

impl ClientMessageBodyV1 {
    pub fn validate(&self) -> (r: Result<(), ValidationErrorV1>)
        ensures
            r is Ok <==> client_body_ok(*self),
    {
        match self {
            ClientMessageBodyV1::CreateSession(value) => value.validate(),
            ClientMessageBodyV1::ResumeSession(value) => value.validate(),
            ClientMessageBodyV1::AppendProvenanceHop(value) => value.validate(),
            ClientMessageBodyV1::AudioChunk(value) => value.validate(),
            ClientMessageBodyV1::CaptureDiscontinuity(value) => value.validate(),
            ClientMessageBodyV1::CaptureHealth(value) => value.validate(),
            ClientMessageBodyV1::CloseSegment(value) => value.validate(),
            ClientMessageBodyV1::FinalizeSession(value) => value.validate(),
        }
    }
}

impl ClientMessageV1 {
    /// Validates invariants that can be checked without session state.
    pub fn validate(&self) -> (r: Result<(), ValidationErrorV1>)
        ensures
            r is Ok <==> client_message_ok(*self),
            !id_ok(self.message_id@) ==> (r matches Err(e) && e.field@ == "message_id"@ && e.problem@ == "must not be empty"@),
            id_ok(self.message_id@) && !id_ok(self.session_id@) ==> (r matches Err(e) && e.field@ == "session_id"@
                && e.problem@ == "must not be empty"@),
    {
        validate_id("message_id", self.message_id.as_str())?;
        validate_id("session_id", self.session_id.as_str())?;
        validate_json_integer("sent_at_unix_ms", self.sent_at_unix_ms.0)?;
        self.body.validate()
    }
}

impl ServerMessageBodyV1 {
    pub fn validate(&self) -> (r: Result<(), ValidationErrorV1>)
        ensures
            r is Ok <==> server_body_ok(*self),
    {
        match self {
            ServerMessageBodyV1::AudioAcknowledged(value) => value.validate(),
            ServerMessageBodyV1::SegmentFinalized(value) => value.validate(),
            ServerMessageBodyV1::SessionFinalized(value) => value.validate(),
            ServerMessageBodyV1::TranscriptPartial(value) => value.validate(),
            ServerMessageBodyV1::TranscriptCommitted(value) => value.validate(),
            ServerMessageBodyV1::Memo(value) => value.validate(),
            ServerMessageBodyV1::ArtifactReady(value) => value.validate(),
            ServerMessageBodyV1::Unknown(value) => validate_id("body.type", value.message_type.as_str()),
            ServerMessageBodyV1::SessionCreated(value) => {
                validate_id("create_message_id", value.create_message_id.as_str())?;
                validate_json_integer("created_at_unix_ms", value.created_at_unix_ms.0)
            },
            ServerMessageBodyV1::ReplayCompleted(value) => value.validate(),
            ServerMessageBodyV1::ProvenanceHopRecorded(value) => value.validate(),
            ServerMessageBodyV1::CommandRejected(value) => value.validate(),
        }
    }
}

impl ServerMessageV1 {
    /// Validates invariants that can be checked without session state.
    pub fn validate(&self) -> (r: Result<(), ValidationErrorV1>)
        ensures
            r is Ok <==> server_message_ok(*self),
            !id_ok(self.message_id@) ==> (r matches Err(e) && e.field@ == "message_id"@ && e.problem@ == "must not be empty"@),
            id_ok(self.message_id@) && !id_ok(self.session_id@) ==> (r matches Err(e) && e.field@ == "session_id"@
                && e.problem@ == "must not be empty"@),
    {
        validate_id("message_id", self.message_id.as_str())?;
        validate_id("session_id", self.session_id.as_str())?;
        validate_json_integer("sequence", self.sequence)?;
        validate_json_integer("sent_at_unix_ms", self.sent_at_unix_ms.0)?;
        self.body.validate()
    }
}

/// A create whose lane names a source that the create does not declare is
/// refused.
pub proof fn law_lane_must_name_declared_sources(c: CreateSessionV1, i: int, k: int)
    requires
        0 <= i < c.lanes.len(),
        0 <= k < c.lanes@[i].source_ids.len(),
        forall|j: int| 0 <= j < c.sources.len() ==> (#[trigger] c.sources@[j]).source_id@ != c.lanes@[i].source_ids@[k]@,
    ensures
        !create_session_ok(c),
{
    if create_session_ok(c) {
        let lane = c.lanes@[i];
        assert(lane_ok(lane, source_texts(c.sources@)));
        assert(source_texts(c.sources@).contains(lane_source_texts(lane)[k]));
        let j = choose|j: int| 0 <= j < source_texts(c.sources@).len() && source_texts(c.sources@)[j] == lane_source_texts(lane)[k];
        assert(c.sources@[j].source_id@ == c.lanes@[i].source_ids@[k]@);
    }
}

/// A create is refused when two of its sources share an ID, when two of its
/// lanes share an ID, or when a lane lists one source twice.
pub proof fn law_create_ids_must_be_distinct(c: CreateSessionV1)
    requires
        (exists|a: int, b: int| 0 <= a < b < c.sources.len() && (#[trigger] c.sources@[a]).source_id@ == (#[trigger] c.sources@[b]).source_id@)
        || (exists|a: int, b: int| 0 <= a < b < c.lanes.len() && (#[trigger] c.lanes@[a]).lane_id@ == (#[trigger] c.lanes@[b]).lane_id@)
        || (exists|i: int, a: int, b: int| 0 <= i < c.lanes.len() && 0 <= a < b < c.lanes@[i].source_ids.len()
            && (#[trigger] c.lanes@[i].source_ids@[a])@ == (#[trigger] c.lanes@[i].source_ids@[b])@),
    ensures
        !create_session_ok(c),
{
    if create_session_ok(c) {
        if exists|a: int, b: int| 0 <= a < b < c.sources.len() && (#[trigger] c.sources@[a]).source_id@ == (#[trigger] c.sources@[b]).source_id@ {
            let (a, b) = choose|a: int, b: int| 0 <= a < b < c.sources.len() && (#[trigger] c.sources@[a]).source_id@ == (#[trigger] c.sources@[b]).source_id@;
            assert(source_texts(c.sources@)[a] == source_texts(c.sources@)[b]);
        } else if exists|a: int, b: int| 0 <= a < b < c.lanes.len() && (#[trigger] c.lanes@[a]).lane_id@ == (#[trigger] c.lanes@[b]).lane_id@ {
            let (a, b) = choose|a: int, b: int| 0 <= a < b < c.lanes.len() && (#[trigger] c.lanes@[a]).lane_id@ == (#[trigger] c.lanes@[b]).lane_id@;
            assert(lane_texts(c.lanes@)[a] == lane_texts(c.lanes@)[b]);
        } else {
            let (i, a, b) = choose|i: int, a: int, b: int| 0 <= i < c.lanes.len() && 0 <= a < b < c.lanes@[i].source_ids.len()
                && (#[trigger] c.lanes@[i].source_ids@[a])@ == (#[trigger] c.lanes@[i].source_ids@[b])@;
            assert(lane_ok(c.lanes@[i], source_texts(c.sources@)));
            assert(lane_source_texts(c.lanes@[i])[a] == lane_source_texts(c.lanes@[i])[b]);
        }
    }
}

} // verus!
