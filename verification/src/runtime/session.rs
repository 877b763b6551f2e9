//! Durable per-session state and the pure transition applied for one
//! client command.
use crate::protocol::types::{
    copy_append_provenance_hop_v1, copy_audio_chunk_v1, copy_capture_discontinuity_v1,
    copy_capture_provenance_hop_v1, copy_client_message_v1, copy_close_segment_v1,
    copy_finalize_session_v1, copy_server_message_v1, copy_vec_lane_boundary_v1,
    copy_vec_segment_close_reference_v1, same_append_provenance_hop_v1, same_audio_chunk_v1,
    same_capture_discontinuity_v1, same_client_message_v1, spec_same_audio_chunk_v1, spec_same_seq_segment_close_reference_v1,
    spec_same_client_message_v1, spec_same_server_message_v1, AppendProvenanceHopV1,
    AudioChunkV1, CaptureDiscontinuityV1, CaptureHealthV1, CaptureProvenanceHopV1,
    ClientMessageBodyV1, ClientMessageV1, CloseSegmentV1, CommandRejectedV1, CreateSessionV1,
    DurationMillis, FinalizeSessionV1, LaneBoundaryV1, LaneId, MessageId, ProtocolVersionV1,
    ProvenanceHopRecordedV1, ReplayCompletedV1, ResumeSessionV1, SegmentFinalizedV1, SegmentId,
    SegmentCloseReferenceV1, SequenceRangeV1, ServerMessageBodyV1, ServerMessageV1, SessionFinalizedV1, SessionId,
    SessionMillis, UnixMillis, MAX_SAFE_JSON_INTEGER,
};
use crate::protocol::validate::{ack_covers, range_contains};
use crate::runtime::decimal::{decimal, push_decimal};
use crate::runtime::digest::payload_digest_matches;
use crate::runtime::range_set::RangeSet;
use crate::text::{push_char, push_str};
use vstd::prelude::*;

verus! {

/// A handled command and the contiguous events that answered it.
#[derive(Debug, Clone)]
pub struct CommandRecord {
    pub message: ClientMessageV1,
    pub response_range: SequenceRangeV1,
}

/// Stored chunks and durable coverage of one lane of one segment.
#[derive(Debug, Clone)]
pub struct LaneState {
    pub lane_id: LaneId,
    pub chunks: Vec<AudioChunkV1>,
    pub coverage: RangeSet,
}

#[derive(Debug, Clone)]
pub struct CloseRecord {
    pub message_id: MessageId,
    pub command: CloseSegmentV1,
    pub finalized: bool,
}

/// One recording segment: a lane entry for every declared lane, in
/// declaration order, and its close operation once one was accepted.
#[derive(Debug, Clone)]
pub struct SegmentState {
    pub segment_id: SegmentId,
    pub lanes: Vec<LaneState>,
    pub close: Option<CloseRecord>,
}

#[derive(Debug, Clone)]
pub struct FinalizeRecord {
    pub message_id: MessageId,
    pub command: FinalizeSessionV1,
    pub finalized: bool,
}

/// Everything a session holds besides its identity and its event log.
#[derive(Debug, Clone)]
pub struct SessionData {
    pub provenance: Vec<CaptureProvenanceHopV1>,
    pub commands: Vec<CommandRecord>,
    pub conflicting_commands: Vec<CommandRecord>,
    pub provenance_hops: Vec<AppendProvenanceHopV1>,
    pub discontinuities: Vec<CaptureDiscontinuityV1>,
    pub segments: Vec<SegmentState>,
    pub last_health_at_ms: Option<SessionMillis>,
    pub finalize: Option<FinalizeRecord>,
}

/// The full durable state of one meeting session.
#[derive(Debug, Clone)]
pub struct Session {
    pub revision: u64,
    pub session_id: SessionId,
    pub create_message: ClientMessageV1,
    pub create: CreateSessionV1,
    pub data: SessionData,
    pub events: Vec<ServerMessageV1>,
}

/// Identifier of the event at `sequence` in a session's log.
pub open spec fn event_message_id(session_id: Seq<char>, sequence: nat) -> Seq<char> {
    "margins-runtime-v1:"@ + session_id + ":"@ + decimal(sequence)
}

/// Events are numbered by position and carry the session's identity.
pub open spec fn events_ok(session_id: Seq<char>, events: Seq<ServerMessageV1>) -> bool {
    &&& events.len() <= MAX_SAFE_JSON_INTEGER + 1
    &&& forall|i: int| 0 <= i < events.len() ==> {
        &&& (#[trigger] events[i]).sequence == i
        &&& events[i].session_id@ == session_id
        &&& events[i].message_id@ == event_message_id(session_id, i as nat)
    }
}

pub open spec fn record_ok(r: CommandRecord, n: nat) -> bool {
    r.response_range.start <= r.response_range.end_exclusive <= n
}

/// No two stored chunks of a lane share a sequence.
pub open spec fn chunks_distinct(chunks: Seq<AudioChunkV1>) -> bool {
    forall|a: int, b: int| 0 <= a < b < chunks.len() ==> (#[trigger] chunks[a]).sequence != (#[trigger] chunks[b]).sequence
}

pub open spec fn lanes_ok(create: CreateSessionV1, lanes: Seq<LaneState>) -> bool {
    &&& lanes.len() == create.lanes.len()
    &&& forall|k: int| 0 <= k < lanes.len() ==> {
        &&& (#[trigger] lanes[k]).lane_id@ == create.lanes@[k].lane_id@
        &&& lanes[k].coverage.wf()
        &&& chunks_distinct(lanes[k].chunks@)
    }
}

/// The close declares a boundary for the lane.
pub open spec fn has_boundary(close: CloseSegmentV1, lane: Seq<char>) -> bool {
    exists|b: int| 0 <= b < close.lane_boundaries.len() && (#[trigger] close.lane_boundaries@[b]).lane_id@ == lane
}

/// The session declares the lane.
pub open spec fn lane_declared(create: CreateSessionV1, lane: Seq<char>) -> bool {
    exists|k: int| 0 <= k < create.lanes.len() && (#[trigger] create.lanes@[k]).lane_id@ == lane
}

/// The close declares a boundary for exactly the session's lanes.
pub open spec fn close_lanes_match(create: CreateSessionV1, close: CloseSegmentV1) -> bool {
    &&& forall|k: int| 0 <= k < create.lanes.len() ==> #[trigger] has_boundary(close, create.lanes@[k].lane_id@)
    &&& forall|b: int| 0 <= b < close.lane_boundaries.len() ==> #[trigger] lane_declared(create, close.lane_boundaries@[b].lane_id@)
}

/// No two boundaries of a close name the same lane.
pub open spec fn boundaries_distinct(bs: Seq<LaneBoundaryV1>) -> bool {
    forall|a: int, b: int| 0 <= a < b < bs.len() ==> (#[trigger] bs[a]).lane_id@ != (#[trigger] bs[b]).lane_id@
}

pub open spec fn segment_ok(create: CreateSessionV1, seg: SegmentState) -> bool {
    &&& lanes_ok(create, seg.lanes@)
    &&& (seg.close matches Some(c) ==> close_lanes_match(create, c.command) && boundaries_distinct(c.command.lane_boundaries@))
}

/// No two references of a finalize name the same segment.
pub open spec fn refs_distinct(refs: Seq<SegmentCloseReferenceV1>) -> bool {
    forall|a: int, b: int| 0 <= a < b < refs.len() ==> (#[trigger] refs[a]).segment_id@ != (#[trigger] refs[b]).segment_id@
}

/// No two declared lanes share an ID.
pub open spec fn declared_lanes_distinct(create: CreateSessionV1) -> bool {
    forall|a: int, b: int| 0 <= a < b < create.lanes.len() ==> (#[trigger] create.lanes@[a]).lane_id@ != (#[trigger] create.lanes@[b]).lane_id@
}

impl Session {
    /// The invariant every durable session satisfies.
    pub open spec fn wf(&self) -> bool {
        &&& events_ok(self.session_id@, self.events@)
        &&& declared_lanes_distinct(self.create)
        &&& (self.data.finalize matches Some(f) ==> refs_distinct(f.command.segment_closes@))
        &&& forall|i: int| 0 <= i < self.data.commands.len() ==> record_ok(#[trigger] self.data.commands@[i], self.events@.len())
        &&& forall|i: int| 0 <= i < self.data.conflicting_commands.len() ==> record_ok(#[trigger] self.data.conflicting_commands@[i], self.events@.len())
        &&& forall|a: int, b: int| 0 <= a < b < self.data.commands.len() ==> (#[trigger] self.data.commands@[a]).message.message_id@ != (#[trigger] self.data.commands@[b]).message.message_id@
        &&& forall|i: int| 0 <= i < self.data.segments.len() ==> segment_ok(self.create, #[trigger] self.data.segments@[i])
        &&& forall|a: int, b: int| 0 <= a < b < self.data.segments.len() ==> (#[trigger] self.data.segments@[a]).segment_id@ != (#[trigger] self.data.segments@[b]).segment_id@
        &&& forall|a: int, b: int| 0 <= a < b < self.data.discontinuities.len() ==> (#[trigger] self.data.discontinuities@[a]).discontinuity_id@ != (#[trigger] self.data.discontinuities@[b]).discontinuity_id@
        &&& forall|a: int, b: int| 0 <= a < b < self.data.provenance_hops.len() ==> (#[trigger] self.data.provenance_hops@[a]).provenance_hop_id@ != (#[trigger] self.data.provenance_hops@[b]).provenance_hop_id@
    }

    /// Room for the at most three events that one command appends.
    pub open spec fn has_room(&self) -> bool {
        self.events@.len() + 3 <= MAX_SAFE_JSON_INTEGER + 1
    }
}

/// Server events are numbered densely from zero and carry the session's ID.
pub proof fn law_event_sequences_are_dense(s: Session)
    requires
        s.wf(),
    ensures
        forall|i: int| 0 <= i < s.events@.len() ==> (#[trigger] s.events@[i]).sequence == i
            && s.events@[i].session_id@ == s.session_id@,
{
}

/// `r` is a copy of the last `r.len()` events of the log.
pub open spec fn is_log_suffix(events: Seq<ServerMessageV1>, r: Seq<ServerMessageV1>) -> bool {
    &&& r.len() <= events.len()
    &&& forall|k: int| 0 <= k < r.len() ==> spec_same_server_message_v1(#[trigger] r[k], events[events.len() - r.len() + k])
}

/// The log only grows.
pub open spec fn log_grows(old_events: Seq<ServerMessageV1>, new_events: Seq<ServerMessageV1>) -> bool {
    &&& old_events.len() <= new_events.len()
    &&& new_events.take(old_events.len() as int) == old_events
}

pub(crate) proof fn lemma_log_grows_refl(events: Seq<ServerMessageV1>)
    ensures
        log_grows(events, events),
{
    assert(events.take(events.len() as int) =~= events);
}

pub(crate) proof fn lemma_log_grows_trans(a: Seq<ServerMessageV1>, b: Seq<ServerMessageV1>, c: Seq<ServerMessageV1>)
    requires
        log_grows(a, b),
        log_grows(b, c),
    ensures
        log_grows(a, c),
{
    assert(c.take(a.len() as int) =~= b.take(a.len() as int));
}

/// Identity and creation of the session are untouched.
pub open spec fn same_identity(a: Session, b: Session) -> bool {
    &&& a.revision == b.revision
    &&& a.session_id == b.session_id
    &&& a.create_message == b.create_message
    &&& a.create == b.create
}

/// Builds `margins-runtime-v1:<session>:<sequence>`.
pub(crate) fn event_id(session_id: &SessionId, sequence: u64) -> (r: MessageId)
    ensures
        r@ == event_message_id(session_id@, sequence as nat),
{
    let mut text = String::new();
    push_str(&mut text, "margins-runtime-v1:");
    push_str(&mut text, session_id.as_str());
    push_char(&mut text, ':');
    push_decimal(&mut text, sequence);
    proof {
        reveal_strlit("margins-runtime-v1:");
        reveal_strlit(":");
        assert(":"@ =~= seq![':']);
        assert(text@ =~= event_message_id(session_id@, sequence as nat));
    }
    MessageId(text)
}

/// Appends one event to the log and returns a copy of it.
pub fn append_event(s: &mut Session, sent_at_unix_ms: UnixMillis, body: ServerMessageBodyV1) -> (r: ServerMessageV1)
    requires
        events_ok(old(s).session_id@, old(s).events@),
        old(s).events@.len() <= MAX_SAFE_JSON_INTEGER,
    ensures
        same_identity(*final(s), *old(s)),
        final(s).data == old(s).data,
        events_ok(final(s).session_id@, final(s).events@),
        final(s).events@.len() == old(s).events@.len() + 1,
        final(s).events@.take(old(s).events@.len() as int) == old(s).events@,
        spec_same_server_message_v1(r, final(s).events@.last()),
        final(s).events@.last().sequence == old(s).events@.len(),
        final(s).events@.last().sent_at_unix_ms == sent_at_unix_ms,
        final(s).events@.last().body == body,
{
    let sequence = s.events.len() as u64;
    let event = ServerMessageV1 {
        protocol_version: ProtocolVersionV1,
        message_id: event_id(&s.session_id, sequence),
        session_id: SessionId(s.session_id.0.clone()),
        sequence,
        sent_at_unix_ms,
        body,
    };
    let copy = copy_server_message_v1(&event);
    let ghost before = s.events@;
    s.events.push(event);
    proof {
        assert(s.events@.take(before.len() as int) =~= before);
        assert forall|i: int| 0 <= i < s.events@.len() implies {
            &&& (#[trigger] s.events@[i]).sequence == i
            &&& s.events@[i].session_id@ == s.session_id@
            &&& s.events@[i].message_id@ == event_message_id(s.session_id@, i as nat)
        } by {
            if i < before.len() {
                assert(s.events@[i] == before[i]);
            }
        }
    }
    copy
}

/// The event rejects the command `id` with `code`.
pub open spec fn is_rejection(e: ServerMessageV1, id: Seq<char>, code: Seq<char>) -> bool {
    &&& e.body is CommandRejected
    &&& e.body->CommandRejected_0.rejected_message_id@ == id
    &&& e.body->CommandRejected_0.code@ == code
    &&& !e.body->CommandRejected_0.retryable
}

/// A transition that keeps the invariant, only appends to the log, and
/// answers with a suffix of the new log.
pub open spec fn transition_ok(old: Session, new: Session, r: Seq<ServerMessageV1>) -> bool {
    &&& same_identity(new, old)
    &&& new.wf()
    &&& log_grows(old.events@, new.events@)
    &&& new.events@.len() <= old.events@.len() + 3
    &&& is_log_suffix(new.events@, r)
    &&& new.data.commands == old.data.commands
    &&& new.data.conflicting_commands == old.data.conflicting_commands
}

pub(crate) proof fn lemma_single_suffix(events: Seq<ServerMessageV1>, r: Seq<ServerMessageV1>)
    requires
        r.len() == 1,
        events.len() >= 1,
        spec_same_server_message_v1(r[0], events.last()),
    ensures
        is_log_suffix(events, r),
{
}

/// Answers the command with a durable `command_rejected` event.
pub fn reject(s: &mut Session, message: &ClientMessageV1, code: &str, explanation: &str) -> (r: Vec<ServerMessageV1>)
    requires
        events_ok(old(s).session_id@, old(s).events@),
        old(s).events@.len() <= MAX_SAFE_JSON_INTEGER,
    ensures
        same_identity(*final(s), *old(s)),
        final(s).data == old(s).data,
        events_ok(final(s).session_id@, final(s).events@),
        final(s).events@.len() == old(s).events@.len() + 1,
        final(s).events@.take(old(s).events@.len() as int) == old(s).events@,
        r@.len() == 1,
        is_log_suffix(final(s).events@, r@),
        is_rejection(final(s).events@.last(), message.message_id@, code@),
{
    let event = append_event(
        s,
        message.sent_at_unix_ms,
        ServerMessageBodyV1::CommandRejected(
            CommandRejectedV1 {
                rejected_message_id: MessageId(message.message_id.0.clone()),
                code: code.to_owned(),
                retryable: false,
                message: Some(explanation.to_owned()),
                details: Vec::new(),
            },
        ),
    );
    let mut r = Vec::new();
    r.push(event);
    proof {
        lemma_single_suffix(s.events@, r@);
    }
    r
}

/// The contiguous event range covered by a response that is a suffix of the log.
pub(crate) fn response_range(events: &Vec<ServerMessageV1>, response: &Vec<ServerMessageV1>, Ghost(session_id): Ghost<Seq<char>>) -> (r: SequenceRangeV1)
    requires
        events_ok(session_id, events@),
        is_log_suffix(events@, response@),
    ensures
        r.start <= r.end_exclusive <= events@.len(),
        response@.len() > 0 ==> r.start == events@.len() - response@.len() && r.end_exclusive == events@.len(),
        response@.len() == 0 ==> r.start == 0 && r.end_exclusive == 0,
{
    if response.len() == 0 {
        return SequenceRangeV1 { start: 0, end_exclusive: 0 };
    }
    let first = response[0].sequence;
    proof {
        assert(spec_same_server_message_v1(response@[0], events@[events@.len() - response@.len()]));
    }
    SequenceRangeV1 { start: first, end_exclusive: first + response.len() as u64 }
}

/// Copies of the events a recorded command produced.
pub fn command_response(events: &Vec<ServerMessageV1>, range: SequenceRangeV1) -> (r: Vec<ServerMessageV1>)
    requires
        range.start <= range.end_exclusive <= events@.len(),
    ensures
        r@.len() == range.end_exclusive - range.start,
        forall|k: int| 0 <= k < r@.len() ==> spec_same_server_message_v1(#[trigger] r@[k], events@[range.start + k]),
{
    let mut out: Vec<ServerMessageV1> = Vec::new();
    let n = events.len();
    assert(range.end_exclusive <= n);
    let start = range.start as usize;
    let end = range.end_exclusive as usize;
    let mut i = start;
    while i < end
        invariant
            start == range.start,
            end == range.end_exclusive,
            start <= i <= end <= events@.len(),
            out@.len() == i - start,
            forall|k: int| 0 <= k < out@.len() ==> spec_same_server_message_v1(#[trigger] out@[k], events@[start + k]),
        decreases end - i,
    {
        out.push(copy_server_message_v1(&events[i]));
        i = i + 1;
    }
    out
}

/// Records a handled command under its message ID.
pub(crate) fn record_command(s: &mut Session, message: ClientMessageV1, response: &Vec<ServerMessageV1>)
    requires
        events_ok(old(s).session_id@, old(s).events@),
        is_log_suffix(old(s).events@, response@),
    ensures
        same_identity(*final(s), *old(s)),
        final(s).events == old(s).events,
        final(s).data == (SessionData { commands: final(s).data.commands, ..old(s).data }),
        final(s).data.commands@ == old(s).data.commands@.push(final(s).data.commands@.last()),
        final(s).data.commands@.last().message == message,
        record_ok(final(s).data.commands@.last(), final(s).events@.len()),
        response@.len() > 0 ==> final(s).data.commands@.last().response_range == (SequenceRangeV1 {
            start: (final(s).events@.len() - response@.len()) as u64,
            end_exclusive: final(s).events@.len() as u64,
        }),
        response@.len() == 0 ==> final(s).data.commands@.last().response_range == (SequenceRangeV1 { start: 0, end_exclusive: 0 }),
{
    let response_range = response_range(&s.events, response, Ghost(s.session_id@));
    s.data.commands.push(CommandRecord { message, response_range });
}

pub(crate) proof fn lemma_suffix_push(events: Seq<ServerMessageV1>, r: Seq<ServerMessageV1>, e: ServerMessageV1, x: ServerMessageV1)
    requires
        is_log_suffix(events, r),
        spec_same_server_message_v1(x, e),
    ensures
        is_log_suffix(events.push(e), r.push(x)),
{
    let n = events.push(e).len();
    assert forall|k: int| 0 <= k < r.push(x).len() implies spec_same_server_message_v1(#[trigger] r.push(x)[k], events.push(e)[n - r.push(x).len() + k]) by {
        if k < r.len() {
            assert(events.push(e)[n - r.push(x).len() + k] == events[events.len() - r.len() + k]);
        }
    }
}

/// Position of the lane among the session's declared lanes.
pub fn declared_lane_index(create: &CreateSessionV1, lane_id: &LaneId) -> (r: Option<usize>)
    ensures
        r matches Some(k) ==> k < create.lanes.len() && create.lanes@[k as int].lane_id@ == lane_id@,
        r is None ==> forall|k: int| 0 <= k < create.lanes.len() ==> (#[trigger] create.lanes@[k]).lane_id@ != lane_id@,
{
    let mut k: usize = 0;
    while k < create.lanes.len()
        invariant
            k <= create.lanes.len(),
            forall|j: int| 0 <= j < k ==> (#[trigger] create.lanes@[j]).lane_id@ != lane_id@,
        decreases create.lanes.len() - k,
    {
        if create.lanes[k].lane_id.0 == lane_id.0 {
            return Some(k);
        }
        k = k + 1;
    }
    None
}

/// Position of a segment by ID.
pub fn segment_index(segments: &Vec<SegmentState>, segment_id: &SegmentId) -> (r: Option<usize>)
    ensures
        r matches Some(k) ==> k < segments.len() && segments@[k as int].segment_id@ == segment_id@,
        r is None ==> forall|k: int| 0 <= k < segments.len() ==> (#[trigger] segments@[k]).segment_id@ != segment_id@,
{
    let mut k: usize = 0;
    while k < segments.len()
        invariant
            k <= segments.len(),
            forall|j: int| 0 <= j < k ==> (#[trigger] segments@[j]).segment_id@ != segment_id@,
        decreases segments.len() - k,
    {
        if segments[k].segment_id.0 == segment_id.0 {
            return Some(k);
        }
        k = k + 1;
    }
    None
}

/// Position of the chunk stored under a lane sequence.
pub fn chunk_index(chunks: &Vec<AudioChunkV1>, sequence: u64) -> (r: Option<usize>)
    ensures
        r matches Some(k) ==> k < chunks.len() && chunks@[k as int].sequence == sequence,
        r is None ==> forall|k: int| 0 <= k < chunks.len() ==> (#[trigger] chunks@[k]).sequence != sequence,
{
    let mut k: usize = 0;
    while k < chunks.len()
        invariant
            k <= chunks.len(),
            forall|j: int| 0 <= j < k ==> (#[trigger] chunks@[j]).sequence != sequence,
        decreases chunks.len() - k,
    {
        if chunks[k].sequence == sequence {
            return Some(k);
        }
        k = k + 1;
    }
    None
}

/// The close boundary declared for a lane.
pub fn boundary_for(close: &CloseSegmentV1, lane_id: &LaneId) -> (r: Option<u64>)
    ensures
        r matches Some(v) ==> exists|k: int| 0 <= k < close.lane_boundaries.len() && (#[trigger] close.lane_boundaries@[k]).lane_id@ == lane_id@ && close.lane_boundaries@[k].next_sequence == v,
        r is None ==> forall|k: int| 0 <= k < close.lane_boundaries.len() ==> (#[trigger] close.lane_boundaries@[k]).lane_id@ != lane_id@,
{
    let mut k: usize = 0;
    while k < close.lane_boundaries.len()
        invariant
            k <= close.lane_boundaries.len(),
            forall|j: int| 0 <= j < k ==> (#[trigger] close.lane_boundaries@[j]).lane_id@ != lane_id@,
        decreases close.lane_boundaries.len() - k,
    {
        if close.lane_boundaries[k].lane_id.0 == lane_id.0 {
            return Some(close.lane_boundaries[k].next_sequence);
        }
        k = k + 1;
    }
    None
}

/// Both ranges are non-empty and share a sequence.
pub fn ranges_overlap(left: SequenceRangeV1, right: SequenceRangeV1) -> (r: bool)
    ensures
        r == (left.start != left.end_exclusive && right.start != right.end_exclusive
            && left.start < right.end_exclusive && right.start < left.end_exclusive),
{
    !left.is_empty() && !right.is_empty() && left.start < right.end_exclusive && right.start < left.end_exclusive
}

/// A segment may still receive audio: no finalize was requested, or the
/// requested finalize is pending and lists the segment.
pub open spec fn admissible(s: Session, segment_id: Seq<char>) -> bool {
    match s.data.finalize {
        None => true,
        Some(f) => !f.finalized && exists|k: int| 0 <= k < f.command.segment_closes.len() && (#[trigger] f.command.segment_closes@[k]).segment_id@ == segment_id,
    }
}

pub fn segment_is_admissible(s: &Session, segment_id: &SegmentId) -> (r: bool)
    ensures
        r == admissible(*s, segment_id@),
{
    match &s.data.finalize {
        None => true,
        Some(finalize) => {
            if finalize.finalized {
                return false;
            }
            let refs = &finalize.command.segment_closes;
            let mut k: usize = 0;
            while k < refs.len()
                invariant
                    k <= refs.len(),
                    s.data.finalize == Some(*finalize),
                    !finalize.finalized,
                    refs == &finalize.command.segment_closes,
                    forall|j: int| 0 <= j < k ==> (#[trigger] refs@[j]).segment_id@ != segment_id@,
                decreases refs.len() - k,
            {
                if refs[k].segment_id.0 == segment_id.0 {
                    proof {
                        assert(s.data.finalize == Some(*finalize));
                        assert(finalize.command.segment_closes@[k as int].segment_id@ == segment_id@);
                    }
                    return true;
                }
                k = k + 1;
            }
            false
        },
    }
}

/// Fresh lane states for every declared lane.
pub(crate) fn fresh_lanes(create: &CreateSessionV1) -> (r: Vec<LaneState>)
    ensures
        lanes_ok(*create, r@),
        forall|k: int| 0 <= k < r.len() ==> (#[trigger] r@[k]).chunks@.len() == 0,
        forall|k: int, q: u64| 0 <= k < r.len() ==> !#[trigger] r@[k].coverage.has(q),
{
    let mut lanes: Vec<LaneState> = Vec::new();
    let mut k: usize = 0;
    while k < create.lanes.len()
        invariant
            k <= create.lanes.len(),
            lanes@.len() == k,
            forall|j: int| 0 <= j < k ==> {
                &&& (#[trigger] lanes@[j]).lane_id@ == create.lanes@[j].lane_id@
                &&& lanes@[j].coverage.wf()
                &&& lanes@[j].chunks@.len() == 0
                &&& forall|q: u64| !lanes@[j].coverage.has(q)
            },
        decreases create.lanes.len() - k,
    {
        lanes.push(LaneState {
            lane_id: LaneId(create.lanes[k].lane_id.0.clone()),
            chunks: Vec::new(),
            coverage: RangeSet::new(),
        });
        k = k + 1;
    }
    lanes
}

/// Index of the segment, creating an empty one when it does not exist yet.
pub(crate) fn ensure_segment(s: &mut Session, segment_id: &SegmentId) -> (r: usize)
    requires
        old(s).wf(),
    ensures
        final(s).wf(),
        same_identity(*final(s), *old(s)),
        final(s).events == old(s).events,
        final(s).data == (SessionData { segments: final(s).data.segments, ..old(s).data }),
        r < final(s).data.segments.len(),
        final(s).data.segments@[r as int].segment_id@ == segment_id@,
        old(s).data.segments.len() <= final(s).data.segments.len() <= old(s).data.segments.len() + 1,
        forall|k: int| 0 <= k < old(s).data.segments.len() ==> #[trigger] final(s).data.segments@[k] == old(s).data.segments@[k],
        final(s).data.segments.len() == old(s).data.segments.len() + 1 ==> {
            &&& final(s).data.segments@.last().close is None
            &&& forall|k: int| 0 <= k < final(s).data.segments@.last().lanes.len() ==> (#[trigger] final(s).data.segments@.last().lanes@[k]).chunks@.len() == 0
            &&& forall|k: int, q: u64| 0 <= k < final(s).data.segments@.last().lanes.len() ==> !#[trigger] final(s).data.segments@.last().lanes@[k].coverage.has(q)
        },
{
    match segment_index(&s.data.segments, segment_id) {
        Some(k) => k,
        None => {
            let lanes = fresh_lanes(&s.create);
            let ghost before = s.data.segments@;
            s.data.segments.push(SegmentState { segment_id: SegmentId(segment_id.0.clone()), lanes, close: None });
            proof {
                assert forall|a: int, b: int| 0 <= a < b < s.data.segments.len() implies (#[trigger] s.data.segments@[a]).segment_id@ != (#[trigger] s.data.segments@[b]).segment_id@ by {
                    if b == before.len() {
                        assert(s.data.segments@[a] == before[a]);
                    } else {
                        assert(s.data.segments@[a] == before[a]);
                        assert(s.data.segments@[b] == before[b]);
                    }
                }
                assert forall|i: int| 0 <= i < s.data.segments.len() implies segment_ok(s.create, #[trigger] s.data.segments@[i]) by {
                    if i < before.len() {
                        assert(s.data.segments@[i] == before[i]);
                    }
                }
            }
            s.data.segments.len() - 1
        },
    }
}

/// Position of a lane state by lane ID.
pub(crate) fn lane_state_index(lanes: &Vec<LaneState>, lane_id: &LaneId) -> (r: Option<usize>)
    ensures
        r matches Some(k) ==> k < lanes.len() && lanes@[k as int].lane_id@ == lane_id@,
        r is None ==> forall|k: int| 0 <= k < lanes.len() ==> (#[trigger] lanes@[k]).lane_id@ != lane_id@,
{
    let mut k: usize = 0;
    while k < lanes.len()
        invariant
            k <= lanes.len(),
            forall|j: int| 0 <= j < k ==> (#[trigger] lanes@[j]).lane_id@ != lane_id@,
        decreases lanes.len() - k,
    {
        if lanes[k].lane_id.0 == lane_id.0 {
            return Some(k);
        }
        k = k + 1;
    }
    None
}

/// The lane boundary at `b` is durably covered below its next sequence.
pub open spec fn boundary_covered(seg: SegmentState, close: CloseSegmentV1, b: int) -> bool {
    exists|k: int|
        0 <= k < seg.lanes.len() && (#[trigger] seg.lanes@[k]).lane_id@ == close.lane_boundaries@[b].lane_id@
            && forall|q: u64| q < close.lane_boundaries@[b].next_sequence ==> #[trigger] seg.lanes@[k].coverage.has(q)
}

/// Every lane boundary of the close is durably covered below its next sequence.
pub open spec fn close_covered(seg: SegmentState, close: CloseSegmentV1) -> bool {
    forall|b: int| 0 <= b < close.lane_boundaries.len() ==> #[trigger] boundary_covered(seg, close, b)
}

pub(crate) fn close_is_covered(seg: &SegmentState, close: &CloseSegmentV1) -> (r: bool)
    requires
        forall|k: int| 0 <= k < seg.lanes.len() ==> (#[trigger] seg.lanes@[k]).coverage.wf(),
        forall|a: int, b: int| 0 <= a < b < seg.lanes.len() ==> (#[trigger] seg.lanes@[a]).lane_id@ != (#[trigger] seg.lanes@[b]).lane_id@,
    ensures
        r == close_covered(*seg, *close),
{
    let mut b: usize = 0;
    while b < close.lane_boundaries.len()
        invariant
            b <= close.lane_boundaries.len(),
            forall|k: int| 0 <= k < seg.lanes.len() ==> (#[trigger] seg.lanes@[k]).coverage.wf(),
            forall|a: int, b: int| 0 <= a < b < seg.lanes.len() ==> (#[trigger] seg.lanes@[a]).lane_id@ != (#[trigger] seg.lanes@[b]).lane_id@,
            forall|j: int| 0 <= j < b ==> #[trigger] boundary_covered(*seg, *close, j),
        decreases close.lane_boundaries.len() - b,
    {
        let boundary = &close.lane_boundaries[b];
        match lane_state_index(&seg.lanes, &boundary.lane_id) {
            None => {
                assert(!boundary_covered(*seg, *close, b as int));
                return false;
            },
            Some(k) => {
                if !seg.lanes[k].coverage.covers_below(boundary.next_sequence) {
                    proof {
                        if boundary_covered(*seg, *close, b as int) {
                            let k2 = choose|k2: int| 0 <= k2 < seg.lanes.len() && (#[trigger] seg.lanes@[k2]).lane_id@ == close.lane_boundaries@[b as int].lane_id@
                                && forall|q: u64| q < close.lane_boundaries@[b as int].next_sequence ==> #[trigger] seg.lanes@[k2].coverage.has(q);
                            if k2 < k as int {
                                assert(seg.lanes@[k2].lane_id@ != seg.lanes@[k as int].lane_id@);
                            } else if k2 > k as int {
                                assert(seg.lanes@[k as int].lane_id@ != seg.lanes@[k2].lane_id@);
                            }
                        }
                    }
                    return false;
                }
                assert(boundary_covered(*seg, *close, b as int));
            },
        }
        b = b + 1;
    }
    true
}

/// The segment named by reference `i` finalized under exactly that close.
pub open spec fn reference_ready(s: Session, f: FinalizeRecord, i: int) -> bool {
    exists|k: int|
        0 <= k < s.data.segments.len() && (#[trigger] s.data.segments@[k]).segment_id@ == f.command.segment_closes@[i].segment_id@
            && (s.data.segments@[k].close matches Some(c) && c.finalized && c.message_id@ == f.command.segment_closes@[i].close_message_id@)
}

proof fn lemma_unique_segment(s: Session, k: int, i: int, f: FinalizeRecord)
    requires
        forall|a: int, b: int| 0 <= a < b < s.data.segments.len() ==> (#[trigger] s.data.segments@[a]).segment_id@ != (#[trigger] s.data.segments@[b]).segment_id@,
        0 <= k < s.data.segments.len(),
        s.data.segments@[k].segment_id@ == f.command.segment_closes@[i].segment_id@,
        !(s.data.segments@[k].close matches Some(c) && c.finalized && c.message_id@ == f.command.segment_closes@[i].close_message_id@),
    ensures
        !reference_ready(s, f, i),
{
    if reference_ready(s, f, i) {
        let k2 = choose|k2: int| 0 <= k2 < s.data.segments.len() && (#[trigger] s.data.segments@[k2]).segment_id@ == f.command.segment_closes@[i].segment_id@
            && (s.data.segments@[k2].close matches Some(c) && c.finalized && c.message_id@ == f.command.segment_closes@[i].close_message_id@);
        if k2 < k {
            assert(s.data.segments@[k2].segment_id@ != s.data.segments@[k].segment_id@);
        } else if k2 > k {
            assert(s.data.segments@[k].segment_id@ != s.data.segments@[k2].segment_id@);
        }
    }
}

/// The requested finalize names only segments whose exact close finalized.
pub open spec fn finalize_ready(s: Session, f: FinalizeRecord) -> bool {
    forall|i: int| 0 <= i < f.command.segment_closes.len() ==> #[trigger] reference_ready(s, f, i)
}

pub(crate) fn finalize_is_ready(s: &Session) -> (r: bool)
    requires
        forall|a: int, b: int| 0 <= a < b < s.data.segments.len() ==> (#[trigger] s.data.segments@[a]).segment_id@ != (#[trigger] s.data.segments@[b]).segment_id@,
    ensures
        r == (s.data.finalize matches Some(f) && !f.finalized && finalize_ready(*s, f)),
{
    match &s.data.finalize {
        None => false,
        Some(finalize) => {
            if finalize.finalized {
                return false;
            }
            let refs = &finalize.command.segment_closes;
            let mut i: usize = 0;
            while i < refs.len()
                invariant
                    i <= refs.len(),
                    s.data.finalize == Some(*finalize),
                    !finalize.finalized,
                    refs == &finalize.command.segment_closes,
                    forall|a: int, b: int| 0 <= a < b < s.data.segments.len() ==> (#[trigger] s.data.segments@[a]).segment_id@ != (#[trigger] s.data.segments@[b]).segment_id@,
                    forall|j: int| 0 <= j < i ==> #[trigger] reference_ready(*s, *finalize, j),
                decreases refs.len() - i,
            {
                match segment_index(&s.data.segments, &refs[i].segment_id) {
                    None => {
                        assert(!reference_ready(*s, *finalize, i as int));
                        return false;
                    },
                    Some(k) => match &s.data.segments[k].close {
                        None => {
                            proof {
                                lemma_unique_segment(*s, k as int, i as int, *finalize);
                            }
                            return false;
                        },
                        Some(close) => {
                            if !(close.finalized && close.message_id.0 == refs[i].close_message_id.0) {
                                proof {
                                    lemma_unique_segment(*s, k as int, i as int, *finalize);
                                }
                                return false;
                            }
                            assert(reference_ready(*s, *finalize, i as int));
                        },
                    },
                }
                i = i + 1;
            }
            true
        },
    }
}

pub(crate) proof fn lemma_finalize_ready_segments(a: Session, b: Session, f: FinalizeRecord)
    requires
        a.data.segments == b.data.segments,
    ensures
        finalize_ready(a, f) == finalize_ready(b, f),
{
    assert forall|i: int| #![trigger reference_ready(a, f, i)] #![trigger reference_ready(b, f, i)] reference_ready(a, f, i) == reference_ready(b, f, i) by {}
}

pub(crate) proof fn lemma_finalize_ready_command(s: Session, f: FinalizeRecord, g: FinalizeRecord)
    requires
        f.command == g.command,
    ensures
        finalize_ready(s, f) == finalize_ready(s, g),
{
    assert forall|i: int| #![trigger reference_ready(s, f, i)] #![trigger reference_ready(s, g, i)] reference_ready(s, f, i) == reference_ready(s, g, i) by {}
}

/// A pending finalize has all its segments finalized under their exact closes.
pub open spec fn newly_finalized(s: Session) -> bool {
    s.data.finalize matches Some(f) && !f.finalized && finalize_ready(s, f)
}

/// Emits `session_finalized` once every segment named by a pending finalize
/// has finalized under its exact close operation.
pub(crate) fn maybe_finalize_session(s: &mut Session, sent_at: UnixMillis, response: &mut Vec<ServerMessageV1>)
    requires
        old(s).wf(),
        old(s).events@.len() + 1 <= MAX_SAFE_JSON_INTEGER + 1,
        is_log_suffix(old(s).events@, old(response)@),
    ensures
        final(s).wf(),
        same_identity(*final(s), *old(s)),
        final(s).data == (SessionData { finalize: final(s).data.finalize, ..old(s).data }),
        log_grows(old(s).events@, final(s).events@),
        final(s).events@.len() <= old(s).events@.len() + 1,
        is_log_suffix(final(s).events@, final(response)@),
        final(response)@.len() - old(response)@.len() == final(s).events@.len() - old(s).events@.len(),
        old(s).data.finalize is None ==> final(s).data.finalize is None,
        old(s).data.finalize matches Some(f) ==> final(s).data.finalize == Some(FinalizeRecord {
            finalized: f.finalized || finalize_ready(*old(s), f),
            ..f
        }),
        final(s).events@.len() == old(s).events@.len() + (if newly_finalized(*old(s)) { 1int } else { 0 }),
        newly_finalized(*old(s)) ==> (old(s).data.finalize matches Some(f)
            && final(s).events@.last().body matches ServerMessageBodyV1::SessionFinalized(e)
            && e.finalize_message_id@ == f.message_id@
            && e.finalized_at_unix_ms == sent_at
            && spec_same_seq_segment_close_reference_v1(e.segment_closes@, f.command.segment_closes@)),
{
    if !finalize_is_ready(s) {
        proof {
            lemma_log_grows_refl(s.events@);
        }
        return;
    }
    let finalize = s.data.finalize.take().unwrap();
    let body = ServerMessageBodyV1::SessionFinalized(SessionFinalizedV1 {
        finalize_message_id: MessageId(finalize.message_id.0.clone()),
        finalized_at_unix_ms: sent_at,
        duration_ms: DurationMillis(finalize.command.ended_at_ms.0),
        segment_closes: copy_vec_segment_close_reference_v1(&finalize.command.segment_closes),
    });
    s.data.finalize = Some(FinalizeRecord { finalized: true, ..finalize });
    let ghost before = s.events@;
    let ghost before_response = response@;
    let event = append_event(s, sent_at, body);
    response.push(event);
    proof {
        lemma_suffix_push(before, before_response, s.events@.last(), event);
        assert(s.events@ =~= before.push(s.events@.last()));
    }
}

/// The segment has a pending close that its coverage now completes.
pub open spec fn segment_finalized_now(seg: SegmentState) -> bool {
    seg.close matches Some(c) && !c.finalized && close_covered(seg, c.command)
}

/// A pending finalize of the session before becomes ready in the session after.
pub open spec fn session_finalized_now(old: Session, new: Session) -> bool {
    old.data.finalize matches Some(f) && !f.finalized && finalize_ready(new, f)
}

/// Finalizes the segment's pending close once every lane is durable below
/// its boundary, then tries to finalize the session.
pub(crate) fn finish_ready_operations(s: &mut Session, si: usize, sent_at: UnixMillis, response: &mut Vec<ServerMessageV1>)
    requires
        old(s).wf(),
        si < old(s).data.segments.len(),
        old(s).events@.len() + 2 <= MAX_SAFE_JSON_INTEGER + 1,
        is_log_suffix(old(s).events@, old(response)@),
    ensures
        final(s).wf(),
        same_identity(*final(s), *old(s)),
        log_grows(old(s).events@, final(s).events@),
        final(s).events@.len() <= old(s).events@.len() + 2,
        is_log_suffix(final(s).events@, final(response)@),
        final(response)@.len() - old(response)@.len() == final(s).events@.len() - old(s).events@.len(),
        final(s).data == (SessionData { segments: final(s).data.segments, finalize: final(s).data.finalize, ..old(s).data }),
        final(s).data.segments.len() == old(s).data.segments.len(),
        forall|k: int| 0 <= k < final(s).data.segments.len() ==> (#[trigger] final(s).data.segments@[k]).segment_id == old(s).data.segments@[k].segment_id
            && final(s).data.segments@[k].lanes == old(s).data.segments@[k].lanes,
        forall|k: int| 0 <= k < final(s).data.segments.len() && k != si ==> #[trigger] final(s).data.segments@[k] == old(s).data.segments@[k],
        old(s).data.segments@[si as int].close is None ==> final(s).data.segments@[si as int] == old(s).data.segments@[si as int],
        old(s).data.segments@[si as int].close matches Some(c) ==> final(s).data.segments@[si as int].close == Some(CloseRecord {
            finalized: c.finalized || close_covered(old(s).data.segments@[si as int], c.command),
            ..c
        }),
        old(s).data.finalize is None ==> final(s).data.finalize is None,
        old(s).data.finalize matches Some(f) ==> final(s).data.finalize == Some(FinalizeRecord {
            finalized: f.finalized || finalize_ready(*final(s), f),
            ..f
        }),
        segment_finalized_now(old(s).data.segments@[si as int]) ==> (old(s).data.segments@[si as int].close matches Some(c)
            && final(s).events@[old(s).events@.len() as int].body matches ServerMessageBodyV1::SegmentFinalized(e)
            && e.segment_id@ == old(s).data.segments@[si as int].segment_id@
            && e.close_message_id@ == c.message_id@
            && e.finalized_at_unix_ms == sent_at),
        session_finalized_now(*old(s), *final(s)) ==> (old(s).data.finalize matches Some(f)
            && final(s).events@.last().body matches ServerMessageBodyV1::SessionFinalized(e)
            && e.finalize_message_id@ == f.message_id@
            && e.finalized_at_unix_ms == sent_at
            && spec_same_seq_segment_close_reference_v1(e.segment_closes@, f.command.segment_closes@)),
        final(s).events@.len() == old(s).events@.len() + (if segment_finalized_now(old(s).data.segments@[si as int]) { 1int } else { 0 })
            + (if session_finalized_now(*old(s), *final(s)) { 1int } else { 0 }),
{
    proof {
        assert(segment_ok(s.create, s.data.segments@[si as int]));
        assert forall|a: int, b: int| 0 <= a < b < s.data.segments@[si as int].lanes.len() implies (#[trigger] s.data.segments@[si as int].lanes@[a]).lane_id@ != (#[trigger] s.data.segments@[si as int].lanes@[b]).lane_id@ by {
            assert(s.data.segments@[si as int].lanes@[a].lane_id@ == s.create.lanes@[a].lane_id@);
            assert(s.data.segments@[si as int].lanes@[b].lane_id@ == s.create.lanes@[b].lane_id@);
        }
    }
    let ready = match &s.data.segments[si].close {
        None => false,
        Some(close) => !close.finalized && close_is_covered(&s.data.segments[si], &close.command),
    };
    let ghost s0 = *s;
    proof {
        lemma_log_grows_refl(s.events@);
    }
    if ready {
        let close = s.data.segments[si].close.take().unwrap();
        let body = ServerMessageBodyV1::SegmentFinalized(SegmentFinalizedV1 {
            segment_id: SegmentId(s.data.segments[si].segment_id.0.clone()),
            close_message_id: MessageId(close.message_id.0.clone()),
            finalized_at_unix_ms: sent_at,
            duration_ms: DurationMillis(close.command.ended_at_ms.0),
            lane_boundaries: copy_vec_lane_boundary_v1(&close.command.lane_boundaries),
        });
        s.data.segments[si].close = Some(CloseRecord { finalized: true, ..close });
        proof {
            assert forall|i: int| 0 <= i < s.data.segments.len() implies segment_ok(s.create, #[trigger] s.data.segments@[i]) by {
                assert(s.data.segments@[i].lanes == s0.data.segments@[i].lanes);
            }
            assert forall|a: int, b: int| 0 <= a < b < s.data.segments.len() implies (#[trigger] s.data.segments@[a]).segment_id@ != (#[trigger] s.data.segments@[b]).segment_id@ by {
                assert(s.data.segments@[a].segment_id == s0.data.segments@[a].segment_id);
                assert(s.data.segments@[b].segment_id == s0.data.segments@[b].segment_id);
            }
        }
        let ghost before = s.events@;
        let ghost before_response = response@;
        let event = append_event(s, sent_at, body);
        response.push(event);
        proof {
            lemma_suffix_push(before, before_response, s.events@.last(), event);
            assert(s.events@ =~= before.push(s.events@.last()));
        }
    }
    let ghost s1 = *s;
    maybe_finalize_session(s, sent_at, response);
    proof {
        lemma_log_grows_trans(s0.events@, s1.events@, s.events@);
        if let Some(f) = s1.data.finalize {
            lemma_finalize_ready_segments(s1, *s, f);
        }
        if ready {
            assert(s.events@[s0.events@.len() as int] == s1.events@[s0.events@.len() as int]);
        }
    }
}

} // verus!
