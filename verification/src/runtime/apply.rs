//! The effect of one client command on a stored session.
//!
//! Every function here takes a well-formed session with room for the events
//! a command may append, keeps it well formed, only appends to its event log,
//! and answers with a suffix of the new log.
use crate::protocol::types::{
    copy_append_provenance_hop_v1, copy_audio_chunk_v1, copy_capture_discontinuity_v1,
    copy_capture_provenance_hop_v1, copy_close_segment_v1, copy_finalize_session_v1,
    spec_same_finalize_session_v1, spec_same_segment_close_reference_v1, same_append_provenance_hop_v1,
    same_audio_chunk_v1, same_capture_discontinuity_v1, spec_same_append_provenance_hop_v1,
    spec_same_audio_chunk_v1, spec_same_capture_discontinuity_v1,
    spec_same_capture_provenance_hop_v1, spec_same_close_segment_v1, spec_same_lane_boundary_v1,
    AppendProvenanceHopV1, AudioChunkV1, CaptureDiscontinuityV1, CaptureHealthV1,
    ClientMessageBodyV1, ClientMessageV1, CloseSegmentV1, CreateSessionV1, DiscontinuityId, FinalizeSessionV1, LaneId,
    MessageId, ProvenanceHopRecordedV1, ReplayCompletedV1, ResumeSessionV1,
    SegmentCloseReferenceV1, SegmentId,
    SequenceRangeV1, ServerMessageBodyV1, ServerMessageV1, MAX_SAFE_JSON_INTEGER,
};
use crate::protocol::validate::{
    ack_covers, audio_chunk_ok, boundary_texts, client_message_ok, close_segment_ok,
    discontinuity_ok, finalize_ok,
    range_contains,
};
use crate::runtime::digest::{digest_text, payload_digest_matches};
use crate::protocol::types::spec_same_seq_segment_close_reference_v1;
use crate::runtime::session::{
    admissible, append_event, boundaries_distinct, boundary_covered, boundary_for, chunk_index,
    chunks_distinct, close_covered, close_lanes_match, command_response, declared_lane_index,
    declared_lanes_distinct, ensure_segment, finalize_ready, finish_ready_operations,
    has_boundary, is_log_suffix, is_rejection, lane_declared, lane_state_index, lanes_ok,
    lemma_finalize_ready_command, lemma_finalize_ready_segments, lemma_log_grows_refl, lemma_log_grows_trans, lemma_single_suffix,
    maybe_finalize_session, ranges_overlap, reject, segment_finalized_now, session_finalized_now,
    segment_index, segment_is_admissible, segment_ok, transition_ok, CloseRecord, FinalizeRecord,
    LaneState, SegmentState, Session, SessionData,
};
use vstd::prelude::*;

verus! {

/// The session declares a lane with this ID.
pub open spec fn declares_lane(s: Session, lane_id: Seq<char>) -> bool {
    exists|k: int| 0 <= k < s.create.lanes.len() && (#[trigger] s.create.lanes@[k]).lane_id@ == lane_id
}

/// A finalize operation has completed.
pub open spec fn session_finalized(s: Session) -> bool {
    s.data.finalize matches Some(f) && f.finalized
}

/// The command was answered by exactly one durable rejection with `code`,
/// and nothing else changed.
pub open spec fn rejected(old: Session, new: Session, r: Seq<ServerMessageV1>, id: Seq<char>, code: Seq<char>) -> bool {
    &&& new.data == old.data
    &&& new.events@.len() == old.events@.len() + 1
    &&& r.len() == 1
    &&& is_rejection(new.events@.last(), id, code)
}

/// The command changed nothing and produced no events.
pub open spec fn ignored(old: Session, new: Session, r: Seq<ServerMessageV1>) -> bool {
    &&& new == old
    &&& r.len() == 0
}

// ------------------------------------------------------------- positions

/// Position of the segment with this ID.
pub open spec fn segment_position(s: Session, seg: Seq<char>) -> Option<int> {
    if exists|i: int| 0 <= i < s.data.segments.len() && (#[trigger] s.data.segments@[i]).segment_id@ == seg {
        Some(choose|i: int| 0 <= i < s.data.segments.len() && (#[trigger] s.data.segments@[i]).segment_id@ == seg)
    } else {
        None
    }
}

/// Position of the lane state with this ID.
pub open spec fn lane_position(g: SegmentState, lane: Seq<char>) -> Option<int> {
    if exists|k: int| 0 <= k < g.lanes.len() && (#[trigger] g.lanes@[k]).lane_id@ == lane {
        Some(choose|k: int| 0 <= k < g.lanes.len() && (#[trigger] g.lanes@[k]).lane_id@ == lane)
    } else {
        None
    }
}

/// Position of the stored chunk with this sequence.
pub open spec fn chunk_position(l: LaneState, sequence: u64) -> Option<int> {
    if exists|j: int| 0 <= j < l.chunks.len() && (#[trigger] l.chunks@[j]).sequence == sequence {
        Some(choose|j: int| 0 <= j < l.chunks.len() && (#[trigger] l.chunks@[j]).sequence == sequence)
    } else {
        None
    }
}

/// The lane state of a segment lane, when the segment exists.
pub open spec fn lane_state(s: Session, seg: Seq<char>, lane: Seq<char>) -> Option<LaneState> {
    match segment_position(s, seg) {
        Some(i) => match lane_position(s.data.segments@[i], lane) {
            Some(k) => Some(s.data.segments@[i].lanes@[k]),
            None => None,
        },
        None => None,
    }
}

/// The sequence is durable on that segment lane.
pub open spec fn lane_has(s: Session, seg: Seq<char>, lane: Seq<char>, q: u64) -> bool {
    lane_state(s, seg, lane) matches Some(l) && l.coverage.has(q)
}

/// The chunk stored on that segment lane under `sequence`.
pub open spec fn stored_chunk(s: Session, seg: Seq<char>, lane: Seq<char>, sequence: u64) -> Option<AudioChunkV1> {
    match lane_state(s, seg, lane) {
        Some(l) => match chunk_position(l, sequence) {
            Some(j) => Some(l.chunks@[j]),
            None => None,
        },
        None => None,
    }
}

/// The close operation accepted for the segment, if any.
pub open spec fn segment_close(s: Session, seg: Seq<char>) -> Option<CloseRecord> {
    match segment_position(s, seg) {
        Some(i) => s.data.segments@[i].close,
        None => None,
    }
}

/// The boundary a close declares for a lane.
pub open spec fn boundary_of(close: CloseSegmentV1, lane: Seq<char>) -> Option<u64> {
    if exists|b: int| 0 <= b < close.lane_boundaries.len() && (#[trigger] close.lane_boundaries@[b]).lane_id@ == lane {
        Some(close.lane_boundaries@[choose|b: int| 0 <= b < close.lane_boundaries.len() && (#[trigger] close.lane_boundaries@[b]).lane_id@ == lane].next_sequence)
    } else {
        None
    }
}

/// Some recorded discontinuity of that segment lane declares `q`.
pub open spec fn gap_claims(s: Session, seg: Seq<char>, lane: Seq<char>, q: u64) -> bool {
    exists|g: int| 0 <= g < s.data.discontinuities.len() && (#[trigger] s.data.discontinuities@[g]).segment_id@ == seg
        && s.data.discontinuities@[g].lane_id@ == lane && range_contains(s.data.discontinuities@[g].sequence_range, q)
}

proof fn lemma_segment_position(s: Session, i: int)
    requires
        s.wf(),
        0 <= i < s.data.segments.len(),
    ensures
        segment_position(s, s.data.segments@[i].segment_id@) == Some(i),
{
    let seg = s.data.segments@[i].segment_id@;
    assert(0 <= i < s.data.segments.len() && s.data.segments@[i].segment_id@ == seg);
    let c = choose|j: int| 0 <= j < s.data.segments.len() && (#[trigger] s.data.segments@[j]).segment_id@ == seg;
    if c != i {
        if c < i {
            assert(s.data.segments@[c].segment_id@ != s.data.segments@[i].segment_id@);
        } else {
            assert(s.data.segments@[i].segment_id@ != s.data.segments@[c].segment_id@);
        }
    }
}

proof fn lemma_lane_position(create: CreateSessionV1, g: SegmentState, k: int)
    requires
        lanes_ok(create, g.lanes@),
        declared_lanes_distinct(create),
        0 <= k < g.lanes.len(),
    ensures
        lane_position(g, g.lanes@[k].lane_id@) == Some(k),
{
    let lane = g.lanes@[k].lane_id@;
    assert(0 <= k < g.lanes.len() && g.lanes@[k].lane_id@ == lane);
    let c = choose|j: int| 0 <= j < g.lanes.len() && (#[trigger] g.lanes@[j]).lane_id@ == lane;
    if c != k {
        assert(g.lanes@[c].lane_id@ == create.lanes@[c].lane_id@);
        assert(g.lanes@[k].lane_id@ == create.lanes@[k].lane_id@);
        if c < k {
            assert(create.lanes@[c].lane_id@ != create.lanes@[k].lane_id@);
        } else {
            assert(create.lanes@[k].lane_id@ != create.lanes@[c].lane_id@);
        }
    }
}

proof fn lemma_chunk_position(l: LaneState, j: int)
    requires
        chunks_distinct(l.chunks@),
        0 <= j < l.chunks.len(),
    ensures
        chunk_position(l, l.chunks@[j].sequence) == Some(j),
{
    let q = l.chunks@[j].sequence;
    assert(0 <= j < l.chunks.len() && l.chunks@[j].sequence == q);
    let c = choose|x: int| 0 <= x < l.chunks.len() && (#[trigger] l.chunks@[x]).sequence == q;
    if c != j {
        if c < j {
            assert(l.chunks@[c].sequence != l.chunks@[j].sequence);
        } else {
            assert(l.chunks@[j].sequence != l.chunks@[c].sequence);
        }
    }
}

proof fn lemma_boundary_of(close: CloseSegmentV1, b: int)
    requires
        boundaries_distinct(close.lane_boundaries@),
        0 <= b < close.lane_boundaries.len(),
    ensures
        boundary_of(close, close.lane_boundaries@[b].lane_id@) == Some(close.lane_boundaries@[b].next_sequence),
{
    let lane = close.lane_boundaries@[b].lane_id@;
    assert(0 <= b < close.lane_boundaries.len() && close.lane_boundaries@[b].lane_id@ == lane);
    let c = choose|x: int| 0 <= x < close.lane_boundaries.len() && (#[trigger] close.lane_boundaries@[x]).lane_id@ == lane;
    if c != b {
        if c < b {
            assert(close.lane_boundaries@[c].lane_id@ != close.lane_boundaries@[b].lane_id@);
        } else {
            assert(close.lane_boundaries@[b].lane_id@ != close.lane_boundaries@[c].lane_id@);
        }
    }
}

// ---------------------------------------------------------------- health

/// A health report is accepted: its lane, if any, is declared, the session
/// is not finalized, and its time does not move backwards.
pub open spec fn health_accepted(s: Session, h: CaptureHealthV1) -> bool {
    &&& (h.lane_id matches Some(l) ==> declares_lane(s, l@))
    &&& !session_finalized(s)
    &&& (s.data.last_health_at_ms matches Some(last) ==> h.observed_at_ms.0 >= last.0)
}

/// What `health` does to the session and answers.
pub open spec fn health_effect(old: Session, new: Session, m: ClientMessageV1, x: CaptureHealthV1, r: Seq<ServerMessageV1>) -> bool {
    &&& !health_accepted(old, x) ==> rejected(old, new, r, m.message_id@, "invalid_transition"@)
    &&& health_accepted(old, x) ==> r.len() == 0 && new.events == old.events
        && new.data == (SessionData { last_health_at_ms: Some(x.observed_at_ms), ..old.data })
}

/// Records the time of a health report; health produces no events.
pub fn apply_health(s: &mut Session, message: &ClientMessageV1, health: &CaptureHealthV1) -> (r: Vec<ServerMessageV1>)
    requires
        old(s).wf(),
        old(s).has_room(),
    ensures
        transition_ok(*old(s), *final(s), r@),
        health_effect(*old(s), *final(s), *message, *health, r@),
{
    let declared = match &health.lane_id {
        None => true,
        Some(lane_id) => declared_lane_index(&s.create, lane_id).is_some(),
    };
    if !declared {
        return reject(s, message, "invalid_transition", "lane_id is not declared");
    }
    let finalized = match &s.data.finalize {
        None => false,
        Some(f) => f.finalized,
    };
    if finalized {
        return reject(s, message, "invalid_transition", "session is finalized");
    }
    let backwards = match s.data.last_health_at_ms {
        None => false,
        Some(last) => health.observed_at_ms.0 < last.0,
    };
    if backwards {
        return reject(s, message, "invalid_transition", "capture health time moved backwards");
    }
    s.data.last_health_at_ms = Some(health.observed_at_ms);
    proof {
        lemma_log_grows_refl(s.events@);
    }
    Vec::new()
}

// ------------------------------------------------------- provenance hops

/// Position of the recorded hop with this ID.
pub open spec fn hop_position(s: Session, id: Seq<char>) -> Option<int> {
    if exists|k: int| 0 <= k < s.data.provenance_hops.len() && (#[trigger] s.data.provenance_hops@[k]).provenance_hop_id@ == id {
        Some(choose|k: int| 0 <= k < s.data.provenance_hops.len() && (#[trigger] s.data.provenance_hops@[k]).provenance_hop_id@ == id)
    } else {
        None
    }
}

fn hop_index(hops: &Vec<AppendProvenanceHopV1>, id: &String) -> (r: Option<usize>)
    ensures
        r matches Some(k) ==> k < hops.len() && hops@[k as int].provenance_hop_id@ == id@,
        r is None ==> forall|k: int| 0 <= k < hops.len() ==> (#[trigger] hops@[k]).provenance_hop_id@ != id@,
{
    let mut k: usize = 0;
    while k < hops.len()
        invariant
            k <= hops.len(),
            forall|j: int| 0 <= j < k ==> (#[trigger] hops@[j]).provenance_hop_id@ != id@,
        decreases hops.len() - k,
    {
        if hops[k].provenance_hop_id == *id {
            return Some(k);
        }
        k = k + 1;
    }
    None
}

/// What `append_hop` does to the session and answers.
pub open spec fn append_hop_effect(old: Session, new: Session, m: ClientMessageV1, x: AppendProvenanceHopV1, r: Seq<ServerMessageV1>) -> bool {
    &&& hop_position(old, x.provenance_hop_id@) matches Some(k) ==> {
        if spec_same_append_provenance_hop_v1(old.data.provenance_hops@[k], x) {
            ignored(old, new, r)
        } else {
            rejected(old, new, r, m.message_id@, "conflict"@)
        }
    }
    &&& hop_position(old, x.provenance_hop_id@) is None && session_finalized(old)
        ==> rejected(old, new, r, m.message_id@, "invalid_transition"@)
    &&& hop_position(old, x.provenance_hop_id@) is None && !session_finalized(old) ==> {
        &&& new.data.provenance_hops@.len() == old.data.provenance_hops@.len() + 1
        &&& new.data.provenance_hops@.drop_last() == old.data.provenance_hops@
        &&& spec_same_append_provenance_hop_v1(new.data.provenance_hops@.last(), x)
        &&& new.data.provenance@.len() == old.data.provenance@.len() + 1
        &&& new.data.provenance@.drop_last() == old.data.provenance@
        &&& spec_same_capture_provenance_hop_v1(new.data.provenance@.last(), x.hop)
        &&& new.data == (SessionData {
            provenance: new.data.provenance,
            provenance_hops: new.data.provenance_hops,
            ..old.data
        })
        &&& r.len() == 1
        &&& new.events@.last().body is ProvenanceHopRecorded
        &&& new.events@.last().body->ProvenanceHopRecorded_0.append_message_id@ == m.message_id@
        &&& new.events@.last().body->ProvenanceHopRecorded_0.provenance_hop_id@ == x.provenance_hop_id@
    }
}

/// Appends a provenance hop under its ID: an identical retry is ignored, a
/// different hop under a used ID is a conflict, and a finalized session takes
/// no new hops.
#[verifier::spinoff_prover]
#[verifier::rlimit(40)]
pub fn apply_append_hop(s: &mut Session, message: &ClientMessageV1, append: &AppendProvenanceHopV1) -> (r: Vec<ServerMessageV1>)
    requires
        old(s).wf(),
        old(s).has_room(),
    ensures
        transition_ok(*old(s), *final(s), r@),
        append_hop_effect(*old(s), *final(s), *message, *append, r@),
{
    match hop_index(&s.data.provenance_hops, &append.provenance_hop_id) {
        Some(k) => {
            proof {
                let id = append.provenance_hop_id@;
                let c = choose|j: int| 0 <= j < s.data.provenance_hops.len() && (#[trigger] s.data.provenance_hops@[j]).provenance_hop_id@ == id;
                assert(c == k as int) by {
                    if c != k as int {
                        if c < k as int {
                            assert(s.data.provenance_hops@[c].provenance_hop_id@ != s.data.provenance_hops@[k as int].provenance_hop_id@);
                        } else {
                            assert(s.data.provenance_hops@[k as int].provenance_hop_id@ != s.data.provenance_hops@[c].provenance_hop_id@);
                        }
                    }
                }
            }
            if same_append_provenance_hop_v1(&s.data.provenance_hops[k], append) {
                proof {
                    lemma_log_grows_refl(s.events@);
                }
                return Vec::new();
            }
            return reject(s, message, "conflict", "provenance_hop_id was already used for different content");
        },
        None => {},
    }
    let finalized = match &s.data.finalize {
        None => false,
        Some(f) => f.finalized,
    };
    if finalized {
        return reject(s, message, "invalid_transition", "session is finalized");
    }
    let ghost hops0 = s.data.provenance_hops@;
    let ghost s0 = *s;
    proof {
        assert(hop_position(s0, append.provenance_hop_id@) is None);
        assert(!session_finalized(s0));
    }
    s.data.provenance_hops.push(copy_append_provenance_hop_v1(append));
    s.data.provenance.push(copy_capture_provenance_hop_v1(&append.hop));
    proof {
        assert(s.data.provenance_hops@.drop_last() =~= hops0);
        assert forall|a: int, b: int| 0 <= a < b < s.data.provenance_hops.len() implies (#[trigger] s.data.provenance_hops@[a]).provenance_hop_id@ != (#[trigger] s.data.provenance_hops@[b]).provenance_hop_id@ by {
            assert(s.data.provenance_hops@[a] == hops0[a]);
            if b < hops0.len() {
                assert(s.data.provenance_hops@[b] == hops0[b]);
            }
        }
    }
    let event = append_event(
        s,
        message.sent_at_unix_ms,
        ServerMessageBodyV1::ProvenanceHopRecorded(ProvenanceHopRecordedV1 {
            append_message_id: MessageId(message.message_id.0.clone()),
            provenance_hop_id: append.provenance_hop_id.clone(),
        }),
    );
    let mut r = Vec::new();
    r.push(event);
    proof {
        lemma_single_suffix(s.events@, r@);
        assert(s.data.provenance_hops@.drop_last() == s0.data.provenance_hops@);
        assert(s.data == (SessionData {
            provenance: s.data.provenance,
            provenance_hops: s.data.provenance_hops,
            ..s0.data
        }));
        let p = hop_position(s0, append.provenance_hop_id@);
        assert(p is None);
        assert(s.data.provenance_hops@.len() == s0.data.provenance_hops@.len() + 1);
        assert(spec_same_append_provenance_hop_v1(s.data.provenance_hops@.last(), *append));
        assert(s.data.provenance@.len() == s0.data.provenance@.len() + 1);
        assert(s.data.provenance@.drop_last() == s0.data.provenance@);
        assert(spec_same_capture_provenance_hop_v1(s.data.provenance@.last(), append.hop));
        assert(r@.len() == 1);
        assert(s.events@.last().body is ProvenanceHopRecorded);
        assert(s.events@.last().body->ProvenanceHopRecorded_0.append_message_id@ == message.message_id@);
        assert(s.events@.last().body->ProvenanceHopRecorded_0.provenance_hop_id@ == append.provenance_hop_id@);
        assert(append_hop_effect(s0, *s, *message, *append, r@));
    }
    r
}

// ------------------------------------------------------------------ resume

/// The replay cursor names an event beyond the end of the log.
pub open spec fn replay_unavailable(s: Session, resume: ResumeSessionV1) -> bool {
    resume.after_server_sequence matches Some(c) && c >= s.events@.len()
}

/// Sequence of the first event a resume replays.
pub open spec fn replay_start(resume: ResumeSessionV1) -> int {
    match resume.after_server_sequence {
        Some(c) => c + 1,
        None => 0,
    }
}

/// What `resume` does to the session and answers.
pub open spec fn resume_effect(old: Session, new: Session, m: ClientMessageV1, x: ResumeSessionV1, r: Seq<ServerMessageV1>) -> bool {
    &&& replay_unavailable(old, x) ==> rejected(old, new, r, m.message_id@, "replay_unavailable"@)
    &&& !replay_unavailable(old, x) ==> {
        &&& new.data == old.data
        &&& new.events@.len() == old.events@.len() + 1
        &&& r.len() == new.events@.len() - replay_start(x)
        &&& new.events@.last().body is ReplayCompleted
        &&& new.events@.last().body->ReplayCompleted_0.resume_message_id@ == m.message_id@
        &&& new.events@.last().body->ReplayCompleted_0.replayed_through_server_sequence
            == (if old.events@.len() == 0 { None } else { Some((old.events@.len() - 1) as u64) })
    }
}

/// Replays every event after the cursor, then appends `replay_completed`
/// naming the last event that existed before it.
pub fn apply_resume(s: &mut Session, message: &ClientMessageV1, resume: &ResumeSessionV1) -> (r: Vec<ServerMessageV1>)
    requires
        old(s).wf(),
        old(s).has_room(),
    ensures
        transition_ok(*old(s), *final(s), r@),
        resume_effect(*old(s), *final(s), *message, *resume, r@),
{
    let n = s.events.len();
    let watermark: Option<u64> = if n == 0 {
        None
    } else {
        Some(s.events[n - 1].sequence)
    };
    let unavailable = match resume.after_server_sequence {
        None => false,
        Some(cursor) => match watermark {
            None => true,
            Some(last) => cursor > last,
        },
    };
    if unavailable {
        return reject(s, message, "replay_unavailable", "replay cursor is beyond the retained event log");
    }
    let start: u64 = match resume.after_server_sequence {
        None => 0,
        Some(cursor) => cursor + 1,
    };
    let mut response = command_response(&s.events, crate::protocol::types::SequenceRangeV1 { start, end_exclusive: n as u64 });
    let ghost before = s.events@;
    let ghost before_response = response@;
    proof {
        assert(is_log_suffix(before, before_response));
    }
    let event = append_event(
        s,
        message.sent_at_unix_ms,
        ServerMessageBodyV1::ReplayCompleted(ReplayCompletedV1 {
            resume_message_id: MessageId(message.message_id.0.clone()),
            replayed_through_server_sequence: watermark,
        }),
    );
    response.push(event);
    proof {
        crate::runtime::session::lemma_suffix_push(before, before_response, s.events@.last(), event);
        assert(s.events@ =~= before.push(s.events@.last()));
    }
    response
}

// ------------------------------------------------------------------ chunks

/// End of a time range, as a mathematical integer.
pub open spec fn end_ms(start: u64, duration: u64) -> int {
    start + duration
}

/// The chunk ends after the close or finalize boundary already declared.
pub open spec fn chunk_past_declared_end(s: Session, c: AudioChunkV1) -> bool {
    let end = end_ms(c.starts_at_ms.0, c.duration_ms.0);
    ||| (segment_close(s, c.segment_id@) matches Some(cr) && end > cr.command.ended_at_ms.0)
    ||| (s.data.finalize matches Some(f) && end > f.command.ended_at_ms.0)
}

/// The checks a chunk passes before its sequence is looked up.
pub open spec fn chunk_prechecks(s: Session, c: AudioChunkV1) -> bool {
    &&& declares_lane(s, c.lane_id@)
    &&& admissible(s, c.segment_id@)
    &&& digest_text(c.payload_digest.algorithm, c.payload@) == c.payload_digest.hex@
    &&& end_ms(c.starts_at_ms.0, c.duration_ms.0) <= MAX_SAFE_JSON_INTEGER
}

/// The same chunk is already stored: the command is an idempotent no-op.
pub open spec fn chunk_duplicate(s: Session, c: AudioChunkV1) -> bool {
    &&& chunk_prechecks(s, c)
    &&& stored_chunk(s, c.segment_id@, c.lane_id@, c.sequence) matches Some(e) && spec_same_audio_chunk_v1(e, c)
}

/// The code with which a chunk is rejected, checked in this order; `None`
/// when it is stored or is a duplicate.
pub open spec fn chunk_rejection(s: Session, c: AudioChunkV1) -> Option<Seq<char>> {
    let close = segment_close(s, c.segment_id@);
    if !declares_lane(s, c.lane_id@) {
        Some("invalid_transition"@)
    } else if !admissible(s, c.segment_id@) {
        Some("invalid_transition"@)
    } else if digest_text(c.payload_digest.algorithm, c.payload@) != c.payload_digest.hex@ {
        Some("digest_mismatch"@)
    } else if end_ms(c.starts_at_ms.0, c.duration_ms.0) > MAX_SAFE_JSON_INTEGER {
        Some("invalid_message"@)
    } else if stored_chunk(s, c.segment_id@, c.lane_id@, c.sequence) is Some {
        if spec_same_audio_chunk_v1(stored_chunk(s, c.segment_id@, c.lane_id@, c.sequence)->0, c) {
            None
        } else {
            Some("sequence_conflict"@)
        }
    } else if gap_claims(s, c.segment_id@, c.lane_id@, c.sequence) {
        Some("sequence_conflict"@)
    } else if close matches Some(cr) && (boundary_of(cr.command, c.lane_id@) matches Some(b) && c.sequence >= b) {
        Some("invalid_transition"@)
    } else if close matches Some(cr) && cr.finalized {
        Some("invalid_transition"@)
    } else if chunk_past_declared_end(s, c) {
        Some("invalid_transition"@)
    } else if c.sequence == MAX_SAFE_JSON_INTEGER {
        Some("invalid_message"@)
    } else {
        None
    }
}

/// Whether a recorded discontinuity of the segment lane declares `sequence`.
fn gap_claims_sequence(s: &Session, segment_id: &SegmentId, lane_id: &LaneId, sequence: u64) -> (r: bool)
    ensures
        r == gap_claims(*s, segment_id@, lane_id@, sequence),
{
    let ds = &s.data.discontinuities;
    let mut g: usize = 0;
    while g < ds.len()
        invariant
            g <= ds.len(),
            ds == &s.data.discontinuities,
            forall|j: int| 0 <= j < g ==> !((#[trigger] ds@[j]).segment_id@ == segment_id@ && ds@[j].lane_id@ == lane_id@
                && range_contains(ds@[j].sequence_range, sequence)),
        decreases ds.len() - g,
    {
        if ds[g].segment_id.0 == segment_id.0 && ds[g].lane_id.0 == lane_id.0 && ds[g].sequence_range.contains(sequence) {
            return true;
        }
        g = g + 1;
    }
    false
}

/// What a command does, decided before anything changes.
pub enum Verdict {
    /// Answer with a durable rejection carrying this code and explanation.
    Reject(&'static str, &'static str),
    /// Already applied: change nothing, answer nothing.
    Ignore,
    /// Apply the command.
    Accept,
}

/// Decides what a chunk command does.
fn check_chunk(s: &Session, chunk: &AudioChunkV1) -> (r: Verdict)
    requires
        s.wf(),
    ensures
        r matches Verdict::Reject(code, _) ==> chunk_rejection(*s, *chunk) == Some(code@),
        r is Ignore ==> chunk_duplicate(*s, *chunk) && chunk_rejection(*s, *chunk) is None,
        r is Accept ==> chunk_rejection(*s, *chunk) is None && !chunk_duplicate(*s, *chunk),
{
    proof {
        reveal_strlit("invalid_transition");
    }
    let dk = match declared_lane_index(&s.create, &chunk.lane_id) {
        Some(k) => k,
        None => {
            return Verdict::Reject("invalid_transition", "lane_id is not declared");
        },
    };
    if !segment_is_admissible(s, &chunk.segment_id) {
        return Verdict::Reject("invalid_transition", "segment is outside the finalized segment set");
    }
    if !payload_digest_matches(chunk) {
        return Verdict::Reject("digest_mismatch", "payload does not match payload_digest");
    }
    let chunk_end = match chunk.starts_at_ms.0.checked_add(chunk.duration_ms.0) {
        None => {
            return Verdict::Reject("invalid_message", "chunk time range overflows V1");
        },
        Some(end) => end,
    };
    if chunk_end > MAX_SAFE_JSON_INTEGER {
        return Verdict::Reject("invalid_message", "chunk time range overflows V1");
    }
    let si_opt = segment_index(&s.data.segments, &chunk.segment_id);
    proof {
        if let Some(si) = si_opt {
            lemma_segment_position(*s, si as int);
            lemma_lane_position(s.create, s.data.segments@[si as int], dk as int);
            assert(s.data.segments@[si as int].lanes@[dk as int].lane_id@ == chunk.lane_id@);
        }
    }
    if let Some(si) = si_opt {
        let lane = &s.data.segments[si].lanes[dk];
        match chunk_index(&lane.chunks, chunk.sequence) {
            Some(j) => {
                proof {
                    lemma_chunk_position(*lane, j as int);
                }
                if same_audio_chunk_v1(&lane.chunks[j], chunk) {
                    return Verdict::Ignore;
                }
                return Verdict::Reject("sequence_conflict", "lane sequence was already stored with different content");
            },
            None => {},
        }
    }
    assert(stored_chunk(*s, chunk.segment_id@, chunk.lane_id@, chunk.sequence) is None);
    if gap_claims_sequence(s, &chunk.segment_id, &chunk.lane_id, chunk.sequence) {
        return Verdict::Reject("sequence_conflict", "lane sequence is already declared discontinuous");
    }
    let mut beyond_boundary = false;
    let mut close_finalized = false;
    let mut past_end = false;
    if let Some(si) = si_opt {
        if let Some(cr) = &s.data.segments[si].close {
            match boundary_for(&cr.command, &chunk.lane_id) {
                Some(b) => {
                    proof {
                        let k = choose|k: int| 0 <= k < cr.command.lane_boundaries.len()
                            && (#[trigger] cr.command.lane_boundaries@[k]).lane_id@ == chunk.lane_id@
                            && cr.command.lane_boundaries@[k].next_sequence == b;
                        lemma_boundary_of(cr.command, k);
                    }
                    beyond_boundary = chunk.sequence >= b;
                },
                None => {},
            }
            close_finalized = cr.finalized;
            past_end = chunk_end > cr.command.ended_at_ms.0;
        }
    }
    if let Some(f) = &s.data.finalize {
        past_end = past_end || chunk_end > f.command.ended_at_ms.0;
    }
    if beyond_boundary {
        return Verdict::Reject("invalid_transition", "chunk sequence is at or beyond the close boundary");
    }
    if close_finalized {
        return Verdict::Reject("invalid_transition", "segment is finalized");
    }
    if past_end {
        return Verdict::Reject("invalid_transition", "chunk extends beyond a declared close or finalize boundary");
    }
    if chunk.sequence == MAX_SAFE_JSON_INTEGER {
        return Verdict::Reject("invalid_message", "chunk sequence cannot be acknowledged in V1");
    }
    Verdict::Accept
}

/// The close a segment has in the session, if the segment exists.
pub open spec fn close_before(s: Session, seg: Seq<char>) -> Option<CloseRecord> {
    match segment_position(s, seg) {
        Some(j) => s.data.segments@[j].close,
        None => None,
    }
}

/// What new durable coverage of segment `seg` finalizes, after its one
/// acknowledgement: the segment's pending close once every lane boundary
/// is covered, announced by `segment_finalized`; then a pending session
/// finalize once every segment it names finalized under its exact close,
/// announced by `session_finalized`. Nothing else is appended.
pub open spec fn finishes_ready(old: Session, new: Session, seg: Seq<char>) -> bool {
    segment_position(new, seg) matches Some(i) && {
        let after = new.data.segments@[i];
        let ack_at = old.events@.len() as int;
        let closed = close_before(old, seg) matches Some(c) && !c.finalized && close_covered(after, c.command);
        &&& match close_before(old, seg) {
            None => after.close is None,
            Some(c) => after.close == Some(CloseRecord { finalized: c.finalized || close_covered(after, c.command), ..c }),
        }
        &&& closed ==> (close_before(old, seg) matches Some(c) && new.events@[ack_at + 1].body matches ServerMessageBodyV1::SegmentFinalized(e)
            && e.segment_id@ == seg && e.close_message_id@ == c.message_id@)
        &&& old.data.finalize is None ==> new.data.finalize is None
        &&& old.data.finalize matches Some(f) ==> new.data.finalize == Some(FinalizeRecord { finalized: f.finalized || finalize_ready(new, f), ..f })
        &&& session_finalized_now(old, new) ==> (old.data.finalize matches Some(f) && new.events@.last().body matches ServerMessageBodyV1::SessionFinalized(e)
            && e.finalize_message_id@ == f.message_id@
            && spec_same_seq_segment_close_reference_v1(e.segment_closes@, f.command.segment_closes@))
        &&& new.events@.len() == ack_at + 1 + (if closed { 1int } else { 0 }) + (if session_finalized_now(old, new) { 1int } else { 0 })
    }
}

/// Stores an accepted chunk, acknowledges the lane's durable coverage, and
/// finalizes whatever the new coverage completes.
fn store_chunk(s: &mut Session, message: &ClientMessageV1, chunk: &AudioChunkV1) -> (r: Vec<ServerMessageV1>)
    requires
        old(s).wf(),
        old(s).has_room(),
        audio_chunk_ok(*chunk),
        chunk_rejection(*old(s), *chunk) is None,
        !chunk_duplicate(*old(s), *chunk),
    ensures
        transition_ok(*old(s), *final(s), r@),
        lane_state(*final(s), chunk.segment_id@, chunk.lane_id@) matches Some(l) && {
            &&& stored_chunk(*final(s), chunk.segment_id@, chunk.lane_id@, chunk.sequence) matches Some(e)
            &&& spec_same_audio_chunk_v1(e, *chunk)
            &&& forall|q: u64| #[trigger] l.coverage.has(q) <==> (lane_has(*old(s), chunk.segment_id@, chunk.lane_id@, q) || q == chunk.sequence)
            &&& final(s).events@[old(s).events@.len() as int].body is AudioAcknowledged
            &&& forall|q: u64| #[trigger] ack_covers(final(s).events@[old(s).events@.len() as int].body->AudioAcknowledged_0, q) <==> l.coverage.has(q)
        },
        r@.len() == final(s).events@.len() - old(s).events@.len(),
        r@.len() >= 1,
        finishes_ready(*old(s), *final(s), chunk.segment_id@),
{
    let dk = match declared_lane_index(&s.create, &chunk.lane_id) {
        Some(k) => k,
        None => {
            proof {
                assert(declares_lane(*s, chunk.lane_id@));
            }
            return Vec::new();
        },
    };
    let si_opt = segment_index(&s.data.segments, &chunk.segment_id);
    proof {
        if let Some(si) = si_opt {
            lemma_segment_position(*s, si as int);
            lemma_lane_position(s.create, s.data.segments@[si as int], dk as int);
            assert(s.data.segments@[si as int].lanes@[dk as int].lane_id@ == chunk.lane_id@);
        }
        assert(stored_chunk(*s, chunk.segment_id@, chunk.lane_id@, chunk.sequence) is None);
    }
    let ghost s0 = *s;
    let si = ensure_segment(s, &chunk.segment_id);
    let ghost s1 = *s;
    proof {
        if let Some(i) = si_opt {
            assert(s1.data.segments@[i as int] == s0.data.segments@[i as int]);
            assert(si == i) by {
                if si != i {
                    if si < i {
                        assert(s1.data.segments@[si as int].segment_id@ != s1.data.segments@[i as int].segment_id@);
                    } else {
                        assert(s1.data.segments@[i as int].segment_id@ != s1.data.segments@[si as int].segment_id@);
                    }
                }
            }
        } else {
            assert(si as int == s0.data.segments.len());
        }
        assert(segment_ok(s1.create, s1.data.segments@[si as int]));
        assert(s1.data.segments@[si as int].lanes@[dk as int].lane_id@ == chunk.lane_id@);
    }
    s.data.segments[si].lanes[dk].chunks.push(copy_audio_chunk_v1(chunk));
    s.data.segments[si].lanes[dk].coverage.add(SequenceRangeV1 { start: chunk.sequence, end_exclusive: chunk.sequence + 1 });
    proof {
        let lane1 = s1.data.segments@[si as int].lanes@[dk as int];
        let lane2 = s.data.segments@[si as int].lanes@[dk as int];
        assert forall|j: int| 0 <= j < lane1.chunks.len() implies (#[trigger] lane1.chunks@[j]).sequence != chunk.sequence by {
            if si_opt is None {
                assert(lane1.chunks@.len() == 0);
            } else {
                assert(lane_state(s0, chunk.segment_id@, chunk.lane_id@) == Some(lane1));
            }
        }
        assert(chunks_distinct(lane2.chunks@)) by {
            assert forall|a: int, b: int| 0 <= a < b < lane2.chunks.len() implies (#[trigger] lane2.chunks@[a]).sequence != (#[trigger] lane2.chunks@[b]).sequence by {
                assert(lane2.chunks@[a] == lane1.chunks@[a]);
                if b < lane1.chunks.len() {
                    assert(lane2.chunks@[b] == lane1.chunks@[b]);
                }
            }
        }
        assert(segment_ok(s.create, s.data.segments@[si as int])) by {
            assert forall|k: int| 0 <= k < s.data.segments@[si as int].lanes.len() implies {
                &&& (#[trigger] s.data.segments@[si as int].lanes@[k]).lane_id@ == s.create.lanes@[k].lane_id@
                &&& s.data.segments@[si as int].lanes@[k].coverage.wf()
                &&& chunks_distinct(s.data.segments@[si as int].lanes@[k].chunks@)
            } by {
                if k != dk {
                    assert(s.data.segments@[si as int].lanes@[k] == s1.data.segments@[si as int].lanes@[k]);
                }
            }
        }
        assert forall|i: int| 0 <= i < s.data.segments.len() implies segment_ok(s.create, #[trigger] s.data.segments@[i]) by {
            if i != si {
                assert(s.data.segments@[i] == s1.data.segments@[i]);
            }
        }
        assert forall|a: int, b: int| 0 <= a < b < s.data.segments.len() implies (#[trigger] s.data.segments@[a]).segment_id@ != (#[trigger] s.data.segments@[b]).segment_id@ by {
            assert(s.data.segments@[a].segment_id == s1.data.segments@[a].segment_id);
            assert(s.data.segments@[b].segment_id == s1.data.segments@[b].segment_id);
        }
        assert(s.wf());
    }
    let ghost s2 = *s;
    let ack = s.data.segments[si].lanes[dk].coverage.acknowledgement(&chunk.segment_id, &chunk.lane_id);
    let event = append_event(s, message.sent_at_unix_ms, ServerMessageBodyV1::AudioAcknowledged(ack));
    let mut response = Vec::new();
    response.push(event);
    proof {
        lemma_single_suffix(s.events@, response@);
        lemma_log_grows_refl(s2.events@);
        assert(s.events@.take(s2.events@.len() as int) == s2.events@);
        assert(s.wf());
    }
    let ghost s3 = *s;
    proof {
        assert(s3.data.segments@[si as int].close == close_before(s0, chunk.segment_id@)) by {
            if let Some(i) = si_opt {
                lemma_segment_position(s0, i as int);
            }
        }
        assert(s3.data.finalize == s0.data.finalize);
    }
    finish_ready_operations(s, si, message.sent_at_unix_ms, &mut response);
    proof {
        let after = s.data.segments@[si as int];
        let seg3 = s3.data.segments@[si as int];
        assert(after.lanes == seg3.lanes);
        if let Some(c) = seg3.close {
            lemma_close_covered_lanes(seg3, after, c.command);
        }
        assert(s.events@.take(s3.events@.len() as int) == s3.events@);
        lemma_log_grows_trans(s0.events@, s3.events@, s.events@);
        lemma_segment_position(*s, si as int);
        lemma_lane_position(s.create, s.data.segments@[si as int], dk as int);
        let lane = s.data.segments@[si as int].lanes@[dk as int];
        assert(lane == s2.data.segments@[si as int].lanes@[dk as int]);
        lemma_chunk_position(lane, lane.chunks.len() - 1);
        assert(s.events@[s0.events@.len() as int] == s3.events@.last());
        assert forall|q: u64| #[trigger] lane.coverage.has(q) <==> (lane_has(s0, chunk.segment_id@, chunk.lane_id@, q) || q == chunk.sequence) by {
            if si_opt is Some {
                assert(lane_state(s0, chunk.segment_id@, chunk.lane_id@) == Some(s1.data.segments@[si as int].lanes@[dk as int]));
            } else {
                assert(segment_position(s0, chunk.segment_id@) is None);
            }
        }
    }
    response
}


/// What `chunk` does to the session and answers.
pub open spec fn chunk_effect(old: Session, new: Session, m: ClientMessageV1, x: AudioChunkV1, r: Seq<ServerMessageV1>) -> bool {
    &&& chunk_rejection(old, x) matches Some(code) ==> rejected(old, new, r, m.message_id@, code)
    &&& chunk_duplicate(old, x) ==> ignored(old, new, r)
    &&& chunk_rejection(old, x) is None && !chunk_duplicate(old, x) ==> {
        &&& lane_state(new, x.segment_id@, x.lane_id@) matches Some(l) && {
            &&& stored_chunk(new, x.segment_id@, x.lane_id@, x.sequence) matches Some(e)
            &&& spec_same_audio_chunk_v1(e, x)
            &&& forall|q: u64| #[trigger] l.coverage.has(q) <==> (lane_has(old, x.segment_id@, x.lane_id@, q) || q == x.sequence)
            &&& new.events@[old.events@.len() as int].body is AudioAcknowledged
            &&& forall|q: u64| #[trigger] ack_covers(new.events@[old.events@.len() as int].body->AudioAcknowledged_0, q) <==> l.coverage.has(q)
        }
        &&& finishes_ready(old, new, x.segment_id@)
        &&& r.len() == new.events@.len() - old.events@.len()
        &&& r.len() >= 1
    }
}

/// Stores an audio chunk, acknowledges the lane's durable coverage, and
/// finalizes whatever the new coverage completes.
pub fn apply_chunk(s: &mut Session, message: &ClientMessageV1, chunk: &AudioChunkV1) -> (r: Vec<ServerMessageV1>)
    requires
        old(s).wf(),
        old(s).has_room(),
        audio_chunk_ok(*chunk),
    ensures
        transition_ok(*old(s), *final(s), r@),
        chunk_effect(*old(s), *final(s), *message, *chunk, r@),
{
    match check_chunk(s, chunk) {
        Verdict::Reject(code, explanation) => reject(s, message, code, explanation),
        Verdict::Ignore => {
            proof {
                lemma_log_grows_refl(s.events@);
            }
            Vec::new()
        },
        Verdict::Accept => store_chunk(s, message, chunk),
    }
}

// ---------------------------------------------------------- discontinuities

/// Position of the recorded discontinuity with this ID.
pub open spec fn gap_position(s: Session, id: Seq<char>) -> Option<int> {
    if exists|k: int| 0 <= k < s.data.discontinuities.len() && (#[trigger] s.data.discontinuities@[k]).discontinuity_id@ == id {
        Some(choose|k: int| 0 <= k < s.data.discontinuities.len() && (#[trigger] s.data.discontinuities@[k]).discontinuity_id@ == id)
    } else {
        None
    }
}

/// Both ranges are non-empty and share a sequence.
pub open spec fn overlapping(a: SequenceRangeV1, b: SequenceRangeV1) -> bool {
    a.start != a.end_exclusive && b.start != b.end_exclusive && a.start < b.end_exclusive && b.start < a.end_exclusive
}

/// A stored chunk of the segment lane has its sequence inside `range`.
pub open spec fn chunk_in_range(s: Session, seg: Seq<char>, lane: Seq<char>, range: SequenceRangeV1) -> bool {
    lane_state(s, seg, lane) matches Some(l) && exists|j: int| 0 <= j < l.chunks.len() && range_contains(range, (#[trigger] l.chunks@[j]).sequence)
}

/// Another discontinuity of the same segment lane overlaps `d`.
pub open spec fn gap_overlaps(s: Session, d: CaptureDiscontinuityV1) -> bool {
    exists|g: int| 0 <= g < s.data.discontinuities.len() && (#[trigger] s.data.discontinuities@[g]).segment_id@ == d.segment_id@
        && s.data.discontinuities@[g].lane_id@ == d.lane_id@ && overlapping(s.data.discontinuities@[g].sequence_range, d.sequence_range)
}

/// The discontinuity ends after the close or finalize boundary already declared.
pub open spec fn gap_past_declared_end(s: Session, d: CaptureDiscontinuityV1) -> bool {
    let end = end_ms(d.starts_at_ms.0, d.duration_ms.0);
    ||| (segment_close(s, d.segment_id@) matches Some(cr) && end > cr.command.ended_at_ms.0)
    ||| (s.data.finalize matches Some(f) && end > f.command.ended_at_ms.0)
}

/// The same discontinuity is already recorded: the command is a no-op.
pub open spec fn discontinuity_duplicate(s: Session, d: CaptureDiscontinuityV1) -> bool {
    gap_position(s, d.discontinuity_id@) matches Some(k) && spec_same_capture_discontinuity_v1(s.data.discontinuities@[k], d)
}

/// The code with which a discontinuity is rejected, checked in this order;
/// `None` when it is recorded or is a duplicate.
pub open spec fn discontinuity_rejection(s: Session, d: CaptureDiscontinuityV1) -> Option<Seq<char>> {
    let close = segment_close(s, d.segment_id@);
    if gap_position(s, d.discontinuity_id@) is Some {
        if discontinuity_duplicate(s, d) { None } else { Some("conflict"@) }
    } else if !declares_lane(s, d.lane_id@) {
        Some("invalid_transition"@)
    } else if !admissible(s, d.segment_id@) {
        Some("invalid_transition"@)
    } else if end_ms(d.starts_at_ms.0, d.duration_ms.0) > MAX_SAFE_JSON_INTEGER {
        Some("invalid_message"@)
    } else if close matches Some(cr) && cr.finalized {
        Some("invalid_transition"@)
    } else if close matches Some(cr) && (boundary_of(cr.command, d.lane_id@) matches Some(b)
        && (d.sequence_range.end_exclusive > b || d.sequence_range.start > b)) {
        Some("invalid_transition"@)
    } else if gap_past_declared_end(s, d) {
        Some("invalid_transition"@)
    } else if d.sequence_range.start != d.sequence_range.end_exclusive
        && (chunk_in_range(s, d.segment_id@, d.lane_id@, d.sequence_range) || gap_overlaps(s, d)) {
        Some("sequence_conflict"@)
    } else {
        None
    }
}

fn gap_index(ds: &Vec<CaptureDiscontinuityV1>, id: &DiscontinuityId) -> (r: Option<usize>)
    ensures
        r matches Some(k) ==> k < ds.len() && ds@[k as int].discontinuity_id@ == id@,
        r is None ==> forall|k: int| 0 <= k < ds.len() ==> (#[trigger] ds@[k]).discontinuity_id@ != id@,
{
    let mut k: usize = 0;
    while k < ds.len()
        invariant
            k <= ds.len(),
            forall|j: int| 0 <= j < k ==> (#[trigger] ds@[j]).discontinuity_id@ != id@,
        decreases ds.len() - k,
    {
        if ds[k].discontinuity_id.0 == id.0 {
            return Some(k);
        }
        k = k + 1;
    }
    None
}

fn any_chunk_in_range(lane: &LaneState, range: SequenceRangeV1) -> (r: bool)
    ensures
        r == exists|j: int| 0 <= j < lane.chunks.len() && range_contains(range, (#[trigger] lane.chunks@[j]).sequence),
{
    let mut j: usize = 0;
    while j < lane.chunks.len()
        invariant
            j <= lane.chunks.len(),
            forall|x: int| 0 <= x < j ==> !range_contains(range, (#[trigger] lane.chunks@[x]).sequence),
        decreases lane.chunks.len() - j,
    {
        if range.contains(lane.chunks[j].sequence) {
            return true;
        }
        j = j + 1;
    }
    false
}

fn any_gap_overlaps(s: &Session, d: &CaptureDiscontinuityV1) -> (r: bool)
    ensures
        r == gap_overlaps(*s, *d),
{
    let ds = &s.data.discontinuities;
    let mut g: usize = 0;
    while g < ds.len()
        invariant
            g <= ds.len(),
            ds == &s.data.discontinuities,
            forall|j: int| 0 <= j < g ==> !((#[trigger] ds@[j]).segment_id@ == d.segment_id@ && ds@[j].lane_id@ == d.lane_id@
                && overlapping(ds@[j].sequence_range, d.sequence_range)),
        decreases ds.len() - g,
    {
        if ds[g].segment_id.0 == d.segment_id.0 && ds[g].lane_id.0 == d.lane_id.0 && ranges_overlap(ds[g].sequence_range, d.sequence_range) {
            return true;
        }
        g = g + 1;
    }
    false
}

/// Decides what a discontinuity command does.
fn check_discontinuity(s: &Session, d: &CaptureDiscontinuityV1) -> (r: Verdict)
    requires
        s.wf(),
    ensures
        r matches Verdict::Reject(code, _) ==> discontinuity_rejection(*s, *d) == Some(code@),
        r is Ignore ==> discontinuity_duplicate(*s, *d) && discontinuity_rejection(*s, *d) is None,
        r is Accept ==> discontinuity_rejection(*s, *d) is None && !discontinuity_duplicate(*s, *d),
{
    proof {
        reveal_strlit("invalid_transition");
    }
    if let Some(k) = gap_index(&s.data.discontinuities, &d.discontinuity_id) {
        proof {
            let id = d.discontinuity_id@;
            let c = choose|j: int| 0 <= j < s.data.discontinuities.len() && (#[trigger] s.data.discontinuities@[j]).discontinuity_id@ == id;
            assert(c == k as int) by {
                if c != k as int {
                    if c < k as int {
                        assert(s.data.discontinuities@[c].discontinuity_id@ != s.data.discontinuities@[k as int].discontinuity_id@);
                    } else {
                        assert(s.data.discontinuities@[k as int].discontinuity_id@ != s.data.discontinuities@[c].discontinuity_id@);
                    }
                }
            }
        }
        if same_capture_discontinuity_v1(&s.data.discontinuities[k], d) {
            return Verdict::Ignore;
        }
        return Verdict::Reject("conflict", "discontinuity_id was already used for different content");
    }
    let dk = match declared_lane_index(&s.create, &d.lane_id) {
        Some(k) => k,
        None => {
            return Verdict::Reject("invalid_transition", "lane_id is not declared");
        },
    };
    if !segment_is_admissible(s, &d.segment_id) {
        return Verdict::Reject("invalid_transition", "segment is outside the finalized segment set");
    }
    let gap_end = match d.starts_at_ms.0.checked_add(d.duration_ms.0) {
        None => {
            return Verdict::Reject("invalid_message", "discontinuity time range overflows V1");
        },
        Some(end) => end,
    };
    if gap_end > MAX_SAFE_JSON_INTEGER {
        return Verdict::Reject("invalid_message", "discontinuity time range overflows V1");
    }
    let si_opt = segment_index(&s.data.segments, &d.segment_id);
    proof {
        if let Some(si) = si_opt {
            lemma_segment_position(*s, si as int);
            lemma_lane_position(s.create, s.data.segments@[si as int], dk as int);
            assert(s.data.segments@[si as int].lanes@[dk as int].lane_id@ == d.lane_id@);
        }
    }
    let mut past_end = false;
    if let Some(si) = si_opt {
        if let Some(cr) = &s.data.segments[si].close {
            if cr.finalized {
                return Verdict::Reject("invalid_transition", "segment is finalized");
            }
            match boundary_for(&cr.command, &d.lane_id) {
                Some(b) => {
                    proof {
                        let k = choose|k: int| 0 <= k < cr.command.lane_boundaries.len()
                            && (#[trigger] cr.command.lane_boundaries@[k]).lane_id@ == d.lane_id@
                            && cr.command.lane_boundaries@[k].next_sequence == b;
                        lemma_boundary_of(cr.command, k);
                    }
                    if d.sequence_range.end_exclusive > b || d.sequence_range.start > b {
                        return Verdict::Reject("invalid_transition", "discontinuity extends beyond the close boundary");
                    }
                },
                None => {
                    proof {
                        assert(segment_ok(s.create, s.data.segments@[si as int]));
                        assert(s.create.lanes@[dk as int].lane_id@ == d.lane_id@);
                    }
                },
            }
            past_end = gap_end > cr.command.ended_at_ms.0;
        }
    }
    if let Some(f) = &s.data.finalize {
        past_end = past_end || gap_end > f.command.ended_at_ms.0;
    }
    if past_end {
        return Verdict::Reject("invalid_transition", "discontinuity extends beyond a declared close or finalize boundary");
    }
    if !d.sequence_range.is_empty() {
        let chunk_hit = match si_opt {
            Some(si) => any_chunk_in_range(&s.data.segments[si].lanes[dk], d.sequence_range),
            None => false,
        };
        if chunk_hit || any_gap_overlaps(s, d) {
            return Verdict::Reject("sequence_conflict", "discontinuity overlaps durable audio or another discontinuity");
        }
    }
    Verdict::Accept
}

/// Records an accepted discontinuity, adds its range to the lane's durable
/// coverage, acknowledges it, and finalizes whatever that completes.
fn store_discontinuity(s: &mut Session, message: &ClientMessageV1, d: &CaptureDiscontinuityV1) -> (r: Vec<ServerMessageV1>)
    requires
        old(s).wf(),
        old(s).has_room(),
        discontinuity_ok(*d),
        discontinuity_rejection(*old(s), *d) is None,
        !discontinuity_duplicate(*old(s), *d),
    ensures
        transition_ok(*old(s), *final(s), r@),
        final(s).data.discontinuities@.drop_last() == old(s).data.discontinuities@,
        final(s).data.discontinuities@.len() == old(s).data.discontinuities@.len() + 1,
        spec_same_capture_discontinuity_v1(final(s).data.discontinuities@.last(), *d),
        lane_state(*final(s), d.segment_id@, d.lane_id@) matches Some(l) && {
            &&& forall|q: u64| #[trigger] l.coverage.has(q) <==> (lane_has(*old(s), d.segment_id@, d.lane_id@, q) || range_contains(d.sequence_range, q))
            &&& final(s).events@[old(s).events@.len() as int].body is AudioAcknowledged
            &&& forall|q: u64| #[trigger] ack_covers(final(s).events@[old(s).events@.len() as int].body->AudioAcknowledged_0, q) <==> l.coverage.has(q)
        },
        r@.len() == final(s).events@.len() - old(s).events@.len(),
        r@.len() >= 1,
        finishes_ready(*old(s), *final(s), d.segment_id@),
{
    let dk = match declared_lane_index(&s.create, &d.lane_id) {
        Some(k) => k,
        None => {
            proof {
                assert(declares_lane(*s, d.lane_id@));
            }
            return Vec::new();
        },
    };
    let si_opt = segment_index(&s.data.segments, &d.segment_id);
    proof {
        if let Some(si) = si_opt {
            lemma_segment_position(*s, si as int);
            lemma_lane_position(s.create, s.data.segments@[si as int], dk as int);
            assert(s.data.segments@[si as int].lanes@[dk as int].lane_id@ == d.lane_id@);
        }
    }
    let ghost s0 = *s;
    let si = ensure_segment(s, &d.segment_id);
    let ghost s1 = *s;
    proof {
        if let Some(i) = si_opt {
            assert(s1.data.segments@[i as int] == s0.data.segments@[i as int]);
            assert(si == i) by {
                if si != i {
                    if si < i {
                        assert(s1.data.segments@[si as int].segment_id@ != s1.data.segments@[i as int].segment_id@);
                    } else {
                        assert(s1.data.segments@[i as int].segment_id@ != s1.data.segments@[si as int].segment_id@);
                    }
                }
            }
        } else {
            assert(si as int == s0.data.segments.len());
        }
        assert(segment_ok(s1.create, s1.data.segments@[si as int]));
        assert(s1.data.segments@[si as int].lanes@[dk as int].lane_id@ == d.lane_id@);
    }
    s.data.discontinuities.push(copy_capture_discontinuity_v1(d));
    s.data.segments[si].lanes[dk].coverage.add(d.sequence_range);
    proof {
        let ds0 = s1.data.discontinuities@;
        assert(s.data.discontinuities@.drop_last() =~= ds0);
        assert forall|a: int, b: int| 0 <= a < b < s.data.discontinuities.len() implies (#[trigger] s.data.discontinuities@[a]).discontinuity_id@ != (#[trigger] s.data.discontinuities@[b]).discontinuity_id@ by {
            assert(s.data.discontinuities@[a] == ds0[a]);
            if b < ds0.len() {
                assert(s.data.discontinuities@[b] == ds0[b]);
            } else {
                assert(gap_position(s0, d.discontinuity_id@) is None);
                assert(ds0[a].discontinuity_id@ != d.discontinuity_id@);
            }
        }
        assert(segment_ok(s.create, s.data.segments@[si as int])) by {
            assert forall|k: int| 0 <= k < s.data.segments@[si as int].lanes.len() implies {
                &&& (#[trigger] s.data.segments@[si as int].lanes@[k]).lane_id@ == s.create.lanes@[k].lane_id@
                &&& s.data.segments@[si as int].lanes@[k].coverage.wf()
                &&& chunks_distinct(s.data.segments@[si as int].lanes@[k].chunks@)
            } by {
                if k != dk {
                    assert(s.data.segments@[si as int].lanes@[k] == s1.data.segments@[si as int].lanes@[k]);
                }
            }
        }
        assert forall|i: int| 0 <= i < s.data.segments.len() implies segment_ok(s.create, #[trigger] s.data.segments@[i]) by {
            if i != si {
                assert(s.data.segments@[i] == s1.data.segments@[i]);
            }
        }
        assert forall|a: int, b: int| 0 <= a < b < s.data.segments.len() implies (#[trigger] s.data.segments@[a]).segment_id@ != (#[trigger] s.data.segments@[b]).segment_id@ by {
            assert(s.data.segments@[a].segment_id == s1.data.segments@[a].segment_id);
            assert(s.data.segments@[b].segment_id == s1.data.segments@[b].segment_id);
        }
        assert(s.wf());
    }
    let ghost s2 = *s;
    let ack = s.data.segments[si].lanes[dk].coverage.acknowledgement(&d.segment_id, &d.lane_id);
    let event = append_event(s, message.sent_at_unix_ms, ServerMessageBodyV1::AudioAcknowledged(ack));
    let mut response = Vec::new();
    response.push(event);
    proof {
        lemma_single_suffix(s.events@, response@);
        assert(s.events@.take(s2.events@.len() as int) == s2.events@);
        assert(s.wf());
    }
    let ghost s3 = *s;
    proof {
        assert(s3.data.segments@[si as int].close == close_before(s0, d.segment_id@)) by {
            if let Some(i) = si_opt {
                lemma_segment_position(s0, i as int);
            }
        }
        assert(s3.data.finalize == s0.data.finalize);
    }
    finish_ready_operations(s, si, message.sent_at_unix_ms, &mut response);
    proof {
        let after = s.data.segments@[si as int];
        let seg3 = s3.data.segments@[si as int];
        assert(after.lanes == seg3.lanes);
        if let Some(c) = seg3.close {
            lemma_close_covered_lanes(seg3, after, c.command);
        }
        assert(s.events@.take(s3.events@.len() as int) == s3.events@);
        lemma_log_grows_trans(s0.events@, s3.events@, s.events@);
        lemma_segment_position(*s, si as int);
        lemma_lane_position(s.create, s.data.segments@[si as int], dk as int);
        let lane = s.data.segments@[si as int].lanes@[dk as int];
        assert(lane == s2.data.segments@[si as int].lanes@[dk as int]);
        assert(s.events@[s0.events@.len() as int] == s3.events@.last());
        assert forall|q: u64| #[trigger] lane.coverage.has(q) <==> (lane_has(s0, d.segment_id@, d.lane_id@, q) || range_contains(d.sequence_range, q)) by {
            if si_opt is Some {
                assert(lane_state(s0, d.segment_id@, d.lane_id@) == Some(s1.data.segments@[si as int].lanes@[dk as int]));
            } else {
                assert(segment_position(s0, d.segment_id@) is None);
            }
        }
    }
    response
}

/// What `discontinuity` does to the session and answers.
pub open spec fn discontinuity_effect(old: Session, new: Session, m: ClientMessageV1, x: CaptureDiscontinuityV1, r: Seq<ServerMessageV1>) -> bool {
    &&& discontinuity_rejection(old, x) matches Some(code) ==> rejected(old, new, r, m.message_id@, code)
    &&& discontinuity_duplicate(old, x) ==> ignored(old, new, r)
    &&& discontinuity_rejection(old, x) is None && !discontinuity_duplicate(old, x) ==> {
        &&& new.data.discontinuities@.drop_last() == old.data.discontinuities@
        &&& new.data.discontinuities@.len() == old.data.discontinuities@.len() + 1
        &&& spec_same_capture_discontinuity_v1(new.data.discontinuities@.last(), x)
        &&& lane_state(new, x.segment_id@, x.lane_id@) matches Some(l) && {
            &&& forall|q: u64| #[trigger] l.coverage.has(q) <==> (lane_has(old, x.segment_id@, x.lane_id@, q) || range_contains(x.sequence_range, q))
            &&& new.events@[old.events@.len() as int].body is AudioAcknowledged
            &&& forall|q: u64| #[trigger] ack_covers(new.events@[old.events@.len() as int].body->AudioAcknowledged_0, q) <==> l.coverage.has(q)
        }
        &&& finishes_ready(old, new, x.segment_id@)
        &&& r.len() == new.events@.len() - old.events@.len()
        &&& r.len() >= 1
    }
}

/// Records a capture gap as durable coverage of its sequences, acknowledges
/// the lane, and finalizes whatever the new coverage completes.
pub fn apply_discontinuity(s: &mut Session, message: &ClientMessageV1, d: &CaptureDiscontinuityV1) -> (r: Vec<ServerMessageV1>)
    requires
        old(s).wf(),
        old(s).has_room(),
        discontinuity_ok(*d),
    ensures
        transition_ok(*old(s), *final(s), r@),
        discontinuity_effect(*old(s), *final(s), *message, *d, r@),
{
    match check_discontinuity(s, d) {
        Verdict::Reject(code, explanation) => reject(s, message, code, explanation),
        Verdict::Ignore => {
            proof {
                lemma_log_grows_refl(s.events@);
            }
            Vec::new()
        },
        Verdict::Accept => store_discontinuity(s, message, d),
    }
}

// ------------------------------------------------------------------ closes

/// The finalize lists this segment with exactly this close message ID.
pub open spec fn refs_expect_close(f: FinalizeSessionV1, seg: Seq<char>, id: Seq<char>) -> bool {
    exists|i: int| 0 <= i < f.segment_closes.len() && (#[trigger] f.segment_closes@[i]).segment_id@ == seg
        && f.segment_closes@[i].close_message_id@ == id
}

/// A requested finalize does not reserve this close, or the close ends after it.
pub open spec fn close_finalize_mismatch(s: Session, id: Seq<char>, c: CloseSegmentV1) -> bool {
    s.data.finalize matches Some(f) && (!refs_expect_close(f.command, c.segment_id@, id) || c.ended_at_ms.0 > f.command.ended_at_ms.0)
}

/// Durable audio or a recorded gap of the boundary's lane lies at or beyond it.
pub open spec fn boundary_excludes(s: Session, c: CloseSegmentV1, b: int) -> bool {
    let bd = c.lane_boundaries@[b];
    ||| (lane_state(s, c.segment_id@, bd.lane_id@) matches Some(l) && exists|j: int| 0 <= j < l.chunks.len()
        && (#[trigger] l.chunks@[j]).sequence >= bd.next_sequence)
    ||| exists|g: int| 0 <= g < s.data.discontinuities.len() && (#[trigger] s.data.discontinuities@[g]).segment_id@ == c.segment_id@
        && s.data.discontinuities@[g].lane_id@ == bd.lane_id@
        && (s.data.discontinuities@[g].sequence_range.end_exclusive > bd.next_sequence
            || s.data.discontinuities@[g].sequence_range.start > bd.next_sequence)
}

pub open spec fn close_excludes_durable(s: Session, c: CloseSegmentV1) -> bool {
    exists|b: int| 0 <= b < c.lane_boundaries.len() && #[trigger] boundary_excludes(s, c, b)
}

/// A time range whose end fits in 64 bits ends after `t`.
pub open spec fn ends_after(start: u64, duration: u64, t: u64) -> bool {
    end_ms(start, duration) <= u64::MAX && end_ms(start, duration) > t
}

/// Durable audio of the segment (a stored chunk or a recorded gap) ends after `t`.
pub open spec fn segment_audio_after(s: Session, seg: Seq<char>, t: u64) -> bool {
    ||| (segment_position(s, seg) matches Some(i) && exists|k: int, j: int| 0 <= k < s.data.segments@[i].lanes.len()
        && 0 <= j < s.data.segments@[i].lanes@[k].chunks.len()
        && ends_after((#[trigger] s.data.segments@[i].lanes@[k].chunks@[j]).starts_at_ms.0, s.data.segments@[i].lanes@[k].chunks@[j].duration_ms.0, t))
    ||| exists|g: int| 0 <= g < s.data.discontinuities.len() && (#[trigger] s.data.discontinuities@[g]).segment_id@ == seg
        && ends_after(s.data.discontinuities@[g].starts_at_ms.0, s.data.discontinuities@[g].duration_ms.0, t)
}

/// The code with which a close is rejected, checked in this order; `None`
/// when it is recorded.
pub open spec fn close_rejection(s: Session, id: Seq<char>, c: CloseSegmentV1) -> Option<Seq<char>> {
    if !admissible(s, c.segment_id@) {
        Some("invalid_transition"@)
    } else if !close_lanes_match(s.create, c) {
        Some("invalid_transition"@)
    } else if close_finalize_mismatch(s, id, c) {
        Some("invalid_transition"@)
    } else if segment_close(s, c.segment_id@) is Some {
        Some("conflict"@)
    } else if close_excludes_durable(s, c) || segment_audio_after(s, c.segment_id@, c.ended_at_ms.0) {
        Some("invalid_transition"@)
    } else {
        None
    }
}

fn lanes_match(create: &CreateSessionV1, close: &CloseSegmentV1) -> (r: bool)
    ensures
        r == close_lanes_match(*create, *close),
{
    let mut k: usize = 0;
    while k < create.lanes.len()
        invariant
            k <= create.lanes.len(),
            forall|j: int| 0 <= j < k ==> #[trigger] has_boundary(*close, create.lanes@[j].lane_id@),
        decreases create.lanes.len() - k,
    {
        match boundary_for(close, &create.lanes[k].lane_id) {
            None => {
                assert(!has_boundary(*close, create.lanes@[k as int].lane_id@));
                return false;
            },
            Some(_) => {},
        }
        k = k + 1;
    }
    let mut b: usize = 0;
    while b < close.lane_boundaries.len()
        invariant
            b <= close.lane_boundaries.len(),
            forall|j: int| 0 <= j < create.lanes.len() ==> #[trigger] has_boundary(*close, create.lanes@[j].lane_id@),
            forall|j: int| 0 <= j < b ==> #[trigger] lane_declared(*create, close.lane_boundaries@[j].lane_id@),
        decreases close.lane_boundaries.len() - b,
    {
        match declared_lane_index(create, &close.lane_boundaries[b].lane_id) {
            None => {
                assert(!lane_declared(*create, close.lane_boundaries@[b as int].lane_id@));
                return false;
            },
            Some(_) => {},
        }
        b = b + 1;
    }
    true
}

fn finalize_expects_close(f: &FinalizeSessionV1, segment_id: &SegmentId, id: &MessageId) -> (r: bool)
    requires
        forall|a: int, b: int| 0 <= a < b < f.segment_closes.len() ==> (#[trigger] f.segment_closes@[a]).segment_id@ != (#[trigger] f.segment_closes@[b]).segment_id@,
    ensures
        r == refs_expect_close(*f, segment_id@, id@),
{
    let mut i: usize = 0;
    while i < f.segment_closes.len()
        invariant
            i <= f.segment_closes.len(),
            forall|a: int, b: int| 0 <= a < b < f.segment_closes.len() ==> (#[trigger] f.segment_closes@[a]).segment_id@ != (#[trigger] f.segment_closes@[b]).segment_id@,
            forall|j: int| 0 <= j < i ==> (#[trigger] f.segment_closes@[j]).segment_id@ != segment_id@,
        decreases f.segment_closes.len() - i,
    {
        if f.segment_closes[i].segment_id.0 == segment_id.0 {
            let r = f.segment_closes[i].close_message_id.0 == id.0;
            proof {
                if !r && refs_expect_close(*f, segment_id@, id@) {
                    let x = choose|x: int| 0 <= x < f.segment_closes.len() && (#[trigger] f.segment_closes@[x]).segment_id@ == segment_id@
                        && f.segment_closes@[x].close_message_id@ == id@;
                    assert(0 <= x < f.segment_closes.len());
                    if x > i as int {
                        let a = i as int;
                        assert(0 <= a < x < f.segment_closes.len());
                        assert(f.segment_closes@[a].segment_id@ != f.segment_closes@[x].segment_id@);
                    }
                }
            }
            return r;
        }
        i = i + 1;
    }
    false
}

fn chunk_at_or_above(lane: &LaneState, next: u64) -> (r: bool)
    ensures
        r == exists|j: int| 0 <= j < lane.chunks.len() && (#[trigger] lane.chunks@[j]).sequence >= next,
{
    let mut j: usize = 0;
    while j < lane.chunks.len()
        invariant
            j <= lane.chunks.len(),
            forall|x: int| 0 <= x < j ==> (#[trigger] lane.chunks@[x]).sequence < next,
        decreases lane.chunks.len() - j,
    {
        if lane.chunks[j].sequence >= next {
            return true;
        }
        j = j + 1;
    }
    false
}

fn gap_beyond(s: &Session, segment_id: &SegmentId, lane_id: &LaneId, next: u64) -> (r: bool)
    ensures
        r == exists|g: int| 0 <= g < s.data.discontinuities.len() && (#[trigger] s.data.discontinuities@[g]).segment_id@ == segment_id@
            && s.data.discontinuities@[g].lane_id@ == lane_id@
            && (s.data.discontinuities@[g].sequence_range.end_exclusive > next || s.data.discontinuities@[g].sequence_range.start > next),
{
    let ds = &s.data.discontinuities;
    let mut g: usize = 0;
    while g < ds.len()
        invariant
            g <= ds.len(),
            ds == &s.data.discontinuities,
            forall|j: int| 0 <= j < g ==> !((#[trigger] ds@[j]).segment_id@ == segment_id@ && ds@[j].lane_id@ == lane_id@
                && (ds@[j].sequence_range.end_exclusive > next || ds@[j].sequence_range.start > next)),
        decreases ds.len() - g,
    {
        let d = &ds[g];
        if d.segment_id.0 == segment_id.0 && d.lane_id.0 == lane_id.0
            && (d.sequence_range.end_exclusive > next || d.sequence_range.start > next) {
            return true;
        }
        g = g + 1;
    }
    false
}

fn ends_after_exec(start: u64, duration: u64, t: u64) -> (r: bool)
    ensures
        r == ends_after(start, duration, t),
{
    match start.checked_add(duration) {
        None => false,
        Some(end) => end > t,
    }
}

fn chunks_end_after(seg: &SegmentState, t: u64) -> (r: bool)
    ensures
        r == exists|k: int, j: int| 0 <= k < seg.lanes.len() && 0 <= j < seg.lanes@[k].chunks.len()
            && ends_after((#[trigger] seg.lanes@[k].chunks@[j]).starts_at_ms.0, seg.lanes@[k].chunks@[j].duration_ms.0, t),
{
    let mut k: usize = 0;
    while k < seg.lanes.len()
        invariant
            k <= seg.lanes.len(),
            forall|x: int, j: int| 0 <= x < k && 0 <= j < seg.lanes@[x].chunks.len()
                ==> !ends_after((#[trigger] seg.lanes@[x].chunks@[j]).starts_at_ms.0, seg.lanes@[x].chunks@[j].duration_ms.0, t),
        decreases seg.lanes.len() - k,
    {
        let chunks = &seg.lanes[k].chunks;
        let mut j: usize = 0;
        while j < chunks.len()
            invariant
                k < seg.lanes.len(),
                chunks == &seg.lanes@[k as int].chunks,
                j <= chunks.len(),
                forall|x: int, y: int| 0 <= x < k && 0 <= y < seg.lanes@[x].chunks.len()
                    ==> !ends_after((#[trigger] seg.lanes@[x].chunks@[y]).starts_at_ms.0, seg.lanes@[x].chunks@[y].duration_ms.0, t),
                forall|y: int| 0 <= y < j ==> !ends_after((#[trigger] chunks@[y]).starts_at_ms.0, chunks@[y].duration_ms.0, t),
            decreases chunks.len() - j,
        {
            if ends_after_exec(chunks[j].starts_at_ms.0, chunks[j].duration_ms.0, t) {
                return true;
            }
            j = j + 1;
        }
        k = k + 1;
    }
    false
}

fn gaps_end_after(s: &Session, segment_id: Option<&SegmentId>, t: u64) -> (r: bool)
    ensures
        r == exists|g: int| 0 <= g < s.data.discontinuities.len()
            && (segment_id matches Some(seg) ==> (#[trigger] s.data.discontinuities@[g]).segment_id@ == seg@)
            && ends_after(s.data.discontinuities@[g].starts_at_ms.0, s.data.discontinuities@[g].duration_ms.0, t),
{
    let ds = &s.data.discontinuities;
    let mut g: usize = 0;
    while g < ds.len()
        invariant
            g <= ds.len(),
            ds == &s.data.discontinuities,
            forall|j: int| 0 <= j < g ==> !((segment_id matches Some(seg) ==> (#[trigger] ds@[j]).segment_id@ == seg@)
                && ends_after(ds@[j].starts_at_ms.0, ds@[j].duration_ms.0, t)),
        decreases ds.len() - g,
    {
        let matches_segment = match segment_id {
            None => true,
            Some(seg) => ds[g].segment_id.0 == seg.0,
        };
        if matches_segment && ends_after_exec(ds[g].starts_at_ms.0, ds[g].duration_ms.0, t) {
            return true;
        }
        g = g + 1;
    }
    false
}

proof fn lemma_close_covered_lanes(a: SegmentState, b: SegmentState, c: CloseSegmentV1)
    requires
        a.lanes == b.lanes,
    ensures
        close_covered(a, c) == close_covered(b, c),
{
    assert forall|x: int| #![trigger boundary_covered(a, c, x)] #![trigger boundary_covered(b, c, x)] boundary_covered(a, c, x) == boundary_covered(b, c, x) by {}
}

/// Decides whether a close is recorded.
fn check_close(s: &Session, id: &MessageId, close: &CloseSegmentV1) -> (r: Verdict)
    requires
        s.wf(),
    ensures
        r matches Verdict::Reject(code, _) ==> close_rejection(*s, id@, *close) == Some(code@),
        r is Ignore ==> false,
        r is Accept ==> close_rejection(*s, id@, *close) is None,
{
    proof {
        reveal_strlit("invalid_transition");
    }
    if !segment_is_admissible(s, &close.segment_id) {
        return Verdict::Reject("invalid_transition", "close is not one of the exact operations declared by finalize_session");
    }
    if !lanes_match(&s.create, close) {
        return Verdict::Reject("invalid_transition", "close must declare exactly every session lane");
    }
    if let Some(f) = &s.data.finalize {
        if !finalize_expects_close(&f.command, &close.segment_id, id) {
            return Verdict::Reject("invalid_transition", "close message ID does not match finalize_session");
        }
        if close.ended_at_ms.0 > f.command.ended_at_ms.0 {
            return Verdict::Reject("invalid_transition", "segment ended_at_ms exceeds the session finalize boundary");
        }
    }
    let si_opt = segment_index(&s.data.segments, &close.segment_id);
    proof {
        if let Some(si) = si_opt {
            lemma_segment_position(*s, si as int);
        }
    }
    if let Some(si) = si_opt {
        if s.data.segments[si].close.is_some() {
            return Verdict::Reject("conflict", "segment already has a different close operation");
        }
    }
    let mut b: usize = 0;
    while b < close.lane_boundaries.len()
        invariant
            s.wf(),
            b <= close.lane_boundaries.len(),
            si_opt matches Some(si) ==> si < s.data.segments.len() && segment_position(*s, close.segment_id@) == Some(si as int),
            si_opt is None ==> segment_position(*s, close.segment_id@) is None,
            admissible(*s, close.segment_id@),
            close_lanes_match(s.create, *close),
            !close_finalize_mismatch(*s, id@, *close),
            segment_close(*s, close.segment_id@) is None,
            forall|j: int| 0 <= j < b ==> !#[trigger] boundary_excludes(*s, *close, j),
        decreases close.lane_boundaries.len() - b,
    {
        let boundary = &close.lane_boundaries[b];
        let mut chunk_hit = false;
        if let Some(si) = si_opt {
            match lane_state_index(&s.data.segments[si].lanes, &boundary.lane_id) {
                Some(li) => {
                    proof {
                        assert(segment_ok(s.create, s.data.segments@[si as int]));
                        lemma_lane_position(s.create, s.data.segments@[si as int], li as int);
                    }
                    chunk_hit = chunk_at_or_above(&s.data.segments[si].lanes[li], boundary.next_sequence);
                    assert(lane_state(*s, close.segment_id@, boundary.lane_id@) == Some(s.data.segments@[si as int].lanes@[li as int]));
                    assert(chunk_hit ==> boundary_excludes(*s, *close, b as int));
                },
                None => {},
            }
        }
        if chunk_hit || gap_beyond(s, &close.segment_id, &boundary.lane_id, boundary.next_sequence) {
            assert(boundary_excludes(*s, *close, b as int));
            assert(close_excludes_durable(*s, *close));
            return Verdict::Reject("invalid_transition", "close boundary excludes already durable audio");
        }
        assert(!boundary_excludes(*s, *close, b as int));
        b = b + 1;
    }
    assert(!close_excludes_durable(*s, *close));
    let chunk_late = match si_opt {
        Some(si) => chunks_end_after(&s.data.segments[si], close.ended_at_ms.0),
        None => false,
    };
    if chunk_late || gaps_end_after(s, Some(&close.segment_id), close.ended_at_ms.0) {
        return Verdict::Reject("invalid_transition", "segment ended_at_ms precedes durable audio");
    }
    Verdict::Accept
}

/// Records an accepted close and finalizes the segment (and the session)
/// when their coverage is already complete.
fn store_close(s: &mut Session, message: &ClientMessageV1, close: &CloseSegmentV1) -> (r: Vec<ServerMessageV1>)
    requires
        old(s).wf(),
        old(s).has_room(),
        close_segment_ok(*close),
        close_rejection(*old(s), message.message_id@, *close) is None,
    ensures
        transition_ok(*old(s), *final(s), r@),
        r@.len() == final(s).events@.len() - old(s).events@.len(),
        segment_position(*final(s), close.segment_id@) matches Some(i) && (final(s).data.segments@[i].close matches Some(cr) && {
            &&& cr.message_id@ == message.message_id@
            &&& spec_same_close_segment_v1(cr.command, *close)
            &&& cr.finalized == close_covered(final(s).data.segments@[i], cr.command)
            &&& cr.finalized ==> (final(s).events@[old(s).events@.len() as int].body matches ServerMessageBodyV1::SegmentFinalized(e)
                && e.segment_id@ == close.segment_id@ && e.close_message_id@ == message.message_id@)
            &&& final(s).events@.len() == old(s).events@.len() + (if cr.finalized { 1int } else { 0 })
                + (if session_finalized_now(*old(s), *final(s)) { 1int } else { 0 })
        }),
        session_finalized_now(*old(s), *final(s)) ==> (old(s).data.finalize matches Some(f)
            && final(s).events@.last().body matches ServerMessageBodyV1::SessionFinalized(e)
            && e.finalize_message_id@ == f.message_id@
            && spec_same_seq_segment_close_reference_v1(e.segment_closes@, f.command.segment_closes@)),
        old(s).data.finalize is None ==> final(s).data.finalize is None,
        old(s).data.finalize matches Some(f) ==> final(s).data.finalize == Some(FinalizeRecord {
            finalized: f.finalized || finalize_ready(*final(s), f),
            ..f
        }),
{
    let ghost s0 = *s;
    let si = ensure_segment(s, &close.segment_id);
    proof {
        lemma_segment_position(*s, si as int);
        if si < s0.data.segments.len() {
            lemma_segment_position(s0, si as int);
            assert(s.data.segments@[si as int] == s0.data.segments@[si as int]);
        }
        assert(s.data.segments@[si as int].close is None);
    }
    let ghost s1 = *s;
    let record = CloseRecord {
        message_id: MessageId(message.message_id.0.clone()),
        command: copy_close_segment_v1(close),
        finalized: false,
    };
    proof {
        let c2 = record.command;
        assert(close_lanes_match(s.create, c2)) by {
            assert forall|k: int| 0 <= k < s.create.lanes.len() implies #[trigger] has_boundary(c2, s.create.lanes@[k].lane_id@) by {
                assert(has_boundary(*close, s.create.lanes@[k].lane_id@));
                let b = choose|b: int| 0 <= b < close.lane_boundaries.len() && (#[trigger] close.lane_boundaries@[b]).lane_id@ == s.create.lanes@[k].lane_id@;
                assert(spec_same_lane_boundary_v1(c2.lane_boundaries@[b], close.lane_boundaries@[b]));
            }
            assert forall|b: int| 0 <= b < c2.lane_boundaries.len() implies #[trigger] lane_declared(s.create, c2.lane_boundaries@[b].lane_id@) by {
                assert(spec_same_lane_boundary_v1(c2.lane_boundaries@[b], close.lane_boundaries@[b]));
                assert(lane_declared(s.create, close.lane_boundaries@[b].lane_id@));
            }
        }
        assert(boundaries_distinct(c2.lane_boundaries@)) by {
            assert forall|a: int, b: int| 0 <= a < b < c2.lane_boundaries.len() implies (#[trigger] c2.lane_boundaries@[a]).lane_id@ != (#[trigger] c2.lane_boundaries@[b]).lane_id@ by {
                assert(spec_same_lane_boundary_v1(c2.lane_boundaries@[a], close.lane_boundaries@[a]));
                assert(spec_same_lane_boundary_v1(c2.lane_boundaries@[b], close.lane_boundaries@[b]));
                assert(boundary_texts(close.lane_boundaries@)[a] != boundary_texts(close.lane_boundaries@)[b]);
            }
        }
    }
    s.data.segments[si].close = Some(record);
    proof {
        assert forall|i: int| 0 <= i < s.data.segments.len() implies segment_ok(s.create, #[trigger] s.data.segments@[i]) by {
            if i != si {
                assert(s.data.segments@[i] == s1.data.segments@[i]);
            } else {
                assert(s.data.segments@[i].lanes == s1.data.segments@[i].lanes);
            }
        }
        assert forall|a: int, b: int| 0 <= a < b < s.data.segments.len() implies (#[trigger] s.data.segments@[a]).segment_id@ != (#[trigger] s.data.segments@[b]).segment_id@ by {
            assert(s.data.segments@[a].segment_id == s1.data.segments@[a].segment_id);
            assert(s.data.segments@[b].segment_id == s1.data.segments@[b].segment_id);
        }
        assert(s.wf());
    }
    let ghost s2 = *s;
    let mut response = Vec::new();
    proof {
        assert(is_log_suffix(s.events@, response@));
    }
    finish_ready_operations(s, si, message.sent_at_unix_ms, &mut response);
    proof {
        lemma_log_grows_refl(s0.events@);
        assert(s2.events == s0.events);
        lemma_log_grows_trans(s0.events@, s2.events@, s.events@);
        lemma_segment_position(*s, si as int);
        lemma_close_covered_lanes(s2.data.segments@[si as int], s.data.segments@[si as int], record.command);
        assert(s2.data.finalize == s0.data.finalize);
        assert(s2.events == s0.events);
    }
    response
}

/// What `close` does to the session and answers.
pub open spec fn close_effect(old: Session, new: Session, m: ClientMessageV1, x: CloseSegmentV1, r: Seq<ServerMessageV1>) -> bool {
    &&& close_rejection(old, m.message_id@, x) matches Some(code) ==> rejected(old, new, r, m.message_id@, code)
    &&& close_rejection(old, m.message_id@, x) is None ==> {
        &&& r.len() == new.events@.len() - old.events@.len()
        &&& segment_position(new, x.segment_id@) matches Some(i) && (new.data.segments@[i].close matches Some(cr) && {
            &&& cr.message_id@ == m.message_id@
            &&& spec_same_close_segment_v1(cr.command, x)
            &&& cr.finalized == close_covered(new.data.segments@[i], cr.command)
            &&& cr.finalized ==> (new.events@[old.events@.len() as int].body matches ServerMessageBodyV1::SegmentFinalized(e)
                && e.segment_id@ == x.segment_id@ && e.close_message_id@ == m.message_id@)
            &&& new.events@.len() == old.events@.len() + (if cr.finalized { 1int } else { 0 })
                + (if session_finalized_now(old, new) { 1int } else { 0 })
        })
        &&& session_finalized_now(old, new) ==> (old.data.finalize matches Some(f)
            && new.events@.last().body matches ServerMessageBodyV1::SessionFinalized(e)
            && e.finalize_message_id@ == f.message_id@
            && spec_same_seq_segment_close_reference_v1(e.segment_closes@, f.command.segment_closes@))
        &&& old.data.finalize is None ==> new.data.finalize is None
        &&& old.data.finalize matches Some(f) ==> new.data.finalize == Some(FinalizeRecord {
            finalized: f.finalized || finalize_ready(new, f),
            ..f
        })
    }
}

/// Records a segment close: it names every declared lane once, fits the
/// finalize already requested, and excludes no durable audio.
pub fn apply_close(s: &mut Session, message: &ClientMessageV1, close: &CloseSegmentV1) -> (r: Vec<ServerMessageV1>)
    requires
        old(s).wf(),
        old(s).has_room(),
        close_segment_ok(*close),
    ensures
        transition_ok(*old(s), *final(s), r@),
        close_effect(*old(s), *final(s), *message, *close, r@),
{
    match check_close(s, &message.message_id, close) {
        Verdict::Reject(code, explanation) => reject(s, message, code, explanation),
        Verdict::Ignore => Vec::new(),
        Verdict::Accept => store_close(s, message, close),
    }
}

// --------------------------------------------------------------- finalize

/// The finalize lists the segment.
pub open spec fn names_segment(f: FinalizeSessionV1, seg: Seq<char>) -> bool {
    exists|i: int| 0 <= i < f.segment_closes.len() && (#[trigger] f.segment_closes@[i]).segment_id@ == seg
}

/// A command was handled under this message ID.
pub open spec fn command_recorded(s: Session, id: Seq<char>) -> bool {
    exists|i: int| 0 <= i < s.data.commands.len() && (#[trigger] s.data.commands@[i]).message.message_id@ == id
}

/// The referenced segment was closed by exactly the referenced close.
pub open spec fn exact_close_exists(s: Session, r: SegmentCloseReferenceV1) -> bool {
    segment_close(s, r.segment_id@) matches Some(c) && c.message_id@ == r.close_message_id@
}

/// Durable audio of any segment (a stored chunk or a recorded gap) ends after `t`.
pub open spec fn audio_after(s: Session, t: u64) -> bool {
    ||| exists|i: int, k: int, j: int| 0 <= i < s.data.segments.len() && 0 <= k < s.data.segments@[i].lanes.len()
        && 0 <= j < s.data.segments@[i].lanes@[k].chunks.len()
        && ends_after((#[trigger] s.data.segments@[i].lanes@[k].chunks@[j]).starts_at_ms.0, s.data.segments@[i].lanes@[k].chunks@[j].duration_ms.0, t)
    ||| exists|g: int| 0 <= g < s.data.discontinuities.len()
        && ends_after((#[trigger] s.data.discontinuities@[g]).starts_at_ms.0, s.data.discontinuities@[g].duration_ms.0, t)
}

/// The finalize cannot be accepted as it stands: it omits an existing
/// segment, reserves its own message ID or an ID already spent on another
/// command, names a close other than the one recorded, ends before a
/// recorded close, or ends before durable audio.
pub open spec fn finalize_blocked(s: Session, id: Seq<char>, f: FinalizeSessionV1) -> bool {
    ||| exists|i: int| 0 <= i < s.data.segments.len() && !names_segment(f, (#[trigger] s.data.segments@[i]).segment_id@)
    ||| exists|r: int| 0 <= r < f.segment_closes.len() && (#[trigger] f.segment_closes@[r]).close_message_id@ == id
    ||| exists|r: int| 0 <= r < f.segment_closes.len() && command_recorded(s, (#[trigger] f.segment_closes@[r]).close_message_id@)
        && !exact_close_exists(s, f.segment_closes@[r])
    ||| exists|i: int| 0 <= i < s.data.segments.len() && ((#[trigger] s.data.segments@[i]).close matches Some(c)
        && (!refs_expect_close(f, s.data.segments@[i].segment_id@, c.message_id@) || c.command.ended_at_ms.0 > f.ended_at_ms.0))
    ||| audio_after(s, f.ended_at_ms.0)
}

/// The code with which a finalize is rejected; `None` when it is recorded.
pub open spec fn finalize_rejection(s: Session, id: Seq<char>, f: FinalizeSessionV1) -> Option<Seq<char>> {
    if s.data.finalize is Some {
        Some("conflict"@)
    } else if finalize_blocked(s, id, f) {
        Some("invalid_transition"@)
    } else {
        None
    }
}

fn names_segment_exec(f: &FinalizeSessionV1, segment_id: &SegmentId) -> (r: bool)
    ensures
        r == names_segment(*f, segment_id@),
{
    let mut i: usize = 0;
    while i < f.segment_closes.len()
        invariant
            i <= f.segment_closes.len(),
            forall|j: int| 0 <= j < i ==> (#[trigger] f.segment_closes@[j]).segment_id@ != segment_id@,
        decreases f.segment_closes.len() - i,
    {
        if f.segment_closes[i].segment_id.0 == segment_id.0 {
            return true;
        }
        i = i + 1;
    }
    false
}

fn command_recorded_exec(s: &Session, id: &MessageId) -> (r: bool)
    ensures
        r == command_recorded(*s, id@),
{
    let commands = &s.data.commands;
    let mut i: usize = 0;
    while i < commands.len()
        invariant
            i <= commands.len(),
            commands == &s.data.commands,
            forall|j: int| 0 <= j < i ==> (#[trigger] commands@[j]).message.message_id@ != id@,
        decreases commands.len() - i,
    {
        if commands[i].message.message_id.0 == id.0 {
            return true;
        }
        i = i + 1;
    }
    false
}

fn exact_close_exists_exec(s: &Session, r: &SegmentCloseReferenceV1) -> (b: bool)
    requires
        s.wf(),
    ensures
        b == exact_close_exists(*s, *r),
{
    match segment_index(&s.data.segments, &r.segment_id) {
        None => false,
        Some(si) => {
            proof {
                lemma_segment_position(*s, si as int);
            }
            match &s.data.segments[si].close {
                None => false,
                Some(c) => c.message_id.0 == r.close_message_id.0,
            }
        },
    }
}

/// Decides whether a finalize is recorded.
fn check_finalize(s: &Session, id: &MessageId, f: &FinalizeSessionV1) -> (r: Verdict)
    requires
        s.wf(),
        finalize_ok(*f),
    ensures
        r matches Verdict::Reject(code, _) ==> finalize_rejection(*s, id@, *f) == Some(code@),
        r is Ignore ==> false,
        r is Accept ==> finalize_rejection(*s, id@, *f) is None,
{
    proof {
        reveal_strlit("invalid_transition");
        assert forall|a: int, b: int| 0 <= a < b < f.segment_closes.len() implies (#[trigger] f.segment_closes@[a]).segment_id@ != (#[trigger] f.segment_closes@[b]).segment_id@ by {
            let t = f.segment_closes@.map_values(|r: SegmentCloseReferenceV1| r.segment_id@);
            assert(t[a] != t[b]);
        }
    }
    if s.data.finalize.is_some() {
        return Verdict::Reject("conflict", "session already has a different finalize operation");
    }
    let segments = &s.data.segments;
    let mut i: usize = 0;
    while i < segments.len()
        invariant
            i <= segments.len(),
            segments == &s.data.segments,
            s.data.finalize is None,
            forall|j: int| 0 <= j < i ==> names_segment(*f, (#[trigger] segments@[j]).segment_id@),
        decreases segments.len() - i,
    {
        if !names_segment_exec(f, &segments[i].segment_id) {
            assert(finalize_blocked(*s, id@, *f));
            return Verdict::Reject("invalid_transition", "finalize_session omitted an existing segment");
        }
        i = i + 1;
    }
    let refs = &f.segment_closes;
    let mut k: usize = 0;
    while k < refs.len()
        invariant
            s.wf(),
            s.data.finalize is None,
            k <= refs.len(),
            refs == &f.segment_closes,
            forall|j: int| 0 <= j < k ==> (#[trigger] refs@[j]).close_message_id@ != id@,
            forall|j: int| 0 <= j < k ==> !(command_recorded(*s, (#[trigger] refs@[j]).close_message_id@) && !exact_close_exists(*s, refs@[j])),
        decreases refs.len() - k,
    {
        if refs[k].close_message_id.0 == id.0 {
            assert(finalize_blocked(*s, id@, *f));
            return Verdict::Reject("invalid_transition", "finalize_session cannot reserve its own message ID for a close");
        }
        if command_recorded_exec(s, &refs[k].close_message_id) && !exact_close_exists_exec(s, &refs[k]) {
            assert(finalize_blocked(*s, id@, *f));
            return Verdict::Reject("invalid_transition", "a referenced close message ID was already used by another command");
        }
        k = k + 1;
    }
    let mut i: usize = 0;
    while i < segments.len()
        invariant
            i <= segments.len(),
            segments == &s.data.segments,
            s.data.finalize is None,
            forall|a: int, b: int| 0 <= a < b < f.segment_closes.len() ==> (#[trigger] f.segment_closes@[a]).segment_id@ != (#[trigger] f.segment_closes@[b]).segment_id@,
            forall|j: int| 0 <= j < i ==> !((#[trigger] segments@[j]).close matches Some(c)
                && (!refs_expect_close(*f, segments@[j].segment_id@, c.message_id@) || c.command.ended_at_ms.0 > f.ended_at_ms.0)),
        decreases segments.len() - i,
    {
        if let Some(c) = &segments[i].close {
            if !finalize_expects_close(f, &segments[i].segment_id, &c.message_id) {
                assert(finalize_blocked(*s, id@, *f));
                return Verdict::Reject("invalid_transition", "finalize_session does not name the exact close operation");
            }
            if c.command.ended_at_ms.0 > f.ended_at_ms.0 {
                assert(finalize_blocked(*s, id@, *f));
                return Verdict::Reject("invalid_transition", "session ended_at_ms precedes a segment close");
            }
        }
        i = i + 1;
    }
    let t = f.ended_at_ms.0;
    let mut i: usize = 0;
    while i < segments.len()
        invariant
            i <= segments.len(),
            segments == &s.data.segments,
            s.data.finalize is None,
            t == f.ended_at_ms.0,
            forall|x: int, k: int, j: int| 0 <= x < i && 0 <= k < segments@[x].lanes.len() && 0 <= j < segments@[x].lanes@[k].chunks.len()
                ==> !ends_after((#[trigger] segments@[x].lanes@[k].chunks@[j]).starts_at_ms.0, segments@[x].lanes@[k].chunks@[j].duration_ms.0, t),
        decreases segments.len() - i,
    {
        if chunks_end_after(&segments[i], t) {
            assert(audio_after(*s, t));
            return Verdict::Reject("invalid_transition", "session ended_at_ms precedes durable audio");
        }
        i = i + 1;
    }
    if gaps_end_after(s, None, t) {
        proof {
            let g = choose|g: int| 0 <= g < s.data.discontinuities.len()
                && (None::<&SegmentId> matches Some(seg) ==> (#[trigger] s.data.discontinuities@[g]).segment_id@ == seg@)
                && ends_after(s.data.discontinuities@[g].starts_at_ms.0, s.data.discontinuities@[g].duration_ms.0, t);
            assert(ends_after(s.data.discontinuities@[g].starts_at_ms.0, s.data.discontinuities@[g].duration_ms.0, t));
            assert(audio_after(*s, t));
        }
        return Verdict::Reject("invalid_transition", "session ended_at_ms precedes durable audio");
    }
    Verdict::Accept
}

/// Records an accepted finalize and completes it at once when every segment
/// it names is already finalized under its exact close.
fn store_finalize(s: &mut Session, message: &ClientMessageV1, f: &FinalizeSessionV1) -> (r: Vec<ServerMessageV1>)
    requires
        old(s).wf(),
        old(s).has_room(),
        finalize_ok(*f),
        finalize_rejection(*old(s), message.message_id@, *f) is None,
    ensures
        transition_ok(*old(s), *final(s), r@),
        r@.len() == final(s).events@.len() - old(s).events@.len(),
        final(s).data == (SessionData { finalize: final(s).data.finalize, ..old(s).data }),
        final(s).data.finalize matches Some(fr) && {
            &&& fr.message_id@ == message.message_id@
            &&& spec_same_finalize_session_v1(fr.command, *f)
            &&& fr.finalized == finalize_ready(*final(s), fr)
            &&& fr.finalized ==> (final(s).events@.last().body matches ServerMessageBodyV1::SessionFinalized(e)
                && e.finalize_message_id@ == message.message_id@
                && spec_same_seq_segment_close_reference_v1(e.segment_closes@, fr.command.segment_closes@))
            &&& final(s).events@.len() == old(s).events@.len() + (if fr.finalized { 1int } else { 0 })
        },
{
    let record = FinalizeRecord {
        message_id: MessageId(message.message_id.0.clone()),
        command: copy_finalize_session_v1(f),
        finalized: false,
    };
    proof {
        let refs = record.command.segment_closes@;
        assert forall|a: int, b: int| 0 <= a < b < refs.len() implies (#[trigger] refs[a]).segment_id@ != (#[trigger] refs[b]).segment_id@ by {
            let t = f.segment_closes@.map_values(|r: SegmentCloseReferenceV1| r.segment_id@);
            assert(t[a] != t[b]);
            assert(spec_same_segment_close_reference_v1(refs[a], f.segment_closes@[a]));
            assert(spec_same_segment_close_reference_v1(refs[b], f.segment_closes@[b]));
        }
    }
    let ghost s0 = *s;
    s.data.finalize = Some(record);
    let ghost s1 = *s;
    let mut response = Vec::new();
    proof {
        assert(s.wf());
        assert(is_log_suffix(s.events@, response@));
    }
    maybe_finalize_session(s, message.sent_at_unix_ms, &mut response);
    proof {
        lemma_finalize_ready_segments(s1, *s, record);
        lemma_finalize_ready_command(*s, record, s.data.finalize->0);
    }
    response
}

/// What `finalize` does to the session and answers.
pub open spec fn finalize_effect(old: Session, new: Session, m: ClientMessageV1, x: FinalizeSessionV1, r: Seq<ServerMessageV1>) -> bool {
    &&& finalize_rejection(old, m.message_id@, x) matches Some(code) ==> rejected(old, new, r, m.message_id@, code)
    &&& finalize_rejection(old, m.message_id@, x) is None ==> {
        &&& r.len() == new.events@.len() - old.events@.len()
        &&& new.data == (SessionData { finalize: new.data.finalize, ..old.data })
        &&& new.data.finalize matches Some(fr) && {
            &&& fr.message_id@ == m.message_id@
            &&& spec_same_finalize_session_v1(fr.command, x)
            &&& fr.finalized == finalize_ready(new, fr)
            &&& fr.finalized ==> (new.events@.last().body matches ServerMessageBodyV1::SessionFinalized(e)
                && e.finalize_message_id@ == m.message_id@
                && spec_same_seq_segment_close_reference_v1(e.segment_closes@, fr.command.segment_closes@))
            &&& new.events@.len() == old.events@.len() + (if fr.finalized { 1int } else { 0 })
        }
    }
}

/// Records a finalize: no finalize exists yet, and the request names every
/// segment, reserves its closes consistently and ends after all durable audio.
pub fn apply_finalize(s: &mut Session, message: &ClientMessageV1, f: &FinalizeSessionV1) -> (r: Vec<ServerMessageV1>)
    requires
        old(s).wf(),
        old(s).has_room(),
        finalize_ok(*f),
    ensures
        transition_ok(*old(s), *final(s), r@),
        finalize_effect(*old(s), *final(s), *message, *f, r@),
{
    match check_finalize(s, &message.message_id, f) {
        Verdict::Reject(code, explanation) => reject(s, message, code, explanation),
        Verdict::Ignore => Vec::new(),
        Verdict::Accept => store_finalize(s, message, f),
    }
}

// ---------------------------------------------------------------- dispatch

/// What a command does to a session and how it is answered, by kind.
pub open spec fn command_effect(old: Session, new: Session, m: ClientMessageV1, r: Seq<ServerMessageV1>) -> bool {
    match m.body {
        ClientMessageBodyV1::CreateSession(_) => rejected(old, new, r, m.message_id@, "conflict"@),
        ClientMessageBodyV1::ResumeSession(x) => resume_effect(old, new, m, x, r),
        ClientMessageBodyV1::AppendProvenanceHop(x) => append_hop_effect(old, new, m, x, r),
        ClientMessageBodyV1::AudioChunk(x) => chunk_effect(old, new, m, x, r),
        ClientMessageBodyV1::CaptureDiscontinuity(x) => discontinuity_effect(old, new, m, x, r),
        ClientMessageBodyV1::CaptureHealth(x) => health_effect(old, new, m, x, r),
        ClientMessageBodyV1::CloseSegment(x) => close_effect(old, new, m, x, r),
        ClientMessageBodyV1::FinalizeSession(x) => finalize_effect(old, new, m, x, r),
    }
}

/// Applies a valid command to an existing session. A second create for the
/// session is a conflict.
pub fn apply_command(s: &mut Session, message: &ClientMessageV1) -> (r: Vec<ServerMessageV1>)
    requires
        old(s).wf(),
        old(s).has_room(),
        client_message_ok(*message),
    ensures
        transition_ok(*old(s), *final(s), r@),
        command_effect(*old(s), *final(s), *message, r@),
{
    match &message.body {
        ClientMessageBodyV1::CreateSession(_) => reject(s, message, "conflict", "session_id or create idempotency key was already used"),
        ClientMessageBodyV1::ResumeSession(x) => apply_resume(s, message, x),
        ClientMessageBodyV1::AppendProvenanceHop(x) => apply_append_hop(s, message, x),
        ClientMessageBodyV1::AudioChunk(x) => apply_chunk(s, message, x),
        ClientMessageBodyV1::CaptureDiscontinuity(x) => apply_discontinuity(s, message, x),
        ClientMessageBodyV1::CaptureHealth(x) => apply_health(s, message, x),
        ClientMessageBodyV1::CloseSegment(x) => apply_close(s, message, x),
        ClientMessageBodyV1::FinalizeSession(x) => apply_finalize(s, message, x),
    }
}

/// A close that ends before durable audio of its segment (a stored chunk or
/// a recorded gap whose end fits in 64 bits) is refused: the session's data
/// stays as it was, and the one answer is a `command_rejected` for the
/// close, `invalid_transition` unless the segment was already closed, in
/// which case it is `conflict`.
pub proof fn law_close_before_durable_audio_is_refused(
    old: Session,
    new: Session,
    m: ClientMessageV1,
    x: CloseSegmentV1,
    r: Seq<ServerMessageV1>,
)
    requires
        old.wf(),
        close_effect(old, new, m, x, r),
        (exists|i: int, k: int, j: int| 0 <= i < old.data.segments.len() && old.data.segments@[i].segment_id@ == x.segment_id@
            && 0 <= k < old.data.segments@[i].lanes.len() && 0 <= j < old.data.segments@[i].lanes@[k].chunks.len()
            && (#[trigger] old.data.segments@[i].lanes@[k].chunks@[j]).starts_at_ms.0 + old.data.segments@[i].lanes@[k].chunks@[j].duration_ms.0 <= u64::MAX
            && old.data.segments@[i].lanes@[k].chunks@[j].starts_at_ms.0 + old.data.segments@[i].lanes@[k].chunks@[j].duration_ms.0 > x.ended_at_ms.0)
        || (exists|g: int| 0 <= g < old.data.discontinuities.len() && (#[trigger] old.data.discontinuities@[g]).segment_id@ == x.segment_id@
            && old.data.discontinuities@[g].starts_at_ms.0 + old.data.discontinuities@[g].duration_ms.0 <= u64::MAX
            && old.data.discontinuities@[g].starts_at_ms.0 + old.data.discontinuities@[g].duration_ms.0 > x.ended_at_ms.0),
    ensures
        new.data == old.data,
        new.events@.len() == old.events@.len() + 1,
        r.len() == 1,
        is_rejection(new.events@.last(), m.message_id@, "invalid_transition"@) || (is_rejection(new.events@.last(), m.message_id@, "conflict"@)
            && exists|i: int| 0 <= i < old.data.segments.len() && (#[trigger] old.data.segments@[i]).segment_id@ == x.segment_id@
                && old.data.segments@[i].close is Some),
{
    let seg = x.segment_id@;
    let t = x.ended_at_ms.0;
    if exists|i: int, k: int, j: int| 0 <= i < old.data.segments.len() && old.data.segments@[i].segment_id@ == seg
        && 0 <= k < old.data.segments@[i].lanes.len() && 0 <= j < old.data.segments@[i].lanes@[k].chunks.len()
        && (#[trigger] old.data.segments@[i].lanes@[k].chunks@[j]).starts_at_ms.0 + old.data.segments@[i].lanes@[k].chunks@[j].duration_ms.0 <= u64::MAX
        && old.data.segments@[i].lanes@[k].chunks@[j].starts_at_ms.0 + old.data.segments@[i].lanes@[k].chunks@[j].duration_ms.0 > t {
        let (i, k, j) = choose|i: int, k: int, j: int| 0 <= i < old.data.segments.len() && old.data.segments@[i].segment_id@ == seg
            && 0 <= k < old.data.segments@[i].lanes.len() && 0 <= j < old.data.segments@[i].lanes@[k].chunks.len()
            && (#[trigger] old.data.segments@[i].lanes@[k].chunks@[j]).starts_at_ms.0 + old.data.segments@[i].lanes@[k].chunks@[j].duration_ms.0 <= u64::MAX
            && old.data.segments@[i].lanes@[k].chunks@[j].starts_at_ms.0 + old.data.segments@[i].lanes@[k].chunks@[j].duration_ms.0 > t;
        assert(old.data.segments@[i].segment_id@ == seg);
        let p = segment_position(old, seg)->0;
        assert(segment_position(old, seg) is Some);
        if p != i {
            if p < i {
                assert(old.data.segments@[p].segment_id@ != old.data.segments@[i].segment_id@);
            } else {
                assert(old.data.segments@[i].segment_id@ != old.data.segments@[p].segment_id@);
            }
        }
        let c = old.data.segments@[i].lanes@[k].chunks@[j];
        assert(ends_after(c.starts_at_ms.0, c.duration_ms.0, t));
        assert(segment_audio_after(old, seg, t));
    } else {
        let g = choose|g: int| 0 <= g < old.data.discontinuities.len() && (#[trigger] old.data.discontinuities@[g]).segment_id@ == seg
            && old.data.discontinuities@[g].starts_at_ms.0 + old.data.discontinuities@[g].duration_ms.0 <= u64::MAX
            && old.data.discontinuities@[g].starts_at_ms.0 + old.data.discontinuities@[g].duration_ms.0 > t;
        let d = old.data.discontinuities@[g];
        assert(ends_after(d.starts_at_ms.0, d.duration_ms.0, t));
        assert(segment_audio_after(old, seg, t));
    }
    assert(close_rejection(old, m.message_id@, x) is Some);
    if segment_close(old, seg) is Some && admissible(old, seg) && close_lanes_match(old.create, x)
        && !close_finalize_mismatch(old, m.message_id@, x) {
        let p = segment_position(old, seg)->0;
        assert(old.data.segments@[p].segment_id@ == seg);
        assert(old.data.segments@[p].close is Some);
    }
}

} // verus!
