//! Field-wise copies of session state that keep it well formed.
use crate::protocol::types::{
    copy_append_provenance_hop_v1, copy_audio_chunk_v1, copy_capture_discontinuity_v1,
    copy_client_message_v1, copy_close_segment_v1, copy_create_session_v1,
    copy_finalize_session_v1, copy_server_message_v1, copy_vec_capture_provenance_hop_v1,
    spec_same_append_provenance_hop_v1, spec_same_audio_chunk_v1,
    spec_same_capture_discontinuity_v1, spec_same_capture_lane_v1, spec_same_client_message_v1,
    spec_same_close_segment_v1, spec_same_create_session_v1, spec_same_finalize_session_v1,
    spec_same_lane_boundary_v1, spec_same_segment_close_reference_v1,
    spec_same_seq_capture_provenance_hop_v1, spec_same_server_message_v1, LaneId, MessageId,
    CreateSessionV1, SegmentId, SequenceRangeV1, SessionId,
};
use crate::runtime::range_set::RangeSet;
use crate::runtime::session::{
    chunks_distinct, event_message_id, has_boundary, lane_declared, record_ok, segment_ok,
    CloseRecord, CommandRecord, FinalizeRecord, LaneState,
    SegmentState, Session, SessionData,
};
use vstd::prelude::*;

verus! {

pub open spec fn same_lane(a: LaneState, b: LaneState) -> bool {
    &&& a.lane_id@ == b.lane_id@
    &&& a.coverage.ranges@ == b.coverage.ranges@
    &&& a.chunks.len() == b.chunks.len()
    &&& forall|j: int| 0 <= j < a.chunks.len() ==> spec_same_audio_chunk_v1(#[trigger] a.chunks@[j], b.chunks@[j])
}

pub open spec fn same_close(a: Option<CloseRecord>, b: Option<CloseRecord>) -> bool {
    match (a, b) {
        (None, None) => true,
        (Some(x), Some(y)) => x.message_id@ == y.message_id@ && spec_same_close_segment_v1(x.command, y.command) && x.finalized == y.finalized,
        _ => false,
    }
}

pub open spec fn same_segment(a: SegmentState, b: SegmentState) -> bool {
    &&& a.segment_id@ == b.segment_id@
    &&& a.lanes.len() == b.lanes.len()
    &&& forall|k: int| 0 <= k < a.lanes.len() ==> same_lane(#[trigger] a.lanes@[k], b.lanes@[k])
    &&& same_close(a.close, b.close)
}

pub open spec fn same_finalize(a: Option<FinalizeRecord>, b: Option<FinalizeRecord>) -> bool {
    match (a, b) {
        (None, None) => true,
        (Some(x), Some(y)) => x.message_id@ == y.message_id@ && spec_same_finalize_session_v1(x.command, y.command) && x.finalized == y.finalized,
        _ => false,
    }
}

pub open spec fn same_records(a: Seq<CommandRecord>, b: Seq<CommandRecord>) -> bool {
    &&& a.len() == b.len()
    &&& forall|i: int| 0 <= i < a.len() ==> spec_same_client_message_v1((#[trigger] a[i]).message, b[i].message)
        && a[i].response_range == b[i].response_range
}

/// Two sessions hold the same state, field by field.
pub open spec fn same_state(a: Session, b: Session) -> bool {
    &&& a.revision == b.revision
    &&& a.session_id@ == b.session_id@
    &&& spec_same_client_message_v1(a.create_message, b.create_message)
    &&& spec_same_create_session_v1(a.create, b.create)
    &&& spec_same_seq_capture_provenance_hop_v1(a.data.provenance@, b.data.provenance@)
    &&& same_records(a.data.commands@, b.data.commands@)
    &&& same_records(a.data.conflicting_commands@, b.data.conflicting_commands@)
    &&& a.data.provenance_hops.len() == b.data.provenance_hops.len()
    &&& forall|i: int| 0 <= i < a.data.provenance_hops.len()
        ==> spec_same_append_provenance_hop_v1(#[trigger] a.data.provenance_hops@[i], b.data.provenance_hops@[i])
    &&& a.data.discontinuities.len() == b.data.discontinuities.len()
    &&& forall|i: int| 0 <= i < a.data.discontinuities.len()
        ==> spec_same_capture_discontinuity_v1(#[trigger] a.data.discontinuities@[i], b.data.discontinuities@[i])
    &&& a.data.segments.len() == b.data.segments.len()
    &&& forall|i: int| 0 <= i < a.data.segments.len() ==> same_segment(#[trigger] a.data.segments@[i], b.data.segments@[i])
    &&& a.data.last_health_at_ms == b.data.last_health_at_ms
    &&& same_finalize(a.data.finalize, b.data.finalize)
    &&& a.events.len() == b.events.len()
    &&& forall|i: int| 0 <= i < a.events.len() ==> spec_same_server_message_v1(#[trigger] a.events@[i], b.events@[i])
}

fn copy_ranges(rs: &RangeSet) -> (r: RangeSet)
    ensures
        r.ranges@ == rs.ranges@,
{
    let mut out: Vec<SequenceRangeV1> = Vec::new();
    let mut i: usize = 0;
    while i < rs.ranges.len()
        invariant
            i <= rs.ranges.len(),
            out@ == rs.ranges@.take(i as int),
        decreases rs.ranges.len() - i,
    {
        out.push(rs.ranges[i]);
        i = i + 1;
        assert(out@ =~= rs.ranges@.take(i as int));
    }
    assert(rs.ranges@.take(rs.ranges.len() as int) =~= rs.ranges@);
    RangeSet { ranges: out }
}

fn copy_lane(l: &LaneState) -> (r: LaneState)
    ensures
        same_lane(r, *l),
{
    let mut chunks: Vec<crate::protocol::types::AudioChunkV1> = Vec::new();
    let mut j: usize = 0;
    while j < l.chunks.len()
        invariant
            j <= l.chunks.len(),
            chunks@.len() == j,
            forall|x: int| 0 <= x < j ==> spec_same_audio_chunk_v1(#[trigger] chunks@[x], l.chunks@[x]),
        decreases l.chunks.len() - j,
    {
        chunks.push(copy_audio_chunk_v1(&l.chunks[j]));
        j = j + 1;
    }
    LaneState { lane_id: LaneId(l.lane_id.0.clone()), chunks, coverage: copy_ranges(&l.coverage) }
}

fn copy_segment(g: &SegmentState) -> (r: SegmentState)
    ensures
        same_segment(r, *g),
{
    let mut lanes: Vec<LaneState> = Vec::new();
    let mut k: usize = 0;
    while k < g.lanes.len()
        invariant
            k <= g.lanes.len(),
            lanes@.len() == k,
            forall|x: int| 0 <= x < k ==> same_lane(#[trigger] lanes@[x], g.lanes@[x]),
        decreases g.lanes.len() - k,
    {
        lanes.push(copy_lane(&g.lanes[k]));
        k = k + 1;
    }
    let close = match &g.close {
        None => None,
        Some(c) => Some(CloseRecord {
            message_id: MessageId(c.message_id.0.clone()),
            command: copy_close_segment_v1(&c.command),
            finalized: c.finalized,
        }),
    };
    SegmentState { segment_id: SegmentId(g.segment_id.0.clone()), lanes, close }
}

fn copy_records(rs: &Vec<CommandRecord>) -> (r: Vec<CommandRecord>)
    ensures
        same_records(r@, rs@),
{
    let mut out: Vec<CommandRecord> = Vec::new();
    let mut i: usize = 0;
    while i < rs.len()
        invariant
            i <= rs.len(),
            out@.len() == i,
            forall|x: int| 0 <= x < i ==> spec_same_client_message_v1((#[trigger] out@[x]).message, rs@[x].message)
                && out@[x].response_range == rs@[x].response_range,
        decreases rs.len() - i,
    {
        out.push(CommandRecord { message: copy_client_message_v1(&rs[i].message), response_range: rs[i].response_range });
        i = i + 1;
    }
    out
}

/// A field-wise copy of a session.
pub fn copy_session(s: &Session) -> (r: Session)
    ensures
        same_state(r, *s),
{
    let mut hops: Vec<crate::protocol::types::AppendProvenanceHopV1> = Vec::new();
    let mut i: usize = 0;
    while i < s.data.provenance_hops.len()
        invariant
            i <= s.data.provenance_hops.len(),
            hops@.len() == i,
            forall|x: int| 0 <= x < i ==> spec_same_append_provenance_hop_v1(#[trigger] hops@[x], s.data.provenance_hops@[x]),
        decreases s.data.provenance_hops.len() - i,
    {
        hops.push(copy_append_provenance_hop_v1(&s.data.provenance_hops[i]));
        i = i + 1;
    }
    let mut gaps: Vec<crate::protocol::types::CaptureDiscontinuityV1> = Vec::new();
    let mut i: usize = 0;
    while i < s.data.discontinuities.len()
        invariant
            i <= s.data.discontinuities.len(),
            gaps@.len() == i,
            forall|x: int| 0 <= x < i ==> spec_same_capture_discontinuity_v1(#[trigger] gaps@[x], s.data.discontinuities@[x]),
        decreases s.data.discontinuities.len() - i,
    {
        gaps.push(copy_capture_discontinuity_v1(&s.data.discontinuities[i]));
        i = i + 1;
    }
    let mut segments: Vec<SegmentState> = Vec::new();
    let mut i: usize = 0;
    while i < s.data.segments.len()
        invariant
            i <= s.data.segments.len(),
            segments@.len() == i,
            forall|x: int| 0 <= x < i ==> same_segment(#[trigger] segments@[x], s.data.segments@[x]),
        decreases s.data.segments.len() - i,
    {
        segments.push(copy_segment(&s.data.segments[i]));
        i = i + 1;
    }
    let mut events: Vec<crate::protocol::types::ServerMessageV1> = Vec::new();
    let mut i: usize = 0;
    while i < s.events.len()
        invariant
            i <= s.events.len(),
            events@.len() == i,
            forall|x: int| 0 <= x < i ==> spec_same_server_message_v1(#[trigger] events@[x], s.events@[x]),
        decreases s.events.len() - i,
    {
        events.push(copy_server_message_v1(&s.events[i]));
        i = i + 1;
    }
    let finalize = match &s.data.finalize {
        None => None,
        Some(f) => Some(FinalizeRecord {
            message_id: MessageId(f.message_id.0.clone()),
            command: copy_finalize_session_v1(&f.command),
            finalized: f.finalized,
        }),
    };
    Session {
        revision: s.revision,
        session_id: SessionId(s.session_id.0.clone()),
        create_message: copy_client_message_v1(&s.create_message),
        create: copy_create_session_v1(&s.create),
        data: SessionData {
            provenance: copy_vec_capture_provenance_hop_v1(&s.data.provenance),
            commands: copy_records(&s.data.commands),
            conflicting_commands: copy_records(&s.data.conflicting_commands),
            provenance_hops: hops,
            discontinuities: gaps,
            segments,
            last_health_at_ms: s.data.last_health_at_ms,
            finalize,
        },
        events,
    }
}

proof fn lemma_segment_ok_same(a_create: CreateSessionV1, b_create: CreateSessionV1, a: SegmentState, b: SegmentState)
    requires
        spec_same_create_session_v1(a_create, b_create),
        same_segment(a, b),
        segment_ok(b_create, b),
    ensures
        segment_ok(a_create, a),
{
    assert forall|k: int| 0 <= k < a.lanes.len() implies {
        &&& (#[trigger] a.lanes@[k]).lane_id@ == a_create.lanes@[k].lane_id@
        &&& a.lanes@[k].coverage.wf()
        &&& chunks_distinct(a.lanes@[k].chunks@)
    } by {
        assert(same_lane(a.lanes@[k], b.lanes@[k]));
        assert(spec_same_capture_lane_v1(a_create.lanes@[k], b_create.lanes@[k]));
        let la = a.lanes@[k];
        let lb = b.lanes@[k];
        assert(la.coverage.ranges@ == lb.coverage.ranges@);
        assert forall|x: int, y: int| 0 <= x < y < la.chunks.len() implies (#[trigger] la.chunks@[x]).sequence != (#[trigger] la.chunks@[y]).sequence by {
            assert(spec_same_audio_chunk_v1(la.chunks@[x], lb.chunks@[x]));
            assert(spec_same_audio_chunk_v1(la.chunks@[y], lb.chunks@[y]));
        }
    }
    if let Some(ca) = a.close {
        let cb = b.close->0;
        let bsa = ca.command.lane_boundaries@;
        let bsb = cb.command.lane_boundaries@;
        assert forall|k: int| 0 <= k < a_create.lanes.len() implies #[trigger] has_boundary(ca.command, a_create.lanes@[k].lane_id@) by {
            assert(spec_same_capture_lane_v1(a_create.lanes@[k], b_create.lanes@[k]));
            assert(has_boundary(cb.command, b_create.lanes@[k].lane_id@));
            let x = choose|x: int| 0 <= x < bsb.len() && (#[trigger] bsb[x]).lane_id@ == b_create.lanes@[k].lane_id@;
            assert(spec_same_lane_boundary_v1(bsa[x], bsb[x]));
        }
        assert forall|x: int| 0 <= x < bsa.len() implies #[trigger] lane_declared(a_create, bsa[x].lane_id@) by {
            assert(spec_same_lane_boundary_v1(bsa[x], bsb[x]));
            assert(lane_declared(b_create, bsb[x].lane_id@));
            let k = choose|k: int| 0 <= k < b_create.lanes.len() && (#[trigger] b_create.lanes@[k]).lane_id@ == bsb[x].lane_id@;
            assert(spec_same_capture_lane_v1(a_create.lanes@[k], b_create.lanes@[k]));
        }
        assert forall|x: int, y: int| 0 <= x < y < bsa.len() implies (#[trigger] bsa[x]).lane_id@ != (#[trigger] bsa[y]).lane_id@ by {
            assert(spec_same_lane_boundary_v1(bsa[x], bsb[x]));
            assert(spec_same_lane_boundary_v1(bsa[y], bsb[y]));
        }
    }
}

/// A session holding the same state as a well-formed one is well formed.
pub proof fn lemma_same_state_wf(a: Session, b: Session)
    requires
        same_state(a, b),
        b.wf(),
    ensures
        a.wf(),
{
    assert forall|i: int| 0 <= i < a.events@.len() implies {
        &&& (#[trigger] a.events@[i]).sequence == i
        &&& a.events@[i].session_id@ == a.session_id@
        &&& a.events@[i].message_id@ == event_message_id(a.session_id@, i as nat)
    } by {
        assert(spec_same_server_message_v1(a.events@[i], b.events@[i]));
    }
    assert forall|x: int, y: int| 0 <= x < y < a.create.lanes.len() implies (#[trigger] a.create.lanes@[x]).lane_id@ != (#[trigger] a.create.lanes@[y]).lane_id@ by {
        assert(spec_same_capture_lane_v1(a.create.lanes@[x], b.create.lanes@[x]));
        assert(spec_same_capture_lane_v1(a.create.lanes@[y], b.create.lanes@[y]));
    }
    if let Some(fa) = a.data.finalize {
        let fb = b.data.finalize->0;
        let ra = fa.command.segment_closes@;
        let rb = fb.command.segment_closes@;
        assert forall|x: int, y: int| 0 <= x < y < ra.len() implies (#[trigger] ra[x]).segment_id@ != (#[trigger] ra[y]).segment_id@ by {
            assert(spec_same_segment_close_reference_v1(ra[x], rb[x]));
            assert(spec_same_segment_close_reference_v1(ra[y], rb[y]));
        }
    }
    assert forall|i: int| 0 <= i < a.data.commands.len() implies record_ok(#[trigger] a.data.commands@[i], a.events@.len()) by {
        assert(a.data.commands@[i].response_range == b.data.commands@[i].response_range);
    }
    assert forall|i: int| 0 <= i < a.data.conflicting_commands.len() implies record_ok(#[trigger] a.data.conflicting_commands@[i], a.events@.len()) by {
        assert(a.data.conflicting_commands@[i].response_range == b.data.conflicting_commands@[i].response_range);
    }
    assert forall|x: int, y: int| 0 <= x < y < a.data.commands.len() implies (#[trigger] a.data.commands@[x]).message.message_id@ != (#[trigger] a.data.commands@[y]).message.message_id@ by {
        assert(spec_same_client_message_v1(a.data.commands@[x].message, b.data.commands@[x].message));
        assert(spec_same_client_message_v1(a.data.commands@[y].message, b.data.commands@[y].message));
    }
    assert forall|i: int| 0 <= i < a.data.segments.len() implies segment_ok(a.create, #[trigger] a.data.segments@[i]) by {
        lemma_segment_ok_same(a.create, b.create, a.data.segments@[i], b.data.segments@[i]);
    }
    assert forall|x: int, y: int| 0 <= x < y < a.data.segments.len() implies (#[trigger] a.data.segments@[x]).segment_id@ != (#[trigger] a.data.segments@[y]).segment_id@ by {
        assert(same_segment(a.data.segments@[x], b.data.segments@[x]));
        assert(same_segment(a.data.segments@[y], b.data.segments@[y]));
    }
    assert forall|x: int, y: int| 0 <= x < y < a.data.discontinuities.len() implies (#[trigger] a.data.discontinuities@[x]).discontinuity_id@ != (#[trigger] a.data.discontinuities@[y]).discontinuity_id@ by {
        assert(spec_same_capture_discontinuity_v1(a.data.discontinuities@[x], b.data.discontinuities@[x]));
        assert(spec_same_capture_discontinuity_v1(a.data.discontinuities@[y], b.data.discontinuities@[y]));
    }
    assert forall|x: int, y: int| 0 <= x < y < a.data.provenance_hops.len() implies (#[trigger] a.data.provenance_hops@[x]).provenance_hop_id@ != (#[trigger] a.data.provenance_hops@[y]).provenance_hop_id@ by {
        assert(spec_same_append_provenance_hop_v1(a.data.provenance_hops@[x], b.data.provenance_hops@[x]));
        assert(spec_same_append_provenance_hop_v1(a.data.provenance_hops@[y], b.data.provenance_hops@[y]));
    }
}

} // verus!
