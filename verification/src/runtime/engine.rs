//! Stored sessions, idempotent command handling, and the runtime that drives
//! them through a persistence seam.
use crate::protocol::types::{
    copy_audio_chunk_v1, copy_capture_discontinuity_v1, copy_client_message_v1, copy_create_session_v1,
    spec_same_audio_chunk_v1, spec_same_capture_discontinuity_v1, copy_server_message_v1,
    copy_vec_capture_provenance_hop_v1, same_client_message_v1, spec_same_client_message_v1,
    spec_same_capture_lane_v1, spec_same_create_session_v1, spec_same_server_message_v1,
    AudioChunkV1, CaptureDiscontinuityV1, CaptureProvenanceHopV1,
    ClientMessageBodyV1, ClientMessageV1, CreateSessionV1, MessageId, SequenceRangeV1,
    ServerMessageBodyV1, ServerMessageV1, SessionCreatedV1, SessionId, MAX_SAFE_JSON_INTEGER,
};
use crate::protocol::validate::{client_message_ok, lane_texts, ValidationErrorV1};
use crate::runtime::apply::{apply_command, command_effect, rejected};
use crate::runtime::snapshot::{copy_session, lemma_same_state_wf, same_state};
use crate::runtime::session::{
    append_event, command_response, is_log_suffix, lemma_single_suffix, log_grows, record_command,
    record_ok, reject, transition_ok, CommandRecord, LaneState, SegmentState, Session, SessionData,
};
use vstd::prelude::*;

verus! {

/// Writes attempted before a command gives up on a contended session.
const MAX_COMMIT_ATTEMPTS: usize = 64;

/// Result of an atomic storage write.
#[derive(Debug, Clone, Copy, PartialEq, Eq, Structural)]
pub enum StorageCommit {
    Committed,
    Conflict,
}

/// Error from the in-memory storage implementation.
#[derive(Debug, Clone, PartialEq, Eq, Structural)]
pub struct InMemoryStorageError;

impl InMemoryStorageError {
    /// Human-readable description.
    pub fn message(&self) -> (r: &'static str) {
        "in-memory meeting runtime storage lock was poisoned"
    }
}

/// Runtime-level failure. Stateful command rejections for an existing session
/// are instead returned as durable `command_rejected` server events.
#[derive(Debug)]
pub enum RuntimeError<E> {
    InvalidMessage(ValidationErrorV1),
    UnknownSession(SessionId),
    CreateIdempotencyConflict { idempotency_key: String, existing_session_id: SessionId },
    Storage(E),
    Contention,
}

/// Output for one accepted command.
#[derive(Debug, Clone, PartialEq, Eq)]
pub struct RuntimeResponseV1 {
    /// Original envelopes to deliver. Exact command retries return the same
    /// envelopes with the same message IDs, sequences, and timestamps.
    pub messages: Vec<ServerMessageV1>,
    /// True only when the command message ID and full content were seen before.
    pub idempotent_replay: bool,
}

/// Stored session snapshot passed through the persistence trait. Its state
/// is private, so only the runtime builds one, and it is always well formed.
#[derive(Debug)]
pub struct StoredSessionV1 {
    session: Session,
}

impl StoredSessionV1 {
    #[verifier::type_invariant]
    closed spec fn inv(self) -> bool {
        self.session.wf()
    }

    /// The session state this snapshot holds.
    pub closed spec fn state(self) -> Session {
        self.session
    }

    pub fn revision(&self) -> (r: u64)
        ensures
            r == self.state().revision,
    {
        self.session.revision
    }

    pub fn session_id(&self) -> (r: &SessionId)
        ensures
            r == self.state().session_id,
    {
        &self.session.session_id
    }

    pub fn create(&self) -> (r: &CreateSessionV1)
        ensures
            r == self.state().create,
    {
        &self.session.create
    }

    pub fn provenance(&self) -> (r: &[CaptureProvenanceHopV1])
        ensures
            r@ == self.state().data.provenance@,
    {
        self.session.data.provenance.as_slice()
    }

    pub fn events(&self) -> (r: &[ServerMessageV1])
        ensures
            r@ == self.state().events@,
    {
        self.session.events.as_slice()
    }

    /// Copies of the stored encoded chunks, segment by segment and lane by lane.
    pub fn audio_chunks(&self) -> (r: Vec<AudioChunkV1>)
        ensures
            r@.len() == stored_chunks(self.state().data.segments@).len(),
            forall|i: int| 0 <= i < r@.len() ==> spec_same_audio_chunk_v1(#[trigger] r@[i], stored_chunks(self.state().data.segments@)[i]),
    {
        let segments = &self.session.data.segments;
        let mut out: Vec<AudioChunkV1> = Vec::new();
        let mut i: usize = 0;
        while i < segments.len()
            invariant
                i <= segments.len(),
                out@.len() == stored_chunks(segments@.take(i as int)).len(),
                forall|x: int| 0 <= x < out@.len() ==> spec_same_audio_chunk_v1(#[trigger] out@[x], stored_chunks(segments@.take(i as int))[x]),
            decreases segments.len() - i,
        {
            let lanes = &segments[i].lanes;
            let ghost before = out@;
            let mut k: usize = 0;
            while k < lanes.len()
                invariant
                    i < segments.len(),
                    lanes == &segments@[i as int].lanes,
                    k <= lanes.len(),
                    out@.len() == before.len() + lane_chunks(lanes@.take(k as int)).len(),
                    forall|x: int| 0 <= x < before.len() ==> out@[x] == before[x],
                    forall|x: int| 0 <= x < lane_chunks(lanes@.take(k as int)).len() ==> spec_same_audio_chunk_v1(#[trigger] out@[before.len() + x], lane_chunks(lanes@.take(k as int))[x]),
                decreases lanes.len() - k,
            {
                let chunks = &lanes[k].chunks;
                let ghost mid = out@;
                let mut j: usize = 0;
                while j < chunks.len()
                    invariant
                        k < lanes.len(),
                        chunks == &lanes@[k as int].chunks,
                        j <= chunks.len(),
                        out@.len() == mid.len() + j,
                        forall|x: int| 0 <= x < mid.len() ==> out@[x] == mid[x],
                        forall|x: int| 0 <= x < j ==> spec_same_audio_chunk_v1(#[trigger] out@[mid.len() + x], chunks@[x]),
                    decreases chunks.len() - j,
                {
                    out.push(copy_audio_chunk_v1(&chunks[j]));
                    j = j + 1;
                }
                proof {
                    assert(lanes@.take(k + 1).drop_last() =~= lanes@.take(k as int));
                    assert(lanes@.take(k + 1).last() == lanes@[k as int]);
                    let lc0 = lane_chunks(lanes@.take(k as int));
                    let lc1 = lane_chunks(lanes@.take(k + 1));
                    assert(lc1 == lc0 + chunks@);
                    assert(mid.len() == before.len() + lc0.len());
                    assert forall|x: int| 0 <= x < lc1.len() implies spec_same_audio_chunk_v1(#[trigger] out@[before.len() + x], lc1[x]) by {
                        if x < lc0.len() {
                            assert(out@[before.len() + x] == mid[before.len() + x]);
                            assert(lc1[x] == lc0[x]);
                        } else {
                            let y = x - lc0.len();
                            assert(out@[before.len() + x] == out@[mid.len() + y]);
                            assert(lc1[x] == chunks@[y]);
                        }
                    }
                }
                k = k + 1;
            }
            proof {
                assert(lanes@.take(lanes@.len() as int) =~= lanes@);
                assert(segments@.take(i + 1).drop_last() =~= segments@.take(i as int));
                assert(segments@.take(i + 1).last() == segments@[i as int]);
                let sc0 = stored_chunks(segments@.take(i as int));
                let sc1 = stored_chunks(segments@.take(i + 1));
                assert(sc1 == sc0 + lane_chunks(lanes@));
                assert forall|x: int| 0 <= x < sc1.len() implies spec_same_audio_chunk_v1(#[trigger] out@[x], sc1[x]) by {
                    if x < sc0.len() {
                        assert(out@[x] == before[x]);
                        assert(sc1[x] == sc0[x]);
                    } else {
                        let y = x - sc0.len();
                        assert(out@[x] == out@[before.len() + y]);
                        assert(sc1[x] == lane_chunks(lanes@)[y]);
                    }
                }
            }
            i = i + 1;
        }
        proof {
            assert(segments@.take(segments@.len() as int) =~= segments@);
        }
        out
    }

    /// Copies of the recorded discontinuities.
    pub fn discontinuities(&self) -> (r: Vec<CaptureDiscontinuityV1>)
        ensures
            r@.len() == self.state().data.discontinuities@.len(),
            forall|i: int| 0 <= i < r@.len() ==> spec_same_capture_discontinuity_v1(#[trigger] r@[i], self.state().data.discontinuities@[i]),
    {
        let ds = &self.session.data.discontinuities;
        let mut out: Vec<CaptureDiscontinuityV1> = Vec::new();
        let mut i: usize = 0;
        while i < ds.len()
            invariant
                i <= ds.len(),
                out@.len() == i,
                forall|x: int| 0 <= x < i ==> spec_same_capture_discontinuity_v1(#[trigger] out@[x], ds@[x]),
            decreases ds.len() - i,
        {
            out.push(copy_capture_discontinuity_v1(&ds[i]));
            i = i + 1;
        }
        out
    }
}

/// Chunks of a list of lanes, lane by lane.
pub open spec fn lane_chunks(lanes: Seq<LaneState>) -> Seq<AudioChunkV1>
    decreases lanes.len(),
{
    if lanes.len() == 0 {
        Seq::empty()
    } else {
        lane_chunks(lanes.drop_last()) + lanes.last().chunks@
    }
}

/// Chunks of a list of segments, segment by segment.
pub open spec fn stored_chunks(segments: Seq<SegmentState>) -> Seq<AudioChunkV1>
    decreases segments.len(),
{
    if segments.len() == 0 {
        Seq::empty()
    } else {
        stored_chunks(segments.drop_last()) + lane_chunks(segments.last().lanes@)
    }
}

impl Clone for StoredSessionV1 {
    fn clone(&self) -> (r: Self)
        ensures
            same_state(r.state(), self.state()),
    {
        proof {
            use_type_invariant(self);
        }
        let session = copy_session(&self.session);
        proof {
            lemma_same_state_wf(session, self.session);
        }
        StoredSessionV1 { session }
    }
}

/// The command recorded under the message's ID, when its content is the same.
pub open spec fn recorded_range(s: Session, m: ClientMessageV1) -> Option<SequenceRangeV1> {
    if exists|i: int| 0 <= i < s.data.commands.len() && (#[trigger] s.data.commands@[i]).message.message_id@ == m.message_id@ {
        let i = choose|i: int| 0 <= i < s.data.commands.len() && (#[trigger] s.data.commands@[i]).message.message_id@ == m.message_id@;
        if spec_same_client_message_v1(s.data.commands@[i].message, m) {
            Some(s.data.commands@[i].response_range)
        } else {
            None
        }
    } else {
        None
    }
}

/// A command was handled under this message ID.
pub open spec fn id_used(s: Session, id: Seq<char>) -> bool {
    exists|i: int| 0 <= i < s.data.commands.len() && (#[trigger] s.data.commands@[i]).message.message_id@ == id
}

/// `r` copies the events of the log in `range`.
pub open spec fn copies_range(events: Seq<ServerMessageV1>, range: SequenceRangeV1, r: Seq<ServerMessageV1>) -> bool {
    &&& range.start <= range.end_exclusive <= events.len()
    &&& r.len() == range.end_exclusive - range.start
    &&& forall|k: int| 0 <= k < r.len() ==> spec_same_server_message_v1(#[trigger] r[k], events[range.start + k])
}

/// What a commit keeps of the session it replaces: the event log only grows
/// and the records of earlier commands stay as they were.
pub open spec fn keeps_history(old: Session, new: Session) -> bool {
    &&& log_grows(old.events@, new.events@)
    &&& old.data.commands.len() <= new.data.commands.len()
    &&& new.data.commands@.take(old.data.commands.len() as int) == old.data.commands@
}

/// A retried command is answered with the events of its first answer, also
/// after any number of later commits: its record and those events stay.
pub proof fn law_retry_answer_survives_commits(old: Session, new: Session, m: ClientMessageV1, first: Seq<ServerMessageV1>)
    requires
        old.wf(),
        new.wf(),
        keeps_history(old, new),
        recorded_range(old, m) matches Some(range) && copies_range(old.events@, range, first),
    ensures
        recorded_range(new, m) == recorded_range(old, m),
        recorded_range(new, m) matches Some(range) && copies_range(new.events@, range, first),
{
    let n = old.data.commands.len() as int;
    let i = choose|i: int| 0 <= i < old.data.commands.len() && (#[trigger] old.data.commands@[i]).message.message_id@ == m.message_id@;
    assert(new.data.commands@[i] == new.data.commands@.take(n)[i]);
    assert(new.data.commands@[i] == old.data.commands@[i]);
    let j = choose|j: int| 0 <= j < new.data.commands.len() && (#[trigger] new.data.commands@[j]).message.message_id@ == m.message_id@;
    assert(i == j) by {
        if i < j {
            assert(new.data.commands@[i].message.message_id@ != new.data.commands@[j].message.message_id@);
        } else if j < i {
            assert(new.data.commands@[j].message.message_id@ != new.data.commands@[i].message.message_id@);
        }
    }
    let range = old.data.commands@[i].response_range;
    assert forall|k: int| 0 <= k < first.len() implies spec_same_server_message_v1(#[trigger] first[k], new.events@[range.start + k]) by {
        assert(new.events@[range.start + k] == new.events@.take(old.events@.len() as int)[range.start + k]);
    }
}

/// The room the next command needs, and a revision that can still grow.
pub open spec fn can_commit(s: Session) -> bool {
    s.has_room() && s.revision < u64::MAX
}

/// What handling a command against a stored session decided.
pub enum Applied {
    /// Answer without writing anything.
    Answer(RuntimeResponseV1),
    /// Replace the stored session that had `expected_revision`, then answer.
    Commit { expected_revision: u64, session: StoredSessionV1, response: RuntimeResponseV1 },
    /// The session's log or revision counter cannot take another command.
    Exhausted,
}

fn command_index(s: &Session, id: &MessageId) -> (r: Option<usize>)
    ensures
        r matches Some(k) ==> k < s.data.commands.len() && s.data.commands@[k as int].message.message_id@ == id@,
        r is None ==> !id_used(*s, id@),
{
    let commands = &s.data.commands;
    let mut k: usize = 0;
    while k < commands.len()
        invariant
            k <= commands.len(),
            commands == &s.data.commands,
            forall|j: int| 0 <= j < k ==> (#[trigger] commands@[j]).message.message_id@ != id@,
        decreases commands.len() - k,
    {
        if commands[k].message.message_id.0 == id.0 {
            return Some(k);
        }
        k = k + 1;
    }
    None
}

/// First conflicting record with exactly this content, or else with this ID.
fn conflict_index(records: &Vec<CommandRecord>, m: &ClientMessageV1, exact: bool) -> (r: Option<usize>)
    ensures
        r matches Some(k) ==> k < records.len() && (if exact {
            spec_same_client_message_v1(records@[k as int].message, *m)
        } else {
            records@[k as int].message.message_id@ == m.message_id@
        }),
        r is None ==> forall|k: int| 0 <= k < records.len() ==> !(if exact {
            spec_same_client_message_v1((#[trigger] records@[k]).message, *m)
        } else {
            records@[k].message.message_id@ == m.message_id@
        }),
{
    let mut k: usize = 0;
    while k < records.len()
        invariant
            k <= records.len(),
            forall|j: int| 0 <= j < k ==> !(if exact {
                spec_same_client_message_v1((#[trigger] records@[j]).message, *m)
            } else {
                records@[j].message.message_id@ == m.message_id@
            }),
        decreases records.len() - k,
    {
        let hit = if exact {
            same_client_message_v1(&records[k].message, m)
        } else {
            records[k].message.message_id.0 == m.message_id.0
        };
        if hit {
            return Some(k);
        }
        k = k + 1;
    }
    None
}

/// What handling a valid command against a stored session may decide: a
/// retry is answered from the log, a reused message ID is answered or
/// rejected, and a new command is applied and committed; a session without
/// room is exhausted.
pub open spec fn applied_ok(old: Session, message: ClientMessageV1, r: Applied) -> bool {
    &&& (r matches Applied::Commit { session, .. } ==> keeps_history(old, session.state()))
    &&& (recorded_range(old, message) matches Some(range) ==> (r matches Applied::Answer(resp) && {
        &&& resp.idempotent_replay
        &&& copies_range(old.events@, range, resp.messages@)
    }))
    &&& (id_used(old, message.message_id@) && recorded_range(old, message) is None ==> {
        ||| (r matches Applied::Answer(resp) && exists|k: int| 0 <= k < old.data.conflicting_commands.len() && {
            let rec = #[trigger] old.data.conflicting_commands@[k];
            &&& rec.message.message_id@ == message.message_id@
            &&& resp.idempotent_replay == spec_same_client_message_v1(rec.message, message)
            &&& copies_range(old.events@, rec.response_range, resp.messages@)
        })
        ||| (r matches Applied::Commit { expected_revision, session, response } && {
            let new = session.state();
            &&& forall|k: int| 0 <= k < old.data.conflicting_commands.len() ==> (#[trigger] old.data.conflicting_commands@[k]).message.message_id@ != message.message_id@
            &&& expected_revision == old.revision
            &&& new.revision == old.revision + 1
            &&& !response.idempotent_replay
            &&& new.data.conflicting_commands@.drop_last() == old.data.conflicting_commands@
            &&& spec_same_client_message_v1(new.data.conflicting_commands@.last().message, message)
            &&& copies_range(new.events@, new.data.conflicting_commands@.last().response_range, response.messages@)
            &&& rejected(old, Session { revision: old.revision, data: SessionData { conflicting_commands: old.data.conflicting_commands, ..new.data }, ..new },
                response.messages@, message.message_id@, "conflict"@)
        })
        ||| (r is Exhausted && !can_commit(old))
    })
    &&& (!id_used(old, message.message_id@) ==> {
        ||| (r is Exhausted && !can_commit(old))
        ||| (r matches Applied::Commit { expected_revision, session, response } && {
            let new = session.state();
            &&& can_commit(old)
            &&& expected_revision == old.revision
            &&& new.revision == old.revision + 1
            &&& !response.idempotent_replay
            &&& recorded_range(new, message) matches Some(range) && copies_range(new.events@, range, response.messages@)
            &&& exists|mid: Session| {
                &&& #[trigger] transition_ok(old, mid, response.messages@)
                &&& command_effect(old, mid, message, response.messages@)
                &&& new == Session {
                    revision: new.revision,
                    data: SessionData { commands: new.data.commands, ..mid.data },
                    ..mid
                }
            }
        })
    })
}

/// The response a decision answers with, if any.
pub open spec fn response_of(a: Applied) -> Option<RuntimeResponseV1> {
    match a {
        Applied::Answer(resp) => Some(resp),
        Applied::Commit { response, .. } => Some(response),
        Applied::Exhausted => None,
    }
}

/// A response that handling the command against some stored session may
/// give.
pub open spec fn answers_existing(message: ClientMessageV1, resp: RuntimeResponseV1) -> bool {
    exists|old: Session, a: Applied| #[trigger] applied_ok(old, message, a) && response_of(a) == Some(resp)
}

/// The answer to a create that started a session: the one event of a fresh
/// session at revision zero, `session_created` for the create's message ID
/// and sending time.
pub open spec fn created_response(message: ClientMessageV1, resp: RuntimeResponseV1) -> bool {
    &&& !resp.idempotent_replay
    &&& exists|s: Session| {
        &&& #[trigger] copies_range(s.events@, SequenceRangeV1 { start: 0, end_exclusive: 1 }, resp.messages@)
        &&& s.revision == 0
        &&& s.session_id@ == message.session_id@
        &&& s.events@.len() == 1
        &&& s.events@[0].body is SessionCreated
        &&& s.events@[0].body->SessionCreated_0.create_message_id@ == message.message_id@
        &&& s.events@[0].body->SessionCreated_0.created_at_unix_ms == message.sent_at_unix_ms
        &&& s.events@[0].sent_at_unix_ms == message.sent_at_unix_ms
        &&& recorded_range(s, message) == Some(SequenceRangeV1 { start: 0, end_exclusive: 1 })
    }
}

/// Handles a valid command for an existing session. A retry of a handled
/// command is answered with the events it produced; anything else is applied,
/// recorded under its message ID, and committed at the next revision.
#[verifier::spinoff_prover]
#[verifier::rlimit(60)]
pub fn apply_existing(stored: StoredSessionV1, message: &ClientMessageV1) -> (r: Applied)
    requires
        client_message_ok(*message),
    ensures
        applied_ok(stored.state(), *message, r),
{
    proof {
        use_type_invariant(&stored);
    }
    let mut s = stored.session;
    if let Some(k) = command_index(&s, &message.message_id) {
        proof {
            let c = choose|i: int| 0 <= i < s.data.commands.len() && (#[trigger] s.data.commands@[i]).message.message_id@ == message.message_id@;
            assert(c == k as int) by {
                if c < k as int {
                    assert(s.data.commands@[c].message.message_id@ != s.data.commands@[k as int].message.message_id@);
                } else if c > k as int {
                    assert(s.data.commands@[k as int].message.message_id@ != s.data.commands@[c].message.message_id@);
                }
            }
        }
        if same_client_message_v1(&s.data.commands[k].message, message) {
            let messages = command_response(&s.events, s.data.commands[k].response_range);
            return Applied::Answer(RuntimeResponseV1 { messages, idempotent_replay: true });
        }
        if let Some(j) = conflict_index(&s.data.conflicting_commands, message, true) {
            let messages = command_response(&s.events, s.data.conflicting_commands[j].response_range);
            return Applied::Answer(RuntimeResponseV1 { messages, idempotent_replay: true });
        }
        if let Some(j) = conflict_index(&s.data.conflicting_commands, message, false) {
            let messages = command_response(&s.events, s.data.conflicting_commands[j].response_range);
            return Applied::Answer(RuntimeResponseV1 { messages, idempotent_replay: false });
        }
        if s.events.len() as u64 > MAX_SAFE_JSON_INTEGER - 2 || s.revision == u64::MAX {
            return Applied::Exhausted;
        }
        let ghost s0 = s;
        let response = reject(&mut s, message, "conflict", "message_id was already used for different content");
        let range = crate::runtime::session::response_range(&s.events, &response, Ghost(s.session_id@));
        let ghost s1 = s;
        s.data.conflicting_commands.push(CommandRecord { message: copy_client_message_v1(message), response_range: range });
        let expected_revision = s.revision;
        s.revision = s.revision + 1;
        proof {
            assert forall|i: int| 0 <= i < s.data.conflicting_commands.len() implies record_ok(#[trigger] s.data.conflicting_commands@[i], s.events@.len()) by {
                if i < s1.data.conflicting_commands.len() {
                    assert(s.data.conflicting_commands@[i] == s1.data.conflicting_commands@[i]);
                }
            }
            assert(s.wf());
            assert(s.data.conflicting_commands@.drop_last() =~= s0.data.conflicting_commands@);
            assert(s.data.commands@.take(s0.data.commands.len() as int) =~= s0.data.commands@);
            assert(keeps_history(s0, s));
            assert(s1 == (Session { revision: s0.revision, data: SessionData { conflicting_commands: s0.data.conflicting_commands, ..s.data }, ..s }));
        }
        return Applied::Commit {
            expected_revision,
            session: StoredSessionV1 { session: s },
            response: RuntimeResponseV1 { messages: response, idempotent_replay: false },
        };
    }
    if s.events.len() as u64 > MAX_SAFE_JSON_INTEGER - 2 || s.revision == u64::MAX {
        return Applied::Exhausted;
    }
    let ghost s0 = s;
    let response = apply_command(&mut s, message);
    let ghost s1 = s;
    record_command(&mut s, copy_client_message_v1(message), &response);
    let expected_revision = s.revision;
    s.revision = s.revision + 1;
    proof {
        let n = s1.data.commands.len() as int;
        assert forall|i: int| 0 <= i < s.data.commands.len() implies record_ok(#[trigger] s.data.commands@[i], s.events@.len()) by {
            if i < n {
                assert(s.data.commands@[i] == s1.data.commands@[i]);
            }
        }
        assert forall|a: int, b: int| 0 <= a < b < s.data.commands.len() implies (#[trigger] s.data.commands@[a]).message.message_id@ != (#[trigger] s.data.commands@[b]).message.message_id@ by {
            assert(s.data.commands@[a] == s1.data.commands@[a]);
            if b < n {
                assert(s.data.commands@[b] == s1.data.commands@[b]);
            } else {
                assert(s0.data.commands@[a].message.message_id@ != message.message_id@);
            }
        }
        assert(s.wf());
        let c = choose|i: int| 0 <= i < s.data.commands.len() && (#[trigger] s.data.commands@[i]).message.message_id@ == message.message_id@;
        assert(s.data.commands@[n].message.message_id@ == message.message_id@);
        assert(c == n) by {
            if c < n {
                assert(s.data.commands@[c] == s0.data.commands@[c]);
            }
        }
        assert(s1 == (Session { revision: s1.revision, data: SessionData { commands: s1.data.commands, ..s1.data }, ..s1 }));
        assert(transition_ok(s0, s1, response@));
        assert(s.data.commands@.take(n) =~= s0.data.commands@);
        assert(keeps_history(s0, s));
    }
    Applied::Commit {
        expected_revision,
        session: StoredSessionV1 { session: s },
        response: RuntimeResponseV1 { messages: response, idempotent_replay: false },
    }
}

/// A fresh session for a valid create command, with `session_created` as its
/// first event and the create recorded as its first command.
fn new_session(message: &ClientMessageV1, create: &CreateSessionV1) -> (r: (StoredSessionV1, Vec<ServerMessageV1>))
    requires
        client_message_ok(*message),
        message.body == ClientMessageBodyV1::CreateSession(*create),
    ensures
        r.0.state().revision == 0,
        r.0.state().session_id@ == message.session_id@,
        spec_same_create_session_v1(r.0.state().create, *create),
        r.0.state().events@.len() == 1,
        r.0.state().events@[0].body is SessionCreated,
        r.0.state().events@[0].body->SessionCreated_0.create_message_id@ == message.message_id@,
        r.0.state().events@[0].body->SessionCreated_0.created_at_unix_ms == message.sent_at_unix_ms,
        r.0.state().events@[0].sent_at_unix_ms == message.sent_at_unix_ms,
        recorded_range(r.0.state(), *message) == Some(SequenceRangeV1 { start: 0, end_exclusive: 1 }),
        copies_range(r.0.state().events@, SequenceRangeV1 { start: 0, end_exclusive: 1 }, r.1@),
{
    let c = copy_create_session_v1(create);
    let mut s = Session {
        revision: 0,
        session_id: SessionId(message.session_id.0.clone()),
        create_message: copy_client_message_v1(message),
        create: c,
        data: SessionData {
            provenance: copy_vec_capture_provenance_hop_v1(&create.provenance.hops),
            commands: Vec::new(),
            conflicting_commands: Vec::new(),
            provenance_hops: Vec::new(),
            discontinuities: Vec::new(),
            segments: Vec::new(),
            last_health_at_ms: None,
            finalize: None,
        },
        events: Vec::new(),
    };
    proof {
        assert forall|a: int, b: int| 0 <= a < b < s.create.lanes.len() implies (#[trigger] s.create.lanes@[a]).lane_id@ != (#[trigger] s.create.lanes@[b]).lane_id@ by {
            assert(spec_same_capture_lane_v1(s.create.lanes@[a], create.lanes@[a]));
            assert(spec_same_capture_lane_v1(s.create.lanes@[b], create.lanes@[b]));
            assert(lane_texts(create.lanes@)[a] != lane_texts(create.lanes@)[b]);
        }
    }
    let event = append_event(
        &mut s,
        message.sent_at_unix_ms,
        ServerMessageBodyV1::SessionCreated(SessionCreatedV1 {
            create_message_id: MessageId(message.message_id.0.clone()),
            created_at_unix_ms: message.sent_at_unix_ms,
        }),
    );
    let mut response = Vec::new();
    response.push(event);
    proof {
        lemma_single_suffix(s.events@, response@);
    }
    record_command(&mut s, copy_client_message_v1(message), &response);
    proof {
        assert(s.wf());
        let c = choose|i: int| 0 <= i < s.data.commands.len() && (#[trigger] s.data.commands@[i]).message.message_id@ == message.message_id@;
        assert(s.data.commands@[0].message.message_id@ == message.message_id@);
        assert(c == 0);
    }
    (StoredSessionV1 { session: s }, response)
}

/// Persistence seam used by [`MeetingRuntime`].
///
/// Implementations must make `create_session` and `replace_session` atomic.
/// A create must enforce uniqueness of both session ID and create idempotency
/// key. A replace commits only when the stored revision equals
/// `expected_revision`. Returning `Conflict` asks the runtime to reload and
/// deterministically retry the transition.
pub trait MeetingRuntimeStorage {
    type Error;

    fn load_session(&self, session_id: &SessionId) -> Result<Option<StoredSessionV1>, Self::Error>;

    fn load_session_by_create_idempotency_key(&self, idempotency_key: &str) -> Result<Option<StoredSessionV1>, Self::Error>;

    fn create_session(&self, session: StoredSessionV1) -> Result<StorageCommit, Self::Error>;

    fn replace_session(&self, expected_revision: u64, session: StoredSessionV1) -> Result<StorageCommit, Self::Error>;
}

/// Sessions of the in-memory store, looked up by session ID or by create
/// idempotency key.
#[derive(Debug)]
pub struct InMemoryState {
    sessions: Vec<StoredSessionV1>,
}

impl InMemoryState {
    /// The stored session states, in the order they were created.
    pub closed spec fn states(&self) -> Seq<Session> {
        self.sessions@.map_values(|x: StoredSessionV1| x.state())
    }

    /// No two stored sessions share a session ID or a create idempotency key.
    pub open spec fn wf(&self) -> bool {
        forall|i: int, j: int| 0 <= i < j < self.states().len() ==> {
            &&& (#[trigger] self.states()[i]).session_id@ != (#[trigger] self.states()[j]).session_id@
            &&& self.states()[i].create.idempotency_key@ != self.states()[j].create.idempotency_key@
        }
    }

    pub fn new() -> (r: Self)
        ensures
            r.states().len() == 0,
            r.wf(),
    {
        InMemoryState { sessions: Vec::new() }
    }

    fn position_by_id(&self, session_id: &SessionId) -> (r: Option<usize>)
        ensures
            r matches Some(k) ==> k < self.states().len() && self.states()[k as int].session_id@ == session_id@,
            r is None ==> forall|k: int| 0 <= k < self.states().len() ==> (#[trigger] self.states()[k]).session_id@ != session_id@,
    {
        let mut k: usize = 0;
        while k < self.sessions.len()
            invariant
                k <= self.sessions.len(),
                forall|j: int| 0 <= j < k ==> (#[trigger] self.states()[j]).session_id@ != session_id@,
            decreases self.sessions.len() - k,
        {
            if self.sessions[k].session_id().0 == session_id.0 {
                return Some(k);
            }
            k = k + 1;
        }
        None
    }

    fn position_by_key(&self, key: &String) -> (r: Option<usize>)
        ensures
            r matches Some(k) ==> k < self.states().len() && self.states()[k as int].create.idempotency_key@ == key@,
            r is None ==> forall|k: int| 0 <= k < self.states().len() ==> (#[trigger] self.states()[k]).create.idempotency_key@ != key@,
    {
        let mut k: usize = 0;
        while k < self.sessions.len()
            invariant
                k <= self.sessions.len(),
                forall|j: int| 0 <= j < k ==> (#[trigger] self.states()[j]).create.idempotency_key@ != key@,
            decreases self.sessions.len() - k,
        {
            if self.sessions[k].create().idempotency_key == *key {
                return Some(k);
            }
            k = k + 1;
        }
        None
    }

    /// A copy of the session with this ID.
    pub fn load(&self, session_id: &SessionId) -> (r: Option<StoredSessionV1>)
        ensures
            r is None <==> forall|k: int| 0 <= k < self.states().len() ==> (#[trigger] self.states()[k]).session_id@ != session_id@,
            r matches Some(x) ==> exists|k: int| 0 <= k < self.states().len() && (#[trigger] self.states()[k]).session_id@ == session_id@
                && same_state(x.state(), self.states()[k]),
    {
        match self.position_by_id(session_id) {
            None => None,
            Some(k) => Some(self.sessions[k].clone()),
        }
    }

    /// A copy of the session created under this idempotency key.
    pub fn load_by_key(&self, key: &str) -> (r: Option<StoredSessionV1>)
        ensures
            r is None <==> forall|k: int| 0 <= k < self.states().len() ==> (#[trigger] self.states()[k]).create.idempotency_key@ != key@,
            r matches Some(x) ==> exists|k: int| 0 <= k < self.states().len() && (#[trigger] self.states()[k]).create.idempotency_key@ == key@
                && same_state(x.state(), self.states()[k]),
    {
        match self.position_by_key(&key.to_owned()) {
            None => None,
            Some(k) => Some(self.sessions[k].clone()),
        }
    }

    /// Stores a new session unless its ID or its create idempotency key is taken.
    pub fn create(&mut self, session: StoredSessionV1) -> (r: StorageCommit)
        requires
            old(self).wf(),
        ensures
            final(self).wf(),
            (r == StorageCommit::Committed) <==> forall|k: int| 0 <= k < old(self).states().len() ==> (#[trigger] old(self).states()[k]).session_id@ != session.state().session_id@
                && old(self).states()[k].create.idempotency_key@ != session.state().create.idempotency_key@,
            r == StorageCommit::Committed ==> final(self).states() == old(self).states().push(session.state()),
            r == StorageCommit::Conflict ==> final(self).states() == old(self).states(),
    {
        let by_id = self.position_by_id(session.session_id());
        let by_key = self.position_by_key(&session.create().idempotency_key);
        if by_id.is_some() || by_key.is_some() {
            return StorageCommit::Conflict;
        }
        let ghost before = self.sessions@;
        self.sessions.push(session);
        proof {
            assert(self.states() =~= before.map_values(|x: StoredSessionV1| x.state()).push(session.state()));
            assert forall|i: int, j: int| 0 <= i < j < self.states().len() implies {
                &&& (#[trigger] self.states()[i]).session_id@ != (#[trigger] self.states()[j]).session_id@
                &&& self.states()[i].create.idempotency_key@ != self.states()[j].create.idempotency_key@
            } by {
                if j < self.states().len() - 1 {
                    assert(self.states()[i] == old(self).states()[i]);
                    assert(self.states()[j] == old(self).states()[j]);
                } else {
                    assert(self.states()[i] == old(self).states()[i]);
                }
            }
        }
        StorageCommit::Committed
    }

    /// Replaces the session with the same ID when it is still at
    /// `expected_revision` and was created under the same idempotency key.
    pub fn replace(&mut self, expected_revision: u64, session: StoredSessionV1) -> (r: StorageCommit)
        requires
            old(self).wf(),
        ensures
            final(self).wf(),
            (r == StorageCommit::Committed) <==> exists|k: int| 0 <= k < old(self).states().len()
                && (#[trigger] old(self).states()[k]).session_id@ == session.state().session_id@
                && old(self).states()[k].revision == expected_revision
                && old(self).states()[k].create.idempotency_key@ == session.state().create.idempotency_key@,
            r == StorageCommit::Committed ==> exists|k: int| 0 <= k < old(self).states().len()
                && (#[trigger] old(self).states()[k]).session_id@ == session.state().session_id@
                && old(self).states()[k].revision == expected_revision
                && old(self).states()[k].create.idempotency_key@ == session.state().create.idempotency_key@
                && final(self).states() == old(self).states().update(k, session.state()),
            r == StorageCommit::Conflict ==> final(self).states() == old(self).states(),
    {
        match self.position_by_id(session.session_id()) {
            None => StorageCommit::Conflict,
            Some(k) => {
                if self.sessions[k].revision() != expected_revision
                    || self.sessions[k].create().idempotency_key != session.create().idempotency_key {
                    proof {
                        assert forall|k2: int| 0 <= k2 < self.states().len()
                            && (#[trigger] self.states()[k2]).session_id@ == session.state().session_id@ implies k2 == k by {
                            if k2 < k {
                                assert(self.states()[k2].session_id@ != self.states()[k as int].session_id@);
                            } else if k2 > k {
                                assert(self.states()[k as int].session_id@ != self.states()[k2].session_id@);
                            }
                        }
                        assert(self.states()[k as int] == self.sessions@[k as int].state());
                    }
                    return StorageCommit::Conflict;
                }
                assert(self.states()[k as int] == self.sessions@[k as int].state());
                let ghost before = self.sessions@;
                self.sessions.set(k, session);
                proof {
                    assert(self.states() =~= before.map_values(|x: StoredSessionV1| x.state()).update(k as int, session.state()));
                    assert forall|i: int, j: int| 0 <= i < j < self.states().len() implies {
                        &&& (#[trigger] self.states()[i]).session_id@ != (#[trigger] self.states()[j]).session_id@
                        &&& self.states()[i].create.idempotency_key@ != self.states()[j].create.idempotency_key@
                    } by {
                        assert(old(self).states()[i].session_id@ != old(self).states()[j].session_id@);
                    }
                }
                StorageCommit::Committed
            },
        }
    }
}

/// What a create does with the session that storage holds under the
/// create's idempotency key.
#[derive(Debug, Clone, PartialEq, Eq)]
pub enum CreateKeyUse {
    /// No stored session holds the key: the session is created.
    Unused,
    /// The key belongs to the session being created, stored meanwhile: the
    /// create is answered from that session.
    SameSession,
    /// The key belongs to another session: the create is refused, and
    /// nothing is stored.
    OtherSession { existing_session_id: SessionId },
}

/// Decides a create from the session found under its idempotency key.
pub fn create_key_use(message: &ClientMessageV1, by_key: Option<&StoredSessionV1>) -> (r: CreateKeyUse)
    ensures
        (match by_key {
            None => r == CreateKeyUse::Unused,
            Some(found) => if found.state().session_id@ == message.session_id@ {
                r == CreateKeyUse::SameSession
            } else {
                r matches CreateKeyUse::OtherSession { existing_session_id } && existing_session_id@ == found.state().session_id@
            },
        }),
{
    match by_key {
        None => CreateKeyUse::Unused,
        Some(found) => {
            if found.session_id().0 == message.session_id.0 {
                CreateKeyUse::SameSession
            } else {
                CreateKeyUse::OtherSession { existing_session_id: SessionId(found.session_id().0.clone()) }
            }
        },
    }
}

/// Transport-neutral runtime over a persistence seam.
#[derive(Debug)]
pub struct MeetingRuntime<S> {
    storage: S,
}

impl<S: MeetingRuntimeStorage> MeetingRuntime<S> {
    pub fn new(storage: S) -> (r: Self)
        ensures
            r.storage_view() == storage,
    {
        MeetingRuntime { storage }
    }

    pub closed spec fn storage_view(&self) -> S {
        self.storage
    }

    pub fn storage(&self) -> (r: &S)
        ensures
            *r == self.storage_view(),
    {
        &self.storage
    }

    pub fn into_storage(self) -> (r: S)
        ensures
            r == self.storage_view(),
    {
        self.storage
    }

    /// Validates a command and applies it: a create starts a session, any
    /// other command goes to the stored session it names.
    pub fn handle(&self, message: ClientMessageV1) -> (r: Result<RuntimeResponseV1, RuntimeError<S::Error>>)
        ensures
            r matches Err(RuntimeError::InvalidMessage(_)) <==> !client_message_ok(message),
            r matches Ok(resp) ==> (message.body is CreateSession ==> created_response(message, resp) || answers_existing(message, resp))
                && (!(message.body is CreateSession) ==> answers_existing(message, resp)),
            r matches Err(RuntimeError::UnknownSession(id)) ==> id@ == message.session_id@,
            r matches Err(RuntimeError::CreateIdempotencyConflict { idempotency_key, existing_session_id }) ==> (message.body
                matches ClientMessageBodyV1::CreateSession(c) && idempotency_key@ == c.idempotency_key@ && existing_session_id@
                != message.session_id@),
    {
        match message.validate() {
            Err(e) => return Err(RuntimeError::InvalidMessage(e)),
            Ok(()) => {},
        }
        match &message.body {
            ClientMessageBodyV1::CreateSession(create) => self.handle_create(&message, create),
            _ => self.handle_existing(&message),
        }
    }

    fn handle_create(&self, message: &ClientMessageV1, create: &CreateSessionV1) -> (r: Result<RuntimeResponseV1, RuntimeError<S::Error>>)
        requires
            client_message_ok(*message),
            message.body == ClientMessageBodyV1::CreateSession(*create),
        ensures
            !(r matches Err(RuntimeError::InvalidMessage(_))),
            r matches Ok(resp) ==> created_response(*message, resp) || answers_existing(*message, resp),
            r matches Err(RuntimeError::UnknownSession(id)) ==> id@ == message.session_id@,
            r matches Err(RuntimeError::CreateIdempotencyConflict { idempotency_key, existing_session_id }) ==> idempotency_key@
                == create.idempotency_key@ && existing_session_id@ != message.session_id@,
    {
        let mut attempt: usize = 0;
        while attempt < MAX_COMMIT_ATTEMPTS
            invariant
                client_message_ok(*message),
                message.body == ClientMessageBodyV1::CreateSession(*create),
            decreases MAX_COMMIT_ATTEMPTS - attempt,
        {
            attempt = attempt + 1;
            match self.storage.load_session(&message.session_id) {
                Err(e) => return Err(RuntimeError::Storage(e)),
                Ok(Some(_)) => return self.handle_existing(message),
                Ok(None) => {},
            }
            match self.storage.load_session_by_create_idempotency_key(create.idempotency_key.as_str()) {
                Err(e) => return Err(RuntimeError::Storage(e)),
                Ok(found) => {
                    let decided = match &found {
                        None => create_key_use(message, None),
                        Some(existing) => create_key_use(message, Some(existing)),
                    };
                    match decided {
                        CreateKeyUse::Unused => {},
                        CreateKeyUse::SameSession => continue,
                        CreateKeyUse::OtherSession { existing_session_id } => {
                            return Err(RuntimeError::CreateIdempotencyConflict {
                                idempotency_key: create.idempotency_key.clone(),
                                existing_session_id,
                            });
                        },
                    }
                },
            }
            let (session, messages) = new_session(message, create);
            let ghost fresh = session.state();
            match self.storage.create_session(session) {
                Err(e) => return Err(RuntimeError::Storage(e)),
                Ok(StorageCommit::Committed) => {
                    let resp = RuntimeResponseV1 { messages, idempotent_replay: false };
                    proof {
                        assert(copies_range(fresh.events@, SequenceRangeV1 { start: 0, end_exclusive: 1 }, resp.messages@));
                        assert(created_response(*message, resp));
                    }
                    return Ok(resp);
                },
                Ok(StorageCommit::Conflict) => {},
            }
        }
        Err(RuntimeError::Contention)
    }

    fn handle_existing(&self, message: &ClientMessageV1) -> (r: Result<RuntimeResponseV1, RuntimeError<S::Error>>)
        requires
            client_message_ok(*message),
        ensures
            !(r matches Err(RuntimeError::InvalidMessage(_))),
            !(r matches Err(RuntimeError::CreateIdempotencyConflict { .. })),
            r matches Ok(resp) ==> answers_existing(*message, resp),
            r matches Err(RuntimeError::UnknownSession(id)) ==> id@ == message.session_id@,
    {
        let mut attempt: usize = 0;
        while attempt < MAX_COMMIT_ATTEMPTS
            invariant
                client_message_ok(*message),
            decreases MAX_COMMIT_ATTEMPTS - attempt,
        {
            attempt = attempt + 1;
            let session = match self.storage.load_session(&message.session_id) {
                Err(e) => return Err(RuntimeError::Storage(e)),
                Ok(None) => return Err(RuntimeError::UnknownSession(SessionId(message.session_id.0.clone()))),
                Ok(Some(session)) => session,
            };
            let ghost loaded = session.state();
            let applied = apply_existing(session, message);
            let ghost decided = applied;
            match applied {
                Applied::Answer(response) => {
                    proof {
                        assert(applied_ok(loaded, *message, decided));
                        assert(response_of(decided) == Some(response));
                    }
                    return Ok(response);
                },
                Applied::Exhausted => return Err(RuntimeError::Contention),
                Applied::Commit { expected_revision, session, response } => {
                    proof {
                        assert(applied_ok(loaded, *message, decided));
                        assert(response_of(decided) == Some(response));
                    }
                    match self.storage.replace_session(expected_revision, session) {
                        Err(e) => return Err(RuntimeError::Storage(e)),
                        Ok(StorageCommit::Committed) => return Ok(response),
                        Ok(StorageCommit::Conflict) => {},
                    }
                },
            }
        }
        Err(RuntimeError::Contention)
    }
}

} // verus!
