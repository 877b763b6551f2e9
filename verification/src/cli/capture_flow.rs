//! The recording command (`margins`, `margins new`, `margins attach`) as a
//! state machine. The caller performs each action (ask the capture
//! provider, read or write the session store) and hands back what came of
//! it; the machine decides the next action. The provider starts before any
//! durable reservation, so a provider that fails to start leaves the store
//! untouched.
use crate::cli::decide::{finish_outcome, permission_outcome, scaled_ordinal, session_not_found};
use crate::cli::error::CliError;
use crate::domain::audio::{ArtifactDescriptor, AudioLane};
use crate::domain::capture::{CaptureError, CaptureErrorCode, CaptureState, PermissionState};
use vstd::prelude::*;

verus! {

/// Where the recording command stands.
#[derive(Debug, Clone, Copy, PartialEq, Eq, Structural)]
pub enum CapturePhase {
    Preflight,
    AwaitName,
    AwaitExists,
    AwaitPosition,
    AwaitLanes,
    AwaitPermission { index: usize, requested: bool },
    AwaitStart,
    StoreDir,
    StoreMemo,
    StoreSession,
    StoreTitle,
    StoreSegment,
    StoreCurrent,
    AwaitFinish,
    AwaitDuration,
    Registering { index: usize },
    Done,
    Failed,
}

/// Why the recording command failed.
#[derive(Debug, Clone, PartialEq, Eq)]
pub enum CaptureFailure {
    /// The provider cannot capture in this build.
    Unavailable,
    /// The session to attach to does not exist.
    SessionNotFound { name: String },
    /// A lane's permission ended in this state, not granted.
    Permission { state: PermissionState },
    /// The provider failed.
    Provider { error: CaptureError },
    /// The provider did not finish the segment.
    NotFinished,
    /// The session store failed.
    Store { error: CliError },
}

/// What came of the last action.
#[derive(Debug, Clone)]
pub enum CaptureEvent {
    Availability { available: bool },
    /// The session name allocated or read as current.
    NameChosen { name: String },
    SessionExists { exists: bool },
    /// The next segment ordinal of an existing session, and the time since
    /// it started.
    SegmentPosition { ordinal: i64, elapsed_ms: i64 },
    SupportedLanes { lanes: Vec<AudioLane> },
    Permission { state: PermissionState },
    Started,
    ProviderFailed { error: CaptureError },
    Stored,
    StoreFailed { error: CliError },
    Finished { capture_state: CaptureState, artifacts: Vec<ArtifactDescriptor> },
}

/// The next thing the caller does.
#[derive(Debug, Clone)]
pub enum CaptureAction {
    CheckAvailability,
    /// Allocate a unique name for a new session from the current time.
    AllocateName,
    CheckSessionExists { name: String },
    ReadCurrentSession,
    ReadSegmentPosition { name: String },
    QueryLanes,
    CheckPermission { lane: AudioLane },
    RequestPermission { lane: AudioLane },
    /// Start capturing segment `ordinal` of session `name` on the flow's
    /// lanes; the segment's names are those `segment_names` gives.
    Start { name: String, ordinal: i64 },
    CreateStoreDir,
    /// Write the empty memo at `memo_uri(name)`.
    WriteMemo { name: String },
    CreateSession { name: String },
    SetTitle { name: String, title: String },
    AppendSegment { name: String, ordinal: i64, offset_ms: i64 },
    WriteCurrentSession { name: String },
    Finish { name: String, ordinal: i64 },
    SetSegmentDuration { name: String, ordinal: i64, duration_ms: u64 },
    /// Register a captured artifact; its kind is `artifact_kind(lane)`.
    RegisterArtifact { name: String, artifact_lane: Option<AudioLane>, registry_ordinal: i64, uri: String },
    Complete,
    Fail { failure: CaptureFailure },
    /// The answer was not one the flow waits for; the flow is unchanged.
    Unexpected,
}

/// The recording command's state.
#[derive(Debug, Clone)]
pub struct CaptureFlow {
    pub phase: CapturePhase,
    /// Whether the provider has started; nothing is stored before.
    pub started: bool,
    pub create_new: bool,
    pub selected: Option<String>,
    pub title: Option<String>,
    pub name: String,
    pub ordinal: i64,
    pub offset_ms: i64,
    pub lanes_given: Vec<AudioLane>,
    pub artifacts: Vec<ArtifactDescriptor>,
    pub failure: Option<CaptureFailure>,
}

/// The lanes captured: those the provider supports, or both when it names none.
pub open spec fn flow_lanes(s: CaptureFlow) -> Seq<AudioLane> {
    if s.lanes_given@.len() == 0 { seq![AudioLane::Microphone, AudioLane::System] } else { s.lanes_given@ }
}

/// The longest duration among the first `n` artifacts.
pub open spec fn max_duration(a: Seq<ArtifactDescriptor>, n: int) -> u64
    decreases n,
{
    if n <= 0 {
        0
    } else {
        let rest = max_duration(a, n - 1);
        if a[n - 1].duration_ms.0 > rest { a[n - 1].duration_ms.0 } else { rest }
    }
}

/// The flow fits its arithmetic: the registry ordinals of its artifacts fit
/// in `i64`.
pub open spec fn flow_ok(s: CaptureFlow) -> bool {
    &&& (s.phase == CapturePhase::AwaitDuration || s.phase is Registering) ==> scaled_ordinal(s.ordinal) + s.artifacts@.len() <= i64::MAX
        && s.artifacts@.len() <= i64::MAX
    &&& (s.phase matches CapturePhase::AwaitPermission { index, .. } ==> index < flow_lanes(s).len())
    &&& (s.phase matches CapturePhase::Registering { index } ==> index < s.artifacts@.len())
    &&& (storing(s.phase) || s.phase == CapturePhase::AwaitFinish) ==> s.started
}

/// Actions that write the session store.
pub open spec fn is_store_action(a: CaptureAction) -> bool {
    match a {
        CaptureAction::CreateStoreDir => true,
        CaptureAction::WriteMemo { .. } => true,
        CaptureAction::CreateSession { .. } => true,
        CaptureAction::SetTitle { .. } => true,
        CaptureAction::AppendSegment { .. } => true,
        CaptureAction::WriteCurrentSession { .. } => true,
        CaptureAction::SetSegmentDuration { .. } => true,
        CaptureAction::RegisterArtifact { .. } => true,
        _ => false,
    }
}

pub open spec fn in_phase(s: CaptureFlow, phase: CapturePhase) -> CaptureFlow {
    CaptureFlow { phase, ..s }
}

pub open spec fn failed(s: CaptureFlow, failure: CaptureFailure) -> (CaptureFlow, CaptureAction) {
    (CaptureFlow { phase: CapturePhase::Failed, failure: Some(failure), ..s }, CaptureAction::Fail { failure })
}

/// The action for registering artifact `i`.
pub open spec fn register_action(s: CaptureFlow, i: int) -> CaptureAction {
    CaptureAction::RegisterArtifact {
        name: s.name,
        artifact_lane: s.artifacts@[i].lane,
        registry_ordinal: (scaled_ordinal(s.ordinal) + i) as i64,
        uri: s.artifacts@[i].uri,
    }
}

/// The step after the store has taken the session's segment, title or
/// current pointer.
pub open spec fn after_store(s: CaptureFlow) -> (CaptureFlow, CaptureAction) {
    match s.phase {
        CapturePhase::StoreDir => if s.create_new {
            (in_phase(s, CapturePhase::StoreMemo), CaptureAction::WriteMemo { name: s.name })
        } else {
            (in_phase(s, CapturePhase::StoreSegment), CaptureAction::AppendSegment { name: s.name, ordinal: s.ordinal, offset_ms: s.offset_ms })
        },
        CapturePhase::StoreMemo => (in_phase(s, CapturePhase::StoreSession), CaptureAction::CreateSession { name: s.name }),
        CapturePhase::StoreSession => match s.title {
            Some(t) => (in_phase(s, CapturePhase::StoreTitle), CaptureAction::SetTitle { name: s.name, title: t }),
            None => (in_phase(s, CapturePhase::StoreSegment), CaptureAction::AppendSegment { name: s.name, ordinal: s.ordinal, offset_ms: s.offset_ms }),
        },
        CapturePhase::StoreTitle => (in_phase(s, CapturePhase::StoreSegment), CaptureAction::AppendSegment { name: s.name, ordinal: s.ordinal, offset_ms: s.offset_ms }),
        CapturePhase::StoreSegment => (in_phase(s, CapturePhase::StoreCurrent), CaptureAction::WriteCurrentSession { name: s.name }),
        CapturePhase::StoreCurrent => (in_phase(s, CapturePhase::AwaitFinish), CaptureAction::Finish { name: s.name, ordinal: s.ordinal }),
        CapturePhase::AwaitDuration => if s.artifacts@.len() > 0 {
            (in_phase(s, CapturePhase::Registering { index: 0 }), register_action(s, 0))
        } else {
            (in_phase(s, CapturePhase::Done), CaptureAction::Complete)
        },
        CapturePhase::Registering { index } => if index + 1 < s.artifacts@.len() {
            (in_phase(s, CapturePhase::Registering { index: (index + 1) as usize }), register_action(s, index + 1))
        } else {
            (in_phase(s, CapturePhase::Done), CaptureAction::Complete)
        },
        _ => (s, CaptureAction::Unexpected),
    }
}

/// Asks for lane `i`'s permission, or starts the provider once every lane
/// is granted.
pub open spec fn next_lane(s: CaptureFlow, i: int) -> (CaptureFlow, CaptureAction) {
    if i < flow_lanes(s).len() {
        (in_phase(s, CapturePhase::AwaitPermission { index: i as usize, requested: false }), CaptureAction::CheckPermission { lane: flow_lanes(s)[i] })
    } else {
        (in_phase(s, CapturePhase::AwaitStart), CaptureAction::Start { name: s.name, ordinal: s.ordinal })
    }
}

/// The store phases, where a store failure ends the flow.
pub open spec fn storing(p: CapturePhase) -> bool {
    p == CapturePhase::StoreDir || p == CapturePhase::StoreMemo || p == CapturePhase::StoreSession || p == CapturePhase::StoreTitle
        || p == CapturePhase::StoreSegment || p == CapturePhase::StoreCurrent || p == CapturePhase::AwaitDuration
        || p is Registering
}

/// The recording command's decision for each answer; an answer the phase
/// does not wait for leaves the flow as it is and asks for nothing new.
pub open spec fn capture_next(s: CaptureFlow, e: CaptureEvent) -> (CaptureFlow, CaptureAction) {
    match (s.phase, e) {
        (CapturePhase::Preflight, CaptureEvent::Availability { available }) => if !available {
            failed(s, CaptureFailure::Unavailable)
        } else if s.create_new {
            (in_phase(s, CapturePhase::AwaitName), CaptureAction::AllocateName)
        } else {
            match s.selected {
                Some(n) => (in_phase(s, CapturePhase::AwaitExists), CaptureAction::CheckSessionExists { name: n }),
                None => (in_phase(s, CapturePhase::AwaitName), CaptureAction::ReadCurrentSession),
            }
        },
        (CapturePhase::AwaitName, CaptureEvent::NameChosen { name }) => if s.create_new {
            (CaptureFlow { phase: CapturePhase::AwaitLanes, name, ordinal: 0, offset_ms: 0, ..s }, CaptureAction::QueryLanes)
        } else {
            (CaptureFlow { phase: CapturePhase::AwaitPosition, name, ..s }, CaptureAction::ReadSegmentPosition { name })
        },
        (CapturePhase::AwaitExists, CaptureEvent::SessionExists { exists }) => match s.selected {
            Some(n) => if exists {
                (CaptureFlow { phase: CapturePhase::AwaitPosition, name: n, ..s }, CaptureAction::ReadSegmentPosition { name: n })
            } else {
                failed(s, CaptureFailure::SessionNotFound { name: n })
            },
            None => (s, CaptureAction::Unexpected),
        },
        (CapturePhase::AwaitPosition, CaptureEvent::SegmentPosition { ordinal, elapsed_ms }) => (
            CaptureFlow { phase: CapturePhase::AwaitLanes, ordinal, offset_ms: if elapsed_ms > 0 { elapsed_ms } else { 0 }, ..s },
            CaptureAction::QueryLanes,
        ),
        (CapturePhase::AwaitLanes, CaptureEvent::SupportedLanes { lanes }) => next_lane(CaptureFlow { lanes_given: lanes, ..s }, 0),
        (CapturePhase::AwaitPermission { index, requested }, CaptureEvent::Permission { state }) => if !requested
            && state == PermissionState::NotDetermined {
            (in_phase(s, CapturePhase::AwaitPermission { index, requested: true }), CaptureAction::RequestPermission { lane: flow_lanes(s)[index as int] })
        } else if state == PermissionState::Granted {
            next_lane(s, index + 1)
        } else {
            failed(s, CaptureFailure::Permission { state })
        },
        (CapturePhase::AwaitPermission { .. }, CaptureEvent::ProviderFailed { error }) => failed(s, CaptureFailure::Provider { error }),
        (CapturePhase::AwaitStart, CaptureEvent::Started) => (
            CaptureFlow { phase: CapturePhase::StoreDir, started: true, ..s },
            CaptureAction::CreateStoreDir,
        ),
        (CapturePhase::AwaitStart, CaptureEvent::ProviderFailed { error }) => failed(s, CaptureFailure::Provider { error }),
        (CapturePhase::AwaitFinish, CaptureEvent::Finished { capture_state, artifacts }) => if capture_state == CaptureState::Finished {
            let t = CaptureFlow { phase: CapturePhase::AwaitDuration, artifacts, ..s };
            (t, CaptureAction::SetSegmentDuration { name: s.name, ordinal: s.ordinal, duration_ms: max_duration(artifacts@, artifacts@.len() as int) })
        } else {
            failed(s, CaptureFailure::NotFinished)
        },
        (CapturePhase::AwaitFinish, CaptureEvent::ProviderFailed { error }) => failed(s, CaptureFailure::Provider { error }),
        (p, CaptureEvent::Stored) => if storing(p) { after_store(s) } else { (s, CaptureAction::Unexpected) },
        (p, CaptureEvent::StoreFailed { error }) => if storing(p) { failed(s, CaptureFailure::Store { error }) } else { (s, CaptureAction::Unexpected) },
        _ => (s, CaptureAction::Unexpected),
    }
}

impl CaptureFlow {
    /// The first step of the recording command: check that the provider can
    /// capture. `create_new` starts a new session (titled `title`);
    /// otherwise the command attaches to `selected` or to the current
    /// session.
    pub fn begin(create_new: bool, selected: Option<String>, title: Option<String>) -> (r: (CaptureFlow, CaptureAction))
        ensures
            r.0.phase == CapturePhase::Preflight,
            !r.0.started,
            r.0.create_new == create_new,
            r.0.selected == selected,
            r.0.title == title,
            r.0.artifacts@.len() == 0,
            r.0.failure is None,
            flow_ok(r.0),
            r.1 == CaptureAction::CheckAvailability,
    {
        (CaptureFlow {
            phase: CapturePhase::Preflight,
            started: false,
            create_new,
            selected,
            title,
            name: String::new(),
            ordinal: 0,
            offset_ms: 0,
            lanes_given: Vec::new(),
            artifacts: Vec::new(),
            failure: None,
        }, CaptureAction::CheckAvailability)
    }

    /// The lanes the provider is asked to capture.
    pub fn lanes(&self) -> (r: Vec<AudioLane>)
        ensures
            r@ == flow_lanes(*self),
    {
        let mut r: Vec<AudioLane> = Vec::new();
        if self.lanes_given.len() == 0 {
            r.push(AudioLane::Microphone);
            r.push(AudioLane::System);
            return r;
        }
        let mut i: usize = 0;
        while i < self.lanes_given.len()
            invariant
                i <= self.lanes_given.len(),
                r@ == self.lanes_given@.take(i as int),
            decreases self.lanes_given.len() - i,
        {
            r.push(self.lanes_given[i]);
            assert(self.lanes_given@.take(i + 1) =~= self.lanes_given@.take(i as int).push(self.lanes_given@[i as int]));
            i = i + 1;
        }
        assert(self.lanes_given@.take(self.lanes_given.len() as int) =~= self.lanes_given@);
        r
    }

    fn lane_at(&self, i: usize) -> (r: AudioLane)
        requires
            i < flow_lanes(*self).len(),
        ensures
            r == flow_lanes(*self)[i as int],
    {
        if self.lanes_given.len() == 0 {
            if i == 0 { AudioLane::Microphone } else { AudioLane::System }
        } else {
            self.lanes_given[i]
        }
    }

    fn lane_count(&self) -> (r: usize)
        ensures
            r == flow_lanes(*self).len(),
    {
        if self.lanes_given.len() == 0 { 2 } else { self.lanes_given.len() }
    }
}

fn longest(a: &Vec<ArtifactDescriptor>) -> (r: u64)
    ensures
        r == max_duration(a@, a@.len() as int),
{
    let mut m: u64 = 0;
    let mut i: usize = 0;
    while i < a.len()
        invariant
            i <= a.len(),
            m == max_duration(a@, i as int),
        decreases a.len() - i,
    {
        if a[i].duration_ms.0 > m {
            m = a[i].duration_ms.0;
        }
        i = i + 1;
    }
    m
}

fn fail(s: CaptureFlow, failure: CaptureFailure) -> (r: (CaptureFlow, CaptureAction))
    ensures
        r == failed(s, failure),
{
    let f2 = match &failure {
        CaptureFailure::Unavailable => CaptureFailure::Unavailable,
        CaptureFailure::SessionNotFound { name } => CaptureFailure::SessionNotFound { name: name.clone() },
        CaptureFailure::Permission { state } => CaptureFailure::Permission { state: *state },
        CaptureFailure::Provider { error } => CaptureFailure::Provider { error: copy_capture_error(error) },
        CaptureFailure::NotFinished => CaptureFailure::NotFinished,
        CaptureFailure::Store { error } => CaptureFailure::Store { error: error.copy() },
    };
    (CaptureFlow { phase: CapturePhase::Failed, failure: Some(failure), ..s }, CaptureAction::Fail { failure: f2 })
}

fn copy_capture_error(e: &CaptureError) -> (r: CaptureError)
    ensures
        r == *e,
{
    CaptureError { code: e.code, message: e.message.clone(), retry_advice: e.retry_advice }
}

fn register(s: &CaptureFlow, i: usize) -> (r: CaptureAction)
    requires
        i < s.artifacts@.len(),
        s.artifacts@.len() <= i64::MAX,
        scaled_ordinal(s.ordinal) + s.artifacts@.len() <= i64::MAX,
    ensures
        r == register_action(*s, i as int),
{
    let scaled: i64 = if s.ordinal > i64::MAX / 10 {
        i64::MAX
    } else if s.ordinal < i64::MIN / 10 {
        i64::MIN
    } else {
        s.ordinal * 10
    };
    assert(scaled == scaled_ordinal(s.ordinal));
    CaptureAction::RegisterArtifact {
        name: s.name.clone(),
        artifact_lane: s.artifacts[i].lane,
        registry_ordinal: scaled + i as i64,
        uri: s.artifacts[i].uri.clone(),
    }
}

fn store_step(s: CaptureFlow) -> (r: (CaptureFlow, CaptureAction))
    requires
        flow_ok(s),
        storing(s.phase),
    ensures
        r == after_store(s),
{
    match s.phase {
        CapturePhase::StoreDir => if s.create_new {
            let a = CaptureAction::WriteMemo { name: s.name.clone() };
            (CaptureFlow { phase: CapturePhase::StoreMemo, ..s }, a)
        } else {
            let a = CaptureAction::AppendSegment { name: s.name.clone(), ordinal: s.ordinal, offset_ms: s.offset_ms };
            (CaptureFlow { phase: CapturePhase::StoreSegment, ..s }, a)
        },
        CapturePhase::StoreMemo => {
            let a = CaptureAction::CreateSession { name: s.name.clone() };
            (CaptureFlow { phase: CapturePhase::StoreSession, ..s }, a)
        },
        CapturePhase::StoreSession => match &s.title {
            Some(t) => {
                let a = CaptureAction::SetTitle { name: s.name.clone(), title: t.clone() };
                (CaptureFlow { phase: CapturePhase::StoreTitle, ..s }, a)
            },
            None => {
                let a = CaptureAction::AppendSegment { name: s.name.clone(), ordinal: s.ordinal, offset_ms: s.offset_ms };
                (CaptureFlow { phase: CapturePhase::StoreSegment, ..s }, a)
            },
        },
        CapturePhase::StoreTitle => {
            let a = CaptureAction::AppendSegment { name: s.name.clone(), ordinal: s.ordinal, offset_ms: s.offset_ms };
            (CaptureFlow { phase: CapturePhase::StoreSegment, ..s }, a)
        },
        CapturePhase::StoreSegment => {
            let a = CaptureAction::WriteCurrentSession { name: s.name.clone() };
            (CaptureFlow { phase: CapturePhase::StoreCurrent, ..s }, a)
        },
        CapturePhase::StoreCurrent => {
            let a = CaptureAction::Finish { name: s.name.clone(), ordinal: s.ordinal };
            (CaptureFlow { phase: CapturePhase::AwaitFinish, ..s }, a)
        },
        CapturePhase::AwaitDuration => if s.artifacts.len() > 0 {
            let a = register(&s, 0);
            (CaptureFlow { phase: CapturePhase::Registering { index: 0 }, ..s }, a)
        } else {
            (CaptureFlow { phase: CapturePhase::Done, ..s }, CaptureAction::Complete)
        },
        CapturePhase::Registering { index } => if index < s.artifacts.len() - 1 {
            let a = register(&s, index + 1);
            (CaptureFlow { phase: CapturePhase::Registering { index: index + 1 }, ..s }, a)
        } else {
            (CaptureFlow { phase: CapturePhase::Done, ..s }, CaptureAction::Complete)
        },
        _ => (s, CaptureAction::Unexpected),
    }
}

fn is_storing(p: CapturePhase) -> (r: bool)
    ensures
        r == storing(p),
{
    match p {
        CapturePhase::StoreDir | CapturePhase::StoreMemo | CapturePhase::StoreSession | CapturePhase::StoreTitle
        | CapturePhase::StoreSegment | CapturePhase::StoreCurrent | CapturePhase::AwaitDuration => true,
        CapturePhase::Registering { .. } => true,
        _ => false,
    }
}

fn next_lane_step(s: CaptureFlow, i: usize) -> (r: (CaptureFlow, CaptureAction))
    requires
        i <= flow_lanes(s).len(),
    ensures
        r == next_lane(s, i as int),
{
    if i < s.lane_count() {
        let lane = s.lane_at(i);
        (CaptureFlow { phase: CapturePhase::AwaitPermission { index: i, requested: false }, ..s }, CaptureAction::CheckPermission { lane })
    } else {
        let a = CaptureAction::Start { name: s.name.clone(), ordinal: s.ordinal };
        (CaptureFlow { phase: CapturePhase::AwaitStart, ..s }, a)
    }
}

/// One decision of the recording command: the flow after an answer, and
/// the next action.
pub fn capture_step(state: CaptureFlow, event: CaptureEvent) -> (r: (CaptureFlow, CaptureAction))
    requires
        flow_ok(state),
        event matches CaptureEvent::Finished { artifacts, .. } ==> scaled_ordinal(state.ordinal) + artifacts@.len() <= i64::MAX
            && artifacts@.len() <= i64::MAX,
    ensures
        r == capture_next(state, event),
        flow_ok(r.0),
{
    let s = state;
    match (s.phase, event) {
        (CapturePhase::Preflight, CaptureEvent::Availability { available }) => if !available {
            fail(s, CaptureFailure::Unavailable)
        } else if s.create_new {
            (CaptureFlow { phase: CapturePhase::AwaitName, ..s }, CaptureAction::AllocateName)
        } else {
            match &s.selected {
                Some(n) => {
                    let a = CaptureAction::CheckSessionExists { name: n.clone() };
                    (CaptureFlow { phase: CapturePhase::AwaitExists, ..s }, a)
                },
                None => (CaptureFlow { phase: CapturePhase::AwaitName, ..s }, CaptureAction::ReadCurrentSession),
            }
        },
        (CapturePhase::AwaitName, CaptureEvent::NameChosen { name }) => if s.create_new {
            (CaptureFlow { phase: CapturePhase::AwaitLanes, name, ordinal: 0, offset_ms: 0, ..s }, CaptureAction::QueryLanes)
        } else {
            let a = CaptureAction::ReadSegmentPosition { name: name.clone() };
            (CaptureFlow { phase: CapturePhase::AwaitPosition, name, ..s }, a)
        },
        (CapturePhase::AwaitExists, CaptureEvent::SessionExists { exists }) => match &s.selected {
            Some(n) => if exists {
                let a = CaptureAction::ReadSegmentPosition { name: n.clone() };
                let name = n.clone();
                (CaptureFlow { phase: CapturePhase::AwaitPosition, name, ..s }, a)
            } else {
                let f = CaptureFailure::SessionNotFound { name: n.clone() };
                fail(s, f)
            },
            None => (s, CaptureAction::Unexpected),
        },
        (CapturePhase::AwaitPosition, CaptureEvent::SegmentPosition { ordinal, elapsed_ms }) => {
            let offset_ms = if elapsed_ms > 0 { elapsed_ms } else { 0 };
            (CaptureFlow { phase: CapturePhase::AwaitLanes, ordinal, offset_ms, ..s }, CaptureAction::QueryLanes)
        },
        (CapturePhase::AwaitLanes, CaptureEvent::SupportedLanes { lanes }) => next_lane_step(CaptureFlow { lanes_given: lanes, ..s }, 0),
        (CapturePhase::AwaitPermission { index, requested }, CaptureEvent::Permission { state }) => if !requested
            && state == PermissionState::NotDetermined {
            let lane = s.lane_at(index);
            (CaptureFlow { phase: CapturePhase::AwaitPermission { index, requested: true }, ..s }, CaptureAction::RequestPermission { lane })
        } else if state == PermissionState::Granted {
            let count = s.lane_count();
            assert(index < count);
            next_lane_step(s, index + 1)
        } else {
            fail(s, CaptureFailure::Permission { state })
        },
        (CapturePhase::AwaitPermission { .. }, CaptureEvent::ProviderFailed { error }) => fail(s, CaptureFailure::Provider { error }),
        (CapturePhase::AwaitStart, CaptureEvent::Started) => (
            CaptureFlow { phase: CapturePhase::StoreDir, started: true, ..s },
            CaptureAction::CreateStoreDir,
        ),
        (CapturePhase::AwaitStart, CaptureEvent::ProviderFailed { error }) => fail(s, CaptureFailure::Provider { error }),
        (CapturePhase::AwaitFinish, CaptureEvent::Finished { capture_state, artifacts }) => if capture_state == CaptureState::Finished {
            let duration_ms = longest(&artifacts);
            let a = CaptureAction::SetSegmentDuration { name: s.name.clone(), ordinal: s.ordinal, duration_ms };
            (CaptureFlow { phase: CapturePhase::AwaitDuration, artifacts, ..s }, a)
        } else {
            fail(s, CaptureFailure::NotFinished)
        },
        (CapturePhase::AwaitFinish, CaptureEvent::ProviderFailed { error }) => fail(s, CaptureFailure::Provider { error }),
        (p, CaptureEvent::Stored) => if is_storing(p) { store_step(s) } else { (s, CaptureAction::Unexpected) },
        (p, CaptureEvent::StoreFailed { error }) => if is_storing(p) { fail(s, CaptureFailure::Store { error }) } else { (s, CaptureAction::Unexpected) },
        (_, _) => (s, CaptureAction::Unexpected),
    }
}

impl CaptureFailure {
    /// The error the command ends with.
    pub fn error(&self) -> (r: CliError)
        ensures
            *self == CaptureFailure::Unavailable ==> r.code_view() == "capture_unavailable"@,
            self matches CaptureFailure::SessionNotFound { name } ==> r.code_view() == "session_not_found"@
                && r.message_view() == "Session '"@ + name@ + "' not found. Run `margins ls` to choose one."@,
            self matches CaptureFailure::Permission { state } ==> (state == PermissionState::Unavailable ==> r.code_view() == "capture_unavailable"@)
                && ((state == PermissionState::Denied || state == PermissionState::Restricted) ==> r.code_view() == "capture_permission_denied"@
                    && r.message_view() == "capture permission was denied"@)
                && ((state == PermissionState::Unknown || state == PermissionState::NotDetermined || state == PermissionState::Granted)
                    ==> r.code_view() == "capture_open_failed"@ && r.message_view() == "capture permission was not granted"@),
            self matches CaptureFailure::Provider { error } ==> (error.code == CaptureErrorCode::Unavailable ==> r.code_view() == "capture_unavailable"@)
                && (error.code == CaptureErrorCode::PermissionDenied ==> r.code_view() == "capture_permission_denied"@ && r.message_view() == error.message@)
                && (error.code == CaptureErrorCode::DeviceLost ==> r.code_view() == "capture_device_lost"@ && r.message_view() == error.message@)
                && (error.code != CaptureErrorCode::Unavailable && error.code != CaptureErrorCode::PermissionDenied
                    && error.code != CaptureErrorCode::DeviceLost ==> r.code_view() == "capture_open_failed"@ && r.message_view() == error.message@),
            *self == CaptureFailure::NotFinished ==> r.code_view() == "capture_open_failed"@
                && r.message_view() == "capture provider did not finish the segment"@,
            self matches CaptureFailure::Store { error } ==> r == *error,
    {
        match self {
            CaptureFailure::Unavailable => CliError::capture_unavailable(),
            CaptureFailure::SessionNotFound { name } => session_not_found(name.as_str()),
            CaptureFailure::Permission { state } => match permission_outcome(*state) {
                Err(e) => e,
                Ok(()) => CliError::new("capture_open_failed", "capture permission was not granted".to_owned()),
            },
            CaptureFailure::Provider { error } => CliError::capture(copy_capture_error(error)),
            CaptureFailure::NotFinished => match finish_outcome(CaptureState::Failed) {
                Err(e) => e,
                Ok(()) => CliError::new("capture_open_failed", "capture provider did not finish the segment".to_owned()),
            },
            CaptureFailure::Store { error } => error.copy(),
        }
    }
}

/// No store action before the provider started: an action that writes the
/// store comes only from a started flow, and a flow is started only once
/// the provider answered that it started. So a provider that fails to start
/// leaves the store untouched.
pub proof fn law_nothing_stored_before_start(s: CaptureFlow, e: CaptureEvent)
    requires
        flow_ok(s),
    ensures
        is_store_action(capture_next(s, e).1) ==> capture_next(s, e).0.started,
        capture_next(s, e).0.started ==> s.started || e is Started,
{
}

/// The actions the flow asks for, answer by answer, from `s`.
pub open spec fn flow_actions(s: CaptureFlow, events: Seq<CaptureEvent>) -> Seq<CaptureAction>
    decreases events.len(),
{
    if events.len() == 0 {
        Seq::empty()
    } else {
        let (t, a) = capture_next(s, events[0]);
        seq![a] + flow_actions(t, events.drop_first())
    }
}

/// A flow that has not started the provider and waits on no store write.
pub open spec fn before_start(s: CaptureFlow) -> bool {
    !s.started && !storing(s.phase) && s.phase != CapturePhase::AwaitFinish
}

proof fn lemma_no_store_before_start(s: CaptureFlow, events: Seq<CaptureEvent>)
    requires
        before_start(s),
        forall|k: int| 0 <= k < events.len() ==> !(#[trigger] events[k] is Started),
    ensures
        forall|k: int| 0 <= k < flow_actions(s, events).len() ==> !is_store_action(#[trigger] flow_actions(s, events)[k]),
        flow_actions(s, events).len() == events.len(),
    decreases events.len(),
{
    if events.len() > 0 {
        let (t, a) = capture_next(s, events[0]);
        assert(!(events[0] is Started));
        assert(before_start(t) && !is_store_action(a));
        let rest = events.drop_first();
        assert forall|k: int| 0 <= k < rest.len() implies !(#[trigger] rest[k] is Started) by {
            assert(rest[k] == events[k + 1]);
        }
        lemma_no_store_before_start(t, rest);
        let all = flow_actions(s, events);
        assert(all == seq![a] + flow_actions(t, rest));
        assert forall|k: int| 0 <= k < all.len() implies !is_store_action(#[trigger] all[k]) by {
            if k > 0 {
                assert(all[k] == flow_actions(t, rest)[k - 1]);
            }
        }
    }
}

/// Until the provider answers that it started, whatever else comes back,
/// the recording command asks for no write to the session store: a
/// provider that fails to start leaves the store untouched.
pub proof fn law_failed_start_stores_nothing(s: CaptureFlow, events: Seq<CaptureEvent>)
    requires
        s.phase == CapturePhase::Preflight,
        !s.started,
        forall|k: int| 0 <= k < events.len() ==> !(#[trigger] events[k] is Started),
    ensures
        forall|k: int| 0 <= k < flow_actions(s, events).len() ==> !is_store_action(#[trigger] flow_actions(s, events)[k]),
{
    lemma_no_store_before_start(s, events);
}

proof fn lemma_max_duration_bounds(a: Seq<ArtifactDescriptor>, n: int)
    requires
        0 <= n <= a.len(),
    ensures
        forall|k: int| 0 <= k < n ==> (#[trigger] a[k]).duration_ms.0 <= max_duration(a, n),
        n == 0 ==> max_duration(a, n) == 0,
        n > 0 ==> exists|k: int| 0 <= k < n && (#[trigger] a[k]).duration_ms.0 == max_duration(a, n),
    decreases n,
{
    if n > 0 {
        lemma_max_duration_bounds(a, n - 1);
        if a[n - 1].duration_ms.0 <= max_duration(a, n - 1) && n > 1 {
            let k = choose|k: int| 0 <= k < n - 1 && (#[trigger] a[k]).duration_ms.0 == max_duration(a, n - 1);
            assert(a[k].duration_ms.0 == max_duration(a, n));
        } else {
            assert(a[n - 1].duration_ms.0 == max_duration(a, n));
        }
    }
}

/// A finished segment's duration is that of its longest artifact: no
/// artifact is longer, one of them is exactly as long, and it is zero when
/// the provider returned none.
pub proof fn law_segment_duration_is_longest_artifact(s: CaptureFlow, artifacts: Vec<ArtifactDescriptor>)
    requires
        s.phase == CapturePhase::AwaitFinish,
    ensures
        capture_next(s, CaptureEvent::Finished { capture_state: CaptureState::Finished, artifacts }).1 matches
            CaptureAction::SetSegmentDuration { duration_ms, .. } && {
            &&& forall|k: int| 0 <= k < artifacts@.len() ==> (#[trigger] artifacts@[k]).duration_ms.0 <= duration_ms
            &&& artifacts@.len() == 0 ==> duration_ms == 0
            &&& artifacts@.len() > 0 ==> exists|k: int| 0 <= k < artifacts@.len() && (#[trigger] artifacts@[k]).duration_ms.0 == duration_ms
        },
{
    lemma_max_duration_bounds(artifacts@, artifacts@.len() as int);
}

} // verus!
