//! In-process capture values and the unavailable provider.
use crate::domain::audio::{ArtifactDescriptor, ArtifactDestination, AudioLane};
use crate::domain::ids::{CaptureDeviceId, CaptureOperationId, SegmentId, SessionId};
use vstd::prelude::*;

verus! {

/// Static capabilities reported before attempting capture.
#[derive(Debug, Clone, PartialEq, Eq)]
pub struct CaptureCapabilities {
    pub available: bool,
    pub supported_lanes: Vec<AudioLane>,
    pub supports_device_selection: bool,
    pub supports_live_pcm: bool,
    pub unavailable_reason: Option<String>,
}

impl CaptureCapabilities {
    /// Capabilities of a build that cannot capture, with the reason.
    pub fn unavailable(reason: String) -> (r: Self)
        ensures
            !r.available,
            r.supported_lanes@.len() == 0,
            !r.supports_device_selection,
            !r.supports_live_pcm,
            r.unavailable_reason matches Some(t) && t@ == reason@,
    {
        CaptureCapabilities {
            available: false,
            supported_lanes: Vec::new(),
            supports_device_selection: false,
            supports_live_pcm: false,
            unavailable_reason: Some(reason),
        }
    }
}

#[derive(Debug, Clone, Copy, PartialEq, Eq, Structural)]
pub enum CaptureDeviceKind {
    Input,
    System,
    Virtual,
}

/// Provider-opaque device descriptor.
#[derive(Debug, Clone, PartialEq, Eq)]
pub struct CaptureDevice {
    pub id: CaptureDeviceId,
    pub name: String,
    pub kind: CaptureDeviceKind,
    pub is_default: bool,
    pub is_available: bool,
}

#[derive(Debug, Clone, Copy, PartialEq, Eq, Structural)]
pub enum PermissionState {
    Unknown,
    NotDetermined,
    Granted,
    Denied,
    Restricted,
    Unavailable,
}

/// Inputs for starting one capture segment.
#[derive(Debug, Clone, PartialEq, Eq)]
pub struct CaptureRequest {
    pub session_id: SessionId,
    pub segment_id: SegmentId,
    pub operation_id: CaptureOperationId,
    pub lanes: Vec<AudioLane>,
    pub input_device_id: Option<CaptureDeviceId>,
    pub deliver_live_pcm: bool,
    pub destination: ArtifactDestination,
}

/// A command is paired with an idempotency key independent of its payload.
#[derive(Debug, Clone, PartialEq, Eq)]
pub struct CaptureCommand {
    pub operation_id: CaptureOperationId,
    /// Segment the caller observed when it issued this command.
    ///
    /// Providers reject a mismatch instead of allowing a delayed command to
    /// mutate a segment installed by a later resume operation.
    pub expected_segment_id: SegmentId,
    pub action: CaptureAction,
}

#[derive(Debug, Clone, PartialEq, Eq)]
pub enum CaptureAction {
    Pause,
    Resume { segment_id: SegmentId, destination: ArtifactDestination },
    SelectInput { device_id: CaptureDeviceId },
    RestartLane { lane: AudioLane },
    Finish,
    Cancel,
}

#[derive(Debug, Clone, Copy, PartialEq, Eq, Structural)]
pub enum CaptureCommandStatus {
    Applied,
    AlreadyApplied,
}

/// Terminal value for a completed capture command.
#[derive(Debug, Clone, PartialEq, Eq)]
pub struct CaptureCommandResult {
    pub operation_id: CaptureOperationId,
    pub status: CaptureCommandStatus,
    pub snapshot: CaptureSnapshot,
    pub completed_artifacts: Vec<ArtifactDescriptor>,
}

#[derive(Debug, Clone, Copy, PartialEq, Eq, Structural)]
pub enum CaptureState {
    Starting,
    Capturing,
    Paused,
    Finishing,
    Finished,
    Cancelled,
    Failed,
}

#[derive(Debug, Clone, Copy, PartialEq, Eq, Structural)]
pub enum CaptureLaneState {
    Starting,
    Active,
    Interrupted,
    Stopped,
    Failed,
}

/// Immutable telemetry for one logical lane.
#[derive(Debug, Clone, PartialEq, Eq)]
pub struct CaptureLaneSnapshot {
    pub lane: AudioLane,
    pub state: CaptureLaneState,
    pub generation: u64,
    pub delivered_frames: u64,
    pub durable_frames: u64,
    pub observed_signal: bool,
    pub dropped_live_frames: u64,
    pub dropped_durable_frames: u64,
    pub last_error_code: Option<CaptureErrorCode>,
}

/// Immutable state returned by a capture handle.
#[derive(Debug, Clone, PartialEq, Eq)]
pub struct CaptureSnapshot {
    pub session_id: SessionId,
    pub segment_id: SegmentId,
    pub state: CaptureState,
    pub lanes: Vec<CaptureLaneSnapshot>,
    pub timeline_reusable: bool,
}

#[derive(Debug, Clone, Copy, PartialEq, Eq, Structural)]
pub enum CaptureErrorCode {
    Unavailable,
    PermissionDenied,
    DeviceLost,
    OpenFailed,
    Stalled,
    WriterFailed,
    Cancelled,
    InvalidTransition,
    Internal,
}

#[derive(Debug, Clone, Copy, PartialEq, Eq, Structural)]
pub enum RetryAdvice {
    Retry,
    DoNotRetry,
    RequestPermission,
    SelectAnotherDevice,
}

/// Machine-stable capture failure plus presentation-neutral context.
#[derive(Debug, Clone, PartialEq, Eq)]
pub struct CaptureError {
    pub code: CaptureErrorCode,
    pub message: String,
    pub retry_advice: Option<RetryAdvice>,
}

impl CaptureError {
    /// Capture cannot happen in this build; retrying will not help.
    pub fn unavailable(message: String) -> (r: Self)
        ensures
            r.code == CaptureErrorCode::Unavailable,
            r.message@ == message@,
            r.retry_advice == Some(RetryAdvice::DoNotRetry),
    {
        CaptureError { code: CaptureErrorCode::Unavailable, message, retry_advice: Some(RetryAdvice::DoNotRetry) }
    }
}

/// A started capture: its state and the commands it takes.
pub trait CaptureHandle {
    fn snapshot(&self) -> Result<CaptureSnapshot, CaptureError>;

    fn command(&self, command: CaptureCommand) -> Result<CaptureCommandResult, CaptureError>;
}

/// Provider installed by public compositions that have no native capture.
#[derive(Debug, Clone)]
pub struct UnavailableCaptureProvider {
    reason: String,
}

impl UnavailableCaptureProvider {
    pub closed spec fn reason(&self) -> Seq<char> {
        self.reason@
    }

    pub fn new(reason: String) -> (r: Self)
        ensures
            r.reason() == reason@,
    {
        UnavailableCaptureProvider { reason }
    }

    fn error(&self) -> (r: CaptureError)
        ensures
            r.code == CaptureErrorCode::Unavailable,
            r.message@ == self.reason(),
            r.retry_advice == Some(RetryAdvice::DoNotRetry),
    {
        CaptureError::unavailable(self.reason.clone())
    }

    /// Reports that capture is unavailable, with the provider's reason.
    pub fn capabilities(&self) -> (r: CaptureCapabilities)
        ensures
            !r.available,
            r.supported_lanes@.len() == 0,
            r.unavailable_reason matches Some(t) && t@ == self.reason(),
    {
        CaptureCapabilities::unavailable(self.reason.clone())
    }

    pub fn devices(&self) -> (r: Result<Vec<CaptureDevice>, CaptureError>)
        ensures
            r matches Err(e) && e.code == CaptureErrorCode::Unavailable && e.message@ == self.reason(),
    {
        Err(self.error())
    }

    pub fn permission(&self, lane: AudioLane) -> (r: Result<PermissionState, CaptureError>)
        ensures
            r matches Err(e) && e.code == CaptureErrorCode::Unavailable && e.message@ == self.reason(),
    {
        Err(self.error())
    }

    pub fn request_permission(&self, lane: AudioLane) -> (r: Result<PermissionState, CaptureError>)
        ensures
            r matches Err(e) && e.code == CaptureErrorCode::Unavailable && e.message@ == self.reason(),
    {
        Err(self.error())
    }
}

impl Default for UnavailableCaptureProvider {
    fn default() -> (r: Self)
        ensures
            r.reason() == "capture is unavailable in this build"@,
    {
        UnavailableCaptureProvider::new("capture is unavailable in this build".to_owned())
    }
}

} // verus!
