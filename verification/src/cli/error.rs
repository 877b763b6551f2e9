//! Typed CLI failures with stable codes and process exit codes.
use crate::domain::capture::{CaptureError, CaptureErrorCode};
use crate::domain::transcript::{DiarizationError, DiarizationErrorCode, TranscriptError, TranscriptErrorCode};
use vstd::prelude::*;

verus! {

/// Exit code of a missing capability (`EX_UNAVAILABLE`).
pub const EX_UNAVAILABLE: i32 = 69;

#[derive(Debug, Clone, PartialEq, Eq)]
pub struct CliError {
    code: &'static str,
    message: String,
    exit_code: i32,
}

impl CliError {
    pub closed spec fn code_view(&self) -> Seq<char> {
        self.code@
    }

    pub closed spec fn message_view(&self) -> Seq<char> {
        self.message@
    }

    pub closed spec fn exit_view(&self) -> i32 {
        self.exit_code
    }

    /// An equal error.
    pub fn copy(&self) -> (r: Self)
        ensures
            r == *self,
    {
        CliError { code: self.code, message: self.message.clone(), exit_code: self.exit_code }
    }

    /// A failure with exit code 1.
    pub fn new(code: &'static str, message: String) -> (r: Self)
        ensures
            r.code_view() == code@,
            r.message_view() == message@,
            r.exit_view() == 1,
    {
        CliError { code, message, exit_code: 1 }
    }

    /// A missing capability, with exit code 69.
    pub fn unavailable(code: &'static str, message: String) -> (r: Self)
        ensures
            r.code_view() == code@,
            r.message_view() == message@,
            r.exit_view() == EX_UNAVAILABLE,
    {
        CliError { code, message, exit_code: EX_UNAVAILABLE }
    }

    /// A usage error, with code `usage` and exit code 2.
    pub fn usage(message: String) -> (r: Self)
        ensures
            r.code_view() == "usage"@,
            r.message_view() == message@,
            r.exit_view() == 2,
    {
        CliError { code: "usage", message, exit_code: 2 }
    }

    pub fn code(&self) -> (r: &'static str)
        ensures
            r@ == self.code_view(),
    {
        self.code
    }

    pub fn message(&self) -> (r: &str)
        ensures
            r@ == self.message_view(),
    {
        self.message.as_str()
    }

    pub fn exit_code(&self) -> (r: i32)
        ensures
            r == self.exit_view(),
    {
        self.exit_code
    }

    /// Maps a capture failure to its CLI code: unavailable capture, denied
    /// permission and a lost device have codes of their own; anything else
    /// failed to open.
    pub fn capture(error: CaptureError) -> (r: Self)
        ensures
            error.code == CaptureErrorCode::Unavailable ==> r.code_view() == "capture_unavailable"@
                && r.message_view() == "capture is unavailable in this build"@ && r.exit_view() == EX_UNAVAILABLE,
            error.code == CaptureErrorCode::PermissionDenied ==> r.code_view() == "capture_permission_denied"@
                && r.message_view() == error.message@ && r.exit_view() == 1,
            error.code == CaptureErrorCode::DeviceLost ==> r.code_view() == "capture_device_lost"@
                && r.message_view() == error.message@ && r.exit_view() == 1,
            error.code != CaptureErrorCode::Unavailable && error.code != CaptureErrorCode::PermissionDenied
                && error.code != CaptureErrorCode::DeviceLost ==> r.code_view() == "capture_open_failed"@
                && r.message_view() == error.message@ && r.exit_view() == 1,
    {
        match error.code {
            CaptureErrorCode::Unavailable => CliError::capture_unavailable(),
            CaptureErrorCode::PermissionDenied => CliError::new("capture_permission_denied", error.message),
            CaptureErrorCode::DeviceLost => CliError::new("capture_device_lost", error.message),
            _ => CliError::new("capture_open_failed", error.message),
        }
    }

    pub fn capture_unavailable() -> (r: Self)
        ensures
            r.code_view() == "capture_unavailable"@,
            r.message_view() == "capture is unavailable in this build"@,
            r.exit_view() == EX_UNAVAILABLE,
    {
        CliError::unavailable("capture_unavailable", "capture is unavailable in this build".to_owned())
    }

    pub fn asr_unavailable() -> (r: Self)
        ensures
            r.code_view() == "asr_unavailable"@,
            r.message_view() == "ASR is unavailable in this build"@,
            r.exit_view() == EX_UNAVAILABLE,
    {
        CliError::unavailable("asr_unavailable", "ASR is unavailable in this build".to_owned())
    }

    pub fn diarization_unavailable() -> (r: Self)
        ensures
            r.code_view() == "diarization_unavailable"@,
            r.message_view() == "diarization is unavailable in this build"@,
            r.exit_view() == EX_UNAVAILABLE,
    {
        CliError::unavailable("diarization_unavailable", "diarization is unavailable in this build".to_owned())
    }

    /// Maps an error chain, outermost cause first: the first transcription or
    /// diarization failure in it decides the code; with neither, the command
    /// failed with the error's own text.
    pub fn from_causes(causes: &[ErrorCause], display: String) -> (r: Self)
        ensures
            (r.code_view(), r.message_view(), r.exit_view()) == chain_outcome(causes@, display@),
    {
        let mut i: usize = 0;
        while i < causes.len()
            invariant
                i <= causes@.len(),
                forall|j: int| 0 <= j < i ==> (#[trigger] causes@[j]) is Other,
            decreases causes.len() - i,
        {
            match &causes[i] {
                ErrorCause::Transcript(error) => {
                    proof {
                        lemma_first_decides(causes@, display@, i as int);
                    }
                    return if error.code == TranscriptErrorCode::Unavailable {
                        CliError::asr_unavailable()
                    } else {
                        CliError::new("asr_failed", error.message.clone())
                    };
                },
                ErrorCause::Diarization(error) => {
                    proof {
                        lemma_first_decides(causes@, display@, i as int);
                    }
                    return if error.code == DiarizationErrorCode::Unavailable {
                        CliError::diarization_unavailable()
                    } else {
                        CliError::new("diarization_failed", error.message.clone())
                    };
                },
                ErrorCause::Other => {},
            }
            i = i + 1;
        }
        proof {
            lemma_no_typed_cause(causes@, display@);
        }
        CliError::new("command_failed", display)
    }
}

/// One link of an error chain, as far as the CLI distinguishes it.
#[derive(Debug, Clone, PartialEq, Eq)]
pub enum ErrorCause {
    Transcript(TranscriptError),
    Diarization(DiarizationError),
    Other,
}

/// Code, message and exit code for an error chain whose text is `display`.
pub open spec fn chain_outcome(causes: Seq<ErrorCause>, display: Seq<char>) -> (Seq<char>, Seq<char>, i32)
    decreases causes.len(),
{
    if causes.len() == 0 {
        ("command_failed"@, display, 1)
    } else {
        match causes[0] {
            ErrorCause::Transcript(e) => if e.code == TranscriptErrorCode::Unavailable {
                ("asr_unavailable"@, "ASR is unavailable in this build"@, EX_UNAVAILABLE)
            } else {
                ("asr_failed"@, e.message@, 1)
            },
            ErrorCause::Diarization(e) => if e.code == DiarizationErrorCode::Unavailable {
                ("diarization_unavailable"@, "diarization is unavailable in this build"@, EX_UNAVAILABLE)
            } else {
                ("diarization_failed"@, e.message@, 1)
            },
            ErrorCause::Other => chain_outcome(causes.drop_first(), display),
        }
    }
}

proof fn lemma_first_decides(causes: Seq<ErrorCause>, display: Seq<char>, i: int)
    requires
        0 <= i < causes.len(),
        forall|j: int| 0 <= j < i ==> (#[trigger] causes[j]) is Other,
    ensures
        chain_outcome(causes, display) == chain_outcome(causes.skip(i), display),
    decreases i,
{
    if i > 0 {
        assert(causes[0] is Other);
        assert(causes.skip(i) =~= causes.drop_first().skip(i - 1));
        assert forall|j: int| 0 <= j < i - 1 implies (#[trigger] causes.drop_first()[j]) is Other by {
            assert(causes.drop_first()[j] == causes[j + 1]);
        }
        lemma_first_decides(causes.drop_first(), display, i - 1);
    } else {
        assert(causes.skip(0) =~= causes);
    }
}

proof fn lemma_no_typed_cause(causes: Seq<ErrorCause>, display: Seq<char>)
    requires
        forall|j: int| 0 <= j < causes.len() ==> (#[trigger] causes[j]) is Other,
    ensures
        chain_outcome(causes, display) == chain_outcome(Seq::empty(), display),
    decreases causes.len(),
{
    if causes.len() > 0 {
        assert(causes[0] is Other);
        assert forall|j: int| 0 <= j < causes.len() - 1 implies (#[trigger] causes.drop_first()[j]) is Other by {
            assert(causes.drop_first()[j] == causes[j + 1]);
        }
        lemma_no_typed_cause(causes.drop_first(), display);
    }
}

} // verus!
