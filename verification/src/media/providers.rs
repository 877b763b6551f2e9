//! Speech-model adapters that need no model: asset checks, version
//! selection, and typed "unavailable" answers.
use crate::domain::transcript::{DiarizationError, DiarizationErrorCode, TranscriptError, TranscriptErrorCode};
use crate::text::{ascii_lower, ascii_lower_chars, chars_of, same_text};
use vstd::prelude::*;

verus! {

/// Which Parakeet model family a directory holds.
#[derive(Debug, Clone, Copy, PartialEq, Eq, Structural)]
pub enum AsrModelKind {
    /// NVIDIA Parakeet CTC. Best when punctuation is not required; word timing
    /// mode is the natural output.
    Ctc,
    /// NVIDIA Parakeet TDT v3 ONNX. Keeps punctuation/capitalization and uses
    /// the `vocab.txt` model asset directly, without a tokenizer/CLI process.
    Tdt,
}

/// Message given when Parakeet ASR is requested from a build without it.
pub fn parakeet_feature_error() -> (r: &'static str) {
    "Rust Parakeet ASR is not enabled; build with feature `parakeet-onnx`"
}

/// The files a model directory of this kind is expected to hold.
pub fn expected_model_files(kind: AsrModelKind) -> (r: Vec<&'static str>)
    ensures
        kind == AsrModelKind::Ctc ==> r@.len() == 3 && r@[0]@ == "model.onnx"@ && r@[1]@ == "model.onnx_data"@
            && r@[2]@ == "tokenizer.json"@,
        kind == AsrModelKind::Tdt ==> r@.len() == 3 && r@[0]@ == "encoder-model.int8.onnx"@
            && r@[1]@ == "decoder_joint-model.int8.onnx"@ && r@[2]@ == "vocab.txt"@,
{
    let mut r: Vec<&'static str> = Vec::new();
    match kind {
        AsrModelKind::Ctc => {
            r.push("model.onnx");
            r.push("model.onnx_data");
            r.push("tokenizer.json");
        },
        AsrModelKind::Tdt => {
            r.push("encoder-model.int8.onnx");
            r.push("decoder_joint-model.int8.onnx");
            r.push("vocab.txt");
        },
    }
    r
}

/// Every file name whose presence decides what a directory is missing.
pub fn model_file_candidates(kind: AsrModelKind) -> (r: Vec<&'static str>)
    ensures
        kind == AsrModelKind::Ctc ==> r@.len() == 3 && r@[0]@ == "model.onnx"@ && r@[1]@ == "model.onnx_data"@
            && r@[2]@ == "tokenizer.json"@,
        kind == AsrModelKind::Tdt ==> r@.len() == 6 && r@[0]@ == "encoder-model.int8.onnx"@
            && r@[1]@ == "encoder-model.onnx"@ && r@[2]@ == "encoder-model.onnx.data"@
            && r@[3]@ == "decoder_joint-model.int8.onnx"@ && r@[4]@ == "decoder_joint-model.onnx"@
            && r@[5]@ == "vocab.txt"@,
{
    let mut r: Vec<&'static str> = Vec::new();
    match kind {
        AsrModelKind::Ctc => {
            r.push("model.onnx");
            r.push("model.onnx_data");
            r.push("tokenizer.json");
        },
        AsrModelKind::Tdt => {
            r.push("encoder-model.int8.onnx");
            r.push("encoder-model.onnx");
            r.push("encoder-model.onnx.data");
            r.push("decoder_joint-model.int8.onnx");
            r.push("decoder_joint-model.onnx");
            r.push("vocab.txt");
        },
    }
    r
}

/// `name` is among the files present.
pub open spec fn present(files: Seq<String>, name: Seq<char>) -> bool {
    exists|i: int| 0 <= i < files.len() && (#[trigger] files[i])@ == name
}

fn is_present(files: &[String], name: &str) -> (r: bool)
    ensures
        r == present(files@, name@),
{
    let mut i: usize = 0;
    while i < files.len()
        invariant
            i <= files@.len(),
            forall|j: int| 0 <= j < i ==> (#[trigger] files@[j])@ != name@,
        decreases files.len() - i,
    {
        if same_text(files[i].as_str(), name) {
            return true;
        }
        i = i + 1;
    }
    false
}

/// What a Parakeet model directory holding `files` is missing. A CTC
/// directory needs each expected file. A TDT directory needs an encoder
/// (int8, or full with its data file), a decoder (int8 or full) and the
/// vocabulary; a missing part is reported by its int8 name.
pub fn missing_model_files(files: &[String], kind: AsrModelKind) -> (r: Vec<String>)
    ensures
        kind == AsrModelKind::Ctc ==> r@.map_values(|t: String| t@) ==
            (if present(files@, "model.onnx"@) { Seq::<Seq<char>>::empty() } else { seq!["model.onnx"@] })
            + (if present(files@, "model.onnx_data"@) { Seq::<Seq<char>>::empty() } else { seq!["model.onnx_data"@] })
            + (if present(files@, "tokenizer.json"@) { Seq::<Seq<char>>::empty() } else { seq!["tokenizer.json"@] }),
        kind == AsrModelKind::Tdt ==> r@.map_values(|t: String| t@) ==
            (if present(files@, "encoder-model.int8.onnx"@) || (present(files@, "encoder-model.onnx"@) && present(files@, "encoder-model.onnx.data"@)) {
                Seq::<Seq<char>>::empty()
            } else {
                seq!["encoder-model.int8.onnx"@]
            }) + (if present(files@, "decoder_joint-model.int8.onnx"@) || present(files@, "decoder_joint-model.onnx"@) {
                Seq::<Seq<char>>::empty()
            } else {
                seq!["decoder_joint-model.int8.onnx"@]
            }) + (if present(files@, "vocab.txt"@) {
                Seq::<Seq<char>>::empty()
            } else {
                seq!["vocab.txt"@]
            }),
{
    let mut missing: Vec<String> = Vec::new();
    match kind {
        AsrModelKind::Ctc => {
            if !is_present(files, "model.onnx") {
                missing.push("model.onnx".to_owned());
            }
            let ghost m1 = missing@.map_values(|t: String| t@);
            if !is_present(files, "model.onnx_data") {
                missing.push("model.onnx_data".to_owned());
            }
            let ghost m2 = missing@.map_values(|t: String| t@);
            if !is_present(files, "tokenizer.json") {
                missing.push("tokenizer.json".to_owned());
            }
            proof {
                assert(m1 =~= (if present(files@, "model.onnx"@) { Seq::<Seq<char>>::empty() } else { seq!["model.onnx"@] }));
                assert(m2 =~= m1 + (if present(files@, "model.onnx_data"@) { Seq::<Seq<char>>::empty() } else { seq!["model.onnx_data"@] }));
                assert(missing@.map_values(|t: String| t@) =~= m2 + (if present(files@, "tokenizer.json"@) { Seq::<Seq<char>>::empty() } else { seq!["tokenizer.json"@] }));
            }
        },
        AsrModelKind::Tdt => {
            let has_int8_encoder = is_present(files, "encoder-model.int8.onnx");
            let has_full_encoder = is_present(files, "encoder-model.onnx") && is_present(files, "encoder-model.onnx.data");
            if !has_int8_encoder && !has_full_encoder {
                missing.push("encoder-model.int8.onnx".to_owned());
            }
            let ghost m1 = missing@.map_values(|t: String| t@);
            let has_decoder = is_present(files, "decoder_joint-model.int8.onnx") || is_present(files, "decoder_joint-model.onnx");
            if !has_decoder {
                missing.push("decoder_joint-model.int8.onnx".to_owned());
            }
            let ghost m2 = missing@.map_values(|t: String| t@);
            if !is_present(files, "vocab.txt") {
                missing.push("vocab.txt".to_owned());
            }
            proof {
                assert(m1 =~= (if has_int8_encoder || has_full_encoder { Seq::<Seq<char>>::empty() } else { seq!["encoder-model.int8.onnx"@] }));
                assert(m2 =~= m1 + (if has_decoder { Seq::<Seq<char>>::empty() } else { seq!["decoder_joint-model.int8.onnx"@] }));
                assert(missing@.map_values(|t: String| t@) =~= m2 + (if present(files@, "vocab.txt"@) { Seq::<Seq<char>>::empty() } else { seq!["vocab.txt"@] }));
            }
        },
    }
    missing
}

// ---------------------------------------------------- unavailable adapters

/// Stable no-model ASR adapter for compositions without a speech model.
#[derive(Debug, Clone, Copy, Default, PartialEq, Eq, Structural)]
pub struct UnavailableAsr;

impl UnavailableAsr {
    pub fn is_available(&self) -> (r: bool)
        ensures
            !r,
    {
        false
    }

    pub fn backend_name(&self) -> (r: &'static str) {
        "unavailable"
    }

    /// The answer to every transcription request.
    pub fn transcribe_error(&self) -> (r: TranscriptError)
        ensures
            r.code == TranscriptErrorCode::Unavailable,
            r.message@ == "ASR is unavailable in this build"@,
            !r.retryable,
    {
        TranscriptError { code: TranscriptErrorCode::Unavailable, message: "ASR is unavailable in this build".to_owned(), retryable: false }
    }
}

/// Stable no-model diarization adapter.
#[derive(Debug, Clone, Copy, Default, PartialEq, Eq, Structural)]
pub struct UnavailableDiarization;

impl UnavailableDiarization {
    pub fn is_available(&self) -> (r: bool)
        ensures
            !r,
    {
        false
    }

    /// The answer to every diarization request.
    pub fn diarize_error(&self) -> (r: DiarizationError)
        ensures
            r.code == DiarizationErrorCode::Unavailable,
            r.message@ == "diarization is unavailable in this build"@,
            !r.retryable,
    {
        DiarizationError {
            code: DiarizationErrorCode::Unavailable,
            message: "diarization is unavailable in this build".to_owned(),
            retryable: false,
        }
    }
}

/// Diarization that uses the Polyvoice provider when one is built in and
/// answers "unavailable" otherwise.
#[derive(Debug, Clone, PartialEq, Eq)]
pub struct PublicDiarizationBackend {
    pub max_speakers: Option<usize>,
}

impl PublicDiarizationBackend {
    /// Whether a diarization provider is built in; none is in this library.
    pub fn is_available(&self) -> (r: bool)
        ensures
            !r,
    {
        false
    }

    /// The answer to a diarization request without a built-in provider.
    pub fn diarize_error(&self) -> (r: DiarizationError)
        ensures
            r.code == DiarizationErrorCode::Unavailable,
            r.message@ == "Rust diarization is not enabled; build with feature `polyvoice-diarization`"@,
            !r.retryable,
    {
        DiarizationError {
            code: DiarizationErrorCode::Unavailable,
            message: "Rust diarization is not enabled; build with feature `polyvoice-diarization`".to_owned(),
            retryable: false,
        }
    }

    /// The speaker cap handed to the diarizer: the backend's own, else the
    /// request's.
    pub fn speaker_limit(&self, requested: Option<u16>) -> (r: Option<usize>)
        ensures
            r == (match self.max_speakers {
                Some(n) => Some(n),
                None => match requested {
                    Some(q) => Some(q as usize),
                    None => None,
                },
            }),
    {
        match self.max_speakers {
            Some(n) => Some(n),
            None => match requested {
                Some(q) => Some(q as usize),
                None => None,
            },
        }
    }
}

/// A speaker-count cap clamped to what the diarizer accepts (1 to 255).
pub fn clamp_speaker_count(max_speakers: Option<usize>) -> (r: Option<u8>)
    ensures
        r == (match max_speakers {
            Some(n) => Some((if n < 1 { 1 } else if n > 255 { 255 } else { n }) as u8),
            None => None,
        }),
{
    match max_speakers {
        None => None,
        Some(n) => Some((if n < 1 { 1 } else if n > 255 { 255 } else { n }) as u8),
    }
}

// ------------------------------------------------------ CoreML bundles

/// FluidAudio CoreML model generation.
#[derive(Debug, Clone, Copy, PartialEq, Eq, Structural)]
pub enum FluidCoreMlModelVersion {
    V2,
    V3,
}

/// The text contains `v3`.
pub open spec fn mentions_v3(hay: Seq<char>) -> bool {
    exists|i: int| 0 <= i && i + 1 < hay.len() && #[trigger] hay[i] == 'v' && hay[i + 1] == '3'
}

fn contains_v3(text: &str) -> (r: bool)
    ensures
        r == mentions_v3(text@),
{
    let cs = chars_of(text);
    let mut i: usize = 0;
    while i < cs.len() && i + 1 < cs.len()
        invariant
            cs@ == text@,
            forall|j: int| 0 <= j < i && j + 1 < cs@.len() ==> !(#[trigger] cs@[j] == 'v' && cs@[j + 1] == '3'),
        decreases cs.len() - i,
    {
        if cs[i] == 'v' && cs[i + 1] == '3' {
            return true;
        }
        i = i + 1;
    }
    false
}

/// The model version named by a `MARGINS_FLUID_COREML_VERSION` value
/// (`v3`/`3` or `v2`/`2`, any case), else V3 when the model directory's
/// path mentions `v3`, else V2.
pub open spec fn chosen_version(setting: Option<Seq<char>>, model_dir: Seq<char>) -> FluidCoreMlModelVersion {
    let v = match setting { Some(t) => Some(ascii_lower(t)), None => None };
    if v == Some(seq!['v', '3']) || v == Some(seq!['3']) {
        FluidCoreMlModelVersion::V3
    } else if v == Some(seq!['v', '2']) || v == Some(seq!['2']) {
        FluidCoreMlModelVersion::V2
    } else if mentions_v3(model_dir) {
        FluidCoreMlModelVersion::V3
    } else {
        FluidCoreMlModelVersion::V2
    }
}

fn chars_are2(a: &Vec<char>, b0: char, b1: char) -> (r: bool)
    ensures
        r == (a@ == seq![b0, b1]),
{
    let r = a.len() == 2 && a[0] == b0 && a[1] == b1;
    assert(r ==> a@ =~= seq![b0, b1]);
    r
}

fn chars_are1(a: &Vec<char>, b0: char) -> (r: bool)
    ensures
        r == (a@ == seq![b0]),
{
    let r = a.len() == 1 && a[0] == b0;
    assert(r ==> a@ =~= seq![b0]);
    r
}

impl FluidCoreMlModelVersion {
    /// Chooses the version from a setting's value and the model directory.
    pub fn from_setting_or_dir(setting: Option<&str>, model_dir: &str) -> (r: Self)
        ensures
            r == chosen_version(match setting { Some(t) => Some(t@), None => None }, model_dir@),
    {
        if let Some(t) = setting {
            let lower = ascii_lower_chars(chars_of(t).as_slice());
            if chars_are2(&lower, 'v', '3') || chars_are1(&lower, '3') {
                return FluidCoreMlModelVersion::V3;
            }
            if chars_are2(&lower, 'v', '2') || chars_are1(&lower, '2') {
                return FluidCoreMlModelVersion::V2;
            }
        }
        if contains_v3(model_dir) {
            FluidCoreMlModelVersion::V3
        } else {
            FluidCoreMlModelVersion::V2
        }
    }

    /// Joint-decision model names to look for, in order of preference.
    pub fn joint_candidates(self) -> (r: Vec<&'static str>)
        ensures
            self == FluidCoreMlModelVersion::V2 ==> r@.len() == 1 && r@[0]@ == "JointDecision.mlmodelc"@,
            self == FluidCoreMlModelVersion::V3 ==> r@.len() == 2 && r@[0]@ == "JointDecisionv3.mlmodelc"@
                && r@[1]@ == "JointDecision.mlmodelc"@,
    {
        let mut r: Vec<&'static str> = Vec::new();
        match self {
            FluidCoreMlModelVersion::V2 => {
                r.push("JointDecision.mlmodelc");
            },
            FluidCoreMlModelVersion::V3 => {
                r.push("JointDecisionv3.mlmodelc");
                r.push("JointDecision.mlmodelc");
            },
        }
        r
    }
}

} // verus!
