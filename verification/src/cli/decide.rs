//! The decisions CLI commands make between reading the store and writing
//! output: argument preprocessing, preflight checks, names of new sessions
//! and segments, and which vault owns a meeting.
use crate::cli::error::CliError;
use crate::cli::output::{xml_attr, xml_escape_attr};
use crate::domain::audio::AudioLane;
use crate::domain::capture::{CaptureState, PermissionState};
use crate::runtime::decimal::{decimal, push_decimal};
use crate::text::{chars_of, push_str};
use vstd::prelude::*;

verus! {

// ------------------------------------------------------ project argument

/// One command-line argument: its text (lossily, where it is not UTF-8) and
/// whether that text is exact.
#[derive(Debug, Clone, PartialEq, Eq)]
pub struct ArgText {
    pub text: String,
    pub exact: bool,
}

/// The project selector taken out of the arguments, and the positions of
/// the arguments that remain.
#[derive(Debug, Clone, PartialEq, Eq)]
pub struct ProjectArgs {
    pub project: Option<String>,
    pub kept: Vec<usize>,
}

pub open spec fn is_project_flag(a: ArgText) -> bool {
    a.exact && a.text@ == "--project"@
}

pub open spec fn has_project_prefix(a: ArgText) -> bool {
    a.exact && a.text@.len() >= 10 && a.text@.take(10) == "--project="@
}

/// Scans the arguments after the program name: `--project value` and
/// `--project=value` set the selector (the last one wins) and are removed;
/// a trailing `--project` without a value is an error.
pub open spec fn strip_from(args: Seq<ArgText>, i: int, project: Option<Seq<char>>, kept: Seq<int>) -> Option<(Option<Seq<char>>, Seq<int>)>
    decreases args.len() - i,
{
    if i < 0 || i >= args.len() {
        Some((project, kept))
    } else if is_project_flag(args[i]) {
        if i + 1 < args.len() {
            strip_from(args, i + 2, Some(args[i + 1].text@), kept)
        } else {
            None
        }
    } else if has_project_prefix(args[i]) {
        strip_from(args, i + 1, Some(args[i].text@.skip(10)), kept)
    } else {
        strip_from(args, i + 1, project, kept.push(i))
    }
}

pub open spec fn stripped(args: Seq<ArgText>) -> Option<(Option<Seq<char>>, Seq<int>)> {
    if args.len() == 0 { Some((None, Seq::empty())) } else { strip_from(args, 1, None, seq![0int]) }
}

fn starts_with_project_eq(cs: &Vec<char>) -> (r: bool)
    ensures
        r == (cs@.len() >= 10 && cs@.take(10) == "--project="@),
{
    let prefix = chars_of("--project=");
    proof {
        reveal_strlit("--project=");
    }
    if cs.len() < 10 {
        return false;
    }
    let mut k: usize = 0;
    while k < 10
        invariant
            k <= 10,
            cs@.len() >= 10,
            prefix@ == "--project="@,
            prefix@.len() == 10,
            forall|t: int| 0 <= t < k ==> cs@[t] == prefix@[t],
        decreases 10 - k,
    {
        if cs[k] != prefix[k] {
            assert(cs@.take(10)[k as int] != "--project="@[k as int]);
            return false;
        }
        k = k + 1;
    }
    assert(cs@.take(10) =~= "--project="@);
    true
}

/// Takes the project selector out of the arguments (the first is the
/// program name and always stays). Fails when `--project` has no value.
pub fn strip_project_arg(args: &[ArgText]) -> (r: Result<ProjectArgs, String>)
    ensures
        r matches Err(m) ==> stripped(args@) is None && m@ == "--project requires a configured project id, name, or path"@,
        r matches Ok(p) ==> stripped(args@) == Some((match p.project { Some(t) => Some(t@), None => None::<Seq<char>> },
            p.kept@.map_values(|k: usize| k as int))),
        r is Ok <==> stripped(args@) is Some,
{
    let mut kept: Vec<usize> = Vec::new();
    if args.len() == 0 {
        proof {
            assert(kept@.map_values(|k: usize| k as int) =~= Seq::<int>::empty());
        }
        return Ok(ProjectArgs { project: None, kept });
    }
    kept.push(0);
    let mut project: Option<String> = None;
    let mut i: usize = 1;
    proof {
        assert(kept@.map_values(|k: usize| k as int) =~= seq![0int]);
    }
    while i < args.len()
        invariant
            1 <= i,
            stripped(args@) == strip_from(args@, i as int, match project { Some(t) => Some(t@), None => None::<Seq<char>> },
                kept@.map_values(|k: usize| k as int)),
        decreases args.len() - i,
    {
        let a = &args[i];
        let flag = a.exact && a.text == "--project".to_owned();
        if flag {
            if i + 1 < args.len() {
                project = Some(args[i + 1].text.clone());
                i = i + 2;
            } else {
                return Err("--project requires a configured project id, name, or path".to_owned());
            }
        } else {
            let cs = chars_of(a.text.as_str());
            if a.exact && starts_with_project_eq(&cs) {
                let value = crate::text::string_from_chars(crate::text::copy_range(cs.as_slice(), 10, cs.len()).as_slice());
                assert(cs@.subrange(10, cs@.len() as int) =~= a.text@.skip(10));
                project = Some(value);
            } else {
                let ghost before = kept@.map_values(|k: usize| k as int);
                kept.push(i);
                assert(kept@.map_values(|k: usize| k as int) =~= before.push(i as int));
            }
            i = i + 1;
        }
    }
    Ok(ProjectArgs { project, kept })
}

// ------------------------------------------------------------ preflight

/// The current session's name, given what the store says: which name the
/// current pointer holds, and whether that session exists (asked only for a
/// non-empty name).
pub fn current_session(current: Option<String>, exists: bool) -> (r: Result<String, CliError>)
    ensures
        (match current {
            None => r matches Err(e) && e.code_view() == "session_not_found"@
                && e.message_view() == "No current session. Run `margins new` to start one."@,
            Some(n) => if n@.len() == 0 || !exists {
                r matches Err(e) && e.code_view() == "session_not_found"@
                    && e.message_view() == "Current session is missing or stale. Run `margins new` to start one."@
            } else {
                r matches Ok(name) && name@ == n@
            },
        }),
{
    match current {
        None => Err(CliError::new("session_not_found", "No current session. Run `margins new` to start one.".to_owned())),
        Some(name) => {
            if chars_of(name.as_str()).len() == 0 || !exists {
                Err(CliError::new(
                    "session_not_found",
                    "Current session is missing or stale. Run `margins new` to start one.".to_owned(),
                ))
            } else {
                Ok(name)
            }
        },
    }
}

/// The checks before reprocessing a session: diarization is needed for
/// more than one speaker, ASR unless only alignment is rebuilt.
pub fn process_preflight(speakers: usize, align_only: bool, diarization_available: bool, asr_available: bool) -> (r: Result<(), CliError>)
    ensures
        speakers > 1 && !diarization_available ==> (r matches Err(e) && e.code_view() == "diarization_unavailable"@),
        !(speakers > 1 && !diarization_available) && !align_only && !asr_available ==> (r matches Err(e)
            && e.code_view() == "asr_unavailable"@),
        !(speakers > 1 && !diarization_available) && (align_only || asr_available) ==> r is Ok,
{
    if speakers > 1 && !diarization_available {
        return Err(CliError::diarization_unavailable());
    }
    if !align_only && !asr_available {
        return Err(CliError::asr_unavailable());
    }
    Ok(())
}

/// The checks before transcribing a file: the file exists, then the
/// backends are there.
pub fn transcribe_preflight(audio_exists: bool, audio_display: &str, speakers: usize, diarization_available: bool, asr_available: bool) -> (r: Result<(), CliError>)
    ensures
        !audio_exists ==> (r matches Err(e) && e.code_view() == "audio_not_found"@ && e.message_view() == "Audio file not found: "@ + audio_display@),
        audio_exists && speakers > 1 && !diarization_available ==> (r matches Err(e) && e.code_view() == "diarization_unavailable"@),
        audio_exists && !(speakers > 1 && !diarization_available) && !asr_available ==> (r matches Err(e) && e.code_view() == "asr_unavailable"@),
        audio_exists && !(speakers > 1 && !diarization_available) && asr_available ==> r is Ok,
{
    if !audio_exists {
        let mut message = String::new();
        push_str(&mut message, "Audio file not found: ");
        push_str(&mut message, audio_display);
        return Err(CliError::new("audio_not_found", message));
    }
    if speakers > 1 && !diarization_available {
        return Err(CliError::diarization_unavailable());
    }
    if !asr_available {
        return Err(CliError::asr_unavailable());
    }
    Ok(())
}

/// The error for a command the public composition does not offer.
#[derive(Debug, Clone, Copy, PartialEq, Eq, Structural)]
pub enum UnavailableCommand {
    Init,
    Recall,
    Scan,
}

pub fn composition_unavailable(command: UnavailableCommand) -> (r: CliError)
    ensures
        r.code_view() == "composition_unavailable"@,
        r.exit_view() == 1,
        command == UnavailableCommand::Init ==> r.message_view() == "This public development CLI cannot initialize a Margins recall workspace. Install the official Margins CLI (`./install.sh` or a release artifact) and run `margins guide workspace-setup`."@,
        command == UnavailableCommand::Recall ==> r.message_view() == "This public development CLI cannot run Margins recall. Install the official Margins CLI (`./install.sh` or a release artifact)."@,
        command == UnavailableCommand::Scan ==> r.message_view() == "This public development CLI cannot scan a Margins recall workspace. Install the official Margins CLI (`./install.sh` or a release artifact)."@,
{
    let message = match command {
        UnavailableCommand::Init => "This public development CLI cannot initialize a Margins recall workspace. Install the official Margins CLI (`./install.sh` or a release artifact) and run `margins guide workspace-setup`.",
        UnavailableCommand::Recall => "This public development CLI cannot run Margins recall. Install the official Margins CLI (`./install.sh` or a release artifact).",
        UnavailableCommand::Scan => "This public development CLI cannot scan a Margins recall workspace. Install the official Margins CLI (`./install.sh` or a release artifact).",
    };
    CliError::new("composition_unavailable", message.to_owned())
}

/// The error when no `.margins` directory exists.
pub fn store_not_found() -> (r: CliError)
    ensures
        r.code_view() == "store_not_found"@,
        r.message_view() == "No .margins/ directory found."@,
        r.exit_view() == 1,
{
    CliError::new("store_not_found", "No .margins/ directory found.".to_owned())
}

// --------------------------------------------------------------- capture

/// Capture runs only where the provider reports it available.
pub fn capture_preflight(available: bool) -> (r: Result<(), CliError>)
    ensures
        available ==> r is Ok,
        !available ==> (r matches Err(e) && e.code_view() == "capture_unavailable"@),
{
    if available { Ok(()) } else { Err(CliError::capture_unavailable()) }
}

/// Permission that is not determined yet is requested before deciding.
pub fn permission_needs_request(state: PermissionState) -> (r: bool)
    ensures
        r == (state == PermissionState::NotDetermined),
{
    state == PermissionState::NotDetermined
}

/// What a lane's final permission state means for capture.
pub fn permission_outcome(state: PermissionState) -> (r: Result<(), CliError>)
    ensures
        state == PermissionState::Granted ==> r is Ok,
        state == PermissionState::Unavailable ==> (r matches Err(e) && e.code_view() == "capture_unavailable"@),
        (state == PermissionState::Denied || state == PermissionState::Restricted) ==> (r matches Err(e)
            && e.code_view() == "capture_permission_denied"@ && e.message_view() == "capture permission was denied"@),
        (state == PermissionState::Unknown || state == PermissionState::NotDetermined) ==> (r matches Err(e)
            && e.code_view() == "capture_open_failed"@ && e.message_view() == "capture permission was not granted"@),
{
    match state {
        PermissionState::Granted => Ok(()),
        PermissionState::Unavailable => Err(CliError::capture_unavailable()),
        PermissionState::Denied | PermissionState::Restricted => Err(CliError::new(
            "capture_permission_denied",
            "capture permission was denied".to_owned(),
        )),
        _ => Err(CliError::new("capture_open_failed", "capture permission was not granted".to_owned())),
    }
}

/// The lanes to capture: what the provider supports, or both lanes when it
/// names none.
pub fn capture_lanes(supported: &[AudioLane]) -> (r: Vec<AudioLane>)
    ensures
        supported@.len() == 0 ==> r@ == seq![AudioLane::Microphone, AudioLane::System],
        supported@.len() > 0 ==> r@ == supported@,
{
    let mut r: Vec<AudioLane> = Vec::new();
    if supported.len() == 0 {
        r.push(AudioLane::Microphone);
        r.push(AudioLane::System);
        return r;
    }
    let mut i: usize = 0;
    while i < supported.len()
        invariant
            i <= supported.len(),
            r@ == supported@.take(i as int),
        decreases supported.len() - i,
    {
        r.push(supported[i]);
        assert(supported@.take(i + 1) =~= supported@.take(i as int).push(supported@[i as int]));
        i = i + 1;
    }
    assert(supported@.take(supported.len() as int) =~= supported@);
    r
}

/// Identifiers and the audio location of one capture segment.
#[derive(Debug, Clone, PartialEq, Eq)]
pub struct SegmentNames {
    pub segment_id: String,
    pub start_operation_id: String,
    pub finish_operation_id: String,
    pub audio_uri: String,
}

pub open spec fn segment_base(name: Seq<char>, ordinal: nat) -> Seq<char> {
    name + "-segment-"@ + decimal(ordinal)
}

pub fn segment_names(name: &str, ordinal: u64) -> (r: SegmentNames)
    ensures
        r.segment_id@ == segment_base(name@, ordinal as nat),
        r.start_operation_id@ == segment_base(name@, ordinal as nat) + "-start"@,
        r.finish_operation_id@ == segment_base(name@, ordinal as nat) + "-finish"@,
        r.audio_uri@ == ".margins/"@ + name@ + "_seg"@ + decimal(ordinal as nat) + ".wav"@,
{
    let mut base = String::new();
    push_str(&mut base, name);
    push_str(&mut base, "-segment-");
    push_decimal(&mut base, ordinal);
    let mut start = base.clone();
    push_str(&mut start, "-start");
    let mut finish = base.clone();
    push_str(&mut finish, "-finish");
    let mut audio_uri = String::new();
    push_str(&mut audio_uri, ".margins/");
    push_str(&mut audio_uri, name);
    push_str(&mut audio_uri, "_seg");
    push_decimal(&mut audio_uri, ordinal);
    push_str(&mut audio_uri, ".wav");
    proof {
        assert(base@ =~= segment_base(name@, ordinal as nat));
        assert(audio_uri@ =~= ".margins/"@ + name@ + "_seg"@ + decimal(ordinal as nat) + ".wav"@);
    }
    SegmentNames { segment_id: base, start_operation_id: start, finish_operation_id: finish, audio_uri }
}

/// Where a new session's memo lives.
pub fn memo_uri(name: &str) -> (r: String)
    ensures
        r@ == ".margins/"@ + name@ + ".md"@,
{
    let mut out = String::new();
    push_str(&mut out, ".margins/");
    push_str(&mut out, name);
    push_str(&mut out, ".md");
    out
}

/// The error for attaching to a session that does not exist.
pub fn session_not_found(name: &str) -> (r: CliError)
    ensures
        r.code_view() == "session_not_found"@,
        r.message_view() == "Session '"@ + name@ + "' not found. Run `margins ls` to choose one."@,
{
    let mut message = String::new();
    push_str(&mut message, "Session '");
    push_str(&mut message, name);
    push_str(&mut message, "' not found. Run `margins ls` to choose one.");
    CliError::new("session_not_found", message)
}

/// A capture is complete only once the provider reports it finished.
pub fn finish_outcome(state: CaptureState) -> (r: Result<(), CliError>)
    ensures
        state == CaptureState::Finished ==> r is Ok,
        state != CaptureState::Finished ==> (r matches Err(e) && e.code_view() == "capture_open_failed"@
            && e.message_view() == "capture provider did not finish the segment"@),
{
    if state == CaptureState::Finished {
        Ok(())
    } else {
        Err(CliError::new("capture_open_failed", "capture provider did not finish the segment".to_owned()))
    }
}

/// The artifact kind of captured audio of a lane.
pub fn artifact_kind(lane: Option<AudioLane>) -> (r: &'static str)
    ensures
        lane == Some(AudioLane::Microphone) ==> r@ == "audio_microphone"@,
        lane == Some(AudioLane::System) ==> r@ == "audio_system"@,
        lane is None ==> r@ == "audio"@,
{
    match lane {
        Some(AudioLane::Microphone) => "audio_microphone",
        Some(AudioLane::System) => "audio_system",
        None => "audio",
    }
}

/// `ordinal * 10`, saturating at the bounds of `i64`.
pub open spec fn scaled_ordinal(ordinal: i64) -> int {
    if ordinal as int * 10 > i64::MAX {
        i64::MAX as int
    } else if ordinal as int * 10 < i64::MIN {
        i64::MIN as int
    } else {
        ordinal as int * 10
    }
}

/// The registry ordinal of the `index`-th artifact of segment `ordinal`:
/// ten per segment.
pub fn artifact_ordinal(ordinal: i64, index: usize) -> (r: i64)
    requires
        index <= i64::MAX,
        scaled_ordinal(ordinal) + index <= i64::MAX,
    ensures
        r == scaled_ordinal(ordinal) + index,
{
    let scaled: i64 = if ordinal > i64::MAX / 10 {
        i64::MAX
    } else if ordinal < i64::MIN / 10 {
        i64::MIN
    } else {
        ordinal * 10
    };
    assert(scaled == scaled_ordinal(ordinal));
    scaled + index as i64
}

// ------------------------------------------------------- session names

/// Candidate names tried for a new session: the base, then `base-2` up to
/// `base-999`.
pub const SESSION_NAME_ATTEMPTS: u64 = 999;

/// The `ordinal`-th candidate name for a new session, counting from one.
pub fn session_name_candidate(base: &str, ordinal: u64) -> (r: String)
    ensures
        ordinal == 1 ==> r@ == base@,
        ordinal != 1 ==> r@ == base@ + "-"@ + decimal(ordinal as nat),
{
    let mut out = String::new();
    push_str(&mut out, base);
    if ordinal != 1 {
        push_str(&mut out, "-");
        push_decimal(&mut out, ordinal);
    }
    out
}

/// The error when every candidate name is taken.
pub fn session_name_exhausted() -> (r: CliError)
    ensures
        r.code_view() == "session_name_exhausted"@,
        r.message_view() == "could not allocate a unique session id"@,
{
    CliError::new("session_name_exhausted", "could not allocate a unique session id".to_owned())
}

// --------------------------------------------------------- meeting owner

/// A concrete meeting id is looked up across vaults unless a project was
/// chosen explicitly or the id is the `latest` alias.
pub fn owner_lookup_needed(has_explicit_project: bool, meeting_id: &str) -> (r: bool)
    ensures
        r == !(has_explicit_project || meeting_id@ == "latest"@),
{
    !(has_explicit_project || crate::text::same_text(meeting_id, "latest"))
}

/// The vaults to probe for a meeting, in order: the first vault of each
/// root, when it has a `.margins` directory.
pub open spec fn probe_plan(roots: Seq<Seq<char>>, stores: Seq<bool>, n: int) -> Seq<int>
    decreases n,
{
    if n <= 0 {
        Seq::empty()
    } else if stores[n - 1] && forall|j: int| 0 <= j < n - 1 ==> #[trigger] roots[j] != roots[n - 1] {
        probe_plan(roots, stores, n - 1).push(n - 1)
    } else {
        probe_plan(roots, stores, n - 1)
    }
}

pub fn probe_positions(roots: &[String], has_store: &[bool]) -> (r: Vec<usize>)
    requires
        roots.len() == has_store.len(),
    ensures
        r@.map_values(|k: usize| k as int) == probe_plan(roots@.map_values(|x: String| x@), has_store@, roots.len() as int),
{
    let ghost rv = roots@.map_values(|x: String| x@);
    let mut out: Vec<usize> = Vec::new();
    let mut i: usize = 0;
    while i < roots.len()
        invariant
            i <= roots.len(),
            roots.len() == has_store.len(),
            rv == roots@.map_values(|x: String| x@),
            out@.map_values(|k: usize| k as int) == probe_plan(rv, has_store@, i as int),
        decreases roots.len() - i,
    {
        let mut seen = false;
        let mut j: usize = 0;
        while j < i
            invariant
                j <= i,
                i < roots.len(),
                rv == roots@.map_values(|x: String| x@),
                seen == exists|t: int| 0 <= t < j && #[trigger] rv[t] == rv[i as int],
            decreases i - j,
        {
            if crate::text::same_text(roots[j].as_str(), roots[i].as_str()) {
                seen = true;
            }
            proof {
                if seen && !(exists|t: int| 0 <= t < j && rv[t] == rv[i as int]) {
                    assert(rv[j as int] == rv[i as int]);
                }
            }
            j = j + 1;
        }
        if has_store[i] && !seen {
            let ghost before = out@.map_values(|k: usize| k as int);
            out.push(i);
            assert(out@.map_values(|k: usize| k as int) =~= before.push(i as int));
        }
        i = i + 1;
    }
    out
}

/// A vault as the ambiguity error names it.
#[derive(Debug, Clone, PartialEq, Eq)]
pub struct VaultLabel {
    pub id: String,
    pub root: String,
}

pub open spec fn label_text(v: VaultLabel) -> Seq<char> {
    v.id@ + " ("@ + v.root@ + ")"@
}

pub open spec fn labels_joined(s: Seq<VaultLabel>) -> Seq<char>
    decreases s.len(),
{
    if s.len() == 0 {
        Seq::empty()
    } else if s.len() == 1 {
        label_text(s[0])
    } else {
        labels_joined(s.drop_last()) + ", "@ + label_text(s.last())
    }
}

/// Which of the vaults holding a meeting owns it: none (keep the resolved
/// vault), the only one, or an error naming them all.
pub fn meeting_owner(meeting_id: &str, owners: &[VaultLabel]) -> (r: Result<Option<usize>, CliError>)
    ensures
        owners.len() == 0 ==> r == Ok::<Option<usize>, CliError>(None),
        owners.len() == 1 ==> r == Ok::<Option<usize>, CliError>(Some(0)),
        owners.len() > 1 ==> (r matches Err(e) && e.code_view() == "ambiguous_meeting"@
            && e.message_view() == "Meeting '"@ + meeting_id@ + "' exists in multiple Margins vaults: "@ + labels_joined(owners@)
                + ". Pass --project <id-or-path> to choose one."@),
{
    if owners.len() == 0 {
        return Ok(None);
    }
    if owners.len() == 1 {
        return Ok(Some(0));
    }
    let mut message = String::new();
    push_str(&mut message, "Meeting '");
    push_str(&mut message, meeting_id);
    push_str(&mut message, "' exists in multiple Margins vaults: ");
    let ghost head = message@;
    let mut i: usize = 0;
    while i < owners.len()
        invariant
            i <= owners.len(),
            message@ == head + labels_joined(owners@.take(i as int)),
        decreases owners.len() - i,
    {
        if i > 0 {
            push_str(&mut message, ", ");
        }
        push_str(&mut message, owners[i].id.as_str());
        push_str(&mut message, " (");
        push_str(&mut message, owners[i].root.as_str());
        push_str(&mut message, ")");
        proof {
            assert(owners@.take(i + 1).drop_last() =~= owners@.take(i as int));
            assert(message@ =~= head + labels_joined(owners@.take(i + 1)));
        }
        i = i + 1;
    }
    assert(owners@.take(owners.len() as int) =~= owners@);
    push_str(&mut message, ". Pass --project <id-or-path> to choose one.");
    Err(CliError::new("ambiguous_meeting", message))
}

} // verus!
