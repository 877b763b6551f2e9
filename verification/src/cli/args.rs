//! The parsed command line and how the dispatcher routes it: which commands
//! the public composition refuses, which run without a vault, and what each
//! vault command is asked to do.
use crate::cli::decide::UnavailableCommand;
use vstd::prelude::*;

verus! {

/// The parsed command line; no subcommand opens the recorder.
#[derive(Debug, Clone, PartialEq, Eq)]
pub struct Args {
    pub command: Option<Command>,
}

#[derive(Debug, Clone, PartialEq, Eq)]
pub enum Command {
    /// Print a short agent handoff for setting up this folder
    Setup,
    /// Print embedded Margins guides for agents
    Guide { command: GuideCommand },
    /// Start a new current session and open the recorder
    New { title: Option<String> },
    /// Open the recorder for the current session, adding a new segment
    Attach { session: Option<String> },
    /// Show the current recording session
    Current,
    /// List recording sessions
    Ls,
    /// Change the current session's display title
    Rename { title: String },
    /// List recent Margins meetings as XML
    Recent { all: bool },
    /// Print the complete transcript for a meeting as XML
    Transcript { meeting_id: String },
    /// List registered artifacts for a meeting as XML
    Artifacts { meeting_id: String },
    /// Delete expired temporary registered artifacts
    ArtifactsPrune,
    /// Keep aligned transcripts in the visible `_margins/` vault folder
    Archive { command: ArchiveCommand },
    /// Transcribe/import-prep an existing audio file
    Transcribe { audio_path: String, name: Option<String>, memo: Option<String>, speakers: Option<usize> },
    /// Process every segment of an existing recording session
    Process { session: String, speakers: Option<usize>, align_only: bool },
    /// Import external meeting exports
    Import { command: ImportCommand },
    /// Install Margins usage instructions into project agent files
    Agents { command: AgentsCommand },
    /// Search the vault for notes and connections related to a query
    Recall { query: String },
    /// Inspect a vault and suggest folders, tags, links, logs, and exclusions
    Scan { write_config: bool },
    /// Print this binary's machine-readable composition capabilities as JSON
    Capabilities,
    /// Establish or refresh a Margins vault in this folder
    Init,
}

#[derive(Debug, Clone, PartialEq, Eq)]
pub enum ImportCommand {
    /// Validate and import a Granola export file into .margins
    Granola { path: String },
}

#[derive(Debug, Clone, Copy, PartialEq, Eq, Structural)]
pub enum ArchiveCommand {
    /// Move aligned transcripts into `_margins/` and use it for new output
    On,
    /// Move aligned transcripts back into `.margins/`
    Off,
    /// Show the current archive location and transcript count
    Status,
}

#[derive(Debug, Clone, Copy, PartialEq, Eq, Structural)]
pub enum AgentsCommand {
    /// Create or update the project's agent instruction files with Margins CLI guidance
    Install,
}

#[derive(Debug, Clone, Copy, PartialEq, Eq, Structural)]
pub enum GuideCommand {
    /// Print the complete Margins workspace setup guide
    WorkspaceSetup,
}

/// What a command does once its vault is resolved.
#[derive(Debug, Clone, PartialEq, Eq)]
pub enum VaultAction {
    /// Open the recorder: for the named session or the current one, or for
    /// a new session when `new_session` holds.
    Capture { session: Option<String>, title: Option<String>, new_session: bool },
    ShowCurrent,
    ListSessions,
    Rename { title: String },
    /// Recent meetings of this vault, or of every registered vault.
    Recent { all: bool },
    Transcript { meeting_id: String },
    Artifacts { meeting_id: String },
    PruneArtifacts,
    Archive { command: ArchiveCommand },
    /// Paths are as given, relative to the invocation folder.
    Transcribe { audio_path: String, name: Option<String>, memo: Option<String>, speakers: usize },
    Process { session: String, speakers: usize, align_only: bool },
    ImportGranola { path: String },
    InstallAgents,
}

/// Where the dispatcher sends a parsed command line.
#[derive(Debug, Clone, PartialEq, Eq)]
pub enum Route {
    /// Refused before any vault is resolved.
    Unavailable { command: UnavailableCommand },
    /// The setup handoff for the invocation folder.
    SetupHandoff,
    /// The embedded workspace setup guide.
    WorkspaceSetupGuide,
    /// The composition's capabilities document.
    Capabilities,
    /// Resolve the vault, then do this.
    InVault { action: VaultAction },
}

/// A speaker count that was not given is one speaker.
pub open spec fn speakers_or_one(speakers: Option<usize>) -> usize {
    match speakers {
        Some(n) => n,
        None => 1,
    }
}

pub open spec fn route_of(command: Option<Command>) -> Route {
    match command {
        None => Route::InVault { action: VaultAction::Capture { session: None, title: None, new_session: false } },
        Some(c) => match c {
            Command::Init => Route::Unavailable { command: UnavailableCommand::Init },
            Command::Recall { .. } => Route::Unavailable { command: UnavailableCommand::Recall },
            Command::Scan { .. } => Route::Unavailable { command: UnavailableCommand::Scan },
            Command::Setup => Route::SetupHandoff,
            Command::Guide { .. } => Route::WorkspaceSetupGuide,
            Command::Capabilities => Route::Capabilities,
            Command::New { title } => Route::InVault {
                action: VaultAction::Capture { session: None, title, new_session: true },
            },
            Command::Attach { session } => Route::InVault {
                action: VaultAction::Capture { session, title: None, new_session: false },
            },
            Command::Current => Route::InVault { action: VaultAction::ShowCurrent },
            Command::Ls => Route::InVault { action: VaultAction::ListSessions },
            Command::Rename { title } => Route::InVault { action: VaultAction::Rename { title } },
            Command::Recent { all } => Route::InVault { action: VaultAction::Recent { all } },
            Command::Transcript { meeting_id } => Route::InVault { action: VaultAction::Transcript { meeting_id } },
            Command::Artifacts { meeting_id } => Route::InVault { action: VaultAction::Artifacts { meeting_id } },
            Command::ArtifactsPrune => Route::InVault { action: VaultAction::PruneArtifacts },
            Command::Archive { command } => Route::InVault { action: VaultAction::Archive { command } },
            Command::Transcribe { audio_path, name, memo, speakers } => Route::InVault {
                action: VaultAction::Transcribe { audio_path, name, memo, speakers: speakers_or_one(speakers) },
            },
            Command::Process { session, speakers, align_only } => Route::InVault {
                action: VaultAction::Process { session, speakers: speakers_or_one(speakers), align_only },
            },
            Command::Import { command } => match command {
                ImportCommand::Granola { path } => Route::InVault { action: VaultAction::ImportGranola { path } },
            },
            Command::Agents { .. } => Route::InVault { action: VaultAction::InstallAgents },
        },
    }
}

/// Routes a parsed command line. Commands the public composition does not
/// offer, and those that need no vault, are decided before any vault is
/// resolved; a missing speaker count is one speaker.
pub fn route(command: Option<Command>) -> (r: Route)
    ensures
        r == route_of(command),
{
    match command {
        None => Route::InVault { action: VaultAction::Capture { session: None, title: None, new_session: false } },
        Some(c) => match c {
            Command::Init => Route::Unavailable { command: UnavailableCommand::Init },
            Command::Recall { .. } => Route::Unavailable { command: UnavailableCommand::Recall },
            Command::Scan { .. } => Route::Unavailable { command: UnavailableCommand::Scan },
            Command::Setup => Route::SetupHandoff,
            Command::Guide { .. } => Route::WorkspaceSetupGuide,
            Command::Capabilities => Route::Capabilities,
            Command::New { title } => Route::InVault {
                action: VaultAction::Capture { session: None, title, new_session: true },
            },
            Command::Attach { session } => Route::InVault {
                action: VaultAction::Capture { session, title: None, new_session: false },
            },
            Command::Current => Route::InVault { action: VaultAction::ShowCurrent },
            Command::Ls => Route::InVault { action: VaultAction::ListSessions },
            Command::Rename { title } => Route::InVault { action: VaultAction::Rename { title } },
            Command::Recent { all } => Route::InVault { action: VaultAction::Recent { all } },
            Command::Transcript { meeting_id } => Route::InVault { action: VaultAction::Transcript { meeting_id } },
            Command::Artifacts { meeting_id } => Route::InVault { action: VaultAction::Artifacts { meeting_id } },
            Command::ArtifactsPrune => Route::InVault { action: VaultAction::PruneArtifacts },
            Command::Archive { command } => Route::InVault { action: VaultAction::Archive { command } },
            Command::Transcribe { audio_path, name, memo, speakers } => {
                let speakers = match speakers {
                    Some(n) => n,
                    None => 1,
                };
                Route::InVault { action: VaultAction::Transcribe { audio_path, name, memo, speakers } }
            },
            Command::Process { session, speakers, align_only } => {
                let speakers = match speakers {
                    Some(n) => n,
                    None => 1,
                };
                Route::InVault { action: VaultAction::Process { session, speakers, align_only } }
            },
            Command::Import { command } => match command {
                ImportCommand::Granola { path } => Route::InVault { action: VaultAction::ImportGranola { path } },
            },
            Command::Agents { .. } => Route::InVault { action: VaultAction::InstallAgents },
        },
    }
}

impl VaultAction {
    /// The meeting whose owning vault is looked up before the action runs:
    /// that of a transcript or artifact listing.
    pub fn meeting_lookup(&self) -> (r: Option<&str>)
        ensures
            match *self {
                VaultAction::Transcript { meeting_id } => r matches Some(m) && m@ == meeting_id@,
                VaultAction::Artifacts { meeting_id } => r matches Some(m) && m@ == meeting_id@,
                _ => r is None,
            },
    {
        match self {
            VaultAction::Transcript { meeting_id } => Some(meeting_id.as_str()),
            VaultAction::Artifacts { meeting_id } => Some(meeting_id.as_str()),
            _ => None,
        }
    }
}

} // verus!
