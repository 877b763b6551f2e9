use margins::cli::args::{
    route, AgentsCommand, ArchiveCommand, Command, GuideCommand, ImportCommand, Route,
    VaultAction,
};
use margins::cli::decide::{composition_unavailable, strip_project_arg, ArgText, UnavailableCommand};
use margins::cli::output::error_line;
use margins::cli::render::{public_capabilities_json, recent_empty_line};

fn arg(text: &str) -> ArgText {
    ArgText {
        text: text.to_owned(),
        exact: true,
    }
}

fn refused(command: Command) -> String {
    match route(Some(command)) {
        Route::Unavailable { command } => error_line(&composition_unavailable(command)),
        other => panic!("expected a refusal, got {other:?}"),
    }
}

#[test]
fn project_preprocessing_accepts_both_historical_spellings_anywhere() {
    for args in [
        vec!["margins", "--project", "test", "recent"],
        vec!["margins", "recent", "--project=test"],
    ] {
        let texts: Vec<ArgText> = args.iter().map(|a| arg(a)).collect();
        let stripped = strip_project_arg(&texts).unwrap();
        assert_eq!(stripped.project.as_deref(), Some("test"));
        let kept: Vec<&str> = stripped.kept.iter().map(|&i| args[i]).collect();
        assert_eq!(kept, vec!["margins", "recent"]);
        assert_eq!(
            route(Some(Command::Recent { all: false })),
            Route::InVault {
                action: VaultAction::Recent { all: false }
            }
        );
        assert_eq!(format!("{}\n", recent_empty_line()), "<margins_recent />\n");
    }
}

#[test]
fn public_capabilities_report_no_recall_composition() {
    assert_eq!(route(Some(Command::Capabilities)), Route::Capabilities);
    let value: serde_json::Value = serde_json::from_str(public_capabilities_json()).unwrap();
    assert_eq!(value["schema"], 1);
    assert_eq!(value["product"], "margins");
    assert_eq!(value["composition"], "public-open-core");
    assert_eq!(value["official"], false);
    assert_eq!(value["recall"]["indexing"], false);
    assert_eq!(value["recall"]["lookup"], false);
    assert_eq!(value["recall"]["scan"], false);
}

#[test]
fn public_scan_is_not_the_product_workspace_discovery() {
    let stderr = refused(Command::Scan { write_config: false });
    assert!(stderr.contains("composition_unavailable"));
    assert!(stderr.contains("official Margins CLI"));
    assert_eq!(refused(Command::Scan { write_config: true }), stderr);
}

#[test]
fn public_init_is_not_the_product_workspace_setup() {
    let stderr = refused(Command::Init);
    assert!(stderr.contains("composition_unavailable"));
    assert!(stderr.contains("official Margins CLI"));
    assert!(stderr.contains("margins guide workspace-setup"));
}

#[test]
fn recall_is_refused_like_scan_and_init() {
    let stderr = refused(Command::Recall {
        query: "anything".to_owned(),
    });
    assert!(stderr.contains("cannot run Margins recall"));
    assert_eq!(
        route(Some(Command::Recall {
            query: String::new()
        })),
        Route::Unavailable {
            command: UnavailableCommand::Recall
        }
    );
}

#[test]
fn vault_free_commands_are_routed_before_any_vault() {
    assert_eq!(route(Some(Command::Setup)), Route::SetupHandoff);
    assert_eq!(
        route(Some(Command::Guide {
            command: GuideCommand::WorkspaceSetup
        })),
        Route::WorkspaceSetupGuide
    );
}

#[test]
fn vault_commands_carry_their_arguments_and_default_one_speaker() {
    assert_eq!(
        route(None),
        Route::InVault {
            action: VaultAction::Capture {
                session: None,
                title: None,
                new_session: false
            }
        }
    );
    assert_eq!(
        route(Some(Command::New {
            title: Some("Standup".to_owned())
        })),
        Route::InVault {
            action: VaultAction::Capture {
                session: None,
                title: Some("Standup".to_owned()),
                new_session: true
            }
        }
    );
    assert_eq!(
        route(Some(Command::Attach {
            session: Some("s1".to_owned())
        })),
        Route::InVault {
            action: VaultAction::Capture {
                session: Some("s1".to_owned()),
                title: None,
                new_session: false
            }
        }
    );
    assert_eq!(
        route(Some(Command::Transcribe {
            audio_path: "a.wav".to_owned(),
            name: None,
            memo: Some("m.md".to_owned()),
            speakers: None
        })),
        Route::InVault {
            action: VaultAction::Transcribe {
                audio_path: "a.wav".to_owned(),
                name: None,
                memo: Some("m.md".to_owned()),
                speakers: 1
            }
        }
    );
    assert_eq!(
        route(Some(Command::Process {
            session: "current".to_owned(),
            speakers: Some(3),
            align_only: true
        })),
        Route::InVault {
            action: VaultAction::Process {
                session: "current".to_owned(),
                speakers: 3,
                align_only: true
            }
        }
    );
    assert_eq!(
        route(Some(Command::Import {
            command: ImportCommand::Granola {
                path: "g.json".to_owned()
            }
        })),
        Route::InVault {
            action: VaultAction::ImportGranola {
                path: "g.json".to_owned()
            }
        }
    );
    assert_eq!(
        route(Some(Command::Agents {
            command: AgentsCommand::Install
        })),
        Route::InVault {
            action: VaultAction::InstallAgents
        }
    );
    assert_eq!(
        route(Some(Command::Archive {
            command: ArchiveCommand::Status
        })),
        Route::InVault {
            action: VaultAction::Archive {
                command: ArchiveCommand::Status
            }
        }
    );
    assert_eq!(
        route(Some(Command::ArtifactsPrune)),
        Route::InVault {
            action: VaultAction::PruneArtifacts
        }
    );
}

#[test]
fn only_transcript_and_artifact_listings_look_up_a_meeting_owner() {
    let transcript = VaultAction::Transcript {
        meeting_id: "m1".to_owned(),
    };
    assert_eq!(transcript.meeting_lookup(), Some("m1"));
    let artifacts = VaultAction::Artifacts {
        meeting_id: "m2".to_owned(),
    };
    assert_eq!(artifacts.meeting_lookup(), Some("m2"));
    assert_eq!(VaultAction::ShowCurrent.meeting_lookup(), None);
    assert_eq!(VaultAction::Recent { all: true }.meeting_lookup(), None);
}
