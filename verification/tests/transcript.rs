use std::path::Path;

use gemini_live_transcribe::capture::SourceKind;
use gemini_live_transcribe::export::{
    transcript_export_path, write_transcript_export, ExportError,
};
use gemini_live_transcribe::paths::{HomeVariables, Platform};
use gemini_live_transcribe::transcript::{
    unix_timestamp_ms, validate_export_extension, validate_export_path, DisplayAction, FinalizedTurnPayload, NumeralPolicy,
    TranscriptStore, TranscriptionConfig, TranscriptionProfile, TurnState,
};

fn new_store() -> TranscriptStore {
    TranscriptStore::new(
        "session".into(),
        "draft".into(),
        "finalizer".into(),
        TranscriptionProfile::default(),
        vec![SourceKind::Microphone],
    )
}

#[test]
fn builds_default_profile() {
    let profile = TranscriptionProfile::from_config(None).expect("default should build");

    assert_eq!(profile.primary_language, "zh-Hant");
    assert!(profile.allowed_languages.is_empty());
    assert!(profile.keep_disfluencies);
    assert_eq!(profile.numeral_policy, NumeralPolicy::Preserve);
}

#[test]
fn normalizes_transcription_profile_languages() {
    let profile = TranscriptionProfile::from_config(Some(TranscriptionConfig {
        primary_language: Some(" en ".into()),
        allowed_languages: vec!["zh-Hant".into(), "en".into(), " zh-Hant ".into()],
        keep_disfluencies: false,
        collapse_self_corrections: true,
        dedupe_immediate_repetition: true,
        numeral_policy: NumeralPolicy::Normalize,
    }))
    .expect("profile should build");

    assert_eq!(profile.primary_language, "en");
    assert_eq!(profile.allowed_languages, vec!["zh-Hant".to_string()]);
    assert!(!profile.keep_disfluencies);
    assert!(profile.collapse_self_corrections);
    assert!(profile.dedupe_immediate_repetition);
    assert_eq!(profile.numeral_policy, NumeralPolicy::Normalize);
}

#[test]
fn output_languages_begin_with_the_primary_one() {
    let profile = TranscriptionProfile::from_config(Some(TranscriptionConfig {
        primary_language: None,
        allowed_languages: vec!["en".into(), " ".into(), "ja".into(), "en".into()],
        ..TranscriptionConfig::default()
    }))
    .expect("profile should build");
    assert_eq!(
        profile.allowed_output_languages(),
        vec!["zh-Hant".to_string(), "en".to_string(), "ja".to_string()]
    );
}

#[test]
fn stores_turn_lifecycle_for_export() {
    let mut store = new_store();

    store.register_turn(SourceKind::Microphone, "turn-1", 1, 10);
    store.update_draft(SourceKind::Microphone, "turn-1", "hello".into());
    store.mark_pending(SourceKind::Microphone, "turn-1");
    store.mark_final(
        SourceKind::Microphone,
        "turn-1",
        FinalizedTurnPayload {
            text: "hello world".into(),
            output_language: "en".into(),
            detected_languages: vec!["en".into()],
            is_empty_or_noise: false,
            display_action: DisplayAction::NewBlock,
        },
        20,
    );

    let source = &store.session.sources[0];
    assert_eq!(source.turns.len(), 1);
    assert_eq!(source.turns[0].state, TurnState::Final);
    assert_eq!(source.turns[0].draft_text, "hello");
    assert_eq!(source.turns[0].text, "hello world");
    assert_eq!(source.turns[0].output_language, "en");
}

#[test]
fn marks_unfinalized_turns_with_draft_text() {
    let mut store = new_store();

    store.register_turn(SourceKind::Microphone, "turn-1", 1, 10);
    store.update_draft(SourceKind::Microphone, "turn-1", "draft".into());
    store.mark_unfinalized(SourceKind::Microphone, "turn-1");

    let turn = &store.session.sources[0].turns[0];
    assert_eq!(turn.state, TurnState::Unfinalized);
    assert_eq!(turn.text, "draft");
}

#[test]
fn a_turn_is_registered_once() {
    let mut store = new_store();
    store.register_turn(SourceKind::Microphone, "turn-1", 1, 10);
    store.update_draft(SourceKind::Microphone, "turn-1", "kept".into());
    store.register_turn(SourceKind::Microphone, "turn-1", 9, 90);
    store.register_turn(SourceKind::Microphone, "turn-2", 2, 20);
    let turns = &store.session.sources[0].turns;
    assert_eq!(turns.len(), 2);
    assert_eq!(turns[0].turn_index, 1);
    assert_eq!(turns[0].draft_text, "kept");
    assert_eq!(turns[1].created_at_unix_ms, 20);
}

#[test]
fn a_change_of_one_turn_leaves_the_others() {
    let mut store = TranscriptStore::new_at(
        "session".into(),
        "draft".into(),
        "finalizer".into(),
        TranscriptionProfile::default(),
        vec![SourceKind::Microphone, SourceKind::SystemAudio],
        5,
    );
    store.register_turn(SourceKind::Microphone, "turn-1", 1, 10);
    store.register_turn(SourceKind::SystemAudio, "turn-1", 1, 11);
    store.mark_failed_at(SourceKind::SystemAudio, "turn-1", "lost".into(), 30);
    assert_eq!(store.session.sources[0].turns[0].state, TurnState::Draft);
    assert_eq!(store.session.sources[0].turns[0].error, None);
    let failed = &store.session.sources[1].turns[0];
    assert_eq!(failed.state, TurnState::Failed);
    assert_eq!(failed.error, Some("lost".to_string()));
    assert_eq!(failed.finalized_at_unix_ms, Some(30));
    assert_eq!(store.session.created_at_unix_ms, 5);
}

#[test]
fn the_clock_is_read() {
    let before = unix_timestamp_ms();
    assert!(before > 1_600_000_000_000);
    let mut store = new_store();
    store.register_turn(SourceKind::Microphone, "turn-1", 1, 10);
    store.mark_failed(SourceKind::Microphone, "turn-1", "lost".into());
    store.finish_session();
    assert!(store.session.created_at_unix_ms >= before);
    assert!(store.session.sources[0].turns[0].finalized_at_unix_ms >= Some(before));
    assert!(store.session.ended_at_unix_ms >= Some(before));
    store.finish_session_at(77);
    assert_eq!(store.session.ended_at_unix_ms, Some(77));
}

#[test]
fn requires_json_export_path() {
    validate_export_path("/tmp/transcript.json").expect("json path should pass");
    let error = validate_export_path("/tmp/transcript.md").expect_err("non-json path should fail");
    assert!(error.message().contains(".json"));
}

#[test]
fn export_paths_need_a_name_before_the_extension() {
    assert!(validate_export_path("a.b.json").is_ok());
    assert!(validate_export_path("dir.json/").is_ok());
    assert!(validate_export_path("dir/x.json/.").is_ok());
    assert!(validate_export_path(".json").is_err());
    assert!(validate_export_path("json").is_err());
    assert!(validate_export_path("x.json/..").is_err());
    assert!(validate_export_path("x.JSON").is_err());
    assert!(validate_export_path("").is_err());
}

#[test]
fn paths_are_parted_as_the_machine_does() {
    for path in ["d\\.json", "a.json\\", "C:.json", "//server/share.json", "a:b.json"] {
        let extension = Path::new(path).extension().and_then(|extension| extension.to_str());
        assert_eq!(validate_export_path(path).is_ok(), extension == Some("json"), "{path}");
        assert_eq!(validate_export_extension(extension), validate_export_path(path));
    }
    assert!(validate_export_extension(Some("json")).is_ok());
    assert!(validate_export_extension(Some("JSON")).is_err());
    assert!(validate_export_extension(Some("")).is_err());
    assert!(validate_export_extension(None).is_err());
}

fn vars(data: Option<&str>) -> HomeVariables<String> {
    HomeVariables {
        home: None,
        xdg_config_home: None,
        xdg_data_home: data.map(|data| data.to_string()),
        app_data: None,
        local_app_data: None,
    }
}

#[test]
fn transcripts_go_to_the_data_directory() {
    let path = transcript_export_path("session-9", Platform::Linux, vars(Some("/data")))
        .expect("a directory");
    assert_eq!(path.base, "/data");
    assert_eq!(path.segments, vec!["gemini-live-transcribe", "transcripts", "session-9.json"]);
    let error = transcript_export_path("session-9", Platform::Linux, vars(None))
        .expect_err("no directory");
    assert_eq!(error, ExportError::NoDirectory);
    assert_eq!(error.message(), "application transcript directory is unavailable");
}

#[test]
fn sessions_can_be_copied() {
    let mut store = new_store();
    let copy = store.session.clone();
    assert_eq!(copy, store.session);
    store.finish_session_at(9);
    assert_ne!(copy, store.session);
}

#[test]
fn exporting_ends_the_session() {
    let mut store = new_store();
    let refused = write_transcript_export(&mut store, Platform::Linux, vars(None));
    assert!(matches!(refused, Err(ExportError::NoDirectory)));
    assert_eq!(store.session.ended_at_unix_ms, None);
    let path = write_transcript_export(&mut store, Platform::Linux, vars(Some("/data")))
        .expect("a directory");
    assert_eq!(path.segments[2], "session.json");
    assert!(store.session.ended_at_unix_ms.is_some());
    let mut nameless = TranscriptStore::new_at(
        String::new(),
        "draft".into(),
        "finalizer".into(),
        TranscriptionProfile::default(),
        vec![],
        5,
    );
    let error = write_transcript_export(&mut nameless, Platform::Linux, vars(Some("/data")))
        .expect_err("no name");
    assert_eq!(error.message(), "transcript export path must end with .json");
    assert_eq!(nameless.session.ended_at_unix_ms, None);
}
