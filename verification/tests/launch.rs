use gemini_live_transcribe::capture::SourceKind;
use gemini_live_transcribe::launch::{
    accept_selections, accept_token, choose_sources, choose_token,
    compose_draft_system_instruction, compose_finalizer_instruction, default_home_config_toml,
    normalize_sources_opt, resolve_launch_config, resolve_log_max_files, sanitize_instruction,
    sanitize_text, HomeConfig, LaunchError, LogsConfig, RunArgs, DEFAULT_DRAFT_INSTRUCTION,
    DEFAULT_MODEL,
};
use gemini_live_transcribe::paths::Platform;
use gemini_live_transcribe::transcript::TranscriptionProfile;

#[test]
fn trims_empty_custom_instruction() {
    assert_eq!(sanitize_instruction(Some("  ".into())), None);
    assert_eq!(
        sanitize_instruction(Some(" keep numerals ".into())),
        Some("keep numerals".into())
    );
}

#[test]
fn composes_draft_system_instruction_from_default_instruction() {
    let instruction = compose_draft_system_instruction(None)
        .expect("default draft instruction should be present");

    assert_eq!(instruction, DEFAULT_DRAFT_INSTRUCTION);
}

#[test]
fn draft_instruction_is_replaced_by_a_custom_one() {
    assert_eq!(compose_draft_system_instruction(Some(" short ")), Some("short".to_string()));
    assert_eq!(
        compose_draft_system_instruction(Some("  ")),
        Some("reply with less than 3 words.".to_string())
    );
}

#[test]
fn finalizer_instruction_includes_profile_defaults() {
    let instruction = compose_finalizer_instruction(&TranscriptionProfile::default(), None);

    assert!(instruction.contains("Primary output language: zh-Hant."));
    assert!(instruction.contains("Keep disfluencies: true."));
}

#[test]
fn finalizer_instruction_appends_custom_operator_text() {
    let instruction = compose_finalizer_instruction(
        &TranscriptionProfile::default(),
        Some("prefer speaker labels"),
    );

    assert!(instruction.contains("Additional operator instruction:"));
    assert!(instruction.contains("prefer speaker labels"));
}

#[test]
fn trims_empty_plain_text_fields() {
    assert_eq!(sanitize_text(Some("   ".into())), None);
    assert_eq!(sanitize_text(Some(" model ".into())), Some("model".into()));
}

#[test]
fn trims_whitespace_of_every_script() {
    assert_eq!(sanitize_text(Some("\u{3000}\u{a0}model\u{2003}\n".into())), Some("model".into()));
    assert_eq!(sanitize_text(Some("\u{200b}".into())), Some("\u{200b}".into()));
}

#[test]
fn normalizes_sources_from_config() {
    assert_eq!(
        normalize_sources_opt(Some(vec![
            SourceKind::Microphone,
            SourceKind::Microphone,
            SourceKind::SystemAudio,
        ])),
        Some(vec![SourceKind::Microphone, SourceKind::SystemAudio])
    );
    assert_eq!(normalize_sources_opt(Some(vec![])), None);
}

#[test]
fn defaults_log_retention_when_logs_config_is_absent() {
    assert_eq!(resolve_log_max_files(None).expect("default should resolve"), 100);
    assert_eq!(
        resolve_log_max_files(Some(LogsConfig::default())).expect("default should resolve"),
        100
    );
}

#[test]
fn rejects_zero_log_retention() {
    let error = resolve_log_max_files(Some(LogsConfig { max_files: Some(0) }))
        .expect_err("zero should be rejected");
    assert!(error.message().contains("logs.max_files"));
}

#[test]
fn generated_default_config_is_parseable() {
    let config: toml::Table =
        toml::from_str(&default_home_config_toml()).expect("default config should parse");

    assert_eq!(
        config.get("model").and_then(|model| model.as_str()),
        Some("gemini-3.1-flash-live-preview")
    );
    assert_eq!(config.get("draft_instruction"), None);
    assert_eq!(config.get("finalizer_instruction"), None);
    assert!(config.get("transcription").is_some());
    assert_eq!(
        config
            .get("logs")
            .and_then(|logs| logs.get("max_files"))
            .and_then(|max_files| max_files.as_integer()),
        Some(100)
    );
}

#[test]
fn default_config_states_its_defaults() {
    let raw = default_home_config_toml();
    assert!(raw.contains("model = \"gemini-3.1-flash-live-preview\""));
    assert!(raw.contains("[transcription]"));
    assert!(raw.contains("primary_language = \"zh-Hant\""));
    assert!(raw.contains("[logs]"));
    assert!(raw.contains("max_files = 100"));
}

#[test]
fn keys_come_from_the_command_line_first() {
    assert_eq!(choose_token(Some(" a ".into()), Some("b".into())), Some("a".into()));
    assert_eq!(choose_token(Some("  ".into()), Some("b".into())), None);
    assert_eq!(choose_token(None, Some(" b ".into())), Some("b".into()));
    assert_eq!(choose_token(None, None), None);
    assert_eq!(accept_token(" key ".into()).expect("key"), "key");
    let error = accept_token("  ".into()).expect_err("blank key");
    assert!(matches!(error, LaunchError::EmptyToken));
    assert_eq!(error.message(), "Gemini API key cannot be empty");
}

#[test]
fn sources_come_from_the_command_line_first() {
    let both = vec![SourceKind::SystemAudio, SourceKind::Microphone, SourceKind::SystemAudio];
    assert_eq!(
        choose_sources(both.clone(), Some(vec![SourceKind::Microphone])),
        Some(vec![SourceKind::SystemAudio, SourceKind::Microphone])
    );
    assert_eq!(
        choose_sources(vec![], Some(both)),
        Some(vec![SourceKind::SystemAudio, SourceKind::Microphone])
    );
    assert_eq!(choose_sources(vec![], None), None);
    assert_eq!(
        accept_selections(Platform::MacOs, &vec![1]).expect("a source"),
        vec![SourceKind::SystemAudio]
    );
    let error = accept_selections(Platform::MacOs, &vec![]).expect_err("no source");
    assert!(matches!(error, LaunchError::NoSource));
    assert_eq!(error.message(), "at least one audio source must be selected");
}

fn args(model: Option<&str>) -> RunArgs {
    RunArgs {
        token: None,
        model: model.map(|model| model.to_string()),
        draft_instruction: Some("  ".into()),
        finalizer_instruction: None,
        debug: true,
        sources: vec![],
    }
}

#[test]
fn launch_settings_come_from_the_command_line_first() {
    let file = HomeConfig {
        model: Some("file-model".into()),
        draft_instruction: Some("file draft".into()),
        logs: Some(LogsConfig { max_files: Some(7) }),
        ..HomeConfig::default()
    };
    let config = resolve_launch_config(
        Platform::Linux,
        "key".into(),
        vec![SourceKind::Microphone],
        args(Some(" own-model ")),
        file,
    )
    .expect("launch config");
    assert_eq!(config.token, "key");
    assert_eq!(config.model, "own-model");
    assert_eq!(config.draft_instruction, Some("file draft".to_string()));
    assert_eq!(config.finalizer_instruction, None);
    assert_eq!(config.log_max_files, 7);
    assert!(config.debug);
    assert_eq!(config.profile_summary, config.transcription_profile.summary());
}

#[test]
fn launch_settings_have_defaults() {
    let config = resolve_launch_config(
        Platform::Linux,
        "key".into(),
        vec![SourceKind::Microphone],
        args(None),
        HomeConfig::default(),
    )
    .expect("launch config");
    assert_eq!(config.model, DEFAULT_MODEL);
    assert_eq!(config.log_max_files, 100);
}

#[test]
fn launch_refuses_unsupported_sources_before_anything_else() {
    let file = HomeConfig {
        logs: Some(LogsConfig { max_files: Some(0) }),
        ..HomeConfig::default()
    };
    let error = resolve_launch_config(
        Platform::Linux,
        "key".into(),
        vec![SourceKind::SystemAudio],
        args(None),
        file,
    )
    .expect_err("unsupported source");
    assert_eq!(error.message(), "system audio capture is only supported on macOS");
    let file = HomeConfig {
        logs: Some(LogsConfig { max_files: Some(0) }),
        ..HomeConfig::default()
    };
    let error = resolve_launch_config(
        Platform::MacOs,
        "key".into(),
        vec![SourceKind::SystemAudio],
        args(None),
        file,
    )
    .expect_err("no logs");
    assert_eq!(error.message(), "config logs.max_files must be at least 1");
}
