use gemini_live_transcribe::capture::SourceKind;
use gemini_live_transcribe::json::{parse_json, Json};
use gemini_live_transcribe::retention::{enforce_retention, is_jsonl_file};
use gemini_live_transcribe::session_log::{
    log_file_name, sanitize_json, should_force_flush, LogWriter, SessionLogger,
};
use gemini_live_transcribe::transcriber::AudioSender;

fn json(text: &str) -> Json {
    parse_json(text).expect("test JSON should parse")
}

#[test]
fn strips_audio_base64_from_logged_payloads() {
    let sanitized = sanitize_json(&json(
        r#"{"inlineData": {"mimeType": "audio/pcm", "data": "AAAA"}}"#,
    ));

    assert_eq!(
        sanitized
            .get("inlineData")
            .and_then(|inline| inline.get("data"))
            .and_then(|data| data.as_str()),
        Some("<omitted audio payload: 4 chars>")
    );
}

#[test]
fn everything_but_audio_is_logged_as_it_is() {
    let text = r#"{"a":[1,null,{"data":"AAAA","mimeType":"image/png"}],"b":true}"#;
    assert_eq!(sanitize_json(&json(text)).to_text(), text);
    let nested = r#"[{"x":{"data":"AA","mimeType":"audio/x"}}]"#;
    assert_eq!(
        sanitize_json(&json(nested)).to_text(),
        r#"[{"x":{"data":"<omitted audio payload: 2 chars>","mimeType":"audio/x"}}]"#
    );
}

#[test]
fn sent_audio_is_not_logged() {
    let sent = AudioSender { sample_rate: 16_000 }.send_audio(&vec![1, 2]).expect("audio");
    assert_eq!(
        sanitize_json(&sent.message).to_text(),
        [
            r#"{"realtimeInput":{"audio":{"data":"<omitted audio payload: 8 chars>","#,
            r#""mimeType":"audio/pcm;rate=16000"}}}"#,
        ]
        .concat()
    );
}

fn retained(files: &[&str], current: &str, max_files: usize) -> Vec<String> {
    let names: Vec<Vec<u8>> = files.iter().map(|name| name.as_bytes().to_vec()).collect();
    let victims = enforce_retention(names, &current.as_bytes().to_vec(), max_files);
    let mut left: Vec<String> = files
        .iter()
        .filter(|name| !victims.contains(&name.as_bytes().to_vec()))
        .map(|name| name.to_string())
        .collect();
    left.sort();
    left
}

#[test]
fn retention_keeps_all_logs_when_under_cap() {
    assert_eq!(
        retained(&["003-current.jsonl", "001-old.jsonl", "002-mid.jsonl"], "003-current.jsonl", 3),
        vec!["001-old.jsonl", "002-mid.jsonl", "003-current.jsonl"]
    );
}

#[test]
fn retention_removes_oldest_logs_when_over_cap() {
    assert_eq!(
        retained(
            &["004-current.jsonl", "001-oldest.jsonl", "002-old.jsonl", "003-mid.jsonl"],
            "004-current.jsonl",
            2
        ),
        vec!["003-mid.jsonl", "004-current.jsonl"]
    );
}

#[test]
fn retention_ignores_non_jsonl_files() {
    assert_eq!(
        retained(&["003-current.jsonl", "001-old.jsonl", "notes.txt"], "003-current.jsonl", 1),
        vec!["003-current.jsonl", "notes.txt"]
    );
}

#[test]
fn logs_are_told_by_their_extension() {
    assert!(is_jsonl_file(&b"a.jsonl".to_vec()));
    assert!(!is_jsonl_file(&b".jsonl".to_vec()));
    assert!(!is_jsonl_file(&b"a.json".to_vec()));
    assert!(!is_jsonl_file(&b"ajsonl".to_vec()));
}

#[test]
fn log_writer_flushes_when_threshold_is_reached() {
    let mut writer = LogWriter::with_policy(2, 3_600_000, 0);

    assert!(!writer.write_record(false, 1));
    assert!(writer.write_record(false, 2));
}

#[test]
fn log_writer_explicit_flush_persists_buffered_records() {
    let mut writer = LogWriter::with_policy(99, 3_600_000, 0);

    assert!(!writer.write_record(false, 1));
    writer.flushed(2);
    assert!(!writer.write_record(false, 3_600_000_000_000));
    assert!(writer.write_record(false, 3_600_000_000_002));
}

#[test]
fn log_writer_flushes_when_forced_or_due() {
    let mut writer = LogWriter::new(0);
    assert!(writer.write_record(true, 0));
    writer.flushed(0);
    assert!(!writer.write_record(false, 249_999_999));
    assert!(writer.write_record(false, 250_000_000));
    assert!(should_force_flush("lifecycle", "session_start"));
    assert!(should_force_flush("lifecycle", "client_close"));
    assert!(should_force_flush("inbound", "close"));
    assert!(!should_force_flush("inbound", "message"));
    assert!(!should_force_flush("outbound", "close"));
}

#[test]
fn log_files_are_named_by_time_and_stream() {
    assert_eq!(
        log_file_name(17, SourceKind::SystemAudio, " draft one "),
        "17-system-audio-draft-one.jsonl"
    );
}

#[test]
fn records_are_json_lines() {
    let logger = SessionLogger::create(SourceKind::Microphone, " draft one ");
    let start = logger.log_start(5, "m", "/logs/a.jsonl");
    assert!(start.force_flush);
    assert_eq!(
        start.line,
        [
            r#"{"direction":"lifecycle","event":"session_start","payload":"#,
            r#"{"log_path":"/logs/a.jsonl","model":"m","stream_label":"draft-one"},"#,
            r#""source":"microphone","stream_label":"draft-one","ts_unix_ms":5}"#,
        ]
        .concat()
    );
    let state = logger.log_lifecycle(6, "state", json(r#"{"status":"listening"}"#));
    assert!(!state.force_flush);
    assert!(state.line.contains(r#""payload":{"status":"listening"}"#));
    let close = logger.log_close(7, "bye");
    assert!(close.force_flush);
    assert!(close.line.contains(r#""payload":{"reason":"bye"}"#));
}

#[test]
fn messages_are_logged_without_audio() {
    let logger = SessionLogger::create(SourceKind::Microphone, "draft");
    let sent = logger.log_outbound_json(1, "audio", &json(r#"{"data":"AAAA","mimeType":"audio/x"}"#));
    assert!(sent.line.contains("<omitted audio payload: 4 chars>"));
    assert!(sent.line.contains(r#""direction":"outbound","event":"audio""#));
    let received = logger.log_inbound_message_text(2, r#"{"b":1,"a":"x"}"#);
    assert!(received.line.contains(r#""payload":{"a":"x","b":1}"#));
    let raw = logger.log_inbound_message_text(3, "not json");
    assert!(raw.line.contains(r#""payload":{"raw_text":"not json"}"#));
}
