use gemini_live_transcribe::capture::{AudioChunk, SourceKind};
use gemini_live_transcribe::connection::{
    connect_failure_context, connection_status_label, handle_setup_event, live_session_config,
    reconnect_backoff, reconnect_notice, text_opt, usage_snapshot_from_metadata, PendingTurn,
    QueueMetrics, SetupStep, Shutdown,
};
use gemini_live_transcribe::draft::{
    build_connection_lost_details, build_reconnect_failed_details, build_retry_text,
    build_state_details, turn_id_for, ConnectFailure, ConnectionLoss, DraftAction, DraftWorker,
};
use gemini_live_transcribe::finalizer::{
    build_finalizer_preamble, finalize_call_args, finalize_transcript_tool_definition,
    parse_finalize_transcript_payload, receive_failed, replay_messages, replay_send_failed,
    FinalizeTranscriptArgs, FinalizerConnectFailure, FinalizerTurnError, FinalizerWait,
    FinalizerWorker, Intake, ReplayMessage, ReplayProgress, ReplayStage,
};
use gemini_live_transcribe::json::{parse_json, Json};
use gemini_live_transcribe::seconds::Seconds;
use gemini_live_transcribe::transcriber::{
    FunctionCallRequest, SessionMode, TranscriptEvent, UsageMetadata,
};
use gemini_live_transcribe::transcript::{
    DisplayAction, FinalizedTurnPayload, TranscriptStore, TranscriptionProfile, TurnState,
};
use gemini_live_transcribe::ui::AppEvent;

const MIC: SourceKind = SourceKind::Microphone;
const SECOND: i64 = 1_000_000_000;

fn json(text: &str) -> Json {
    parse_json(text).expect("test JSON should parse")
}

fn store() -> TranscriptStore {
    TranscriptStore::new_at(
        "session".into(),
        "draft".into(),
        "finalizer".into(),
        TranscriptionProfile::default(),
        vec![MIC],
        1,
    )
}

fn chunk(samples: Vec<i16>, has_activity: bool) -> AudioChunk<i16> {
    AudioChunk { samples, started_at: 5, duration: 40_000_000, has_activity }
}

#[test]
fn finalize_transcript_tool_uses_expected_schema() {
    let tool = finalize_transcript_tool_definition();

    assert_eq!(tool.name, "finalize_transcript");
    assert_eq!(
        tool.parameters.get("required"),
        Some(&json(
            r#"["text", "output_language", "detected_languages", "is_empty_or_noise", "display_action"]"#
        ))
    );
    assert_eq!(
        tool.parameters.get("properties").and_then(|all| all.get("output_language")),
        Some(&json(r#"{"type": "string"}"#))
    );
}

fn finalize_call(args: &str) -> Vec<FunctionCallRequest> {
    vec![FunctionCallRequest {
        id: "call-1".into(),
        name: "finalize_transcript".into(),
        args: json(args),
    }]
}

fn read_args(args: &Json) -> FinalizeTranscriptArgs {
    FinalizeTranscriptArgs {
        text: args.get("text").and_then(|text| text.as_str()).expect("text").to_string(),
        output_language: args
            .get("output_language")
            .and_then(|language| language.as_str())
            .expect("language")
            .to_string(),
        detected_languages: args
            .get("detected_languages")
            .and_then(|languages| languages.as_array())
            .expect("languages")
            .iter()
            .map(|language| language.as_str().expect("language").to_string())
            .collect(),
        is_empty_or_noise: args
            .get("is_empty_or_noise")
            .and_then(|noise| noise.as_bool())
            .expect("noise"),
        display_action: match args.get("display_action").and_then(|action| action.as_str()) {
            Some("new-block") => DisplayAction::NewBlock,
            Some("append-previous-block") => DisplayAction::AppendPreviousBlock,
            _ => panic!("display action"),
        },
    }
}

#[test]
fn parses_finalize_transcript_tool_payload() {
    let calls = finalize_call(
        r#"{
            "text": "hello",
            "output_language": "en",
            "detected_languages": ["en"],
            "is_empty_or_noise": false,
            "display_action": "new-block"
        }"#,
    );
    let args = read_args(finalize_call_args(&calls).expect("a call of the tool"));
    let tool_call =
        parse_finalize_transcript_payload(calls, Ok(args)).expect("payload should parse");

    assert_eq!(tool_call.call_id, "call-1");
    assert_eq!(tool_call.payload.text, "hello");
    assert_eq!(tool_call.payload.output_language, "en");
    assert_eq!(tool_call.payload.detected_languages, vec!["en".to_string()]);
    assert_eq!(tool_call.payload.display_action, DisplayAction::NewBlock);
}

#[test]
fn accepts_unconfigured_finalizer_output_language_as_hint() {
    let calls = finalize_call(
        r#"{
            "text": "こんにちは",
            "output_language": "ja",
            "detected_languages": ["ja"],
            "is_empty_or_noise": false,
            "display_action": "new-block"
        }"#,
    );
    let args = read_args(finalize_call_args(&calls).expect("a call of the tool"));
    let tool_call = parse_finalize_transcript_payload(calls, Ok(args))
        .expect("output_language should be treated as a hint");

    assert_eq!(tool_call.payload.output_language, "ja");
}

#[test]
fn builds_minimal_finalizer_preamble() {
    let preamble = build_finalizer_preamble();

    assert_eq!(preamble, "Finalize only this replayed audio turn.");
}

fn args(text: &str, language: &str, languages: &[&str], noise: bool) -> FinalizeTranscriptArgs {
    FinalizeTranscriptArgs {
        text: text.into(),
        output_language: language.into(),
        detected_languages: languages.iter().map(|language| language.to_string()).collect(),
        is_empty_or_noise: noise,
        display_action: DisplayAction::AppendPreviousBlock,
    }
}

fn refusal(
    calls: Vec<FunctionCallRequest>,
    args: Result<FinalizeTranscriptArgs, String>,
) -> String {
    match parse_finalize_transcript_payload(calls, args) {
        Err(FinalizerTurnError::Permanent(error)) => error,
        _ => panic!("the call should be refused for good"),
    }
}

#[test]
fn finalizer_calls_are_checked() {
    let good = || Ok(args("x", "en", &["en"], false));
    assert_eq!(refusal(vec![], good()), "finalizer must return exactly one tool call");
    let mut other = finalize_call("{}");
    other[0].name = "other".into();
    assert!(finalize_call_args(&other).is_none());
    assert_eq!(refusal(other, good()), "unexpected finalizer tool call: other");
    assert_eq!(
        refusal(finalize_call("{}"), Err("missing field `text`".into())),
        "invalid finalizer tool args: missing field `text`"
    );
    assert_eq!(
        refusal(finalize_call("{}"), Ok(args(" ", "en", &["en"], false))),
        "finalizer returned empty text without is_empty_or_noise"
    );
    assert_eq!(
        refusal(finalize_call("{}"), Ok(args("x", " ", &["en"], false))),
        "finalizer returned empty output_language"
    );
    assert_eq!(
        refusal(finalize_call("{}"), Ok(args("x", "en", &[], false))),
        "finalizer returned no detected languages"
    );
    let noise = parse_finalize_transcript_payload(
        finalize_call("{}"),
        Ok(args("  ", " en ", &[], true)),
    )
    .expect("noise may be empty");
    assert_eq!(noise.payload.text, "");
    assert_eq!(noise.payload.output_language, "en");
    assert_eq!(noise.payload.display_action, DisplayAction::AppendPreviousBlock);
}

#[test]
fn replays_keep_the_audio() {
    let samples: Vec<i16> = (0..1300).collect();
    let messages = replay_messages(&samples);
    assert_eq!(messages.len(), 6);
    assert!(matches!(messages[0], ReplayMessage::Preamble(_)));
    assert!(matches!(messages[1], ReplayMessage::ActivityStart));
    assert!(matches!(messages[5], ReplayMessage::ActivityEnd));
    let mut replayed: Vec<i16> = Vec::new();
    let mut sizes: Vec<usize> = Vec::new();
    for message in &messages {
        if let ReplayMessage::Audio(batch) = message {
            sizes.push(batch.len());
            replayed.extend(batch);
        }
    }
    assert_eq!(sizes, vec![640, 640, 20]);
    assert_eq!(replayed, samples);
    assert_eq!(messages[2].stage(), ReplayStage::Audio);
    assert_eq!(replay_messages(&Vec::<i16>::new()).len(), 3);
}

fn reconnect_reason(error: FinalizerTurnError) -> String {
    match error {
        FinalizerTurnError::Reconnect(reason) => reason,
        _ => panic!("the connection should be opened again"),
    }
}

#[test]
fn replay_failures_reopen_the_connection() {
    assert_eq!(
        reconnect_reason(replay_send_failed(ReplayStage::Preamble, "x")),
        "send finalizer preamble failed: x"
    );
    assert_eq!(
        reconnect_reason(replay_send_failed(ReplayStage::ActivityStart, "x")),
        "send activityStart failed: x"
    );
    assert_eq!(
        reconnect_reason(replay_send_failed(ReplayStage::Audio, "x")),
        "send finalizer audio failed: x"
    );
    assert_eq!(
        reconnect_reason(replay_send_failed(ReplayStage::ActivityEnd, "x")),
        "send activityEnd failed: x"
    );
    assert_eq!(reconnect_reason(receive_failed("x")), "receive finalizer event failed: x");
}

#[test]
fn waits_between_attempts_grow() {
    let waits: Vec<u64> = (0..8).map(reconnect_backoff).collect();
    assert_eq!(waits, vec![500, 500, 1000, 2000, 4000, 5000, 5000, 5000]);
    assert_eq!(reconnect_backoff(u32::MAX), 5000);
}

#[test]
fn connections_are_named_by_what_they_resume() {
    assert_eq!(connection_status_label(false, Some("h")), "connecting");
    assert_eq!(connection_status_label(true, Some("h")), "resuming");
    assert_eq!(connection_status_label(true, None), "reconnecting");
    assert_eq!(reconnect_notice(MIC, "draft", false, None), None);
    assert_eq!(
        reconnect_notice(MIC, "draft", true, Some("h")),
        Some("microphone draft resuming existing Live session".to_string())
    );
    assert_eq!(
        reconnect_notice(MIC, "draft", true, None),
        Some(
            "microphone draft reconnecting without a resumable handle; session context will restart"
                .to_string()
        )
    );
    assert_eq!(connect_failure_context(MIC), "connect transcriber for microphone");
    assert_eq!(text_opt(&Some("x".to_string())), Some("x"));
}

#[test]
fn session_configs_are_put_together() {
    let config = live_session_config("key", "m", Some("i"), Some("h"), SessionMode::Draft);
    assert_eq!(config.api_key, "key");
    assert_eq!(config.model, "m");
    assert_eq!(config.sample_rate, 16_000);
    assert_eq!(config.system_instruction, Some("i".to_string()));
    assert_eq!(config.session_handle, Some("h".to_string()));
    let usage = usage_snapshot_from_metadata(&UsageMetadata {
        prompt_token_count: 1,
        cached_content_token_count: 2,
        response_token_count: 3,
        tool_use_prompt_token_count: 4,
        thoughts_token_count: 5,
        total_token_count: 6,
    });
    assert_eq!(usage.tool_use_prompt_token_count, 4);
    assert_eq!(usage.total_token_count, 6);
}

#[test]
fn setups_wait_for_completion() {
    let mut handle = None;
    let (step, effects) = handle_setup_event(
        MIC,
        &mut handle,
        Some(TranscriptEvent::SessionResumptionUpdate {
            new_handle: Some("h".into()),
            resumable: true,
        }),
    );
    assert!(matches!(step, SetupStep::Wait));
    assert_eq!(handle, Some("h".to_string()));
    assert_eq!(effects.log[0].event, "session_resumption_update");
    let (step, effects) = handle_setup_event(
        MIC,
        &mut handle,
        Some(TranscriptEvent::GoAway { time_left: "5s".into() }),
    );
    assert!(matches!(step, SetupStep::Wait));
    assert!(matches!(
        &effects.ui[0],
        AppEvent::Notice(text) if text == "microphone connection will renew in 5s"
    ));
    let (step, _) = handle_setup_event(MIC, &mut handle, Some(TranscriptEvent::SetupComplete));
    assert!(matches!(step, SetupStep::Ready));
    let (step, _) =
        handle_setup_event(MIC, &mut handle, Some(TranscriptEvent::ConnectionClosed("x".into())));
    assert!(matches!(
        step,
        SetupStep::Failed(text)
            if text == "Gemini Live connection closed before setup completed: x"
    ));
    let (step, _) = handle_setup_event(MIC, &mut handle, None);
    assert!(matches!(
        step,
        SetupStep::Failed(text) if text == "Gemini Live connection closed before setup completed"
    ));
    assert_eq!(handle, Some("h".to_string()));
}

#[test]
fn the_first_shutdown_request_sets_the_deadline() {
    let mut shutdown = Shutdown::none();
    assert!(!shutdown.is_overdue(i64::MAX));
    shutdown.request_shutdown(10, 5);
    shutdown.request_shutdown(99, 5);
    assert_eq!(shutdown.deadline, Some(5_000_010));
    assert!(!shutdown.is_overdue(5_000_009));
    assert!(shutdown.is_overdue(5_000_010));
}

fn waiting(queue_depth: usize, nanos: u128) -> QueueMetrics {
    QueueMetrics { queue_depth, pending_audio_secs: Seconds::of_nanos(nanos) }
}

#[test]
fn queue_metrics_are_restored() {
    let mut metrics = QueueMetrics::default();
    metrics.increment_queue_metrics(MIC, Seconds::of_nanos(2_500_000_000));
    let event = metrics.increment_queue_metrics(MIC, Seconds::of_nanos(750_000_000));
    let both = Seconds::of_nanos(3_250_000_000);
    assert!(matches!(
        event,
        AppEvent::QueueMetrics { queue_depth: 2, pending_audio_secs, .. }
            if pending_audio_secs == both
    ));
    metrics.decrement_queue_metrics(MIC, Seconds::of_nanos(750_000_000));
    assert_eq!(metrics, waiting(1, 2_500_000_000));
    metrics.decrement_queue_metrics(MIC, Seconds::of_nanos(9_000_000_000));
    assert_eq!(metrics, QueueMetrics::default());
    let event = metrics.decrement_queue_metrics(MIC, Seconds::of_nanos(1));
    let none = Seconds { bits: 0 };
    assert!(matches!(
        event,
        AppEvent::QueueMetrics { queue_depth: 0, pending_audio_secs, .. }
            if pending_audio_secs == none
    ));
}

#[test]
fn log_details_are_json() {
    assert_eq!(
        build_state_details("connecting", 2, true).to_text(),
        r#"{"reconnect_attempt":2,"resume_handle_present":true,"status":"connecting"}"#
    );
    assert_eq!(
        build_reconnect_failed_details("x", 3).to_text(),
        r#"{"backoff_ms":2000,"error":"x","reconnect_attempt":3}"#
    );
    assert_eq!(
        build_connection_lost_details("x", 1, false).to_text(),
        r#"{"reason":"x","reconnect_attempt":1,"resume_handle_present":false}"#
    );
    assert_eq!(
        build_retry_text(MIC, "draft", "x", 1),
        "microphone draft reconnect failed: x. retrying in 500 ms"
    );
    assert_eq!(turn_id_for(SourceKind::SystemAudio, 7), "system-audio-turn-0007");
    assert_ne!(turn_id_for(MIC, 12), turn_id_for(MIC, 120));
}

#[test]
fn a_spoken_turn_is_drafted_and_queued() {
    let mut store = store();
    let mut metrics = QueueMetrics::default();
    let mut worker: DraftWorker<i16> = DraftWorker::new(MIC);
    assert_eq!(worker.next_action(0), DraftAction::Connect);
    assert_eq!(worker.begin_connect().log[0].event, "state");
    worker.connect_succeeded();
    worker.audio_received(&mut store, chunk(vec![], true), 9);
    assert!(worker.front_audio().is_none());
    worker.audio_received(&mut store, chunk(vec![1, 2], false), 9);
    assert!(worker.current_turn.is_none());
    worker.audio_received(&mut store, chunk(vec![3, 4], true), 10);
    worker.audio_received(&mut store, chunk(vec![5], false), 11);
    assert_eq!(
        worker.next_action(0),
        DraftAction::Stream { send_audio: true, accept_audio: true }
    );
    assert_eq!(worker.front_audio().map(|chunk| chunk.samples.clone()), Some(vec![1, 2]));
    worker.audio_sent();
    assert_eq!(worker.pending_audio.len(), 2);
    let drafted = worker.handle_draft_event(
        &mut store,
        &mut metrics,
        TranscriptEvent::InputTranscription("hello".into()),
        20,
        12,
    );
    assert!(drafted.queued.is_none());
    let done = worker.handle_draft_event(
        &mut store,
        &mut metrics,
        TranscriptEvent::TurnComplete,
        30,
        13,
    );
    let turn = done.queued.expect("the turn is queued");
    assert_eq!(turn.audio_samples, vec![3, 4, 5]);
    assert_eq!(turn.audio_duration, 80_000_000);
    assert_eq!(turn.attempt_count, 0);
    assert_eq!(metrics, waiting(1, 80_000_000));
    let stored = &store.session.sources[0].turns[0];
    assert_eq!(stored.turn_id, turn.turn_id);
    assert_eq!(stored.state, TurnState::Pending);
    assert_eq!(stored.draft_text, "hello");
    assert_eq!(stored.created_at_unix_ms, 10);
    let effects = worker.queue_refused(&mut store, turn.turn_id, 14);
    assert!(matches!(
        &effects.ui[0],
        AppEvent::TurnFailed { error, .. } if error == "finalizer queue is closed"
    ));
    assert_eq!(store.session.sources[0].turns[0].state, TurnState::Failed);
}

#[test]
fn turns_are_numbered_and_late_drafts_find_their_turn() {
    let mut store = store();
    let mut metrics = QueueMetrics::default();
    let mut worker: DraftWorker<i16> = DraftWorker::new(MIC);
    let heard = |text: &str| TranscriptEvent::InputTranscription(text.to_string());
    for event in [heard(" one "), heard("  "), TranscriptEvent::TurnComplete, heard("one more")] {
        worker.handle_draft_event(&mut store, &mut metrics, event, 20, 12);
    }
    assert_eq!(store.session.sources[0].turns.len(), 1);
    assert_eq!(store.session.sources[0].turns[0].draft_text, "one more");
    assert!(worker.current_turn.is_none());
    worker.handle_draft_event(&mut store, &mut metrics, heard("two"), 21, 13);
    let ids: Vec<&str> =
        store.session.sources[0].turns.iter().map(|turn| turn.turn_id.as_str()).collect();
    assert_eq!(ids, vec!["microphone-turn-0001", "microphone-turn-0002"]);
    assert_eq!(worker.next_turn_index, 3);
}

#[test]
fn turns_that_begin_with_audio_are_numbered_too() {
    let mut store = store();
    let mut metrics = QueueMetrics::default();
    let mut worker: DraftWorker<i16> = DraftWorker::new(MIC);
    let chunk = |has_activity: bool| AudioChunk {
        samples: vec![1i16],
        started_at: 0,
        duration: 350_000_000,
        has_activity,
    };
    worker.audio_received(&mut store, chunk(false), 5);
    assert!(worker.current_turn.is_none());
    worker.audio_received(&mut store, chunk(true), 6);
    let heard = TranscriptEvent::InputTranscription("one".to_string());
    worker.handle_draft_event(&mut store, &mut metrics, heard, 7, 7);
    let done = worker.handle_draft_event(
        &mut store,
        &mut metrics,
        TranscriptEvent::TurnComplete,
        8,
        8,
    );
    let turn = done.queued.expect("the turn is queued");
    assert_eq!(turn.audio_duration_secs(), Seconds::of_nanos(350_000_000));
    assert_eq!(metrics, waiting(1, 350_000_000));
    worker.audio_received(&mut store, chunk(true), 9);
    let ids: Vec<&str> =
        store.session.sources[0].turns.iter().map(|turn| turn.turn_id.as_str()).collect();
    assert_eq!(ids, vec!["microphone-turn-0001", "microphone-turn-0002"]);
}

#[test]
fn a_turn_without_audio_fails() {
    let mut store = store();
    let mut metrics = QueueMetrics::default();
    let mut worker: DraftWorker<i16> = DraftWorker::new(MIC);
    worker.handle_draft_event(
        &mut store,
        &mut metrics,
        TranscriptEvent::InputTranscription("hello".into()),
        20,
        12,
    );
    let done = worker.handle_draft_event(
        &mut store,
        &mut metrics,
        TranscriptEvent::TurnComplete,
        30,
        13,
    );
    assert!(done.queued.is_none());
    assert_eq!(metrics, QueueMetrics::default());
    let turn = &store.session.sources[0].turns[0];
    assert_eq!(turn.state, TurnState::Failed);
    assert_eq!(turn.error.as_deref(), Some("draft turn completed without buffered audio"));
}

#[test]
fn a_lost_connection_keeps_what_was_heard() {
    let mut store = store();
    let mut metrics = QueueMetrics::default();
    let mut worker: DraftWorker<i16> = DraftWorker::new(MIC);
    worker.connect_succeeded();
    worker.audio_received(&mut store, chunk(vec![1], true), 9);
    let closed = worker.handle_draft_event(
        &mut store,
        &mut metrics,
        TranscriptEvent::ConnectionClosed("code 1006".into()),
        1,
        10,
    );
    assert_eq!(closed.closed.as_deref(), Some("code 1006"));
    let effects = worker.connection_lost(&ConnectionLoss::Closed("code 1006".into()));
    assert!(matches!(
        &effects.ui[1],
        AppEvent::Notice(text) if text == "microphone draft reconnecting: code 1006"
    ));
    assert_eq!(worker.reconnect_attempt, 1);
    assert_eq!(worker.pending_audio.len(), 1);
    assert!(worker.current_turn.is_some());
    assert_eq!(worker.next_action(2), DraftAction::Connect);
    let (failure, effects) = worker.connect_failed("refused");
    assert_eq!(failure, ConnectFailure::Retry { backoff_ms: 1000 });
    assert!(matches!(&effects.ui[0], AppEvent::Notice(_)));
    worker.request_shutdown(0);
    assert_eq!(worker.connect_failed("refused").0, ConnectFailure::Stop);
    worker.finish(&mut store);
    assert_eq!(store.session.sources[0].turns[0].state, TurnState::Unfinalized);
    let mut fresh: DraftWorker<i16> = DraftWorker::new(MIC);
    assert_eq!(fresh.connect_failed("refused").0, ConnectFailure::Fatal);
}

#[test]
fn lost_connections_are_explained() {
    assert_eq!(ConnectionLoss::SendFailed("x".into()).reason(), "send audio failed: x");
    assert_eq!(ConnectionLoss::ReceiveFailed("x".into()).reason(), "receive event failed: x");
    assert_eq!(ConnectionLoss::Ended.reason(), "connection closed without close frame");
}

#[test]
fn a_draft_worker_ends_the_audio_before_it_stops() {
    let mut worker: DraftWorker<i16> = DraftWorker::new(MIC);
    worker.connect_succeeded();
    worker.request_shutdown(0);
    assert_eq!(worker.next_action(100 * SECOND), DraftAction::FlushAndEnd);
    assert_eq!(
        worker.next_action(SECOND),
        DraftAction::Stream { send_audio: false, accept_audio: false }
    );
    assert_eq!(worker.next_action(5 * SECOND), DraftAction::Stop);
}

fn pending(store: &mut TranscriptStore) -> PendingTurn<i16> {
    store.register_turn(MIC, "turn-1", 1, 10);
    store.update_draft(MIC, "turn-1", "draft".into());
    PendingTurn {
        turn_id: "turn-1".into(),
        audio_samples: vec![1, 2],
        audio_duration: 70,
        attempt_count: 0,
    }
}

#[test]
fn a_finalized_turn_leaves_the_queue() {
    let mut store = store();
    let mut turn = pending(&mut store);
    let mut metrics = waiting(1, 70);
    let mut worker = FinalizerWorker::new(MIC);
    worker.connect_succeeded();
    let accepted = worker
        .accept_tool_call("turn-1", finalize_call("{}"), Ok(args("x", "en", &["en"], false)))
        .expect("an accepted call");
    assert_eq!(
        accepted.answer.response.to_text(),
        r#"{"accepted":true,"source":"microphone","turn_id":"turn-1"}"#
    );
    let (retry, effects) =
        worker.settle_attempt(&mut store, &mut metrics, &mut turn, Ok(accepted.payload), 20);
    assert_eq!(retry, None);
    assert!(matches!(&effects.ui[0], AppEvent::TurnFinalized { text, .. } if text == "x"));
    assert_eq!(metrics, QueueMetrics::default());
    assert_eq!(store.session.sources[0].turns[0].text, "x");
    assert_eq!(store.session.sources[0].turns[0].finalized_at_unix_ms, Some(20));
}

#[test]
fn attempts_come_to_an_end() {
    let mut store = store();
    let mut turn = pending(&mut store);
    let mut metrics = waiting(1, 70);
    let mut worker = FinalizerWorker::new(MIC);
    let mut waits: Vec<u64> = Vec::new();
    loop {
        let result: Result<FinalizedTurnPayload, FinalizerTurnError> =
            Err(FinalizerTurnError::Retryable("late".into()));
        match worker.settle_attempt(&mut store, &mut metrics, &mut turn, result, 20).0 {
            Some(wait) => waits.push(wait),
            None => break,
        }
    }
    assert_eq!(waits, vec![500, 1000, 2000]);
    assert_eq!(store.session.sources[0].turns[0].state, TurnState::Failed);
    assert_eq!(store.session.sources[0].turns[0].error.as_deref(), Some("late"));
    assert_eq!(metrics, QueueMetrics::default());
}

#[test]
fn reconnects_are_budgeted() {
    let mut store = store();
    let mut turn = pending(&mut store);
    turn.attempt_count = 3;
    let mut metrics = waiting(1, 70);
    let mut worker = FinalizerWorker::new(MIC);
    worker.connect_succeeded();
    let (retry, _) = worker.settle_attempt(
        &mut store,
        &mut metrics,
        &mut turn,
        Err(FinalizerTurnError::Reconnect("gone".into())),
        20,
    );
    assert_eq!(retry, None);
    assert!(!worker.connected);
    assert_eq!(
        store.session.sources[0].turns[0].error.as_deref(),
        Some("finalizer reconnect budget exhausted: gone")
    );
}

#[test]
fn unfinished_turns_keep_their_drafts() {
    let mut store = store();
    let mut turn = pending(&mut store);
    let mut metrics = waiting(1, 70);
    let mut worker = FinalizerWorker::new(MIC);
    worker.settle_attempt(
        &mut store,
        &mut metrics,
        &mut turn,
        Err(FinalizerTurnError::Shutdown("now".into())),
        20,
    );
    assert_eq!(store.session.sources[0].turns[0].state, TurnState::Unfinalized);
    assert_eq!(store.session.sources[0].turns[0].text, "draft");
    assert_eq!(metrics, QueueMetrics::default());
    store.register_turn(MIC, "turn-2", 2, 11);
    store.update_draft(MIC, "turn-2", "second".into());
    turn.turn_id = "turn-2".into();
    worker.mark_remaining_unfinalized(&mut store, &metrics, &vec![turn]);
    assert_eq!(store.session.sources[0].turns[1].text, "second");
    let again = pending(&mut store);
    worker.leave_unfinalized(&mut store, &mut metrics, &again);
    assert_eq!(store.session.sources[0].turns[0].state, TurnState::Unfinalized);
    let effects = worker.finish();
    assert!(matches!(
        &effects.ui[0],
        AppEvent::FinalizerStatus { status, .. } if status == "stopped"
    ));
}

#[test]
fn a_permanent_error_fails_a_turn() {
    let mut store = store();
    let mut turn = pending(&mut store);
    let mut metrics = waiting(1, 70);
    let mut worker = FinalizerWorker::new(MIC);
    let (retry, _) = worker.settle_attempt(
        &mut store,
        &mut metrics,
        &mut turn,
        Err(FinalizerTurnError::Permanent("bad".into())),
        20,
    );
    assert_eq!(retry, None);
    assert_eq!(turn.attempt_count, 0);
    assert_eq!(store.session.sources[0].turns[0].error.as_deref(), Some("bad"));
}

#[test]
fn a_finalizer_drains_until_its_deadline() {
    let mut worker = FinalizerWorker::new(MIC);
    assert_eq!(worker.next_wait(), FinalizerWait::TurnOrShutdown);
    assert_eq!(worker.intake(false), Intake::WaitAgain);
    assert_eq!(worker.intake(true), Intake::Work);
    assert_eq!(worker.response_deadline(0), 30 * SECOND as i128);
    assert!(matches!(worker.response_timed_out(), FinalizerTurnError::Retryable(_)));
    assert_eq!(
        worker.connect_failed("x").0,
        FinalizerConnectFailure::Retry { backoff_ms: 500 }
    );
    worker.request_shutdown(0);
    assert_eq!(worker.next_wait(), FinalizerWait::TurnUntil(15 * SECOND as i128));
    assert_eq!(worker.intake(false), Intake::Stop);
    assert_eq!(worker.response_deadline(0), 15 * SECOND as i128);
    assert!(matches!(worker.response_timed_out(), FinalizerTurnError::Shutdown(_)));
    assert_eq!(worker.connect_failed("x").0, FinalizerConnectFailure::Abandon);
}

#[test]
fn a_replay_waits_for_the_tool_call() {
    let mut worker = FinalizerWorker::new(MIC);
    assert_eq!(worker.begin_connect().ui.len(), 1);
    assert_eq!(worker.begin_replay("turn-1").log[0].event, "state");
    let (progress, effects) =
        worker.replay_event("turn-1", Some(TranscriptEvent::GenerationComplete));
    assert!(matches!(progress, ReplayProgress::Wait));
    assert_eq!(effects.log[0].details.to_text(), r#"{"turn_id":"turn-1"}"#);
    let (progress, _) = worker.replay_event(
        "turn-1",
        Some(TranscriptEvent::SessionResumptionUpdate {
            new_handle: Some("h".into()),
            resumable: true,
        }),
    );
    assert!(matches!(progress, ReplayProgress::Wait));
    assert_eq!(worker.resume_handle, Some("h".to_string()));
    let (_, effects) = worker.replay_event(
        "turn-1",
        Some(TranscriptEvent::ToolCallCancellation(vec!["a".into(), "b".into()])),
    );
    assert_eq!(effects.log[0].details.to_text(), r#"{"ids":["a","b"],"turn_id":"turn-1"}"#);
    let (progress, _) =
        worker.replay_event("turn-1", Some(TranscriptEvent::ToolCall(finalize_call("{}"))));
    assert!(matches!(progress, ReplayProgress::ToolCall(calls) if calls.len() == 1));
    let (progress, _) = worker.replay_event("turn-1", None);
    assert!(matches!(
        progress,
        ReplayProgress::Failed(FinalizerTurnError::Reconnect(reason))
            if reason == "connection closed without close frame"
    ));
}
