use gemini_live_transcribe::json::{parse_json, Json};
use gemini_live_transcribe::transcriber::{
    build_setup_message, connect, format_close_frame, normalize_model_name,
    parse_server_message_events, pcm_le_bytes, sanitize_session_handle, AudioSender, CloseInfo,
    Config, FunctionResponse, InboundLog, ReceiveError, ServerMessageError, SessionMode,
    ToolDefinition, TranscriptEvent, TranscriptReceiver, UsageMetadata, WireMessage, WS_URL,
};

fn json(text: &str) -> Json {
    parse_json(text).expect("test JSON should parse")
}

fn at<'a>(value: &'a Json, path: &[&str]) -> Option<&'a Json> {
    let mut found = value;
    for name in path {
        found = found.get(name)?;
    }
    Some(found)
}

fn draft_config(session_handle: Option<&str>) -> Config {
    Config {
        api_key: "key".into(),
        model: "gemini-3.1-flash-live-preview".into(),
        sample_rate: 16_000,
        system_instruction: Some("Keep filler words.".into()),
        session_handle: session_handle.map(|handle| handle.to_string()),
        mode: SessionMode::Draft,
    }
}

fn finalizer_config(model: &str) -> Config {
    Config {
        api_key: "key".into(),
        model: model.into(),
        sample_rate: 16_000,
        system_instruction: Some("Finalize transcript.".into()),
        session_handle: None,
        mode: SessionMode::Finalizer {
            tool: ToolDefinition {
                name: "finalize_transcript".into(),
                description: "Finalize a transcript turn.".into(),
                parameters: json(
                    r#"{"type":"object","properties":{"text":{"type":"string"}}}"#,
                ),
            },
        },
    }
}

#[test]
fn converts_f32_audio_to_i16_pcm() {
    let samples: Vec<i16> = [-1.0f32, -0.5, 0.0, 0.5, 1.0]
        .iter()
        .map(|sample| (sample.clamp(-1.0, 1.0) * i16::MAX as f32) as i16)
        .collect();
    let bytes = pcm_le_bytes(&samples);
    let expected = vec![i16::MIN + 1, -16383, 0, 16383, i16::MAX];
    let decoded = bytes
        .chunks_exact(2)
        .map(|chunk| i16::from_le_bytes([chunk[0], chunk[1]]))
        .collect::<Vec<_>>();

    assert_eq!(decoded, expected);
}

#[test]
fn build_setup_message_enables_compression_and_resumption_for_draft() {
    let setup = build_setup_message(&draft_config(Some("resume-123")));

    assert_eq!(
        at(&setup, &["setup", "contextWindowCompression"]),
        Some(&json(r#"{"slidingWindow":{"targetTokens":32768}}"#))
    );
    assert_eq!(
        at(&setup, &["setup", "sessionResumption", "handle"]).and_then(|value| value.as_str()),
        Some("resume-123")
    );
    assert_eq!(at(&setup, &["setup", "inputAudioTranscription"]), Some(&json("{}")));
}

#[test]
fn build_setup_message_disables_aad_for_finalizer() {
    let setup = build_setup_message(&finalizer_config("gemini-3.1-flash-live-preview"));

    assert_eq!(
        at(
            &setup,
            &["setup", "realtimeInputConfig", "automaticActivityDetection", "disabled"]
        )
        .and_then(|value| value.as_bool()),
        Some(true)
    );
    assert_eq!(
        at(
            &setup,
            &["setup", "generationConfig", "thinkingConfig", "thinkingLevel"]
        )
        .and_then(|value| value.as_str()),
        Some("medium")
    );
    let tools = at(&setup, &["setup", "tools"]).and_then(|value| value.as_array()).expect("tools");
    let declarations = tools[0]
        .get("functionDeclarations")
        .and_then(|value| value.as_array())
        .expect("declarations");
    assert_eq!(
        declarations[0].get("name").and_then(|value| value.as_str()),
        Some("finalize_transcript")
    );
}

#[test]
fn build_setup_message_keeps_draft_without_thinking_level() {
    let setup = build_setup_message(&draft_config(None));

    assert!(at(&setup, &["setup", "generationConfig"]).is_some());
    assert!(at(&setup, &["setup", "generationConfig", "thinkingConfig"]).is_none());
}

#[test]
fn build_setup_message_skips_medium_thinking_for_non_flash_models() {
    let setup = build_setup_message(&finalizer_config("gemini-3.1-pro-preview"));

    assert!(at(&setup, &["setup", "generationConfig"]).is_some());
    assert!(at(&setup, &["setup", "generationConfig", "thinkingConfig"]).is_none());
}

#[test]
fn setup_message_is_written_in_full() {
    let mut config = draft_config(Some("   "));
    config.model = " models/custom ".into();
    assert_eq!(
        build_setup_message(&config).to_text(),
        concat_text(&[
            r#"{"setup":{"contextWindowCompression":{"slidingWindow":{"targetTokens":32768}},"#,
            r#""generationConfig":{"responseModalities":["AUDIO"]},"inputAudioTranscription":{},"#,
            r#""model":"models/custom","sessionResumption":{},"#,
            r#""systemInstruction":{"parts":[{"text":"Keep filler words."}]}}}"#,
        ])
    );
}

fn concat_text(parts: &[&str]) -> String {
    parts.concat()
}

#[test]
fn setup_message_without_instruction_has_no_instruction() {
    let setup = build_setup_message(&Config::new("key".into()));

    assert!(at(&setup, &["setup", "systemInstruction"]).is_none());
    assert_eq!(
        at(&setup, &["setup", "model"]).and_then(|value| value.as_str()),
        Some("models/gemini-3.1-flash-live-preview")
    );
    assert!(at(&setup, &["setup", "contextWindowCompression"]).is_some());
    assert!(at(&setup, &["setup", "sessionResumption"]).is_some());
}

#[test]
fn normalizes_model_name_for_websocket_setup() {
    assert_eq!(
        normalize_model_name("gemini-3.1-flash-live-preview"),
        "models/gemini-3.1-flash-live-preview"
    );
    assert_eq!(normalize_model_name("models/custom"), "models/custom".to_string());
}

#[test]
fn model_path_is_idempotent() {
    for model in ["gemini", " gemini ", "models/x", "  models/x\t"] {
        let path = normalize_model_name(model);
        assert_eq!(normalize_model_name(&path), path);
    }
}

#[test]
fn parses_usage_metadata_and_turn_completion_from_same_message() {
    let events = parse_server_message_events(&json(
        r#"{
            "usageMetadata": {
                "promptTokenCount": 12,
                "cachedContentTokenCount": 3,
                "responseTokenCount": 4,
                "toolUsePromptTokenCount": 0,
                "thoughtsTokenCount": 0,
                "totalTokenCount": 19
            },
            "serverContent": {
                "inputTranscription": {
                    "text": "hello world"
                },
                "generationComplete": true,
                "turnComplete": true
            }
        }"#,
    ))
    .expect("events should parse");

    assert_eq!(
        events[0],
        TranscriptEvent::UsageMetadata(UsageMetadata {
            prompt_token_count: 12,
            cached_content_token_count: 3,
            response_token_count: 4,
            tool_use_prompt_token_count: 0,
            thoughts_token_count: 0,
            total_token_count: 19,
        })
    );
    assert!(matches!(
        &events[1],
        TranscriptEvent::InputTranscription(text) if text == "hello world"
    ));
    assert!(matches!(events[2], TranscriptEvent::GenerationComplete));
    assert!(matches!(events[3], TranscriptEvent::TurnComplete));
}

#[test]
fn parses_tool_call_requests() {
    let events = parse_server_message_events(&json(
        r#"{
            "toolCall": {
                "functionCalls": [
                    {
                        "id": "call-1",
                        "name": "finalize_transcript",
                        "args": {
                            "text": "hello"
                        }
                    }
                ]
            }
        }"#,
    ))
    .expect("tool call should parse");

    assert!(matches!(
        &events[0],
        TranscriptEvent::ToolCall(calls)
        if calls.len() == 1
            && calls[0].id == "call-1"
            && calls[0].name == "finalize_transcript"
            && calls[0].args.get("text").and_then(|text| text.as_str()) == Some("hello")
    ));
}

#[test]
fn parses_tool_call_cancellation() {
    let events = parse_server_message_events(&json(
        r#"{"toolCallCancellation": {"ids": ["call-1", "call-2"]}}"#,
    ))
    .expect("tool call cancellation should parse");

    assert!(matches!(
        &events[0],
        TranscriptEvent::ToolCallCancellation(ids)
            if ids == &vec!["call-1".to_string(), "call-2".to_string()]
    ));
}

#[test]
fn trims_empty_session_handles() {
    assert_eq!(sanitize_session_handle(Some("  ")), None);
    assert_eq!(sanitize_session_handle(Some(" handle-123 ")), Some("handle-123".into()));
}

#[test]
fn function_response_structure_is_serializable() {
    let response = FunctionResponse {
        id: "call-1".into(),
        name: "finalize_transcript".into(),
        response: json(r#"{"accepted": true}"#),
    };
    assert_eq!(response.name, "finalize_transcript");
    let sent = AudioSender { sample_rate: 16_000 }
        .send_tool_response(&vec![response])
        .expect("one response makes a message");
    assert_eq!(
        sent.wire_text(),
        concat_text(&[
            r#"{"toolResponse":{"functionResponses":[{"id":"call-1","#,
            r#""name":"finalize_transcript","response":{"accepted":true}}]}}"#,
        ])
    );
}

#[test]
fn token_counts_are_cut_off_at_32_bits() {
    let events = parse_server_message_events(&json(
        r#"{"usageMetadata": {"promptTokenCount": 4294967296, "totalTokenCount": -1}}"#,
    ))
    .expect("usage should parse");
    assert_eq!(
        events,
        vec![TranscriptEvent::UsageMetadata(UsageMetadata {
            prompt_token_count: u32::MAX,
            cached_content_token_count: 0,
            response_token_count: 0,
            tool_use_prompt_token_count: 0,
            thoughts_token_count: 0,
            total_token_count: 0,
        })]
    );
}

#[test]
fn service_errors_are_reported() {
    let named = parse_server_message_events(&json(r#"{"error": {"message": "quota"}}"#));
    assert_eq!(named, Err(ServerMessageError::Service("quota".into())));
    assert_eq!(
        ServerMessageError::Service("quota".into()).message(),
        "Gemini Live error: quota"
    );
    let plain = parse_server_message_events(&json(r#"{"error": "down"}"#));
    assert_eq!(plain, Err(ServerMessageError::Service("down".into())));
    let odd = parse_server_message_events(&json(r#"{"error": 5}"#));
    assert_eq!(odd, Err(ServerMessageError::Service("unknown Gemini Live error".into())));
}

#[test]
fn tool_calls_need_an_id_and_a_name() {
    let no_id = parse_server_message_events(&json(
        r#"{"toolCall": {"functionCalls": [{"name": "f"}]}}"#,
    ));
    assert_eq!(no_id, Err(ServerMessageError::MissingCallId));
    assert_eq!(ServerMessageError::MissingCallId.message(), "tool call missing id");
    let no_name = parse_server_message_events(&json(
        r#"{"toolCall": {"functionCalls": [{"id": "1"}]}}"#,
    ));
    assert_eq!(no_name, Err(ServerMessageError::MissingCallName));
    assert_eq!(ServerMessageError::MissingCallName.message(), "tool call missing name");
}

#[test]
fn setup_resumption_and_go_away_are_events() {
    assert_eq!(
        parse_server_message_events(&json(r#"{"setupComplete": {}}"#)),
        Ok(vec![TranscriptEvent::SetupComplete])
    );
    assert_eq!(
        parse_server_message_events(&json(
            r#"{"sessionResumptionUpdate": {"newHandle": "h", "resumable": true}}"#
        )),
        Ok(vec![TranscriptEvent::SessionResumptionUpdate {
            new_handle: Some("h".into()),
            resumable: true,
        }])
    );
    assert_eq!(
        parse_server_message_events(&json(r#"{"goAway": {"timeLeft": "10s"}}"#)),
        Ok(vec![TranscriptEvent::GoAway { time_left: "10s".into() }])
    );
    assert_eq!(parse_server_message_events(&json("{}")), Ok(vec![]));
}

#[test]
fn audio_is_sent_as_base64_of_little_endian_samples() {
    let sender = AudioSender { sample_rate: 16_000 };
    let sent = sender.send_audio(&vec![1i16, -1]).expect("samples make a message");
    assert_eq!(sent.event, "audio");
    assert_eq!(
        sent.wire_text(),
        r#"{"realtimeInput":{"audio":{"data":"AQD//w==","mimeType":"audio/pcm;rate=16000"}}}"#
    );
    assert_eq!(pcm_le_bytes(&vec![258i16]), vec![2u8, 1]);
    assert!(sender.send_audio(&Vec::new()).is_none());
}

#[test]
fn base64_is_padded_to_four_characters() {
    let sender = AudioSender { sample_rate: 8_000 };
    let text = |samples: &Vec<i16>| {
        sender
            .send_audio(samples)
            .and_then(|sent| {
                at(&sent.message, &["realtimeInput", "audio", "data"])
                    .and_then(|data| data.as_str().map(|data| data.to_string()))
            })
            .expect("data")
    };
    assert_eq!(text(&vec![0]), "AAA=");
    assert_eq!(text(&vec![0, 0]), "AAAAAA==");
    assert_eq!(text(&vec![0x6148, 0x6c6c, 0x216f]), "SGFsbG8h");
}

#[test]
fn client_messages_are_written() {
    let sender = AudioSender { sample_rate: 16_000 };
    assert_eq!(
        sender.send_realtime_text("hi").wire_text(),
        r#"{"realtimeInput":{"text":"hi"}}"#
    );
    assert_eq!(
        sender.send_activity_start().wire_text(),
        r#"{"realtimeInput":{"activityStart":{}}}"#
    );
    assert_eq!(
        sender.send_activity_end().wire_text(),
        r#"{"realtimeInput":{"activityEnd":{}}}"#
    );
    assert_eq!(
        sender.end_audio().wire_text(),
        r#"{"realtimeInput":{"audioStreamEnd":true}}"#
    );
    assert!(sender.send_tool_response(&Vec::new()).is_none());
}

#[test]
fn connecting_opens_the_service_with_the_setup() {
    let opening = connect(&draft_config(None));
    assert!(opening.url.starts_with(WS_URL));
    assert_eq!(opening.url, format!("{WS_URL}?key=key"));
    assert_eq!(opening.sender.sample_rate, 16_000);
    assert_eq!(
        opening.setup.wire_text(),
        build_setup_message(&draft_config(None)).to_text()
    );
}

#[test]
fn events_of_one_message_are_handed_out_in_order() {
    let mut receiver = TranscriptReceiver::new();
    assert_eq!(receiver.next_pending(), None);
    let received = receiver.receive(WireMessage::Text(
        r#"{"serverContent": {"generationComplete": true, "turnComplete": true}}"#.into(),
    ));
    assert!(matches!(received.log, InboundLog::Text(_)));
    assert!(matches!(received.outcome, Ok(Some(TranscriptEvent::GenerationComplete))));
    assert_eq!(receiver.next_pending(), Some(TranscriptEvent::TurnComplete));
    assert_eq!(receiver.next_pending(), None);
}

#[test]
fn binary_messages_are_read_as_text() {
    let mut receiver = TranscriptReceiver::new();
    let received = receiver.receive(WireMessage::Binary(br#"{"setupComplete": {}}"#.to_vec()));
    assert!(matches!(received.outcome, Ok(Some(TranscriptEvent::SetupComplete))));
    let broken = receiver.receive(WireMessage::Binary(vec![0x22, 0xff, 0x22]));
    assert!(matches!(&broken.log, InboundLog::Text(text) if text == "\"\u{fffd}\""));
    assert!(matches!(broken.outcome, Ok(None)));
}

#[test]
fn messages_that_are_not_json_are_errors() {
    let mut receiver = TranscriptReceiver::new();
    let received = receiver.receive(WireMessage::Text("not json".into()));
    match received.outcome {
        Err(error) => {
            assert!(matches!(error, ReceiveError::NotJson(_)));
            assert!(error.message().starts_with("parse server message: "));
        }
        Ok(_) => panic!("text that is not JSON should be an error"),
    }
    let refused = receiver.receive(WireMessage::Text(r#"{"error": "down"}"#.into()));
    match refused.outcome {
        Err(error) => assert_eq!(error.message(), "Gemini Live error: down"),
        Ok(_) => panic!("a reported error should be an error"),
    }
}

#[test]
fn closing_is_an_event() {
    let mut receiver = TranscriptReceiver::new();
    let received = receiver.receive(WireMessage::Close(Some(CloseInfo {
        code: 1000,
        reason: "bye".into(),
    })));
    let text = format_close_frame(&Some(CloseInfo { code: 1000, reason: "bye".into() }));
    assert!(matches!(&received.log, InboundLog::Close(reason) if *reason == text));
    assert!(matches!(
        &received.outcome,
        Ok(Some(TranscriptEvent::ConnectionClosed(reason))) if *reason == text
    ));
    let other = receiver.receive(WireMessage::Other);
    assert!(matches!(other.log, InboundLog::Nothing));
    assert!(matches!(other.outcome, Ok(None)));
}
