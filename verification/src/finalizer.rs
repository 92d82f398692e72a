//! The finalizer worker of a source: it replays completed turns, takes the final text from a
//! tool call, and tries again where that fails.

use vstd::prelude::*;
use vstd::string::*;

use crate::capture::SourceKind;
use crate::connection::{
    Effects, PendingTurn, QueueMetrics, Shutdown, connection_status_label,
    handle_session_resumption_update, reconnect_backoff, reconnect_notice, text_opt,
};
use crate::draft::{
    build_connection_lost_details, build_reconnect_failed_details, build_retry_text,
    build_state_details,
};
use crate::json::Json;
use crate::text::{same_text, trim_text};
use crate::transcriber::{
    FunctionCallRequest, FunctionResponse, ToolDefinition, TranscriptEvent,
};
use crate::transcript::{DisplayAction, FinalizedTurnPayload, TranscriptStore};
use crate::ui::AppEvent;

verus! {

use crate::capture::source_title;
use crate::connection::{
    EffectsView, NANOS_PER_MILLI, backoff_ms, handle_after, metrics_event, metrics_without,
    no_effects, reconnect_text, resumption_details, shutdown_after, status_label,
};
use crate::draft::{
    connection_lost_details, next_attempt, reconnect_failed_details, retry_text, state_details,
    status_details,
};
use crate::json::{JsonView, member_of, unsigned_number};
use crate::seconds::Seconds;
use crate::text::{trimmed, view_opt, views};
use crate::transcriber::{CallView, EventView, call_views};
use crate::transcript::{
    SessionView, TurnState, TurnView, as_failed, as_final, as_unfinalized,
    law_replacing_changes_one_turn, lemma_turn_index_found,
};

/// How long the worker may take to work off its queue when it is to stop, in milliseconds.
pub const FINALIZER_DRAIN_GRACE_MS: u64 = 15_000;

/// How long the worker waits for an event of the session, in milliseconds.
pub const FINALIZER_RESPONSE_TIMEOUT_MS: u64 = 30_000;

/// The number of samples in one message of a replay.
pub const FINALIZER_REPLAY_BATCH_SAMPLES: usize = 640;

/// How often a turn is tried again.
pub const FINALIZER_RETRIES: usize = 3;

/// The name of the tool that the finalizer calls.
pub const FINALIZE_TOOL_NAME: &'static str = "finalize_transcript";

/// The wait before a turn is tried again, in milliseconds, by the retries already made.
pub open spec fn retry_backoff_ms(attempt_count: usize) -> u64 {
    if attempt_count == 0 {
        500
    } else if attempt_count == 1 {
        1_000
    } else {
        2_000
    }
}

fn retry_backoff(attempt_count: usize) -> (wait_ms: u64)
    ensures
        wait_ms == retry_backoff_ms(attempt_count),
{
    if attempt_count == 0 {
        500
    } else if attempt_count == 1 {
        1_000
    } else {
        2_000
    }
}

/// A schema of one type.
pub open spec fn type_schema(name: Seq<char>) -> JsonView {
    JsonView::Object(map!["type"@ => JsonView::Text(name)])
}

/// The schema of the tool's arguments.
pub open spec fn finalize_tool_schema() -> JsonView {
    JsonView::Object(
        map![
            "type"@ => JsonView::Text("object"@),
            "required"@ => JsonView::Array(
                seq![
                    JsonView::Text("text"@),
                    JsonView::Text("output_language"@),
                    JsonView::Text("detected_languages"@),
                    JsonView::Text("is_empty_or_noise"@),
                    JsonView::Text("display_action"@),
                ],
            ),
            "properties"@ => JsonView::Object(
                map![
                    "text"@ => type_schema("string"@),
                    "output_language"@ => type_schema("string"@),
                    "detected_languages"@ => JsonView::Object(
                        map![
                            "type"@ => JsonView::Text("array"@),
                            "items"@ => type_schema("string"@),
                        ],
                    ),
                    "is_empty_or_noise"@ => type_schema("boolean"@),
                    "display_action"@ => JsonView::Object(
                        map![
                            "type"@ => JsonView::Text("string"@),
                            "enum"@ => JsonView::Array(
                                seq![
                                    JsonView::Text("new-block"@),
                                    JsonView::Text("append-previous-block"@),
                                ],
                            ),
                        ],
                    ),
                ],
            ),
        ],
    )
}

fn build_type_schema(name: &str) -> (schema: Json)
    ensures
        schema@ == type_schema(name@),
{
    Json::object().with("type", Json::text(name))
}

fn build_text_list(first: &str, second: &str) -> (list: Vec<String>)
    ensures
        list@.len() == 2,
        list@[0]@ == first@,
        list@[1]@ == second@,
{
    let mut list: Vec<String> = Vec::new();
    list.push(first.to_owned());
    list.push(second.to_owned());
    list
}

fn build_required() -> (json: Json)
    ensures
        json@ == JsonView::Array(
            seq![
                JsonView::Text("text"@),
                JsonView::Text("output_language"@),
                JsonView::Text("detected_languages"@),
                JsonView::Text("is_empty_or_noise"@),
                JsonView::Text("display_action"@),
            ],
        ),
{
    let mut list = build_text_list("text", "output_language");
    list.push("detected_languages".to_owned());
    list.push("is_empty_or_noise".to_owned());
    list.push("display_action".to_owned());
    let json = Json::texts(&list);
    assert(json@->Array_0 == seq![
        JsonView::Text("text"@),
        JsonView::Text("output_language"@),
        JsonView::Text("detected_languages"@),
        JsonView::Text("is_empty_or_noise"@),
        JsonView::Text("display_action"@),
    ]);
    json
}

/// The tool that the finalizer calls.
pub fn finalize_transcript_tool_definition() -> (tool: ToolDefinition)
    ensures
        tool.name@ == FINALIZE_TOOL_NAME@,
        tool.description@ == "Finalize the transcript for the current audio turn."@,
        tool.parameters@ == finalize_tool_schema(),
{
    let actions = Json::texts(&build_text_list("new-block", "append-previous-block"));
    assert(actions@->Array_0 == seq![
        JsonView::Text("new-block"@),
        JsonView::Text("append-previous-block"@),
    ]);
    let properties = Json::object().with("text", build_type_schema("string")).with(
        "output_language",
        build_type_schema("string"),
    ).with(
        "detected_languages",
        Json::object().with("type", Json::text("array")).with(
            "items",
            build_type_schema("string"),
        ),
    ).with("is_empty_or_noise", build_type_schema("boolean")).with(
        "display_action",
        Json::object().with("type", Json::text("string")).with("enum", actions),
    );
    ToolDefinition {
        name: FINALIZE_TOOL_NAME.to_owned(),
        description: "Finalize the transcript for the current audio turn.".to_owned(),
        parameters: Json::object().with("type", Json::text("object")).with(
            "required",
            build_required(),
        ).with("properties", properties),
    }
}

/// What the finalizer is told before the audio.
pub fn build_finalizer_preamble() -> (text: &'static str)
    ensures
        text@ == "Finalize only this replayed audio turn."@,
{
    "Finalize only this replayed audio turn."
}

/// The arguments of a call of the tool.
#[derive(Debug, Clone)]
pub struct FinalizeTranscriptArgs {
    pub text: String,
    pub output_language: String,
    pub detected_languages: Vec<String>,
    pub is_empty_or_noise: bool,
    pub display_action: DisplayAction,
}

/// A call of the tool that was accepted.
#[derive(Debug, Clone)]
pub struct FinalizerToolCall {
    pub call_id: String,
    pub payload: FinalizedTurnPayload,
}

/// Why a turn got no final text from an attempt.
#[derive(Debug)]
pub enum FinalizerTurnError {
    /// The connection is to be opened again.
    Reconnect(String),
    /// The attempt may be made again.
    Retryable(String),
    /// No other attempt would help.
    Permanent(String),
    /// The worker is to stop.
    Shutdown(String),
}

/// What such an error says.
pub enum TurnErrorView {
    Reconnect(Seq<char>),
    Retryable(Seq<char>),
    Permanent(Seq<char>),
    Shutdown(Seq<char>),
}

impl FinalizerTurnError {
    pub open spec fn view(self) -> TurnErrorView {
        match self {
            FinalizerTurnError::Reconnect(text) => TurnErrorView::Reconnect(text@),
            FinalizerTurnError::Retryable(text) => TurnErrorView::Retryable(text@),
            FinalizerTurnError::Permanent(text) => TurnErrorView::Permanent(text@),
            FinalizerTurnError::Shutdown(text) => TurnErrorView::Shutdown(text@),
        }
    }
}

/// Whether the requests are one call of the tool.
pub open spec fn is_finalize_call(calls: Seq<CallView>) -> bool {
    calls.len() == 1 && calls[0].name == FINALIZE_TOOL_NAME@
}

/// Why the requests, with the arguments read from the first, give no final text.
pub open spec fn payload_error(
    calls: Seq<CallView>,
    args: Result<FinalizeTranscriptArgs, String>,
) -> Option<Seq<char>> {
    if calls.len() != 1 {
        Some("finalizer must return exactly one tool call"@)
    } else if calls[0].name != FINALIZE_TOOL_NAME@ {
        Some("unexpected finalizer tool call: "@ + calls[0].name)
    } else {
        match args {
            Err(error) => Some("invalid finalizer tool args: "@ + error@),
            Ok(args) => if trimmed(args.text@).len() == 0 && !args.is_empty_or_noise {
                Some("finalizer returned empty text without is_empty_or_noise"@)
            } else if trimmed(args.output_language@).len() == 0 {
                Some("finalizer returned empty output_language"@)
            } else if args.detected_languages@.len() == 0 && !args.is_empty_or_noise {
                Some("finalizer returned no detected languages"@)
            } else {
                None
            },
        }
    }
}

/// Whether a payload is what the arguments say, trimmed.
pub open spec fn payload_from(payload: FinalizedTurnPayload, args: FinalizeTranscriptArgs) -> bool {
    &&& payload.text@ == trimmed(args.text@)
    &&& payload.output_language@ == trimmed(args.output_language@)
    &&& payload.detected_languages == args.detected_languages
    &&& payload.is_empty_or_noise == args.is_empty_or_noise
    &&& payload.display_action == args.display_action
}

/// The arguments that are to be read, where the requests are one call of the tool.
pub fn finalize_call_args(calls: &Vec<FunctionCallRequest>) -> (args: Option<&Json>)
    ensures
        match args {
            Some(args) => is_finalize_call(call_views(calls@)) && *args == calls@[0].args,
            None => !is_finalize_call(call_views(calls@)),
        },
{
    if calls.len() == 1 && same_text(calls[0].name.as_str(), FINALIZE_TOOL_NAME) {
        Some(&calls[0].args)
    } else {
        None
    }
}

/// The final text that the requests give. `args` is what was read from the arguments of the
/// first one, or why nothing could be read from them.
pub fn parse_finalize_transcript_payload(
    calls: Vec<FunctionCallRequest>,
    args: Result<FinalizeTranscriptArgs, String>,
) -> (result: Result<FinalizerToolCall, FinalizerTurnError>)
    ensures
        match result {
            Ok(call) => {
                &&& payload_error(call_views(calls@), args) is None
                &&& call.call_id@ == calls@[0].id@
                &&& payload_from(call.payload, args->Ok_0)
            },
            Err(error) => payload_error(call_views(calls@), args) matches Some(text) && error@
                == TurnErrorView::Permanent(text),
        },
{
    if calls.len() != 1 {
        return Err(
            FinalizerTurnError::Permanent(
                "finalizer must return exactly one tool call".to_owned(),
            ),
        );
    }
    let call = &calls[0];
    assert(call_views(calls@)[0].name == call.name@);
    if !same_text(call.name.as_str(), FINALIZE_TOOL_NAME) {
        return Err(
            FinalizerTurnError::Permanent(
                "unexpected finalizer tool call: ".to_owned().concat(call.name.as_str()),
            ),
        );
    }
    let args = match args {
        Ok(args) => args,
        Err(error) => {
            return Err(
                FinalizerTurnError::Permanent(
                    "invalid finalizer tool args: ".to_owned().concat(error.as_str()),
                ),
            );
        },
    };
    let text = trim_text(args.text.as_str());
    let output_language = trim_text(args.output_language.as_str());
    if text.as_str().is_empty() && !args.is_empty_or_noise {
        return Err(
            FinalizerTurnError::Permanent(
                "finalizer returned empty text without is_empty_or_noise".to_owned(),
            ),
        );
    }
    if output_language.as_str().is_empty() {
        return Err(
            FinalizerTurnError::Permanent("finalizer returned empty output_language".to_owned()),
        );
    }
    if args.detected_languages.len() == 0 && !args.is_empty_or_noise {
        return Err(
            FinalizerTurnError::Permanent("finalizer returned no detected languages".to_owned()),
        );
    }
    Ok(
        FinalizerToolCall {
            call_id: call.id.clone(),
            payload: FinalizedTurnPayload {
                text,
                output_language,
                detected_languages: args.detected_languages,
                is_empty_or_noise: args.is_empty_or_noise,
                display_action: args.display_action,
            },
        },
    )
}

/// One message of a replay.
#[derive(Debug)]
pub enum ReplayMessage<S> {
    Preamble(&'static str),
    ActivityStart,
    Audio(Vec<S>),
    ActivityEnd,
}

/// The audio of a replay, in batches: full ones, and what is left over.
pub open spec fn replay_batches<S>(samples: Seq<S>) -> Seq<Seq<S>>
    decreases samples.len(),
{
    let size = FINALIZER_REPLAY_BATCH_SAMPLES as int;
    if samples.len() == 0 {
        Seq::empty()
    } else if samples.len() <= size {
        seq![samples]
    } else {
        seq![samples.take(size)] + replay_batches(samples.skip(size))
    }
}

/// What a message of a replay says: its samples, where it is audio.
pub open spec fn audio_of<S>(message: ReplayMessage<S>) -> Option<Seq<S>> {
    match message {
        ReplayMessage::Audio(samples) => Some(samples@),
        _ => None,
    }
}

/// Whether messages are the replay of the samples: the preamble, the start of the activity,
/// the audio in batches, and the end of the activity.
pub open spec fn is_replay<S>(messages: Seq<ReplayMessage<S>>, samples: Seq<S>) -> bool {
    let batches = replay_batches(samples);
    &&& messages.len() == batches.len() + 3
    &&& messages[0] matches ReplayMessage::Preamble(text) && text@
        == "Finalize only this replayed audio turn."@
    &&& messages[1] is ActivityStart
    &&& forall|i: int|
        0 <= i < batches.len() ==> audio_of(#[trigger] messages[i + 2]) == Some(batches[i])
    &&& messages[messages.len() - 1] is ActivityEnd
}

/// The samples of the batches, one after the other.
pub open spec fn flattened<S>(batches: Seq<Seq<S>>) -> Seq<S>
    decreases batches.len(),
{
    if batches.len() == 0 {
        Seq::empty()
    } else {
        batches[0] + flattened(batches.drop_first())
    }
}

/// A replay holds all samples of the turn, in order, in batches that are neither empty nor too
/// large.
pub proof fn law_replay_keeps_the_audio<S>(samples: Seq<S>)
    ensures
        flattened(replay_batches(samples)) == samples,
        forall|i: int|
            0 <= i < replay_batches(samples).len() ==> 0 < (#[trigger] replay_batches(
                samples,
            )[i]).len() <= FINALIZER_REPLAY_BATCH_SAMPLES,
    decreases samples.len(),
{
    let size = FINALIZER_REPLAY_BATCH_SAMPLES as int;
    let batches = replay_batches(samples);
    reveal_with_fuel(flattened, 2);
    if samples.len() == 0 {
    } else if samples.len() <= size {
        assert(batches.drop_first() == Seq::<Seq<S>>::empty());
        assert(flattened(batches) == samples);
    } else {
        let rest = replay_batches(samples.skip(size));
        law_replay_keeps_the_audio(samples.skip(size));
        assert(batches.drop_first() == rest);
        assert(flattened(batches) == samples.take(size) + samples.skip(size));
        assert(samples.take(size) + samples.skip(size) == samples);
        assert forall|i: int| 0 <= i < batches.len() implies 0 < (#[trigger] batches[i]).len()
            <= size by {
            if i > 0 {
                assert(batches[i] == rest[i - 1]);
            }
        }
    }
}

/// The messages that replay a turn.
pub fn replay_messages<S: Copy>(samples: &Vec<S>) -> (messages: Vec<ReplayMessage<S>>)
    ensures
        is_replay(messages@, samples@),
{
    let mut messages: Vec<ReplayMessage<S>> = Vec::new();
    messages.push(ReplayMessage::Preamble(build_finalizer_preamble()));
    messages.push(ReplayMessage::ActivityStart);
    let ghost batches = replay_batches(samples@);
    let mut at: usize = 0;
    assert(samples@.skip(0) == samples@);
    while at < samples.len()
        invariant
            at <= samples@.len(),
            messages@.len() >= 2,
            messages@.len() - 2 <= batches.len(),
            batches.skip(messages@.len() - 2) == replay_batches(samples@.skip(at as int)),
            messages@[0] matches ReplayMessage::Preamble(text) && text@
                == "Finalize only this replayed audio turn."@,
            messages@[1] is ActivityStart,
            forall|i: int|
                0 <= i < messages@.len() - 2 ==> audio_of(#[trigger] messages@[i + 2]) == Some(
                    batches[i],
                ),
        decreases samples@.len() - at,
    {
        let ghost rest = samples@.skip(at as int);
        let ghost done = messages@.len() - 2;
        let left: usize = samples.len() - at;
        let end: usize = if left <= FINALIZER_REPLAY_BATCH_SAMPLES {
            samples.len()
        } else {
            at + FINALIZER_REPLAY_BATCH_SAMPLES
        };
        let mut batch: Vec<S> = Vec::new();
        let mut i: usize = at;
        while i < end
            invariant
                at <= i <= end <= samples@.len(),
                batch@ == samples@.subrange(at as int, i as int),
            decreases end - i,
        {
            batch.push(samples[i]);
            i += 1;
        }
        proof {
            assert(rest.len() > 0);
            assert(replay_batches(rest).len() > 0);
            assert(batches.skip(done)[0] == batches[done]);
            if left <= FINALIZER_REPLAY_BATCH_SAMPLES {
                assert(batch@ == rest);
                assert(samples@.skip(end as int) == Seq::<S>::empty());
                assert(batches.skip(done).len() == 1);
                assert(batches.skip(done + 1) == Seq::<Seq<S>>::empty());
            } else {
                assert(batch@ == rest.take(FINALIZER_REPLAY_BATCH_SAMPLES as int));
                assert(samples@.skip(end as int) == rest.skip(
                    FINALIZER_REPLAY_BATCH_SAMPLES as int,
                ));
                assert(batches.skip(done + 1) == batches.skip(done).drop_first());
                assert(batches.skip(done).drop_first() == replay_batches(
                    samples@.skip(end as int),
                ));
            }
        }
        messages.push(ReplayMessage::Audio(batch));
        at = end;
    }
    proof {
        assert(samples@.skip(at as int) == Seq::<S>::empty());
        assert(batches.skip(messages@.len() - 2).len() == 0);
    }
    messages.push(ReplayMessage::ActivityEnd);
    messages
}

/// The part of a replay that a message belongs to.
#[derive(Debug, Clone, Copy, PartialEq, Eq, Structural)]
pub enum ReplayStage {
    Preamble,
    ActivityStart,
    Audio,
    ActivityEnd,
}

/// What is said of a message of a replay that could not be sent.
pub open spec fn send_failure_text(stage: ReplayStage, error: Seq<char>) -> Seq<char> {
    match stage {
        ReplayStage::Preamble => "send finalizer preamble failed: "@ + error,
        ReplayStage::ActivityStart => "send activityStart failed: "@ + error,
        ReplayStage::Audio => "send finalizer audio failed: "@ + error,
        ReplayStage::ActivityEnd => "send activityEnd failed: "@ + error,
    }
}

impl<S> ReplayMessage<S> {
    /// The part of the replay that the message belongs to.
    pub fn stage(&self) -> (stage: ReplayStage)
        ensures
            stage == match self {
                ReplayMessage::Preamble(_) => ReplayStage::Preamble,
                ReplayMessage::ActivityStart => ReplayStage::ActivityStart,
                ReplayMessage::Audio(_) => ReplayStage::Audio,
                ReplayMessage::ActivityEnd => ReplayStage::ActivityEnd,
            },
    {
        match self {
            ReplayMessage::Preamble(_) => ReplayStage::Preamble,
            ReplayMessage::ActivityStart => ReplayStage::ActivityStart,
            ReplayMessage::Audio(_) => ReplayStage::Audio,
            ReplayMessage::ActivityEnd => ReplayStage::ActivityEnd,
        }
    }
}

/// A message of a replay could not be sent: the connection is to be opened again.
pub fn replay_send_failed(stage: ReplayStage, error: &str) -> (result: FinalizerTurnError)
    ensures
        result@ == TurnErrorView::Reconnect(send_failure_text(stage, error@)),
{
    let text = match stage {
        ReplayStage::Preamble => "send finalizer preamble failed: ",
        ReplayStage::ActivityStart => "send activityStart failed: ",
        ReplayStage::Audio => "send finalizer audio failed: ",
        ReplayStage::ActivityEnd => "send activityEnd failed: ",
    };
    FinalizerTurnError::Reconnect(text.to_owned().concat(error))
}

/// No event could be received: the connection is to be opened again.
pub fn receive_failed(error: &str) -> (result: FinalizerTurnError)
    ensures
        result@ == TurnErrorView::Reconnect("receive finalizer event failed: "@ + error@),
{
    FinalizerTurnError::Reconnect("receive finalizer event failed: ".to_owned().concat(error))
}

/// The state of a finalizer worker.
#[derive(Debug)]
pub struct FinalizerWorker {
    pub source: SourceKind,
    pub connected: bool,
    pub has_connected_once: bool,
    pub reconnect_attempt: u32,
    pub resume_handle: Option<String>,
    pub shutdown: Shutdown,
}

/// What the state of a finalizer worker says.
#[verifier::ext_equal]
pub struct FinalizerView {
    pub source: SourceKind,
    pub connected: bool,
    pub has_connected_once: bool,
    pub reconnect_attempt: u32,
    pub resume_handle: Option<Seq<char>>,
    pub shutdown: Shutdown,
}

impl FinalizerWorker {
    pub open spec fn view(self) -> FinalizerView {
        FinalizerView {
            source: self.source,
            connected: self.connected,
            has_connected_once: self.has_connected_once,
            reconnect_attempt: self.reconnect_attempt,
            resume_handle: view_opt(self.resume_handle),
            shutdown: self.shutdown,
        }
    }
}

/// What a finalizer worker waits for between turns.
#[derive(Debug, Clone, Copy, PartialEq, Eq, Structural)]
pub enum FinalizerWait {
    /// A turn, or the request to stop.
    TurnOrShutdown,
    /// A turn, until this time.
    TurnUntil(i128),
    /// Nothing: the turns that are left are not finalized.
    GiveUp,
}

/// What a finalizer worker does after it has waited for a turn.
#[derive(Debug, Clone, Copy, PartialEq, Eq, Structural)]
pub enum Intake {
    /// Work on the turn.
    Work,
    /// Wait again.
    WaitAgain,
    /// Stop.
    Stop,
}

/// What a finalizer worker does after a failure to connect.
#[derive(Debug, Clone, Copy, PartialEq, Eq, Structural)]
pub enum FinalizerConnectFailure {
    /// Wait this many milliseconds, and try again.
    Retry { backoff_ms: u64 },
    /// Leave the turn without a final text.
    Abandon,
}

/// How far a replay has come.
#[derive(Debug)]
pub enum ReplayProgress {
    /// More events are to be awaited.
    Wait,
    /// A tool is called.
    ToolCall(Vec<FunctionCallRequest>),
    /// The attempt has failed.
    Failed(FinalizerTurnError),
}

/// A status of a finalizer on screen.
pub open spec fn finalizer_status(source: SourceKind, status: Seq<char>) -> AppEvent<Seq<char>> {
    AppEvent::FinalizerStatus { source, status }
}

/// The details of a turn's state in the log.
pub open spec fn turn_state_details(status: Seq<char>, turn_id: Seq<char>) -> JsonView {
    JsonView::Object(
        map!["status"@ => JsonView::Text(status), "turn_id"@ => JsonView::Text(turn_id)],
    )
}

/// The details that name a turn in the log.
pub open spec fn turn_details(turn_id: Seq<char>) -> JsonView {
    JsonView::Object(map!["turn_id"@ => JsonView::Text(turn_id)])
}

/// The details of cancelled calls in the log.
pub open spec fn cancelled_details(turn_id: Seq<char>, ids: Seq<Seq<char>>) -> JsonView {
    JsonView::Object(
        map![
            "turn_id"@ => JsonView::Text(turn_id),
            "ids"@ => JsonView::Array(ids.map_values(|id: Seq<char>| JsonView::Text(id))),
        ],
    )
}

/// The details of a notice that the connection will be closed, in the log.
pub open spec fn turn_go_away_details(time_left: Seq<char>, turn_id: Seq<char>) -> JsonView {
    JsonView::Object(
        map!["time_left"@ => JsonView::Text(time_left), "turn_id"@ => JsonView::Text(turn_id)],
    )
}

/// The answer to an accepted call.
pub open spec fn acknowledgement(source: SourceKind, turn_id: Seq<char>) -> JsonView {
    JsonView::Object(
        map![
            "accepted"@ => JsonView::Bool(true),
            "source"@ => JsonView::Text(source_title(source)),
            "turn_id"@ => JsonView::Text(turn_id),
        ],
    )
}

impl FinalizerView {
    /// What the worker waits for.
    pub open spec fn wait(self) -> FinalizerWait {
        if !self.shutdown.requested {
            FinalizerWait::TurnOrShutdown
        } else {
            match self.shutdown.deadline {
                Some(deadline) => FinalizerWait::TurnUntil(deadline),
                None => FinalizerWait::GiveUp,
            }
        }
    }

    /// What is shown and logged of an attempt to connect that begins.
    pub open spec fn connecting_effects(self) -> EffectsView {
        let status = status_label(self.has_connected_once, self.resume_handle is Some);
        let shown = no_effects().show(finalizer_status(self.source, status));
        let noticed = match reconnect_text(
            self.source,
            "finalizer"@,
            self.has_connected_once,
            self.resume_handle is Some,
        ) {
            Some(text) => shown.show(AppEvent::Notice(text)),
            None => shown,
        };
        noticed.note(
            "state"@,
            state_details(status, self.reconnect_attempt, self.resume_handle is Some),
        )
    }

    /// Until when the next event of the session is awaited.
    pub open spec fn response_deadline(self, now: i64) -> int {
        let timeout = now + FINALIZER_RESPONSE_TIMEOUT_MS * NANOS_PER_MILLI;
        match self.shutdown.deadline {
            Some(deadline) => if deadline < timeout {
                deadline as int
            } else {
                timeout
            },
            None => timeout,
        }
    }

    /// The handle after an event of the session; `None` where the connection ended.
    pub open spec fn handle_after_event(self, event: Option<EventView>) -> Option<Seq<char>> {
        match event {
            Some(EventView::SessionResumptionUpdate { new_handle, resumable }) => handle_after(
                self.resume_handle,
                new_handle,
                resumable,
            ),
            _ => self.resume_handle,
        }
    }

    /// What is shown and logged of an event during a replay.
    pub open spec fn replay_effects(self, turn_id: Seq<char>, event: Option<EventView>) -> EffectsView {
        match event {
            Some(EventView::ToolCallCancellation(ids)) => no_effects().note(
                "tool_call_cancelled"@,
                cancelled_details(turn_id, ids),
            ),
            Some(EventView::SessionResumptionUpdate { new_handle, resumable }) =>
                no_effects().note(
                    "session_resumption_update"@,
                    resumption_details(resumable, resumable && new_handle is Some),
                ),
            Some(EventView::GoAway { time_left }) => no_effects().show(
                AppEvent::Notice(
                    source_title(self.source) + " finalizer connection will renew in "@
                        + time_left,
                ),
            ).note("go_away"@, turn_go_away_details(time_left, turn_id)),
            Some(EventView::GenerationComplete) => no_effects().note(
                "generation_complete"@,
                turn_details(turn_id),
            ).show(finalizer_status(self.source, "awaiting-tool"@)),
            _ => no_effects(),
        }
    }
}

/// What is to be done with an event during a replay; `None` where the connection ended.
pub open spec fn progress_after(progress: ReplayProgress, event: Option<EventView>) -> bool {
    match event {
        Some(EventView::ToolCall(calls)) => progress matches ReplayProgress::ToolCall(requests)
            && call_views(requests@) == calls,
        Some(EventView::ConnectionClosed(reason)) => progress matches ReplayProgress::Failed(error)
            && error@ == TurnErrorView::Reconnect(reason),
        None => progress matches ReplayProgress::Failed(error) && error@
            == TurnErrorView::Reconnect("connection closed without close frame"@),
        _ => progress is Wait,
    }
}

/// A call that was accepted: the answer, the final text, and what is shown and logged.
#[derive(Debug)]
pub struct AcceptedCall {
    pub answer: FunctionResponse,
    pub payload: FinalizedTurnPayload,
    pub effects: Effects,
}

impl FinalizerWorker {
    /// A worker that has not connected yet.
    pub fn new(source: SourceKind) -> (worker: Self)
        ensures
            worker@ == (FinalizerView {
                source,
                connected: false,
                has_connected_once: false,
                reconnect_attempt: 0,
                resume_handle: None,
                shutdown: Shutdown { requested: false, deadline: None },
            }),
    {
        FinalizerWorker {
            source,
            connected: false,
            has_connected_once: false,
            reconnect_attempt: 0,
            resume_handle: None,
            shutdown: Shutdown::none(),
        }
    }

    /// What the worker waits for.
    pub fn next_wait(&self) -> (wait: FinalizerWait)
        ensures
            wait == self@.wait(),
    {
        if !self.shutdown.requested {
            return FinalizerWait::TurnOrShutdown;
        }
        match self.shutdown.deadline {
            Some(deadline) => FinalizerWait::TurnUntil(deadline),
            None => FinalizerWait::GiveUp,
        }
    }

    /// What the worker does with what it has waited for: a turn, or the end of the queue.
    pub fn intake(&self, has_turn: bool) -> (intake: Intake)
        ensures
            intake == if has_turn {
                Intake::Work
            } else if self@.shutdown.requested {
                Intake::Stop
            } else {
                Intake::WaitAgain
            },
    {
        if has_turn {
            Intake::Work
        } else if self.shutdown.requested {
            Intake::Stop
        } else {
            Intake::WaitAgain
        }
    }

    /// The worker is to stop.
    pub fn request_shutdown(&mut self, now: i64)
        ensures
            final(self)@ == (FinalizerView {
                shutdown: shutdown_after(old(self)@.shutdown, now, FINALIZER_DRAIN_GRACE_MS),
                ..old(self)@
            }),
    {
        self.shutdown.request_shutdown(now, FINALIZER_DRAIN_GRACE_MS);
    }

    /// An attempt to connect begins.
    pub fn begin_connect(&self) -> (effects: Effects)
        ensures
            effects@ == self@.connecting_effects(),
    {
        let handle = text_opt(&self.resume_handle);
        let status = connection_status_label(self.has_connected_once, handle);
        let effects = Effects::none().show(
            AppEvent::FinalizerStatus { source: self.source, status: status.to_owned() },
        );
        let effects = match reconnect_notice(
            self.source,
            "finalizer",
            self.has_connected_once,
            handle,
        ) {
            Some(notice) => effects.show(AppEvent::Notice(notice)),
            None => effects,
        };
        effects.note(
            "state",
            build_state_details(status, self.reconnect_attempt, self.resume_handle.is_some()),
        )
    }

    /// A session was opened.
    pub fn connect_succeeded(&mut self) -> (effects: Effects)
        ensures
            final(self)@ == (FinalizerView {
                connected: true,
                has_connected_once: true,
                reconnect_attempt: 0,
                ..old(self)@
            }),
            effects@ == no_effects().show(finalizer_status(old(self).source, "ready"@)).note(
                "state"@,
                status_details("ready"@),
            ),
    {
        self.connected = true;
        self.has_connected_once = true;
        self.reconnect_attempt = 0;
        Effects::none().show(
            AppEvent::FinalizerStatus { source: self.source, status: "ready".to_owned() },
        ).note("state", Json::object().with("status", Json::text("ready")))
    }

    /// A session could not be opened: it is tried again, unless the worker is to stop.
    pub fn connect_failed(&mut self, error: &str) -> (result: (FinalizerConnectFailure, Effects))
        ensures
            ({
                let worker = old(self)@;
                let attempt = next_attempt(worker.reconnect_attempt);
                let logged = no_effects().note(
                    "reconnect_failed"@,
                    reconnect_failed_details(error@, attempt),
                );
                &&& final(self)@ == (FinalizerView { reconnect_attempt: attempt, ..worker })
                &&& if worker.shutdown.requested {
                    &&& result.0 == FinalizerConnectFailure::Abandon
                    &&& result.1@ == logged
                } else {
                    &&& result.0 matches FinalizerConnectFailure::Retry { backoff_ms: wait }
                    &&& wait == backoff_ms(attempt)
                    &&& result.1@ == logged.show(
                        AppEvent::Notice(
                            retry_text(worker.source, "finalizer"@, error@, attempt),
                        ),
                    )
                }
            }),
    {
        self.reconnect_attempt = self.reconnect_attempt.saturating_add(1);
        let effects = Effects::none().note(
            "reconnect_failed",
            build_reconnect_failed_details(error, self.reconnect_attempt),
        );
        if self.shutdown.requested {
            return (FinalizerConnectFailure::Abandon, effects);
        }
        let notice = build_retry_text(self.source, "finalizer", error, self.reconnect_attempt);
        (
            FinalizerConnectFailure::Retry {
                backoff_ms: reconnect_backoff(self.reconnect_attempt),
            },
            effects.show(AppEvent::Notice(notice)),
        )
    }

    /// A replay of the turn `turn_id` begins.
    pub fn begin_replay(&self, turn_id: &str) -> (effects: Effects)
        ensures
            effects@ == no_effects().show(finalizer_status(self.source, "finalizing"@)).note(
                "state"@,
                turn_state_details("finalizing"@, turn_id@),
            ),
    {
        Effects::none().show(
            AppEvent::FinalizerStatus { source: self.source, status: "finalizing".to_owned() },
        ).note(
            "state",
            Json::object().with("status", Json::text("finalizing")).with(
                "turn_id",
                Json::text(turn_id),
            ),
        )
    }

    /// Until when the next event of the session is awaited.
    pub fn response_deadline(&self, now: i64) -> (deadline: i128)
        ensures
            deadline == self@.response_deadline(now),
    {
        let timeout: i128 = now as i128 + FINALIZER_RESPONSE_TIMEOUT_MS as i128
            * NANOS_PER_MILLI as i128;
        match self.shutdown.deadline {
            Some(deadline) => if deadline < timeout {
                deadline
            } else {
                timeout
            },
            None => timeout,
        }
    }

    /// No event came in time.
    pub fn response_timed_out(&self) -> (error: FinalizerTurnError)
        ensures
            error@ == if self@.shutdown.deadline is Some {
                TurnErrorView::Shutdown("finalizer drain deadline reached"@)
            } else {
                TurnErrorView::Retryable("timed out waiting for finalizer tool call"@)
            },
    {
        if self.shutdown.deadline.is_some() {
            FinalizerTurnError::Shutdown("finalizer drain deadline reached".to_owned())
        } else {
            FinalizerTurnError::Retryable("timed out waiting for finalizer tool call".to_owned())
        }
    }

    /// Handles an event during the replay of the turn `turn_id`; `None` where the connection
    /// ended.
    pub fn replay_event(&mut self, turn_id: &str, event: Option<TranscriptEvent>) -> (result: (
        ReplayProgress,
        Effects,
    ))
        ensures
            ({
                let said = match event {
                    Some(event) => Some(event@),
                    None => None,
                };
                &&& final(self)@ == (FinalizerView {
                    resume_handle: old(self)@.handle_after_event(said),
                    ..old(self)@
                })
                &&& progress_after(result.0, said)
                &&& result.1@ == old(self)@.replay_effects(turn_id@, said)
            }),
    {
        let source = self.source;
        match event {
            Some(TranscriptEvent::ToolCall(calls)) => (
                ReplayProgress::ToolCall(calls),
                Effects::none(),
            ),
            Some(TranscriptEvent::ToolCallCancellation(ids)) => {
                let listed = Json::texts(&ids);
                assert(listed@->Array_0 == views(ids@).map_values(
                    |id: Seq<char>| JsonView::Text(id),
                ));
                let details = Json::object().with("turn_id", Json::text(turn_id)).with(
                    "ids",
                    listed,
                );
                (ReplayProgress::Wait, Effects::none().note("tool_call_cancelled", details))
            },
            Some(TranscriptEvent::SessionResumptionUpdate { new_handle, resumable }) => {
                let effects = handle_session_resumption_update(
                    Effects::none(),
                    &mut self.resume_handle,
                    new_handle,
                    resumable,
                );
                (ReplayProgress::Wait, effects)
            },
            Some(TranscriptEvent::GoAway { time_left }) => {
                let notice = source.title().to_owned().concat(
                    " finalizer connection will renew in ",
                ).concat(time_left.as_str());
                let details = Json::object().with("time_left", Json::Text(time_left)).with(
                    "turn_id",
                    Json::text(turn_id),
                );
                (
                    ReplayProgress::Wait,
                    Effects::none().show(AppEvent::Notice(notice)).note("go_away", details),
                )
            },
            Some(TranscriptEvent::GenerationComplete) => (
                ReplayProgress::Wait,
                Effects::none().note(
                    "generation_complete",
                    Json::object().with("turn_id", Json::text(turn_id)),
                ).show(AppEvent::FinalizerStatus { source, status: "awaiting-tool".to_owned() }),
            ),
            Some(TranscriptEvent::ConnectionClosed(reason)) => (
                ReplayProgress::Failed(FinalizerTurnError::Reconnect(reason)),
                Effects::none(),
            ),
            Some(TranscriptEvent::SetupComplete)
            | Some(TranscriptEvent::InputTranscription(_))
            | Some(TranscriptEvent::ModelText)
            | Some(TranscriptEvent::TurnComplete)
            | Some(TranscriptEvent::UsageMetadata(_)) => (ReplayProgress::Wait, Effects::none()),
            None => (
                ReplayProgress::Failed(
                    FinalizerTurnError::Reconnect(
                        "connection closed without close frame".to_owned(),
                    ),
                ),
                Effects::none(),
            ),
        }
    }

    /// Takes a tool call during the replay of the turn `turn_id`. `args` is what was read from
    /// the arguments of the first request.
    pub fn accept_tool_call(
        &self,
        turn_id: &str,
        calls: Vec<FunctionCallRequest>,
        args: Result<FinalizeTranscriptArgs, String>,
    ) -> (result: Result<AcceptedCall, FinalizerTurnError>)
        ensures
            match result {
                Ok(accepted) => {
                    &&& payload_error(call_views(calls@), args) is None
                    &&& payload_from(accepted.payload, args->Ok_0)
                    &&& accepted.answer.id@ == calls@[0].id@
                    &&& accepted.answer.name@ == FINALIZE_TOOL_NAME@
                    &&& accepted.answer.response@ == acknowledgement(self.source, turn_id@)
                    &&& accepted.effects@ == no_effects().show(
                        finalizer_status(self.source, "ready"@),
                    ).note("state"@, turn_state_details("ready"@, turn_id@))
                },
                Err(error) => payload_error(call_views(calls@), args) matches Some(text)
                    && error@ == TurnErrorView::Permanent(text),
            },
    {
        let call = match parse_finalize_transcript_payload(calls, args) {
            Ok(call) => call,
            Err(error) => return Err(error),
        };
        let answer = FunctionResponse {
            id: call.call_id,
            name: FINALIZE_TOOL_NAME.to_owned(),
            response: Json::object().with("accepted", Json::flag(true)).with(
                "source",
                Json::text(self.source.title()),
            ).with("turn_id", Json::text(turn_id)),
        };
        let effects = Effects::none().show(
            AppEvent::FinalizerStatus { source: self.source, status: "ready".to_owned() },
        ).note(
            "state",
            Json::object().with("status", Json::text("ready")).with(
                "turn_id",
                Json::text(turn_id),
            ),
        );
        Ok(AcceptedCall { answer, payload: call.payload, effects })
    }
}

/// What comes of an attempt at a turn: where `retry` is there, the turn is tried again after
/// that many milliseconds, and otherwise it is done with.
#[verifier::ext_equal]
pub struct AttemptStep {
    pub worker: FinalizerView,
    pub session: SessionView,
    pub metrics: QueueMetrics,
    pub attempt_count: usize,
    pub effects: EffectsView,
    pub retry: Option<u64>,
}

/// The details of a retry in the log.
pub open spec fn retry_details(
    turn_id: Seq<char>,
    attempt_count: usize,
    error: Seq<char>,
) -> Map<Seq<char>, JsonView> {
    map![
        "turn_id"@ => JsonView::Text(turn_id),
        "attempt_count"@ => JsonView::Number(unsigned_number((attempt_count + 1) as u64)),
        "backoff_ms"@ => JsonView::Number(unsigned_number(retry_backoff_ms(attempt_count))),
        "error"@ => JsonView::Text(error),
    ]
}

/// The details of a retry after a lost connection, in the log.
pub open spec fn reconnect_retry_details(
    turn_id: Seq<char>,
    attempt_count: usize,
    error: Seq<char>,
) -> Map<Seq<char>, JsonView> {
    retry_details(turn_id, attempt_count, error).insert("kind"@, JsonView::Text("reconnect"@))
}

/// A turn on which a finalizer works, as far as its attempts go.
pub struct AttemptView {
    pub turn_id: Seq<char>,
    pub audio_duration: u128,
    pub attempt_count: usize,
}

/// A turn as far as its attempts go.
pub open spec fn attempt_view<S>(turn: PendingTurn<S>) -> AttemptView {
    AttemptView {
        turn_id: turn.turn_id@,
        audio_duration: turn.audio_duration,
        attempt_count: turn.attempt_count,
    }
}

impl FinalizerView {
    /// The turn has its final text.
    pub open spec fn finalized(
        self,
        session: SessionView,
        metrics: QueueMetrics,
        turn: AttemptView,
        payload: FinalizedTurnPayload,
        now_unix_ms: u128,
    ) -> AttemptStep {
        let left = metrics_without(metrics, Seconds::of(turn.audio_duration));
        AttemptStep {
            worker: self,
            session: session.with_turn(
                self.source,
                turn.turn_id,
                as_final(session.turn(self.source, turn.turn_id), payload, now_unix_ms),
            ),
            metrics: left,
            attempt_count: turn.attempt_count,
            effects: no_effects().show(
                AppEvent::TurnFinalized {
                    source: self.source,
                    turn_id: turn.turn_id,
                    text: payload.text@,
                    display_action: payload.display_action,
                },
            ).show(metrics_event(self.source, left)),
            retry: None,
        }
    }

    /// The turn is given up with an error.
    pub open spec fn failed(
        self,
        session: SessionView,
        metrics: QueueMetrics,
        turn: AttemptView,
        effects: EffectsView,
        error: Seq<char>,
        now_unix_ms: u128,
    ) -> AttemptStep {
        let left = metrics_without(metrics, Seconds::of(turn.audio_duration));
        AttemptStep {
            worker: self,
            session: session.with_turn(
                self.source,
                turn.turn_id,
                as_failed(session.turn(self.source, turn.turn_id), error, now_unix_ms),
            ),
            metrics: left,
            attempt_count: turn.attempt_count,
            effects: effects.show(
                AppEvent::TurnFailed { source: self.source, turn_id: turn.turn_id, error },
            ).show(metrics_event(self.source, left)),
            retry: None,
        }
    }

    /// The turn is left with its draft.
    pub open spec fn left_unfinalized(
        self,
        session: SessionView,
        metrics: QueueMetrics,
        turn: AttemptView,
    ) -> AttemptStep {
        let left = metrics_without(metrics, Seconds::of(turn.audio_duration));
        AttemptStep {
            worker: self,
            session: session.with_turn(
                self.source,
                turn.turn_id,
                as_unfinalized(session.turn(self.source, turn.turn_id)),
            ),
            metrics: left,
            attempt_count: turn.attempt_count,
            effects: no_effects().show(metrics_event(self.source, left)),
            retry: None,
        }
    }

    /// The turn is tried again.
    pub open spec fn retried(
        self,
        session: SessionView,
        metrics: QueueMetrics,
        turn: AttemptView,
        effects: EffectsView,
        details: Map<Seq<char>, JsonView>,
    ) -> AttemptStep {
        AttemptStep {
            worker: self,
            session,
            metrics,
            attempt_count: (turn.attempt_count + 1) as usize,
            effects: effects.note("turn_retry"@, JsonView::Object(details)),
            retry: Some(retry_backoff_ms(turn.attempt_count)),
        }
    }

    /// The worker after its connection was lost.
    pub open spec fn disconnected(self) -> FinalizerView {
        FinalizerView {
            connected: false,
            reconnect_attempt: next_attempt(self.reconnect_attempt),
            ..self
        }
    }

    /// What is shown and logged of a connection that was lost during a turn.
    pub open spec fn lost_effects(self, turn_id: Seq<char>, reason: Seq<char>) -> EffectsView {
        no_effects().show(finalizer_status(self.source, "reconnecting"@)).show(
            AppEvent::Notice(source_title(self.source) + " finalizer reconnecting: "@ + reason),
        ).note(
            "connection_lost"@,
            JsonView::Object(
                connection_lost_details(
                    reason,
                    next_attempt(self.reconnect_attempt),
                    self.resume_handle is Some,
                )->Object_0.insert("turn_id"@, JsonView::Text(turn_id)),
            ),
        )
    }

    /// What comes of an attempt at a turn.
    pub open spec fn after_attempt(
        self,
        session: SessionView,
        metrics: QueueMetrics,
        turn: AttemptView,
        result: Result<FinalizedTurnPayload, FinalizerTurnError>,
        now_unix_ms: u128,
    ) -> AttemptStep {
        match result {
            Ok(payload) => self.finalized(session, metrics, turn, payload, now_unix_ms),
            Err(error) => match error@ {
                TurnErrorView::Reconnect(reason) => {
                    let effects = self.lost_effects(turn.turn_id, reason);
                    if turn.attempt_count >= FINALIZER_RETRIES {
                        self.disconnected().failed(
                            session,
                            metrics,
                            turn,
                            effects,
                            "finalizer reconnect budget exhausted: "@ + reason,
                            now_unix_ms,
                        )
                    } else {
                        self.disconnected().retried(
                            session,
                            metrics,
                            turn,
                            effects,
                            reconnect_retry_details(turn.turn_id, turn.attempt_count, reason),
                        )
                    }
                },
                TurnErrorView::Retryable(text) => if turn.attempt_count >= FINALIZER_RETRIES {
                    self.failed(session, metrics, turn, no_effects(), text, now_unix_ms)
                } else {
                    self.retried(
                        session,
                        metrics,
                        turn,
                        no_effects(),
                        retry_details(turn.turn_id, turn.attempt_count, text),
                    )
                },
                TurnErrorView::Shutdown(_) => self.left_unfinalized(session, metrics, turn),
                TurnErrorView::Permanent(text) => self.failed(
                    session,
                    metrics,
                    turn,
                    no_effects(),
                    text,
                    now_unix_ms,
                ),
            },
        }
    }
}

fn build_retry_details(turn_id: &str, attempt_count: usize, error: &str) -> (details: Json)
    requires
        attempt_count < FINALIZER_RETRIES,
    ensures
        details@ == JsonView::Object(retry_details(turn_id@, attempt_count, error@)),
        details is Object,
{
    Json::object().with("turn_id", Json::text(turn_id)).with(
        "attempt_count",
        Json::unsigned(attempt_count as u64 + 1),
    ).with("backoff_ms", Json::unsigned(retry_backoff(attempt_count))).with(
        "error",
        Json::text(error),
    )
}

impl FinalizerWorker {
    fn fail_turn<S>(
        &self,
        store: &mut TranscriptStore,
        metrics: &mut QueueMetrics,
        turn: &PendingTurn<S>,
        effects: Effects,
        error: String,
        now_unix_ms: u128,
    ) -> (result: Effects)
        requires
            old(store)@.has_turn(self.source, turn.turn_id@),
        ensures
            (AttemptStep {
                worker: self@,
                session: final(store)@,
                metrics: *final(metrics),
                attempt_count: turn.attempt_count,
                effects: result@,
                retry: None,
            }) == self@.failed(
                old(store)@,
                *old(metrics),
                attempt_view(*turn),
                effects@,
                error@,
                now_unix_ms,
            ),
    {
        store.mark_failed_at(self.source, turn.turn_id.as_str(), error.clone(), now_unix_ms);
        let event = metrics.decrement_queue_metrics(self.source, turn.audio_duration_secs());
        effects.show(
            AppEvent::TurnFailed { source: self.source, turn_id: turn.turn_id.clone(), error },
        ).show(event)
    }

    /// Leaves a turn with its draft.
    pub fn leave_unfinalized<S>(
        &self,
        store: &mut TranscriptStore,
        metrics: &mut QueueMetrics,
        turn: &PendingTurn<S>,
    ) -> (result: Effects)
        requires
            old(store)@.has_turn(self.source, turn.turn_id@),
        ensures
            (AttemptStep {
                worker: self@,
                session: final(store)@,
                metrics: *final(metrics),
                attempt_count: turn.attempt_count,
                effects: result@,
                retry: None,
            }) == self@.left_unfinalized(old(store)@, *old(metrics), attempt_view(*turn)),
    {
        store.mark_unfinalized(self.source, turn.turn_id.as_str());
        let event = metrics.decrement_queue_metrics(self.source, turn.audio_duration_secs());
        Effects::none().show(event)
    }

    /// Takes the result of an attempt at a turn. The number is the wait before the turn is
    /// tried again, in milliseconds; without it, the turn is done with.
    pub fn settle_attempt<S>(
        &mut self,
        store: &mut TranscriptStore,
        metrics: &mut QueueMetrics,
        turn: &mut PendingTurn<S>,
        result: Result<FinalizedTurnPayload, FinalizerTurnError>,
        now_unix_ms: u128,
    ) -> (outcome: (Option<u64>, Effects))
        requires
            old(store)@.has_turn(old(self).source, old(turn).turn_id@),
        ensures
            (AttemptStep {
                worker: final(self)@,
                session: final(store)@,
                metrics: *final(metrics),
                attempt_count: final(turn).attempt_count,
                effects: outcome.1@,
                retry: outcome.0,
            }) == old(self)@.after_attempt(
                old(store)@,
                *old(metrics),
                attempt_view(*old(turn)),
                result,
                now_unix_ms,
            ),
            final(turn).turn_id == old(turn).turn_id,
            final(turn).audio_samples == old(turn).audio_samples,
            final(turn).audio_duration == old(turn).audio_duration,
    {
        let source = self.source;
        match result {
            Ok(payload) => {
                let shown = AppEvent::TurnFinalized {
                    source,
                    turn_id: turn.turn_id.clone(),
                    text: payload.text.clone(),
                    display_action: payload.display_action,
                };
                store.mark_final(source, turn.turn_id.as_str(), payload, now_unix_ms);
                let event = metrics.decrement_queue_metrics(source, turn.audio_duration_secs());
                (None, Effects::none().show(shown).show(event))
            },
            Err(FinalizerTurnError::Reconnect(reason)) => {
                self.reconnect_attempt = self.reconnect_attempt.saturating_add(1);
                self.connected = false;
                let notice = source.title().to_owned().concat(
                    " finalizer reconnecting: ",
                ).concat(reason.as_str());
                let lost = build_connection_lost_details(
                    reason.as_str(),
                    self.reconnect_attempt,
                    self.resume_handle.is_some(),
                ).with("turn_id", Json::text(turn.turn_id.as_str()));
                let effects = Effects::none().show(
                    AppEvent::FinalizerStatus { source, status: "reconnecting".to_owned() },
                ).show(AppEvent::Notice(notice)).note("connection_lost", lost);
                assert(self@ == old(self)@.disconnected());
                assert(effects@ == old(self)@.lost_effects(turn.turn_id@, reason@));
                if turn.attempt_count >= FINALIZER_RETRIES {
                    let error = "finalizer reconnect budget exhausted: ".to_owned().concat(
                        reason.as_str(),
                    );
                    let effects = self.fail_turn(
                        store,
                        metrics,
                        turn,
                        effects,
                        error,
                        now_unix_ms,
                    );
                    return (None, effects);
                }
                let wait = retry_backoff(turn.attempt_count);
                let details = build_retry_details(
                    turn.turn_id.as_str(),
                    turn.attempt_count,
                    reason.as_str(),
                ).with("kind", Json::text("reconnect"));
                turn.attempt_count += 1;
                (Some(wait), effects.note("turn_retry", details))
            },
            Err(FinalizerTurnError::Retryable(error)) => {
                if turn.attempt_count >= FINALIZER_RETRIES {
                    let effects = self.fail_turn(
                        store,
                        metrics,
                        turn,
                        Effects::none(),
                        error,
                        now_unix_ms,
                    );
                    return (None, effects);
                }
                let wait = retry_backoff(turn.attempt_count);
                let details = build_retry_details(
                    turn.turn_id.as_str(),
                    turn.attempt_count,
                    error.as_str(),
                );
                turn.attempt_count += 1;
                (Some(wait), Effects::none().note("turn_retry", details))
            },
            Err(FinalizerTurnError::Shutdown(_)) => {
                let effects = self.leave_unfinalized(store, metrics, turn);
                (None, effects)
            },
            Err(FinalizerTurnError::Permanent(error)) => {
                let effects = self.fail_turn(
                    store,
                    metrics,
                    turn,
                    Effects::none(),
                    error,
                    now_unix_ms,
                );
                (None, effects)
            },
        }
    }

    /// Leaves the turns that are still queued with their drafts; the metrics are shown as they
    /// are.
    pub fn mark_remaining_unfinalized<S>(
        &self,
        store: &mut TranscriptStore,
        metrics: &QueueMetrics,
        turns: &Vec<PendingTurn<S>>,
    ) -> (effects: Effects)
        requires
            forall|i: int|
                0 <= i < turns@.len() ==> old(store)@.has_turn(
                    self.source,
                    (#[trigger] turns@[i]).turn_id@,
                ),
        ensures
            final(store)@ == unfinalized_session(old(store)@, self.source, turn_ids(turns@)),
            effects@ == no_effects().show(metrics_event(self.source, *metrics)),
    {
        let ghost ids = turn_ids(turns@);
        let mut i: usize = 0;
        assert(ids.take(0) == Seq::<Seq<char>>::empty());
        while i < turns.len()
            invariant
                i <= turns@.len(),
                ids == turn_ids(turns@),
                store@ == unfinalized_session(old(store)@, self.source, ids.take(i as int)),
                forall|k: int|
                    0 <= k < turns@.len() ==> store@.has_turn(
                        self.source,
                        (#[trigger] turns@[k]).turn_id@,
                    ),
            decreases turns@.len() - i,
        {
            let ghost before = store@;
            proof {
                assert(ids.take(i + 1).drop_last() == ids.take(i as int));
                assert(ids.take(i + 1).last() == turns@[i as int].turn_id@);
            }
            store.mark_unfinalized(self.source, turns[i].turn_id.as_str());
            proof {
                let turn_id = turns@[i as int].turn_id@;
                lemma_turn_index_found(before.turns_of(self.source), turn_id);
                let turn = as_unfinalized(before.turn(self.source, turn_id));
                assert forall|k: int| 0 <= k < turns@.len() implies store@.has_turn(
                    self.source,
                    (#[trigger] turns@[k]).turn_id@,
                ) by {
                    law_replacing_changes_one_turn(
                        before,
                        self.source,
                        turn,
                        self.source,
                        turns@[k].turn_id@,
                    );
                }
            }
            i += 1;
        }
        assert(ids.take(ids.len() as int) == ids);
        Effects::none().show(metrics.event(self.source))
    }

    /// The worker stops.
    pub fn finish(&self) -> (effects: Effects)
        ensures
            effects@ == no_effects().show(finalizer_status(self.source, "stopped"@)).note(
                "state"@,
                status_details("stopped"@),
            ),
    {
        Effects::none().show(
            AppEvent::FinalizerStatus { source: self.source, status: "stopped".to_owned() },
        ).note("state", Json::object().with("status", Json::text("stopped")))
    }
}

/// The names of turns.
pub open spec fn turn_ids<S>(turns: Seq<PendingTurn<S>>) -> Seq<Seq<char>> {
    turns.map_values(|turn: PendingTurn<S>| turn.turn_id@)
}

/// The session with the named turns left with their drafts.
pub open spec fn unfinalized_session(
    session: SessionView,
    source: SourceKind,
    ids: Seq<Seq<char>>,
) -> SessionView
    decreases ids.len(),
{
    if ids.len() == 0 {
        session
    } else {
        let before = unfinalized_session(session, source, ids.drop_last());
        before.with_turn(source, ids.last(), as_unfinalized(before.turn(source, ids.last())))
    }
}

/// The turns that are still queued when a worker gives up are left with their drafts, and no
/// other turn is touched.
pub proof fn law_remaining_turns_keep_their_drafts(
    session: SessionView,
    source: SourceKind,
    ids: Seq<Seq<char>>,
    other_source: SourceKind,
    other_id: Seq<char>,
)
    requires
        forall|i: int| 0 <= i < ids.len() ==> session.has_turn(source, #[trigger] ids[i]),
        session.has_turn(other_source, other_id),
    ensures
        ({
            let after = unfinalized_session(session, source, ids);
            let turn = session.turn(other_source, other_id);
            &&& after.has_turn(other_source, other_id)
            &&& after.turn(other_source, other_id) == if other_source == source && ids.contains(
                other_id,
            ) {
                as_unfinalized(turn)
            } else {
                turn
            }
        }),
    decreases ids.len(),
{
    if ids.len() > 0 {
        let rest = ids.drop_last();
        let last = ids.last();
        let before = unfinalized_session(session, source, rest);
        assert(session.has_turn(source, ids[ids.len() - 1]));
        assert forall|i: int| 0 <= i < rest.len() implies session.has_turn(
            source,
            #[trigger] rest[i],
        ) by {
            assert(rest[i] == ids[i]);
        }
        law_remaining_turns_keep_their_drafts(session, source, rest, source, last);
        law_remaining_turns_keep_their_drafts(session, source, rest, other_source, other_id);
        lemma_turn_index_found(before.turns_of(source), last);
        law_replacing_changes_one_turn(
            before,
            source,
            as_unfinalized(before.turn(source, last)),
            other_source,
            other_id,
        );
        assert(ids == rest.push(last));
        if ids.contains(other_id) && other_id != last {
            let at = ids.index_of(other_id);
            assert(rest[at] == other_id);
        }
        if rest.contains(other_id) {
            let at = rest.index_of(other_id);
            assert(ids[at] == other_id);
        }
    }
}

/// Each attempt either tries the turn again, which happens a bounded number of times and leaves
/// the transcript and the metrics as they are, or is done with the turn: it has a final text,
/// has failed or is left with its draft, and no longer counts in the metrics.
pub proof fn law_attempts_come_to_an_end(
    worker: FinalizerView,
    session: SessionView,
    metrics: QueueMetrics,
    turn: AttemptView,
    result: Result<FinalizedTurnPayload, FinalizerTurnError>,
    now_unix_ms: u128,
)
    requires
        session.has_turn(worker.source, turn.turn_id),
    ensures
        ({
            let step = worker.after_attempt(session, metrics, turn, result, now_unix_ms);
            let state = step.session.turn(worker.source, turn.turn_id).state;
            match step.retry {
                Some(_) => {
                    &&& turn.attempt_count < step.attempt_count <= FINALIZER_RETRIES
                    &&& step.session == session
                    &&& step.metrics == metrics
                    &&& result is Err
                },
                None => {
                    &&& step.metrics == metrics_without(metrics, Seconds::of(turn.audio_duration))
                    &&& state == TurnState::Final <==> result is Ok
                    &&& state == TurnState::Final || state == TurnState::Failed || state
                        == TurnState::Unfinalized
                },
            }
        }),
{
    lemma_turn_index_found(session.turns_of(worker.source), turn.turn_id);
    let record = session.turn(worker.source, turn.turn_id);
    let step = worker.after_attempt(session, metrics, turn, result, now_unix_ms);
    match result {
        Ok(payload) => law_replacing_changes_one_turn(
            session,
            worker.source,
            as_final(record, payload, now_unix_ms),
            worker.source,
            turn.turn_id,
        ),
        Err(error) => match error@ {
            TurnErrorView::Shutdown(_) => law_replacing_changes_one_turn(
                session,
                worker.source,
                as_unfinalized(record),
                worker.source,
                turn.turn_id,
            ),
            TurnErrorView::Reconnect(reason) => law_replacing_changes_one_turn(
                session,
                worker.source,
                as_failed(
                    record,
                    "finalizer reconnect budget exhausted: "@ + reason,
                    now_unix_ms,
                ),
                worker.source,
                turn.turn_id,
            ),
            TurnErrorView::Retryable(text) | TurnErrorView::Permanent(text) => {
                law_replacing_changes_one_turn(
                    session,
                    worker.source,
                    as_failed(record, text, now_unix_ms),
                    worker.source,
                    turn.turn_id,
                )
            },
        },
    }
}

/// A lost connection or a passing failure is followed by another attempt exactly when retries are
/// left: there are three of them, after waits of half a second, one and two, and the turn, the
/// transcript and the metrics stay as they are meanwhile. When they are used up the turn fails.
/// Only a lost connection has the worker connect again.
pub proof fn law_turns_are_tried_again_while_retries_are_left(
    worker: FinalizerView,
    session: SessionView,
    metrics: QueueMetrics,
    turn: AttemptView,
    error: FinalizerTurnError,
    now_unix_ms: u128,
)
    requires
        session.has_turn(worker.source, turn.turn_id),
        error is Reconnect || error is Retryable,
    ensures
        ({
            let step = worker.after_attempt(session, metrics, turn, Err(error), now_unix_ms);
            let record = step.session.turn(worker.source, turn.turn_id);
            &&& step.retry is Some <==> turn.attempt_count < 3
            &&& if turn.attempt_count < 3 {
                &&& step.retry == Some(
                    if turn.attempt_count == 0 {
                        500u64
                    } else if turn.attempt_count == 1 {
                        1_000u64
                    } else {
                        2_000u64
                    },
                )
                &&& step.attempt_count == turn.attempt_count + 1
                &&& step.session == session
                &&& step.metrics == metrics
                &&& step.effects.log.last().event == "turn_retry"@
                &&& step.effects.log.last().details.member("turn_id"@) == Some(
                    JsonView::Text(turn.turn_id),
                )
                &&& step.effects.log.last().details.member("attempt_count"@) == Some(
                    JsonView::Number(unsigned_number((turn.attempt_count + 1) as u64)),
                )
                &&& step.effects.log.last().details.member("backoff_ms"@) == Some(
                    JsonView::Number(unsigned_number(step.retry->Some_0)),
                )
                &&& step.effects.log.last().details.member("error"@) == Some(
                    JsonView::Text(
                        match error {
                            FinalizerTurnError::Reconnect(text) => text@,
                            FinalizerTurnError::Retryable(text) => text@,
                            _ => Seq::empty(),
                        },
                    ),
                )
            } else {
                &&& step.attempt_count == turn.attempt_count
                &&& record.state == TurnState::Failed
            }
            &&& error is Retryable ==> step.worker == worker
            &&& error is Reconnect ==> {
                &&& !step.worker.connected
                &&& worker.reconnect_attempt < u32::MAX ==> step.worker.reconnect_attempt
                    == worker.reconnect_attempt + 1
                &&& step.worker == (FinalizerView {
                    connected: false,
                    reconnect_attempt: step.worker.reconnect_attempt,
                    ..worker
                })
            }
        }),
{
    reveal_strlit("turn_id");
    reveal_strlit("attempt_count");
    reveal_strlit("backoff_ms");
    reveal_strlit("error");
    reveal_strlit("kind");
    assert("turn_id"@.len() == 7 && "attempt_count"@.len() == 13 && "backoff_ms"@.len() == 10
        && "error"@.len() == 5 && "kind"@.len() == 4);
    law_attempts_come_to_an_end(worker, session, metrics, turn, Err(error), now_unix_ms);
    let source = worker.source;
    lemma_turn_index_found(session.turns_of(source), turn.turn_id);
    match error@ {
        TurnErrorView::Reconnect(reason) => {
            let failed = as_failed(
                session.turn(source, turn.turn_id),
                "finalizer reconnect budget exhausted: "@ + reason,
                now_unix_ms,
            );
            law_replacing_changes_one_turn(session, source, failed, source, turn.turn_id);
        },
        TurnErrorView::Retryable(text) => {
            let failed = as_failed(session.turn(source, turn.turn_id), text, now_unix_ms);
            law_replacing_changes_one_turn(session, source, failed, source, turn.turn_id);
        },
        _ => {},
    }
}

/// A final text is recorded and shown as the finalizer gave it, and the turn leaves the queue.
pub proof fn law_final_texts_are_recorded(
    worker: FinalizerView,
    session: SessionView,
    metrics: QueueMetrics,
    turn: AttemptView,
    payload: FinalizedTurnPayload,
    now_unix_ms: u128,
)
    requires
        session.has_turn(worker.source, turn.turn_id),
    ensures
        ({
            let source = worker.source;
            let step = worker.after_attempt(session, metrics, turn, Ok(payload), now_unix_ms);
            let before = session.turn(source, turn.turn_id);
            let record = step.session.turn(source, turn.turn_id);
            &&& step.worker == worker
            &&& step.retry is None
            &&& step.attempt_count == turn.attempt_count
            &&& step.session.has_turn(source, turn.turn_id)
            &&& record.state == TurnState::Final
            &&& record.text == payload.text@
            &&& record.output_language == payload.output_language@
            &&& record.detected_languages == views(payload.detected_languages@)
            &&& record.is_empty_or_noise == payload.is_empty_or_noise
            &&& record.display_action == payload.display_action
            &&& record.finalized_at_unix_ms == Some(now_unix_ms)
            &&& record.error is None
            &&& record.turn_id == turn.turn_id
            &&& record.turn_index == before.turn_index
            &&& record.draft_text == before.draft_text
            &&& record.created_at_unix_ms == before.created_at_unix_ms
            &&& step.effects.log.len() == 0
            &&& step.effects.ui.len() == 2
            &&& step.effects.ui[0] == AppEvent::TurnFinalized {
                source,
                turn_id: turn.turn_id,
                text: payload.text@,
                display_action: payload.display_action,
            }
            &&& step.effects.ui[1] == AppEvent::QueueMetrics::<Seq<char>> {
                source,
                queue_depth: step.metrics.queue_depth,
                pending_audio_secs: step.metrics.pending_audio_secs,
            }
        }),
{
    let source = worker.source;
    lemma_turn_index_found(session.turns_of(source), turn.turn_id);
    let record = as_final(session.turn(source, turn.turn_id), payload, now_unix_ms);
    law_replacing_changes_one_turn(session, source, record, source, turn.turn_id);
}

/// An error for which there is no other attempt fails the turn with that error, which is recorded
/// and shown, and keeps its draft; a shutdown leaves the turn with its draft as its text. Either
/// way the turn leaves the queue.
pub proof fn law_turns_that_are_given_up(
    worker: FinalizerView,
    session: SessionView,
    metrics: QueueMetrics,
    turn: AttemptView,
    error: FinalizerTurnError,
    now_unix_ms: u128,
)
    requires
        session.has_turn(worker.source, turn.turn_id),
        error is Permanent || error is Shutdown || turn.attempt_count >= 3,
    ensures
        ({
            let source = worker.source;
            let step = worker.after_attempt(session, metrics, turn, Err(error), now_unix_ms);
            let before = session.turn(source, turn.turn_id);
            let record = step.session.turn(source, turn.turn_id);
            let shown = step.effects.ui;
            &&& step.retry is None
            &&& step.attempt_count == turn.attempt_count
            &&& metrics.queue_depth > 0 ==> step.metrics.queue_depth == metrics.queue_depth - 1
            &&& metrics.queue_depth == 0 ==> step.metrics.queue_depth == 0
            &&& step.metrics.pending_audio_secs == metrics.pending_audio_secs.difference(
                Seconds::of(turn.audio_duration),
            )
            &&& record.draft_text == before.draft_text
            &&& shown.last() == AppEvent::QueueMetrics::<Seq<char>> {
                source,
                queue_depth: step.metrics.queue_depth,
                pending_audio_secs: step.metrics.pending_audio_secs,
            }
            &&& match error {
                FinalizerTurnError::Shutdown(_) => {
                    &&& step.worker == worker
                    &&& record.state == TurnState::Unfinalized
                    &&& before.text.len() == 0 ==> record.text == before.draft_text
                    &&& before.text.len() > 0 ==> record.text == before.text
                    &&& shown.len() == 1
                },
                FinalizerTurnError::Permanent(text) => {
                    &&& step.worker == worker
                    &&& record == (TurnView {
                        state: TurnState::Failed,
                        error: Some(text@),
                        finalized_at_unix_ms: Some(now_unix_ms),
                        ..before
                    })
                    &&& shown.len() == 2
                    &&& shown[0] == AppEvent::TurnFailed {
                        source,
                        turn_id: turn.turn_id,
                        error: text@,
                    }
                },
                FinalizerTurnError::Retryable(text) => {
                    &&& record == (TurnView {
                        state: TurnState::Failed,
                        error: Some(text@),
                        finalized_at_unix_ms: Some(now_unix_ms),
                        ..before
                    })
                    &&& shown.len() == 2
                    &&& shown[0] == AppEvent::TurnFailed {
                        source,
                        turn_id: turn.turn_id,
                        error: text@,
                    }
                },
                FinalizerTurnError::Reconnect(text) => {
                    &&& record.error matches Some(said)
                    &&& text@.is_suffix_of(said)
                    &&& record == (TurnView {
                        state: TurnState::Failed,
                        error: Some(said),
                        finalized_at_unix_ms: Some(now_unix_ms),
                        ..before
                    })
                    &&& shown.len() == 4
                    &&& shown[2] == AppEvent::TurnFailed {
                        source,
                        turn_id: turn.turn_id,
                        error: said,
                    }
                },
            }
        }),
{
    let source = worker.source;
    lemma_turn_index_found(session.turns_of(source), turn.turn_id);
    let before = session.turn(source, turn.turn_id);
    match error@ {
        TurnErrorView::Reconnect(reason) => {
            let said = "finalizer reconnect budget exhausted: "@ + reason;
            let failed = as_failed(before, said, now_unix_ms);
            law_replacing_changes_one_turn(session, source, failed, source, turn.turn_id);
            assert(said.subrange(said.len() - reason.len(), said.len() as int) == reason);
        },
        TurnErrorView::Retryable(text) => {
            let failed = as_failed(before, text, now_unix_ms);
            law_replacing_changes_one_turn(session, source, failed, source, turn.turn_id);
        },
        TurnErrorView::Permanent(text) => {
            let failed = as_failed(before, text, now_unix_ms);
            law_replacing_changes_one_turn(session, source, failed, source, turn.turn_id);
        },
        TurnErrorView::Shutdown(_) => {
            let left = as_unfinalized(before);
            law_replacing_changes_one_turn(session, source, left, source, turn.turn_id);
        },
    }
}

/// An attempt at one turn changes no other turn.
pub proof fn law_attempts_touch_one_turn(
    worker: FinalizerView,
    session: SessionView,
    metrics: QueueMetrics,
    turn: AttemptView,
    result: Result<FinalizedTurnPayload, FinalizerTurnError>,
    now_unix_ms: u128,
    other_source: SourceKind,
    other_id: Seq<char>,
)
    requires
        session.has_turn(worker.source, turn.turn_id),
        session.has_turn(other_source, other_id),
        other_source != worker.source || other_id != turn.turn_id,
    ensures
        ({
            let after = worker.after_attempt(session, metrics, turn, result, now_unix_ms).session;
            &&& after.has_turn(other_source, other_id)
            &&& after.turn(other_source, other_id) == session.turn(other_source, other_id)
        }),
{
    let source = worker.source;
    lemma_turn_index_found(session.turns_of(source), turn.turn_id);
    let before = session.turn(source, turn.turn_id);
    let record = match result {
        Ok(payload) => as_final(before, payload, now_unix_ms),
        Err(error) => match error@ {
            TurnErrorView::Reconnect(reason) => as_failed(
                before,
                "finalizer reconnect budget exhausted: "@ + reason,
                now_unix_ms,
            ),
            TurnErrorView::Retryable(text) => as_failed(before, text, now_unix_ms),
            TurnErrorView::Permanent(text) => as_failed(before, text, now_unix_ms),
            TurnErrorView::Shutdown(_) => as_unfinalized(before),
        },
    };
    law_replacing_changes_one_turn(session, source, record, other_source, other_id);
}

/// A lost connection during a turn is shown and logged, with its reason.
pub proof fn law_lost_connections_are_shown(
    worker: FinalizerView,
    turn_id: Seq<char>,
    reason: Seq<char>,
)
    ensures
        ({
            let effects = worker.lost_effects(turn_id, reason);
            &&& effects.ui.len() == 2
            &&& effects.ui[0] == AppEvent::FinalizerStatus {
                source: worker.source,
                status: "reconnecting"@,
            }
            &&& effects.ui[1] matches AppEvent::Notice(notice)
            &&& source_title(worker.source).is_prefix_of(notice)
            &&& reason.is_suffix_of(notice)
            &&& effects.log.len() == 1
            &&& effects.log[0].event == "connection_lost"@
            &&& effects.log[0].details.member("turn_id"@) == Some(JsonView::Text(turn_id))
            &&& effects.log[0].details.member("reason"@) == Some(JsonView::Text(reason))
        }),
{
    reveal_strlit("turn_id");
    reveal_strlit("reason");
    reveal_strlit("reconnect_attempt");
    reveal_strlit("resume_handle_present");
    assert("turn_id"@.len() == 7 && "reason"@.len() == 6 && "reconnect_attempt"@.len() == 17
        && "resume_handle_present"@.len() == 21);
    let title = source_title(worker.source);
    let notice = title + " finalizer reconnecting: "@ + reason;
    assert(notice.subrange(0, title.len() as int) == title);
    assert(notice.subrange(notice.len() - reason.len(), notice.len() as int) == reason);
}

/// What a finalizer hands back is accepted exactly when it is one call of the tool whose
/// arguments could be read, name an output language, and give a text and its languages unless
/// they say that there is nothing to write down.
pub proof fn law_only_whole_answers_are_accepted(
    calls: Seq<CallView>,
    args: Result<FinalizeTranscriptArgs, String>,
)
    ensures
        payload_error(calls, args) is None <==> {
            &&& calls.len() == 1
            &&& calls[0].name == "finalize_transcript"@
            &&& args matches Ok(said)
            &&& trimmed(said.output_language@).len() > 0
            &&& said.is_empty_or_noise || trimmed(said.text@).len() > 0
            &&& said.is_empty_or_noise || said.detected_languages@.len() > 0
        },
        payload_error(calls, args) matches Some(text) ==> text.len() > 0,
        calls.len() == 1 && calls[0].name == "finalize_transcript"@ ==> (args matches Err(error)
            ==> (payload_error(calls, args) matches Some(text) && error@.is_suffix_of(text))),
        calls.len() == 1 && calls[0].name != "finalize_transcript"@ ==> (payload_error(
            calls,
            args,
        ) matches Some(text) && calls[0].name.is_suffix_of(text)),
{
    reveal_strlit("finalizer must return exactly one tool call");
    reveal_strlit("unexpected finalizer tool call: ");
    reveal_strlit("invalid finalizer tool args: ");
    reveal_strlit("finalizer returned empty text without is_empty_or_noise");
    reveal_strlit("finalizer returned empty output_language");
    reveal_strlit("finalizer returned no detected languages");
    if calls.len() == 1 {
        let name = calls[0].name;
        let text = "unexpected finalizer tool call: "@ + name;
        assert(text.subrange(text.len() - name.len(), text.len() as int) == name);
        if let Err(error) = args {
            let text = "invalid finalizer tool args: "@ + error@;
            assert(text.subrange(text.len() - error@.len(), text.len() as int) == error@);
        }
    }
}

/// What is taken from an accepted answer: its texts trimmed, and the rest as it is.
pub proof fn law_payloads_keep_the_answer(
    payload: FinalizedTurnPayload,
    args: FinalizeTranscriptArgs,
)
    requires
        payload_from(payload, args),
    ensures
        payload.text@ == trimmed(args.text@),
        payload.output_language@ == trimmed(args.output_language@),
        payload.detected_languages == args.detected_languages,
        payload.is_empty_or_noise == args.is_empty_or_noise,
        payload.display_action == args.display_action,
{
}

/// The samples of the audio messages, one after the other.
pub open spec fn replayed_samples<S>(messages: Seq<ReplayMessage<S>>) -> Seq<S>
    decreases messages.len(),
{
    if messages.len() == 0 {
        Seq::empty()
    } else {
        replayed_samples(messages.drop_last()) + match messages.last() {
            ReplayMessage::Audio(samples) => samples@,
            _ => Seq::empty(),
        }
    }
}

proof fn lemma_flattened_push<S>(batches: Seq<Seq<S>>, last: Seq<S>)
    ensures
        flattened(batches.push(last)) == flattened(batches) + last,
    decreases batches.len(),
{
    if batches.len() == 0 {
        assert(batches.push(last).drop_first() == Seq::<Seq<S>>::empty());
        assert(flattened(Seq::<Seq<S>>::empty()) == Seq::<S>::empty());
        assert(batches.push(last)[0] == last);
        assert(flattened(batches) == Seq::<S>::empty());
    } else {
        lemma_flattened_push(batches.drop_first(), last);
        assert(batches.push(last).drop_first() == batches.drop_first().push(last));
        assert(batches.push(last)[0] == batches[0]);
    }
}

proof fn lemma_replayed_batches<S>(messages: Seq<ReplayMessage<S>>, batches: Seq<Seq<S>>, n: int)
    requires
        0 <= n <= batches.len(),
        messages.len() >= batches.len() + 2,
        messages[0] is Preamble,
        messages[1] is ActivityStart,
        forall|i: int|
            0 <= i < batches.len() ==> audio_of(#[trigger] messages[i + 2]) == Some(batches[i]),
    ensures
        replayed_samples(messages.take(n + 2)) == flattened(batches.take(n)),
    decreases n,
{
    let part = messages.take(n + 2);
    if n == 0 {
        assert(part.drop_last().drop_last() == Seq::<ReplayMessage<S>>::empty());
        assert(part.last() == messages[1] && part.drop_last().last() == messages[0]);
        assert(replayed_samples(part.drop_last().drop_last()) == Seq::<S>::empty());
        assert(replayed_samples(part.drop_last()) == Seq::<S>::empty());
        assert(batches.take(0) == Seq::<Seq<S>>::empty());
    } else {
        lemma_replayed_batches(messages, batches, n - 1);
        assert(part.drop_last() == messages.take(n - 1 + 2));
        assert(part.last() == messages[(n - 1) + 2]);
        assert(audio_of(messages[(n - 1) + 2]) == Some(batches[n - 1]));
        assert(batches.take(n) == batches.take(n - 1).push(batches[n - 1]));
        lemma_flattened_push(batches.take(n - 1), batches[n - 1]);
    }
}

/// A replay sends all the audio of the turn, in order, between the marks that speech begins and
/// ends, behind one text that says what it is for.
pub proof fn law_replay_sends_the_turn<S>(messages: Seq<ReplayMessage<S>>, samples: Seq<S>)
    requires
        is_replay(messages, samples),
    ensures
        messages.len() >= 3,
        messages[0] is Preamble,
        messages[1] is ActivityStart,
        messages.last() is ActivityEnd,
        forall|i: int|
            2 <= i < messages.len() - 1 ==> (#[trigger] messages[i]) is Audio,
        forall|i: int|
            2 <= i < messages.len() - 1 ==> {
                &&& audio_of(#[trigger] messages[i]) matches Some(batch)
                &&& 0 < batch.len() <= 640
            },
        replayed_samples(messages) == samples,
{
    let batches = replay_batches(samples);
    law_replay_keeps_the_audio(samples);
    assert forall|i: int| 2 <= i < messages.len() - 1 implies (#[trigger] messages[i]) is Audio && (
    audio_of(messages[i]) matches Some(batch) && 0 < batch.len() <= 640) by {
        assert(audio_of(messages[(i - 2) + 2]) == Some(batches[i - 2]));
    }
    lemma_replayed_batches(messages, batches, batches.len() as int);
    assert(batches.take(batches.len() as int) == batches);
    assert(messages.drop_last() == messages.take(batches.len() as int + 2));
    assert(replayed_samples(messages) == replayed_samples(messages.drop_last())
        + Seq::<S>::empty());
}

/// An answer is awaited for thirty seconds, but no longer than the worker may go on.
pub proof fn law_answers_are_awaited_in_time(worker: FinalizerView, now: i64)
    ensures
        ({
            let deadline = worker.response_deadline(now);
            &&& deadline <= now + 30_000_000_000
            &&& worker.shutdown.deadline matches Some(end) ==> deadline <= end
            &&& deadline == now + 30_000_000_000 || worker.shutdown.deadline == Some(
                deadline as i128,
            )
        }),
{
}

/// What a worker waits for: a turn or the word to stop; told to stop, a turn until its deadline.
pub proof fn law_what_is_waited_for(worker: FinalizerView)
    ensures
        worker.wait() == FinalizerWait::TurnOrShutdown <==> !worker.shutdown.requested,
        worker.wait() matches FinalizerWait::TurnUntil(deadline) ==> worker.shutdown.deadline
            == Some(deadline),
        worker.wait() == FinalizerWait::GiveUp <==> worker.shutdown.requested
            && worker.shutdown.deadline is None,
{
}

/// A tool call ends the wait for an answer with its requests; a connection that closes or ends is
/// a lost one; any other event is waited out. A new handle is kept where the session can be
/// resumed with it, and no other event touches the handle.
pub proof fn law_replay_awaits_the_tool_call(
    worker: FinalizerView,
    progress: ReplayProgress,
    event: Option<EventView>,
)
    requires
        progress_after(progress, event),
    ensures
        progress is ToolCall <==> (event matches Some(said) && said is ToolCall),
        event matches Some(EventView::ToolCall(calls)) ==> (progress matches ReplayProgress::ToolCall(
            requests,
        ) && call_views(requests@) == calls),
        progress is Failed <==> (event is None || event->Some_0 is ConnectionClosed),
        progress matches ReplayProgress::Failed(error) ==> error is Reconnect,
        event matches Some(EventView::ConnectionClosed(reason)) ==> (
        progress matches ReplayProgress::Failed(FinalizerTurnError::Reconnect(text)) && text@
            == reason),
        match event {
            Some(EventView::SessionResumptionUpdate { new_handle, resumable }) => {
                &&& resumable && new_handle is Some ==> worker.handle_after_event(event)
                    == new_handle
                &&& !resumable || new_handle is None ==> worker.handle_after_event(event)
                    == worker.resume_handle
            },
            _ => worker.handle_after_event(event) == worker.resume_handle,
        },
{
}

/// Of the events of a replay, a connection that will be renewed is noticed and a completed
/// generation shown; what is logged names the turn.
pub proof fn law_replay_events_are_shown(
    worker: FinalizerView,
    turn_id: Seq<char>,
    event: EventView,
)
    ensures
        ({
            let effects = worker.replay_effects(turn_id, Some(event));
            &&& event matches EventView::GoAway { time_left } ==> {
                &&& effects.ui.len() == 1
                &&& effects.ui[0] matches AppEvent::Notice(notice)
                &&& time_left.is_suffix_of(notice)
                &&& source_title(worker.source).is_prefix_of(notice)
                &&& effects.log.len() == 1
                &&& effects.log[0].details.member("turn_id"@) == Some(JsonView::Text(turn_id))
                &&& effects.log[0].details.member("time_left"@) == Some(JsonView::Text(time_left))
            }
            &&& event is GenerationComplete ==> {
                &&& effects.ui.len() == 1
                &&& effects.ui[0] == AppEvent::FinalizerStatus {
                    source: worker.source,
                    status: "awaiting-tool"@,
                }
                &&& effects.log.len() == 1
                &&& effects.log[0].details.member("turn_id"@) == Some(JsonView::Text(turn_id))
            }
            &&& event matches EventView::ToolCallCancellation(ids) ==> {
                &&& effects.ui.len() == 0
                &&& effects.log.len() == 1
                &&& effects.log[0].details.member("turn_id"@) == Some(JsonView::Text(turn_id))
                &&& effects.log[0].details.member("ids"@) matches Some(JsonView::Array(listed))
                &&& listed.len() == ids.len()
                &&& forall|i: int|
                    0 <= i < ids.len() ==> #[trigger] listed[i] == JsonView::Text(ids[i])
            }
            &&& event is SessionResumptionUpdate ==> effects.ui.len() == 0 && effects.log.len()
                == 1
            &&& event is SetupComplete || event is InputTranscription || event is ModelText
                || event is TurnComplete || event is ToolCall || event is UsageMetadata
                || event is ConnectionClosed ==> effects.ui.len() == 0 && effects.log.len() == 0
        }),
{
    reveal_strlit("turn_id");
    reveal_strlit("time_left");
    reveal_strlit("ids");
    assert("turn_id"@.len() == 7 && "time_left"@.len() == 9 && "ids"@.len() == 3);
    let title = source_title(worker.source);
    if let EventView::GoAway { time_left } = event {
        let notice = title + " finalizer connection will renew in "@ + time_left;
        assert(notice.subrange(0, title.len() as int) == title);
        assert(notice.subrange(notice.len() - time_left.len(), notice.len() as int) == time_left);
    }
}

/// An accepted call is answered with the turn that it was for.
pub proof fn law_accepted_calls_are_acknowledged(source: SourceKind, turn_id: Seq<char>)
    ensures
        acknowledgement(source, turn_id).member("accepted"@) == Some(JsonView::Bool(true)),
        acknowledgement(source, turn_id).member("source"@) == Some(
            JsonView::Text(source_title(source)),
        ),
        acknowledgement(source, turn_id).member("turn_id"@) == Some(JsonView::Text(turn_id)),
        turn_state_details(turn_id, turn_id).member("turn_id"@) == Some(JsonView::Text(turn_id)),
{
    reveal_strlit("accepted");
    reveal_strlit("source");
    reveal_strlit("turn_id");
    reveal_strlit("status");
    assert("accepted"@.len() == 8 && "source"@.len() == 6 && "turn_id"@.len() == 7
        && "status"@.len() == 6);
}

/// The tool asks for the five things that a final text is made of, each of its type, and a
/// display action that is one of two.
pub proof fn law_tool_asks_for_the_final_text(name: Seq<char>)
    requires
        name == "text"@ || name == "output_language"@ || name == "detected_languages"@ || name
            == "is_empty_or_noise"@ || name == "display_action"@,
    ensures
        ({
            let schema = finalize_tool_schema();
            let property = member_of(schema.member("properties"@), name);
            let kind = member_of(property, "type"@);
            &&& schema.member("type"@) == Some(JsonView::Text("object"@))
            &&& schema.member("required"@) matches Some(JsonView::Array(required))
            &&& required.len() == 5
            &&& required.contains(JsonView::Text(name))
            &&& property is Some
            &&& name == "text"@ || name == "output_language"@ || name == "display_action"@ ==> kind
                == Some(JsonView::Text("string"@))
            &&& name == "is_empty_or_noise"@ ==> kind == Some(JsonView::Text("boolean"@))
            &&& name == "detected_languages"@ ==> {
                &&& kind == Some(JsonView::Text("array"@))
                &&& member_of(member_of(property, "items"@), "type"@) == Some(
                    JsonView::Text("string"@),
                )
            }
            &&& name == "display_action"@ ==> {
                &&& member_of(property, "enum"@) matches Some(JsonView::Array(actions))
                &&& actions.len() == 2
                &&& actions.contains(JsonView::Text("new-block"@))
                &&& actions.contains(JsonView::Text("append-previous-block"@))
            }
        }),
{
    reveal_strlit("text");
    reveal_strlit("output_language");
    reveal_strlit("detected_languages");
    reveal_strlit("is_empty_or_noise");
    reveal_strlit("display_action");
    reveal_strlit("type");
    reveal_strlit("required");
    reveal_strlit("properties");
    reveal_strlit("items");
    reveal_strlit("enum");
    assert("text"@.len() == 4 && "output_language"@.len() == 15 && "detected_languages"@.len() == 18
        && "is_empty_or_noise"@.len() == 17 && "display_action"@.len() == 14);
    assert("type"@.len() == 4 && "required"@.len() == 8 && "properties"@.len() == 10
        && "items"@.len() == 5 && "enum"@.len() == 4);
    assert("type"@[0] == 't' && "enum"@[0] == 'e');
    let required = finalize_tool_schema().member("required"@)->Some_0->Array_0;
    assert(required[0] == JsonView::Text("text"@));
    assert(required[1] == JsonView::Text("output_language"@));
    assert(required[2] == JsonView::Text("detected_languages"@));
    assert(required[3] == JsonView::Text("is_empty_or_noise"@));
    assert(required[4] == JsonView::Text("display_action"@));
    if name == "display_action"@ {
        let property = member_of(finalize_tool_schema().member("properties"@), name);
        let actions = member_of(property, "enum"@)->Some_0->Array_0;
        assert(actions[0] == JsonView::Text("new-block"@));
        assert(actions[1] == JsonView::Text("append-previous-block"@));
    }
}

/// An attempt to connect that begins is shown: as the first, as one that resumes the session, or
/// as one that starts it again; and all but the first are noticed.
pub proof fn law_finalizer_connecting_is_shown(worker: FinalizerView)
    ensures
        ({
            let shown = worker.connecting_effects().ui;
            let logged = worker.connecting_effects().log;
            let status = if !worker.has_connected_once {
                "connecting"@
            } else if worker.resume_handle is Some {
                "resuming"@
            } else {
                "reconnecting"@
            };
            &&& shown[0] == AppEvent::FinalizerStatus { source: worker.source, status }
            &&& shown.len() == if worker.has_connected_once {
                2nat
            } else {
                1nat
            }
            &&& worker.has_connected_once ==> (shown[1] matches AppEvent::Notice(notice)
                && source_title(worker.source).is_prefix_of(notice))
            &&& logged.len() == 1
            &&& logged[0].event == "state"@
            &&& logged[0].details.member("status"@) == Some(JsonView::Text(status))
            &&& logged[0].details.member("resume_handle_present"@) == Some(
                JsonView::Bool(worker.resume_handle is Some),
            )
        }),
{
    reveal_strlit("status");
    reveal_strlit("reconnect_attempt");
    reveal_strlit("resume_handle_present");
    assert("status"@.len() == 6 && "reconnect_attempt"@.len() == 17
        && "resume_handle_present"@.len() == 21);
    let title = source_title(worker.source);
    let notice = reconnect_text(
        worker.source,
        "finalizer"@,
        worker.has_connected_once,
        worker.resume_handle is Some,
    );
    if let Some(notice) = notice {
        assert(notice.subrange(0, title.len() as int) == title);
    }
}

/// An attempt that ends with a lost connection or a passing failure is followed by another exactly
/// when fewer than three retries were made; the turn fails by such an error only when three were.
pub proof fn law_settling_tries_again<S>(
    worker: &mut FinalizerWorker,
    store: &mut TranscriptStore,
    metrics: &mut QueueMetrics,
    turn: &mut PendingTurn<S>,
    error: FinalizerTurnError,
    now_unix_ms: u128,
    outcome: (Option<u64>, Effects),
)
    requires
        old(store)@.has_turn(old(worker).source, old(turn).turn_id@),
        error is Reconnect || error is Retryable,
        call_ensures(
            FinalizerWorker::settle_attempt::<S>,
            (worker, store, metrics, turn, Err::<FinalizedTurnPayload, _>(error), now_unix_ms),
            outcome,
        ),
    ensures
        ({
            let source = old(worker).source;
            let record = final(store)@.turn(source, old(turn).turn_id@);
            &&& outcome.0 is Some <==> old(turn).attempt_count < 3
            &&& old(turn).attempt_count < 3 ==> {
                &&& final(store)@ == old(store)@
                &&& *final(metrics) == *old(metrics)
                &&& final(turn).attempt_count == old(turn).attempt_count + 1
            }
            &&& old(turn).attempt_count >= 3 ==> {
                &&& record.state == TurnState::Failed
                &&& record.error is Some
                &&& final(turn).attempt_count == old(turn).attempt_count
            }
            &&& final(turn).turn_id == old(turn).turn_id
            &&& final(turn).audio_samples == old(turn).audio_samples
            &&& error is Reconnect ==> !final(worker)@.connected
            &&& error is Retryable ==> final(worker)@ == old(worker)@
        }),
{
    law_turns_are_tried_again_while_retries_are_left(
        old(worker)@,
        old(store)@,
        *old(metrics),
        attempt_view(*old(turn)),
        error,
        now_unix_ms,
    );
    if old(turn).attempt_count >= 3 {
        law_turns_that_are_given_up(
            old(worker)@,
            old(store)@,
            *old(metrics),
            attempt_view(*old(turn)),
            error,
            now_unix_ms,
        );
    }
}

/// An attempt that ends with a final text records it in the turn and shows it, and is followed by
/// no other.
pub proof fn law_settling_records_the_final_text<S>(
    worker: &mut FinalizerWorker,
    store: &mut TranscriptStore,
    metrics: &mut QueueMetrics,
    turn: &mut PendingTurn<S>,
    payload: FinalizedTurnPayload,
    now_unix_ms: u128,
    outcome: (Option<u64>, Effects),
)
    requires
        old(store)@.has_turn(old(worker).source, old(turn).turn_id@),
        call_ensures(
            FinalizerWorker::settle_attempt::<S>,
            (worker, store, metrics, turn, Ok::<_, FinalizerTurnError>(payload), now_unix_ms),
            outcome,
        ),
    ensures
        ({
            let source = old(worker).source;
            let record = final(store)@.turn(source, old(turn).turn_id@);
            &&& outcome.0 is None
            &&& final(worker)@ == old(worker)@
            &&& record.state == TurnState::Final
            &&& record.text == payload.text@
            &&& record.draft_text == old(store)@.turn(source, old(turn).turn_id@).draft_text
            &&& outcome.1@.ui.len() > 0
            &&& outcome.1@.ui[0] == AppEvent::TurnFinalized {
                source,
                turn_id: old(turn).turn_id@,
                text: payload.text@,
                display_action: payload.display_action,
            }
        }),
{
    law_final_texts_are_recorded(
        old(worker)@,
        old(store)@,
        *old(metrics),
        attempt_view(*old(turn)),
        payload,
        now_unix_ms,
    );
}

/// A worker takes up every turn that there is; without one it stops where it was told to, and
/// otherwise waits on. Told to stop, it has fifteen seconds for the turns that are left.
pub proof fn law_queued_turns_are_taken_up(
    worker: &mut FinalizerWorker,
    waiting: &FinalizerWorker,
    has_turn: bool,
    intake: Intake,
    now: i64,
)
    ensures
        call_ensures(FinalizerWorker::intake, (waiting, has_turn), intake) ==> {
            &&& intake is Work <==> has_turn
            &&& intake is Stop <==> !has_turn && waiting.shutdown.requested
        },
        call_ensures(FinalizerWorker::request_shutdown, (worker, now), ()) ==> {
            let shutdown = final(worker)@.shutdown;
            &&& final(worker)@ == (FinalizerView { shutdown, ..old(worker)@ })
            &&& shutdown.requested
            &&& old(worker)@.shutdown.deadline is None ==> (shutdown.deadline matches Some(
                deadline,
            ) && deadline == now + 15_000_000_000)
            &&& old(worker)@.shutdown.deadline is Some ==> shutdown.deadline
                == old(worker)@.shutdown.deadline
        },
{
}

/// A worker that connects is connected and counts its attempts anew; one that does not tries again
/// after the wait of its attempt, unless it was told to stop.
pub proof fn law_finalizer_connections_come_and_go(
    worker: &mut FinalizerWorker,
    error: &str,
    effects: Effects,
    result: (FinalizerConnectFailure, Effects),
)
    ensures
        call_ensures(FinalizerWorker::connect_succeeded, (worker,), effects) ==> {
            &&& final(worker)@ == (FinalizerView {
                connected: true,
                has_connected_once: true,
                reconnect_attempt: 0,
                ..old(worker)@
            })
            &&& effects@.ui == seq![
                AppEvent::FinalizerStatus { source: old(worker)@.source, status: "ready"@ },
            ]
        },
        call_ensures(FinalizerWorker::connect_failed, (worker, error), result) ==> {
            let attempt = final(worker)@.reconnect_attempt;
            &&& final(worker)@ == (FinalizerView { reconnect_attempt: attempt, ..old(worker)@ })
            &&& old(worker)@.reconnect_attempt < u32::MAX ==> attempt
                == old(worker)@.reconnect_attempt + 1
            &&& result.0 is Abandon <==> old(worker)@.shutdown.requested
            &&& result.0 matches FinalizerConnectFailure::Retry { backoff_ms: wait } ==> wait
                == backoff_ms(attempt)
            &&& result.1@.log.len() == 1
        },
{
    if call_ensures(FinalizerWorker::connect_succeeded, (worker,), effects) {
        assert(effects@.ui == seq![
            AppEvent::FinalizerStatus { source: old(worker)@.source, status: "ready"@ },
        ]);
    }
}

/// Where no answer comes in time the turn is tried again, unless the worker is to stop: then the
/// turn is left with its draft. What could not be sent or received is a lost connection.
pub proof fn law_missing_answers_are_errors(
    worker: &FinalizerWorker,
    stage: ReplayStage,
    text: &str,
    error: FinalizerTurnError,
)
    ensures
        call_ensures(FinalizerWorker::response_timed_out, (worker,), error) ==> {
            &&& error is Shutdown <==> worker.shutdown.deadline is Some
            &&& error is Retryable <==> worker.shutdown.deadline is None
        },
        call_ensures(replay_send_failed, (stage, text), error) ==> (
        error matches FinalizerTurnError::Reconnect(said) && text@.is_suffix_of(said@)),
        call_ensures(receive_failed, (text,), error) ==> (
        error matches FinalizerTurnError::Reconnect(said) && text@.is_suffix_of(said@)),
{
    if call_ensures(replay_send_failed, (stage, text), error) {
        let said = error@->Reconnect_0;
        assert(said.subrange(said.len() - text@.len(), said.len() as int) == text@);
    }
    if call_ensures(receive_failed, (text,), error) {
        let said = error@->Reconnect_0;
        assert(said.subrange(said.len() - text@.len(), said.len() as int) == text@);
    }
}

/// A call is accepted exactly where its answer is whole; it is answered under its id and the name
/// of the tool, and its text, trimmed, is the final one. Any other is given up for good.
pub proof fn law_whole_answers_are_accepted(
    worker: &FinalizerWorker,
    turn_id: &str,
    calls: Vec<FunctionCallRequest>,
    args: Result<FinalizeTranscriptArgs, String>,
    result: Result<AcceptedCall, FinalizerTurnError>,
)
    requires
        call_ensures(FinalizerWorker::accept_tool_call, (worker, turn_id, calls, args), result),
    ensures
        result is Ok <==> {
            &&& calls@.len() == 1
            &&& calls@[0].name@ == "finalize_transcript"@
            &&& args matches Ok(said)
            &&& trimmed(said.output_language@).len() > 0
            &&& said.is_empty_or_noise || trimmed(said.text@).len() > 0
            &&& said.is_empty_or_noise || said.detected_languages@.len() > 0
        },
        result matches Ok(accepted) ==> {
            &&& accepted.payload.text@ == trimmed(args->Ok_0.text@)
            &&& accepted.payload.output_language@ == trimmed(args->Ok_0.output_language@)
            &&& accepted.payload.is_empty_or_noise == args->Ok_0.is_empty_or_noise
            &&& accepted.payload.display_action == args->Ok_0.display_action
            &&& accepted.payload.detected_languages == args->Ok_0.detected_languages
            &&& accepted.answer.id@ == calls@[0].id@
            &&& accepted.answer.name@ == "finalize_transcript"@
            &&& accepted.answer.response@.member("accepted"@) == Some(JsonView::Bool(true))
            &&& accepted.answer.response@.member("turn_id"@) == Some(JsonView::Text(turn_id@))
        },
        result matches Err(error) ==> error is Permanent,
{
    law_only_whole_answers_are_accepted(call_views(calls@), args);
    law_accepted_calls_are_acknowledged(worker.source, turn_id@);
    assert(call_views(calls@).len() == calls@.len());
    if calls@.len() == 1 {
        assert(call_views(calls@)[0] == calls@[0]@);
    }
}

/// Arguments are read exactly where the finalizer made one call, and that of the tool: those of
/// that call.
pub proof fn law_arguments_are_those_of_the_one_call(
    calls: &Vec<FunctionCallRequest>,
    args: Option<&Json>,
)
    requires
        call_ensures(finalize_call_args, (calls,), args),
    ensures
        args is Some <==> calls@.len() == 1 && calls@[0].name@ == "finalize_transcript"@,
        args matches Some(found) ==> *found == calls@[0].args,
{
    assert(call_views(calls@).len() == calls@.len());
    if calls@.len() == 1 {
        assert(call_views(calls@)[0] == calls@[0]@);
    }
}

} // verus!
