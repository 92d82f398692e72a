//! The Gemini Live protocol: the messages sent, and the events read from those received.

use std::collections::VecDeque;

use vstd::prelude::*;
use vstd::string::*;

use crate::json::{Json, parse_json};
use crate::text::{
    decimal_text, has_part, has_prefix, nonblank_text, trim_text,
};

verus! {

use crate::json::{
    JsonView, flag_of_member, item_views, items_of_member, member_of, number_unsigned, read_json,
    text_of_member, unsigned_number, written_json,
};
use vstd::utf8::{decode_utf8, valid_utf8};
use crate::text::{
    decimal, law_decimal_spells_the_number, lemma_trimmed_ends, lemma_trimmed_fixed, nonblank,
    occurs_in, spelled, trimmed, view_opt, views,
};

/// The endpoint of the Live service.
pub const WS_URL: &'static str = "wss://generativelanguage.googleapis.com/ws/google.ai.generativelanguage.v1beta.GenerativeService.BidiGenerateContent";

/// The number of tokens that context compression aims at.
pub const CONTEXT_TARGET_TOKENS: u64 = 32768;

/// A tool that the model may call.
#[derive(Debug, Clone)]
pub struct ToolDefinition {
    pub name: String,
    pub description: String,
    pub parameters: Json,
}

/// What a session is for.
#[derive(Debug, Clone)]
pub enum SessionMode {
    Draft,
    Finalizer { tool: ToolDefinition },
}

/// How to open a session.
#[derive(Debug, Clone)]
pub struct Config {
    pub api_key: String,
    pub model: String,
    pub sample_rate: u32,
    pub system_instruction: Option<String>,
    pub session_handle: Option<String>,
    pub mode: SessionMode,
}

impl Config {
    /// A draft session with the default model.
    pub fn new(api_key: String) -> (config: Self)
        ensures
            config.api_key == api_key,
            config.model@ == "models/gemini-3.1-flash-live-preview"@,
            config.sample_rate == 16_000,
            config.system_instruction is None,
            config.session_handle is None,
            config.mode is Draft,
    {
        Config {
            api_key,
            model: "models/gemini-3.1-flash-live-preview".to_owned(),
            sample_rate: 16_000,
            system_instruction: None,
            session_handle: None,
            mode: SessionMode::Draft,
        }
    }
}

/// Token counts that the service reports.
#[derive(Debug, Clone, Copy, PartialEq, Eq, Structural)]
pub struct UsageMetadata {
    pub prompt_token_count: u32,
    pub cached_content_token_count: u32,
    pub response_token_count: u32,
    pub tool_use_prompt_token_count: u32,
    pub thoughts_token_count: u32,
    pub total_token_count: u32,
}

/// A call of a tool that the model asks for.
#[derive(Debug, Clone, PartialEq)]
pub struct FunctionCallRequest {
    pub id: String,
    pub name: String,
    pub args: Json,
}

/// What a call request says.
pub struct CallView {
    pub id: Seq<char>,
    pub name: Seq<char>,
    pub args: JsonView,
}

impl FunctionCallRequest {
    pub open spec fn view(self) -> CallView {
        CallView { id: self.id@, name: self.name@, args: self.args@ }
    }
}

/// The answer to a call of a tool.
#[derive(Debug, Clone, PartialEq)]
pub struct FunctionResponse {
    pub id: String,
    pub name: String,
    pub response: Json,
}

/// One thing that a server message reports.
#[derive(Debug, Clone, PartialEq)]
pub enum TranscriptEvent {
    SetupComplete,
    InputTranscription(String),
    ModelText,
    GenerationComplete,
    TurnComplete,
    ToolCall(Vec<FunctionCallRequest>),
    ToolCallCancellation(Vec<String>),
    UsageMetadata(UsageMetadata),
    SessionResumptionUpdate { new_handle: Option<String>, resumable: bool },
    GoAway { time_left: String },
    ConnectionClosed(String),
}

/// What an event says.
pub enum EventView {
    SetupComplete,
    InputTranscription(Seq<char>),
    ModelText,
    GenerationComplete,
    TurnComplete,
    ToolCall(Seq<CallView>),
    ToolCallCancellation(Seq<Seq<char>>),
    UsageMetadata(UsageMetadata),
    SessionResumptionUpdate { new_handle: Option<Seq<char>>, resumable: bool },
    GoAway { time_left: Seq<char> },
    ConnectionClosed(Seq<char>),
}

/// What a list of call requests says.
pub open spec fn call_views(calls: Seq<FunctionCallRequest>) -> Seq<CallView> {
    calls.map_values(|call: FunctionCallRequest| call@)
}

impl TranscriptEvent {
    pub open spec fn view(self) -> EventView {
        match self {
            TranscriptEvent::SetupComplete => EventView::SetupComplete,
            TranscriptEvent::InputTranscription(text) => EventView::InputTranscription(text@),
            TranscriptEvent::ModelText => EventView::ModelText,
            TranscriptEvent::GenerationComplete => EventView::GenerationComplete,
            TranscriptEvent::TurnComplete => EventView::TurnComplete,
            TranscriptEvent::ToolCall(calls) => EventView::ToolCall(call_views(calls@)),
            TranscriptEvent::ToolCallCancellation(ids) => EventView::ToolCallCancellation(
                views(ids@),
            ),
            TranscriptEvent::UsageMetadata(usage) => EventView::UsageMetadata(usage),
            TranscriptEvent::SessionResumptionUpdate { new_handle, resumable } =>
                EventView::SessionResumptionUpdate { new_handle: view_opt(new_handle), resumable },
            TranscriptEvent::GoAway { time_left } => EventView::GoAway { time_left: time_left@ },
            TranscriptEvent::ConnectionClosed(reason) => EventView::ConnectionClosed(reason@),
        }
    }
}

/// What a list of events says.
pub open spec fn event_views(events: Seq<TranscriptEvent>) -> Seq<EventView> {
    events.map_values(|event: TranscriptEvent| event@)
}

/// Why a server message was not understood.
#[derive(Debug, PartialEq)]
pub enum ServerMessageError {
    /// The service reported an error.
    Service(String),
    /// A call request has no id.
    MissingCallId,
    /// A call request has no name.
    MissingCallName,
}

/// What such an error says.
pub enum ServerErrorView {
    Service(Seq<char>),
    MissingCallId,
    MissingCallName,
}

impl ServerMessageError {
    pub open spec fn view(self) -> ServerErrorView {
        match self {
            ServerMessageError::Service(message) => ServerErrorView::Service(message@),
            ServerMessageError::MissingCallId => ServerErrorView::MissingCallId,
            ServerMessageError::MissingCallName => ServerErrorView::MissingCallName,
        }
    }

    /// The error in words.
    pub fn message(&self) -> (text: String)
        ensures
            text@ == server_error_text(self@),
    {
        match self {
            ServerMessageError::Service(message) => {
                let mut text: String = "Gemini Live error: ".to_owned();
                text.append(message.as_str());
                text
            },
            ServerMessageError::MissingCallId => "tool call missing id".to_owned(),
            ServerMessageError::MissingCallName => "tool call missing name".to_owned(),
        }
    }
}

/// Such an error in words.
pub open spec fn server_error_text(error: ServerErrorView) -> Seq<char> {
    match error {
        ServerErrorView::Service(message) => "Gemini Live error: "@ + message,
        ServerErrorView::MissingCallId => "tool call missing id"@,
        ServerErrorView::MissingCallName => "tool call missing name"@,
    }
}

/// The message of a reported error: its `message` text, else itself when it is a text.
pub open spec fn service_error_message(error: JsonView) -> Seq<char> {
    match text_of_member(error.member("message"@)) {
        Some(message) => message,
        None => match error.as_text() {
            Some(text) => text,
            None => "unknown Gemini Live error"@,
        },
    }
}

/// A token count read from a field: 0 when it is absent, `u32::MAX` when it is larger.
pub open spec fn token_count(value: JsonView, field: Seq<char>) -> u32 {
    match value.member(field) {
        Some(number) => match number.as_unsigned() {
            Some(count) => if count > u32::MAX {
                u32::MAX
            } else {
                count as u32
            },
            None => 0,
        },
        None => 0,
    }
}

/// The token counts of a usage report.
pub open spec fn usage_counts(value: JsonView) -> UsageMetadata {
    UsageMetadata {
        prompt_token_count: token_count(value, "promptTokenCount"@),
        cached_content_token_count: token_count(value, "cachedContentTokenCount"@),
        response_token_count: token_count(value, "responseTokenCount"@),
        tool_use_prompt_token_count: token_count(value, "toolUsePromptTokenCount"@),
        thoughts_token_count: token_count(value, "thoughtsTokenCount"@),
        total_token_count: token_count(value, "totalTokenCount"@),
    }
}

/// Whether a usage report counts nothing at all.
pub open spec fn usage_is_zero(usage: UsageMetadata) -> bool {
    &&& usage.prompt_token_count == 0
    &&& usage.cached_content_token_count == 0
    &&& usage.response_token_count == 0
    &&& usage.tool_use_prompt_token_count == 0
    &&& usage.thoughts_token_count == 0
    &&& usage.total_token_count == 0
}

/// The usage that a report carries, if it counts anything.
pub open spec fn usage_report(value: JsonView) -> Option<UsageMetadata> {
    if usage_is_zero(usage_counts(value)) {
        None
    } else {
        Some(usage_counts(value))
    }
}

/// A text that is there and not empty.
pub open spec fn nonempty(text: Option<Seq<char>>) -> Option<Seq<char>> {
    match text {
        Some(text) => if text.len() == 0 {
            None
        } else {
            Some(text)
        },
        None => None,
    }
}

/// The call request that a value describes.
pub open spec fn call_request(value: JsonView) -> Result<CallView, ServerErrorView> {
    match (
        nonempty(text_of_member(value.member("id"@))),
        nonempty(text_of_member(value.member("name"@))),
    ) {
        (None, _) => Err(ServerErrorView::MissingCallId),
        (Some(_), None) => Err(ServerErrorView::MissingCallName),
        (Some(id), Some(name)) => Ok(
            CallView {
                id,
                name,
                args: match value.member("args"@) {
                    Some(args) => args,
                    None => JsonView::Object(Map::empty()),
                },
            },
        ),
    }
}

/// The call requests that the values describe, or the error of the first that is malformed.
pub open spec fn call_requests(items: Seq<JsonView>) -> Result<Seq<CallView>, ServerErrorView>
    decreases items.len(),
{
    if items.len() == 0 {
        Ok(Seq::empty())
    } else {
        match call_requests(items.drop_last()) {
            Ok(calls) => match call_request(items.last()) {
                Ok(call) => Ok(calls.push(call)),
                Err(error) => Err(error),
            },
            Err(error) => Err(error),
        }
    }
}

/// The texts among the values, in order.
pub open spec fn texts_among(items: Seq<JsonView>) -> Seq<Seq<char>>
    decreases items.len(),
{
    if items.len() == 0 {
        Seq::empty()
    } else {
        match items.last().as_text() {
            Some(text) => texts_among(items.drop_last()).push(text),
            None => texts_among(items.drop_last()),
        }
    }
}

/// Whether a part of the model's turn has text in it.
pub open spec fn part_has_text(part: JsonView) -> bool {
    nonempty(text_of_member(part.member("text"@))) is Some
}

/// The input transcription that server content carries.
pub open spec fn content_transcription(content: JsonView) -> Option<Seq<char>> {
    nonempty(text_of_member(member_of(content.member("inputTranscription"@), "text"@)))
}

/// Whether some part of the model's turn has text in it.
pub open spec fn some_part_has_text(parts: Seq<JsonView>) -> bool {
    exists|i: int| 0 <= i < parts.len() && part_has_text(#[trigger] parts[i])
}

/// Whether server content carries text of the model.
pub open spec fn content_has_model_text(content: JsonView) -> bool {
    match items_of_member(member_of(content.member("modelTurn"@), "parts"@)) {
        Some(parts) => some_part_has_text(parts),
        None => false,
    }
}

/// The events of server content, in the order in which they take effect.
pub open spec fn content_events(content: JsonView) -> Seq<EventView> {
    let transcription = match content_transcription(content) {
        Some(text) => seq![EventView::InputTranscription(text)],
        None => Seq::empty(),
    };
    let model_text = if content_has_model_text(content) {
        seq![EventView::ModelText]
    } else {
        Seq::empty()
    };
    let generation = if flag_of_member(content.member("generationComplete"@)) == Some(true) {
        seq![EventView::GenerationComplete]
    } else {
        Seq::empty()
    };
    let turn = if flag_of_member(content.member("turnComplete"@)) == Some(true) {
        seq![EventView::TurnComplete]
    } else {
        Seq::empty()
    };
    transcription + model_text + generation + turn
}

/// The event that a usage report makes, if any.
pub open spec fn usage_events(report: Option<JsonView>) -> Seq<EventView> {
    match report {
        Some(value) => match usage_report(value) {
            Some(usage) => seq![EventView::UsageMetadata(usage)],
            None => Seq::empty(),
        },
        None => Seq::empty(),
    }
}

/// The event of a tool call message, or the error of its first malformed call.
pub open spec fn tool_call_events(message: JsonView) -> Result<Seq<EventView>, ServerErrorView> {
    match items_of_member(message.member("functionCalls"@)) {
        Some(items) => match call_requests(items) {
            Ok(calls) => if calls.len() == 0 {
                Ok(Seq::empty())
            } else {
                Ok(seq![EventView::ToolCall(calls)])
            },
            Err(error) => Err(error),
        },
        None => Ok(Seq::empty()),
    }
}

/// The event of a tool call cancellation, if it names any call.
pub open spec fn cancellation_events(message: JsonView) -> Seq<EventView> {
    match items_of_member(message.member("ids"@)) {
        Some(items) => if texts_among(items).len() == 0 {
            Seq::empty()
        } else {
            seq![EventView::ToolCallCancellation(texts_among(items))]
        },
        None => Seq::empty(),
    }
}

/// The event of a session resumption update.
pub open spec fn resumption_event(update: JsonView) -> EventView {
    EventView::SessionResumptionUpdate {
        new_handle: match text_of_member(update.member("newHandle"@)) {
            Some(handle) => nonblank(handle),
            None => None,
        },
        resumable: flag_of_member(update.member("resumable"@)) == Some(true),
    }
}

/// The event of a notice that the connection will be closed.
pub open spec fn go_away_event(notice: JsonView) -> EventView {
    EventView::GoAway {
        time_left: match text_of_member(notice.member("timeLeft"@)) {
            Some(time) => time,
            None => "unknown"@,
        },
    }
}

/// The events of a message beside its usage report.
pub open spec fn main_events(value: JsonView) -> Result<Seq<EventView>, ServerErrorView> {
    if value.member("setupComplete"@) is Some {
        Ok(seq![EventView::SetupComplete])
    } else if let Some(notice) = value.member("goAway"@) {
        Ok(seq![go_away_event(notice)])
    } else if let Some(update) = value.member("sessionResumptionUpdate"@) {
        Ok(seq![resumption_event(update)])
    } else if let Some(message) = value.member("toolCall"@) {
        tool_call_events(message)
    } else if let Some(message) = value.member("toolCallCancellation"@) {
        Ok(cancellation_events(message))
    } else if let Some(content) = value.member("serverContent"@) {
        Ok(content_events(content))
    } else {
        Ok(Seq::empty())
    }
}

/// The events that a server message carries: its usage report first, then the rest.
pub open spec fn message_events(value: JsonView) -> Result<Seq<EventView>, ServerErrorView> {
    match value.member("error"@) {
        Some(error) => Err(ServerErrorView::Service(service_error_message(error))),
        None => match main_events(value) {
            Ok(events) => Ok(usage_events(value.member("usageMetadata"@)) + events),
            Err(error) => Err(error),
        },
    }
}

/// How a result of reading a message relates to the events that the message carries.
pub open spec fn reads_as(
    result: Result<Vec<TranscriptEvent>, ServerMessageError>,
    expected: Result<Seq<EventView>, ServerErrorView>,
) -> bool {
    match (result, expected) {
        (Ok(events), Ok(wanted)) => event_views(events@) == wanted,
        (Err(error), Err(wanted)) => error@ == wanted,
        _ => false,
    }
}

fn read_u32_field(value: &Json, field: &str) -> (count: u32)
    ensures
        count == token_count(value@, field@),
{
    match value.get(field) {
        Some(number) => match number.as_u64() {
            Some(count) => if count > u32::MAX as u64 {
                u32::MAX
            } else {
                count as u32
            },
            None => 0,
        },
        None => 0,
    }
}

fn parse_usage_metadata(value: &Json) -> (usage: Option<UsageMetadata>)
    ensures
        usage == usage_report(value@),
{
    let usage = UsageMetadata {
        prompt_token_count: read_u32_field(value, "promptTokenCount"),
        cached_content_token_count: read_u32_field(value, "cachedContentTokenCount"),
        response_token_count: read_u32_field(value, "responseTokenCount"),
        tool_use_prompt_token_count: read_u32_field(value, "toolUsePromptTokenCount"),
        thoughts_token_count: read_u32_field(value, "thoughtsTokenCount"),
        total_token_count: read_u32_field(value, "totalTokenCount"),
    };
    if usage.prompt_token_count == 0 && usage.cached_content_token_count == 0
        && usage.response_token_count == 0 && usage.tool_use_prompt_token_count == 0
        && usage.thoughts_token_count == 0 && usage.total_token_count == 0 {
        return None;
    }
    Some(usage)
}

fn member_text(value: &Json, name: &str) -> (text: Option<String>)
    ensures
        view_opt(text) == text_of_member(value@.member(name@)),
{
    match value.get(name) {
        Some(member) => match member.as_str() {
            Some(text) => Some(text.to_owned()),
            None => None,
        },
        None => None,
    }
}

fn member_nonempty_text(value: &Json, name: &str) -> (text: Option<String>)
    ensures
        view_opt(text) == nonempty(text_of_member(value@.member(name@))),
{
    match member_text(value, name) {
        Some(text) => if text.as_str().is_empty() {
            None
        } else {
            Some(text)
        },
        None => None,
    }
}

fn member_flag_set(value: &Json, name: &str) -> (set: bool)
    ensures
        set == (flag_of_member(value@.member(name@)) == Some(true)),
{
    match value.get(name) {
        Some(member) => match member.as_bool() {
            Some(flag) => flag,
            None => false,
        },
        None => false,
    }
}

fn parse_function_call(value: &Json) -> (result: Result<FunctionCallRequest, ServerMessageError>)
    ensures
        match (result, call_request(value@)) {
            (Ok(call), Ok(wanted)) => call@ == wanted,
            (Err(error), Err(wanted)) => error@ == wanted,
            _ => false,
        },
{
    let id = match member_nonempty_text(value, "id") {
        Some(id) => id,
        None => return Err(ServerMessageError::MissingCallId),
    };
    let name = match member_nonempty_text(value, "name") {
        Some(name) => name,
        None => return Err(ServerMessageError::MissingCallName),
    };
    let args = match value.get("args") {
        Some(args) => args.clone(),
        None => Json::object(),
    };
    Ok(FunctionCallRequest { id, name, args })
}

proof fn lemma_call_requests_error(items: Seq<JsonView>, i: int)
    requires
        0 <= i <= items.len(),
        call_requests(items.take(i)) is Err,
    ensures
        call_requests(items) == call_requests(items.take(i)),
    decreases items.len() - i,
{
    if i < items.len() {
        assert(items.take(i + 1).drop_last() == items.take(i));
        lemma_call_requests_error(items, i + 1);
    } else {
        assert(items.take(i) == items);
    }
}

fn parse_function_calls(items: &Vec<Json>) -> (result: Result<
    Vec<FunctionCallRequest>,
    ServerMessageError,
>)
    ensures
        match (result, call_requests(item_views(items@))) {
            (Ok(calls), Ok(wanted)) => call_views(calls@) == wanted,
            (Err(error), Err(wanted)) => error@ == wanted,
            _ => false,
        },
{
    let ghost all = item_views(items@);
    let mut calls: Vec<FunctionCallRequest> = Vec::new();
    let mut i: usize = 0;
    assert(call_views(calls@) == Seq::<CallView>::empty());
    assert(all.take(0) == Seq::<JsonView>::empty());
    while i < items.len()
        invariant
            i <= items@.len(),
            all == item_views(items@),
            call_requests(all.take(i as int)) == Ok::<Seq<CallView>, ServerErrorView>(
                call_views(calls@),
            ),
        decreases items@.len() - i,
    {
        assert(all.take(i + 1).drop_last() == all.take(i as int));
        assert(all.take(i + 1).last() == items@[i as int]@);
        match parse_function_call(&items[i]) {
            Ok(call) => {
                let ghost before = calls@;
                calls.push(call);
                assert(call_views(calls@) == call_views(before).push(call@));
            },
            Err(error) => {
                proof {
                    lemma_call_requests_error(all, i + 1);
                }
                return Err(error);
            },
        }
        i += 1;
    }
    assert(all.take(all.len() as int) == all);
    Ok(calls)
}

fn parse_cancelled_ids(items: &Vec<Json>) -> (ids: Vec<String>)
    ensures
        views(ids@) == texts_among(item_views(items@)),
{
    let ghost all = item_views(items@);
    let mut ids: Vec<String> = Vec::new();
    let mut i: usize = 0;
    assert(views(ids@) == Seq::<Seq<char>>::empty());
    assert(all.take(0) == Seq::<JsonView>::empty());
    while i < items.len()
        invariant
            i <= items@.len(),
            all == item_views(items@),
            views(ids@) == texts_among(all.take(i as int)),
        decreases items@.len() - i,
    {
        assert(all.take(i + 1).drop_last() == all.take(i as int));
        assert(all.take(i + 1).last() == items@[i as int]@);
        match items[i].as_str() {
            Some(text) => {
                let ghost before = ids@;
                let id: String = text.to_owned();
                ids.push(id);
                assert(views(ids@) == views(before).push(id@));
            },
            None => {},
        }
        i += 1;
    }
    assert(all.take(all.len() as int) == all);
    ids
}

fn any_part_has_text(parts: &Vec<Json>) -> (any: bool)
    ensures
        any == some_part_has_text(item_views(parts@)),
{
    let mut i: usize = 0;
    while i < parts.len()
        invariant
            i <= parts@.len(),
            forall|k: int| 0 <= k < i ==> !part_has_text(#[trigger] item_views(parts@)[k]),
        decreases parts@.len() - i,
    {
        assert(item_views(parts@)[i as int] == parts@[i as int]@);
        match member_nonempty_text(&parts[i], "text") {
            Some(_) => {
                assert(part_has_text(item_views(parts@)[i as int]));
                return true;
            },
            None => {},
        }
        i += 1;
    }
    false
}

fn content_carries_model_text(content: &Json) -> (carries: bool)
    ensures
        carries == content_has_model_text(content@),
{
    match content.get("modelTurn") {
        Some(turn) => match turn.get("parts") {
            Some(parts) => match parts.as_array() {
                Some(parts) => any_part_has_text(parts),
                None => false,
            },
            None => false,
        },
        None => false,
    }
}

/// Appends one event, keeping track of what the list says.
fn push_event(events: &mut Vec<TranscriptEvent>, event: TranscriptEvent)
    ensures
        event_views(final(events)@) == event_views(old(events)@).push(event@),
{
    events.push(event);
    assert(event_views(events@) == event_views(old(events)@).push(event@));
}

fn push_content_events(events: &mut Vec<TranscriptEvent>, content: &Json)
    ensures
        event_views(final(events)@) == event_views(old(events)@) + content_events(content@),
{
    let transcription = match content.get("inputTranscription") {
        Some(input) => member_nonempty_text(input, "text"),
        None => None,
    };
    match transcription {
        Some(text) => push_event(events, TranscriptEvent::InputTranscription(text)),
        None => {},
    }
    if content_carries_model_text(content) {
        push_event(events, TranscriptEvent::ModelText);
    }
    if member_flag_set(content, "generationComplete") {
        push_event(events, TranscriptEvent::GenerationComplete);
    }
    if member_flag_set(content, "turnComplete") {
        push_event(events, TranscriptEvent::TurnComplete);
    }
    assert(event_views(events@) == event_views(old(events)@) + content_events(content@));
}

/// The events that a server message carries, or why it was not understood.
pub fn parse_server_message_events(value: &Json) -> (result: Result<
    Vec<TranscriptEvent>,
    ServerMessageError,
>)
    ensures
        reads_as(result, message_events(value@)),
{
    if let Some(error) = value.get("error") {
        let message = match member_text(error, "message") {
            Some(message) => message,
            None => match error.as_str() {
                Some(text) => text.to_owned(),
                None => "unknown Gemini Live error".to_owned(),
            },
        };
        return Err(ServerMessageError::Service(message));
    }
    let ghost usage_part = usage_events(value@.member("usageMetadata"@));
    let mut events: Vec<TranscriptEvent> = Vec::new();
    assert(event_views(events@) == Seq::<EventView>::empty());
    if let Some(report) = value.get("usageMetadata") {
        if let Some(usage) = parse_usage_metadata(report) {
            push_event(&mut events, TranscriptEvent::UsageMetadata(usage));
        }
    }
    assert(event_views(events@) == usage_part);
    assert(usage_part + Seq::<EventView>::empty() == usage_part);
    assert(forall|event: EventView| #[trigger]
        (usage_part + seq![event]) == usage_part.push(event));

    if value.get("setupComplete").is_some() {
        push_event(&mut events, TranscriptEvent::SetupComplete);
        return Ok(events);
    }
    if let Some(notice) = value.get("goAway") {
        let time_left = match member_text(notice, "timeLeft") {
            Some(time) => time,
            None => "unknown".to_owned(),
        };
        push_event(&mut events, TranscriptEvent::GoAway { time_left });
        return Ok(events);
    }
    if let Some(update) = value.get("sessionResumptionUpdate") {
        let resumable = member_flag_set(update, "resumable");
        let new_handle = match member_text(update, "newHandle") {
            Some(handle) => sanitize_session_handle(Some(handle.as_str())),
            None => None,
        };
        push_event(
            &mut events,
            TranscriptEvent::SessionResumptionUpdate { new_handle, resumable },
        );
        return Ok(events);
    }
    if let Some(message) = value.get("toolCall") {
        if let Some(list) = message.get("functionCalls") {
            if let Some(items) = list.as_array() {
                let calls = match parse_function_calls(items) {
                    Ok(calls) => calls,
                    Err(error) => return Err(error),
                };
                if calls.len() > 0 {
                    push_event(&mut events, TranscriptEvent::ToolCall(calls));
                }
            }
        }
        return Ok(events);
    }
    if let Some(message) = value.get("toolCallCancellation") {
        if let Some(list) = message.get("ids") {
            if let Some(items) = list.as_array() {
                let ids = parse_cancelled_ids(items);
                if ids.len() > 0 {
                    push_event(&mut events, TranscriptEvent::ToolCallCancellation(ids));
                }
            }
        }
        return Ok(events);
    }
    if let Some(content) = value.get("serverContent") {
        push_content_events(&mut events, content);
    }
    Ok(events)
}

/// A session handle trimmed, or nothing when it is blank.
pub fn sanitize_session_handle(handle: Option<&str>) -> (result: Option<String>)
    ensures
        view_opt(result) == match handle {
            Some(handle) => nonblank(handle@),
            None => None,
        },
{
    match handle {
        Some(handle) => nonblank_text(handle),
        None => None,
    }
}

/// The model's resource path: the trimmed name, under `models/`.
pub open spec fn model_path(model: Seq<char>) -> Seq<char> {
    if "models/"@.is_prefix_of(trimmed(model)) {
        trimmed(model)
    } else {
        "models/"@ + trimmed(model)
    }
}

/// Whether the model thinks at the medium level when it finalizes.
pub open spec fn thinks_medium(model: Seq<char>) -> bool {
    let name = model_path(model).skip("models/"@.len() as int);
    "gemini-3"@.is_prefix_of(name) && occurs_in("flash"@, name)
}

/// The model name as the setup message has it.
pub fn normalize_model_name(model: &str) -> (path: String)
    ensures
        path@ == model_path(model@),
{
    let name = trim_text(model);
    if has_prefix(name.as_str(), "models/") {
        name
    } else {
        "models/".to_owned().concat(name.as_str())
    }
}

fn should_use_medium_thinking_level(model: &str) -> (medium: bool)
    ensures
        medium == thinks_medium(model@),
{
    let path = normalize_model_name(model);
    let prefix: usize = "models/".unicode_len();
    let end: usize = path.as_str().unicode_len();
    let name = path.as_str().substring_char(prefix, end);
    assert(name@ == path@.skip("models/"@.len() as int));
    has_prefix(name, "gemini-3") && has_part(name, "flash")
}

/// A name that is already a path is kept, and normalizing twice changes nothing more.
pub proof fn law_model_path_is_idempotent(model: Seq<char>)
    ensures
        "models/"@.is_prefix_of(model_path(model)),
        model_path(model_path(model)) == model_path(model),
{
    reveal_strlit("models/");
    let name = trimmed(model);
    lemma_trimmed_ends(model);
    let path = "models/"@ + name;
    assert(path.take("models/"@.len() as int) == "models/"@);
    if name.len() == 0 {
        assert(path == "models/"@);
    } else {
        assert(path.last() == name.last());
    }
    lemma_trimmed_fixed(path);
    lemma_trimmed_fixed(name);
}

/// The response modalities and, for a finalizer that thinks, the level.
pub open spec fn generation_config(thinking: bool) -> JsonView {
    let modalities = JsonView::Array(seq![JsonView::Text("AUDIO"@)]);
    if thinking {
        JsonView::Object(
            map![
                "responseModalities"@ => modalities,
                "thinkingConfig"@ => JsonView::Object(
                    map!["thinkingLevel"@ => JsonView::Text("medium"@)],
                ),
            ],
        )
    } else {
        JsonView::Object(map!["responseModalities"@ => modalities])
    }
}

/// A sliding window over the context.
pub open spec fn context_compression() -> JsonView {
    JsonView::Object(
        map![
            "slidingWindow"@ => JsonView::Object(
                map![
                    "targetTokens"@ => JsonView::Number(unsigned_number(CONTEXT_TARGET_TOKENS)),
                ],
            ),
        ],
    )
}

/// Resumption of the session with the handle, where there is one.
pub open spec fn session_resumption(handle: Option<Seq<char>>) -> JsonView {
    match handle {
        Some(handle) => JsonView::Object(map!["handle"@ => JsonView::Text(handle)]),
        None => JsonView::Object(Map::empty()),
    }
}

/// Speech is marked by the client, not detected by the service.
pub open spec fn manual_activity() -> JsonView {
    JsonView::Object(
        map![
            "automaticActivityDetection"@ => JsonView::Object(
                map!["disabled"@ => JsonView::Bool(true)],
            ),
        ],
    )
}

/// The declaration of the one tool.
pub open spec fn tool_declarations(tool: ToolDefinition) -> JsonView {
    JsonView::Array(
        seq![
            JsonView::Object(
                map![
                    "functionDeclarations"@ => JsonView::Array(
                        seq![
                            JsonView::Object(
                                map![
                                    "name"@ => JsonView::Text(tool.name@),
                                    "description"@ => JsonView::Text(tool.description@),
                                    "parameters"@ => tool.parameters@,
                                ],
                            ),
                        ],
                    ),
                ],
            ),
        ],
    )
}

/// The system instruction as content.
pub open spec fn instruction_content(instruction: Seq<char>) -> JsonView {
    JsonView::Object(
        map![
            "parts"@ => JsonView::Array(
                seq![JsonView::Object(map!["text"@ => JsonView::Text(instruction)])],
            ),
        ],
    )
}

/// The session handle that the setup message carries: trimmed, where it is not blank.
pub open spec fn setup_handle(config: Config) -> Option<Seq<char>> {
    match config.session_handle {
        Some(handle) => nonblank(handle@),
        None => None,
    }
}

/// Whether the setup message asks for thinking.
pub open spec fn setup_thinks(config: Config) -> bool {
    config.mode is Finalizer && thinks_medium(config.model@)
}

/// The members of a setup that both modes have.
pub open spec fn common_setup(config: Config) -> Map<Seq<char>, JsonView> {
    map![
        "model"@ => JsonView::Text(model_path(config.model@)),
        "generationConfig"@ => generation_config(setup_thinks(config)),
        "contextWindowCompression"@ => context_compression(),
        "sessionResumption"@ => session_resumption(setup_handle(config)),
    ]
}

/// The members of a setup with those of its mode.
pub open spec fn mode_setup(config: Config) -> Map<Seq<char>, JsonView> {
    match config.mode {
        SessionMode::Draft => common_setup(config).insert(
            "inputAudioTranscription"@,
            JsonView::Object(Map::empty()),
        ),
        SessionMode::Finalizer { tool } => common_setup(config).insert(
            "realtimeInputConfig"@,
            manual_activity(),
        ).insert("tools"@, tool_declarations(tool)),
    }
}

/// The setup message of a session.
pub open spec fn setup_message(config: Config) -> JsonView {
    let members = match config.system_instruction {
        Some(instruction) => mode_setup(config).insert(
            "systemInstruction"@,
            instruction_content(instruction@),
        ),
        None => mode_setup(config),
    };
    JsonView::Object(map!["setup"@ => JsonView::Object(members)])
}

fn build_generation_config(thinking: bool) -> (json: Json)
    ensures
        json@ == generation_config(thinking),
{
    let config = Json::object().with("responseModalities", Json::single(Json::text("AUDIO")));
    if thinking {
        config.with("thinkingConfig", Json::object().with("thinkingLevel", Json::text("medium")))
    } else {
        config
    }
}

fn build_session_resumption(handle: Option<String>) -> (json: Json)
    ensures
        json@ == session_resumption(view_opt(handle)),
{
    match handle {
        Some(handle) => Json::object().with("handle", Json::Text(handle)),
        None => Json::object(),
    }
}

fn build_tool_declarations(tool: &ToolDefinition) -> (json: Json)
    ensures
        json@ == tool_declarations(*tool),
{
    let declaration = Json::object().with("name", Json::text(tool.name.as_str())).with(
        "description",
        Json::text(tool.description.as_str()),
    ).with("parameters", tool.parameters.clone());
    Json::single(Json::object().with("functionDeclarations", Json::single(declaration)))
}

fn build_instruction_content(instruction: &str) -> (json: Json)
    ensures
        json@ == instruction_content(instruction@),
{
    Json::object().with(
        "parts",
        Json::single(Json::object().with("text", Json::text(instruction))),
    )
}

/// Every session asks for context compression and for resumption, whatever its mode and
/// instruction.
pub proof fn law_sessions_are_durable(config: Config)
    ensures
        member_of(setup_message(config).member("setup"@), "contextWindowCompression"@) == Some(
            context_compression(),
        ),
        member_of(setup_message(config).member("setup"@), "sessionResumption"@) == Some(
            session_resumption(setup_handle(config)),
        ),
{
    reveal_strlit("model");
    reveal_strlit("generationConfig");
    reveal_strlit("contextWindowCompression");
    reveal_strlit("sessionResumption");
    reveal_strlit("inputAudioTranscription");
    reveal_strlit("realtimeInputConfig");
    reveal_strlit("tools");
    reveal_strlit("systemInstruction");
    assert("contextWindowCompression"@.len() == 24);
    assert("sessionResumption"@.len() == 17);
    assert("sessionResumption"@[1] == 'e' && "systemInstruction"@[1] == 'y');
}

/// The message that opens a session.
pub fn build_setup_message(config: &Config) -> (message: Json)
    ensures
        message@ == setup_message(*config),
{
    let finalizing = match &config.mode {
        SessionMode::Draft => false,
        SessionMode::Finalizer { .. } => true,
    };
    let thinking = finalizing && should_use_medium_thinking_level(config.model.as_str());
    let handle = match &config.session_handle {
        Some(handle) => sanitize_session_handle(Some(handle.as_str())),
        None => None,
    };
    let window = Json::object().with("targetTokens", Json::unsigned(CONTEXT_TARGET_TOKENS));
    let common = Json::object().with(
        "model",
        Json::Text(normalize_model_name(config.model.as_str())),
    ).with("generationConfig", build_generation_config(thinking)).with(
        "contextWindowCompression",
        Json::object().with("slidingWindow", window),
    ).with("sessionResumption", build_session_resumption(handle));
    assert(common@ == JsonView::Object(common_setup(*config)));
    let with_mode = match &config.mode {
        SessionMode::Draft => common.with("inputAudioTranscription", Json::object()),
        SessionMode::Finalizer { tool } => common.with(
            "realtimeInputConfig",
            Json::object().with(
                "automaticActivityDetection",
                Json::object().with("disabled", Json::flag(true)),
            ),
        ).with("tools", build_tool_declarations(tool)),
    };
    assert(with_mode@ == JsonView::Object(mode_setup(*config)));
    let members = match &config.system_instruction {
        Some(instruction) => with_mode.with(
            "systemInstruction",
            build_instruction_content(instruction.as_str()),
        ),
        None => with_mode,
    };
    Json::object().with("setup", members)
}

/// A message to send, with the name under which it is logged.
#[derive(Debug)]
pub struct Outbound {
    pub event: &'static str,
    pub message: Json,
}

impl Outbound {
    /// The text that goes over the wire.
    pub fn wire_text(&self) -> (text: String)
        ensures
            text@ == written_json(self.message@),
    {
        self.message.to_text()
    }

    /// What is said of a failure to send the message.
    pub fn failure_context(&self) -> (text: String)
        ensures
            text@ == "send "@ + self.event@ + " message"@,
    {
        "send ".to_owned().concat(self.event).concat(" message")
    }
}

/// The two's complement of a sample, as a number from 0 to 65535.
pub open spec fn sample_word(sample: i16) -> int {
    if sample < 0 {
        65536 + sample
    } else {
        sample as int
    }
}

/// The samples as pairs of bytes, the low byte first.
pub open spec fn pcm_bytes(samples: Seq<i16>) -> Seq<u8> {
    Seq::new(
        2 * samples.len(),
        |i: int|
            if i % 2 == 0 {
                (sample_word(samples[i / 2]) % 256) as u8
            } else {
                (sample_word(samples[i / 2]) / 256) as u8
            },
    )
}

/// The samples as pairs of bytes, the low byte first.
pub fn pcm_le_bytes(samples: &Vec<i16>) -> (bytes: Vec<u8>)
    ensures
        bytes@ == pcm_bytes(samples@),
{
    let mut bytes: Vec<u8> = Vec::new();
    let mut i: usize = 0;
    while i < samples.len()
        invariant
            i <= samples@.len(),
            bytes@ == pcm_bytes(samples@.take(i as int)),
        decreases samples@.len() - i,
    {
        let sample: i16 = samples[i];
        let word: u32 = if sample < 0 {
            (65536 + sample as i32) as u32
        } else {
            sample as u32
        };
        bytes.push((word % 256) as u8);
        bytes.push((word / 256) as u8);
        proof {
            let before = pcm_bytes(samples@.take(i as int));
            let after = pcm_bytes(samples@.take(i + 1));
            assert forall|k: int| 0 <= k < after.len() implies bytes@[k] == #[trigger] after[k] by {
                if k < before.len() {
                    assert(bytes@[k] == before[k]);
                }
            }
            assert(bytes@ == after);
        }
        i += 1;
    }
    assert(samples@.take(samples@.len() as int) == samples@);
    bytes
}

/// The samples are found again in their bytes.
pub proof fn law_pcm_bytes_hold_the_samples(samples: Seq<i16>, i: int)
    requires
        0 <= i < samples.len(),
    ensures
        pcm_bytes(samples).len() == 2 * samples.len(),
        pcm_bytes(samples)[2 * i] + 256 * pcm_bytes(samples)[2 * i + 1] == sample_word(samples[i]),
{
}

/// The base64 digit of a value below 64.
pub open spec fn base64_digit(value: int) -> char {
    if value < 26 {
        (65 + value) as char
    } else if value < 52 {
        (97 + value - 26) as char
    } else if value < 62 {
        (48 + value - 52) as char
    } else if value == 62 {
        '+'
    } else {
        '/'
    }
}

/// The standard base64 text of the bytes, padded to a multiple of four digits.
pub open spec fn base64_text(bytes: Seq<u8>) -> Seq<char>
    decreases bytes.len(),
{
    let first = bytes[0] as int;
    let second = if bytes.len() > 1 {
        bytes[1] as int
    } else {
        0
    };
    let third = if bytes.len() > 2 {
        bytes[2] as int
    } else {
        0
    };
    let d0 = base64_digit(first / 4);
    let d1 = base64_digit(first % 4 * 16 + second / 16);
    let d2 = base64_digit(second % 16 * 4 + third / 64);
    let d3 = base64_digit(third % 64);
    if bytes.len() == 0 {
        Seq::empty()
    } else if bytes.len() == 1 {
        seq![d0, d1, '=', '=']
    } else if bytes.len() == 2 {
        seq![d0, d1, d2, '=']
    } else {
        seq![d0, d1, d2, d3] + base64_text(bytes.skip(3))
    }
}

/// Trusted: `base64::Engine::encode` of the standard engine gives the padded base64 text of
/// the bytes. The engine panics where that text's length does not fit in `usize`.
#[verifier::external_body]
fn encode_base64(bytes: &Vec<u8>) -> (text: String)
    requires
        bytes@.len() / 3 * 4 + 4 <= usize::MAX,
    ensures
        text@ == base64_text(bytes@),
{
    base64::Engine::encode(&base64::engine::general_purpose::STANDARD, bytes)
}

/// The message that carries audio.
pub open spec fn audio_message(samples: Seq<i16>, sample_rate: u32) -> JsonView {
    let audio = JsonView::Object(
        map![
            "data"@ => JsonView::Text(base64_text(pcm_bytes(samples))),
            "mimeType"@ => JsonView::Text("audio/pcm;rate="@ + decimal(sample_rate as nat)),
        ],
    );
    realtime_input("audio"@, audio)
}

/// A message of realtime input with one member.
pub open spec fn realtime_input(name: Seq<char>, value: JsonView) -> JsonView {
    JsonView::Object(map!["realtimeInput"@ => JsonView::Object(map![name => value])])
}

/// One answer to a tool call.
pub open spec fn function_response(response: FunctionResponse) -> JsonView {
    JsonView::Object(
        map![
            "id"@ => JsonView::Text(response.id@),
            "name"@ => JsonView::Text(response.name@),
            "response"@ => response.response@,
        ],
    )
}

/// The message that answers tool calls.
pub open spec fn tool_response_message(responses: Seq<FunctionResponse>) -> JsonView {
    let listed = JsonView::Array(
        responses.map_values(|response: FunctionResponse| function_response(response)),
    );
    JsonView::Object(
        map!["toolResponse"@ => JsonView::Object(map!["functionResponses"@ => listed])],
    )
}

fn build_realtime_input(name: &str, value: Json) -> (message: Json)
    ensures
        message@ == realtime_input(name@, value@),
{
    Json::object().with("realtimeInput", Json::object().with(name, value))
}

/// The messages that a session sends.
#[derive(Debug)]
pub struct AudioSender {
    pub sample_rate: u32,
}

impl AudioSender {
    /// The message for 16-bit samples; there is none for no samples.
    pub fn send_audio(&self, samples: &Vec<i16>) -> (outbound: Option<Outbound>)
        requires
            samples@.len() <= usize::MAX / 4,
        ensures
            outbound is None <==> samples@.len() == 0,
            outbound matches Some(sent) ==> sent.event@ == "audio"@ && sent.message@
                == audio_message(samples@, self.sample_rate),
    {
        if samples.len() == 0 {
            return None;
        }
        let bytes = pcm_le_bytes(samples);
        let mime = "audio/pcm;rate=".to_owned().concat(
            decimal_text(self.sample_rate as u128).as_str(),
        );
        let audio = Json::object().with("data", Json::Text(encode_base64(&bytes))).with(
            "mimeType",
            Json::Text(mime),
        );
        Some(Outbound { event: "audio", message: build_realtime_input("audio", audio) })
    }

    /// The message for text typed along with the audio.
    pub fn send_realtime_text(&self, text: &str) -> (outbound: Outbound)
        ensures
            outbound.event@ == "realtime_text"@,
            outbound.message@ == realtime_input("text"@, JsonView::Text(text@)),
    {
        Outbound {
            event: "realtime_text",
            message: build_realtime_input("text", Json::text(text)),
        }
    }

    /// The message that speech begins.
    pub fn send_activity_start(&self) -> (outbound: Outbound)
        ensures
            outbound.event@ == "activity_start"@,
            outbound.message@ == realtime_input(
                "activityStart"@,
                JsonView::Object(Map::empty()),
            ),
    {
        Outbound {
            event: "activity_start",
            message: build_realtime_input("activityStart", Json::object()),
        }
    }

    /// The message that speech ends.
    pub fn send_activity_end(&self) -> (outbound: Outbound)
        ensures
            outbound.event@ == "activity_end"@,
            outbound.message@ == realtime_input("activityEnd"@, JsonView::Object(Map::empty())),
    {
        Outbound {
            event: "activity_end",
            message: build_realtime_input("activityEnd", Json::object()),
        }
    }

    /// The message that answers tool calls; there is none for no answers.
    pub fn send_tool_response(&self, responses: &Vec<FunctionResponse>) -> (outbound: Option<
        Outbound,
    >)
        ensures
            outbound is None <==> responses@.len() == 0,
            outbound matches Some(sent) ==> sent.event@ == "tool_response"@ && sent.message@
                == tool_response_message(responses@),
    {
        if responses.len() == 0 {
            return None;
        }
        let mut listed: Vec<Json> = Vec::new();
        let mut i: usize = 0;
        while i < responses.len()
            invariant
                i <= responses@.len(),
                listed@.len() == i,
                forall|k: int|
                    0 <= k < i ==> (#[trigger] listed@[k])@ == function_response(responses@[k]),
            decreases responses@.len() - i,
        {
            let response = &responses[i];
            listed.push(
                Json::object().with("id", Json::text(response.id.as_str())).with(
                    "name",
                    Json::text(response.name.as_str()),
                ).with("response", response.response.clone()),
            );
            i += 1;
        }
        assert(item_views(listed@) == responses@.map_values(
            |response: FunctionResponse| function_response(response),
        ));
        let message = Json::object().with(
            "toolResponse",
            Json::object().with("functionResponses", Json::Array(listed)),
        );
        Some(Outbound { event: "tool_response", message })
    }

    /// The message that no more audio follows.
    pub fn end_audio(&self) -> (outbound: Outbound)
        ensures
            outbound.event@ == "audio_stream_end"@,
            outbound.message@ == realtime_input("audioStreamEnd"@, JsonView::Bool(true)),
    {
        Outbound {
            event: "audio_stream_end",
            message: build_realtime_input("audioStreamEnd", Json::flag(true)),
        }
    }
}

/// Why and with what code the service closed the connection.
#[derive(Debug)]
pub struct CloseInfo {
    pub code: u16,
    pub reason: String,
}

/// A close frame in words.
pub open spec fn close_text(frame: Option<CloseInfo>) -> Seq<char> {
    match frame {
        Some(frame) => if frame.reason@.len() == 0 {
            "code "@ + decimal(frame.code as nat)
        } else {
            "code "@ + decimal(frame.code as nat) + ": "@ + frame.reason@
        },
        None => "connection closed without close frame"@,
    }
}

/// A close frame in words.
pub fn format_close_frame(frame: &Option<CloseInfo>) -> (text: String)
    ensures
        text@ == close_text(*frame),
{
    match frame {
        Some(frame) => {
            let code = "code ".to_owned().concat(decimal_text(frame.code as u128).as_str());
            if frame.reason.as_str().is_empty() {
                code
            } else {
                code.concat(": ").concat(frame.reason.as_str())
            }
        },
        None => "connection closed without close frame".to_owned(),
    }
}

/// What `String::from_utf8_lossy` makes of bytes.
pub uninterp spec fn lossy_text(bytes: Seq<u8>) -> Seq<char>;

/// Trusted: `String::from_utf8_lossy`, a function of the bytes alone: the text that they
/// encode where they are UTF-8. What stands for ill-formed bytes is left to the name.
#[verifier::external_body]
pub(crate) fn text_from_bytes(bytes: &Vec<u8>) -> (text: String)
    ensures
        text@ == lossy_text(bytes@),
        valid_utf8(bytes@) ==> text@ == decode_utf8(bytes@),
{
    String::from_utf8_lossy(bytes).into_owned()
}

/// A message as it came over the wire.
#[derive(Debug)]
pub enum WireMessage {
    Text(String),
    Binary(Vec<u8>),
    Close(Option<CloseInfo>),
    Other,
}

/// The text that a message carries, if it carries any.
pub open spec fn wire_text(message: WireMessage) -> Option<Seq<char>> {
    match message {
        WireMessage::Text(text) => Some(text@),
        WireMessage::Binary(bytes) => Some(lossy_text(bytes@)),
        _ => None,
    }
}

/// What is logged of a received message.
#[derive(Debug)]
pub enum InboundLog {
    Nothing,
    Text(String),
    Close(String),
}

/// Why a received message gave no events.
#[derive(Debug)]
pub enum ReceiveError {
    /// It was not JSON; the reader's error is kept.
    NotJson(String),
    /// It was JSON, but no server message.
    Message(ServerMessageError),
}

impl ReceiveError {
    /// The error in words.
    pub fn message(&self) -> (text: String)
        ensures
            text@ == match self {
                ReceiveError::NotJson(cause) => "parse server message: "@ + cause@,
                ReceiveError::Message(error) => server_error_text(error@),
            },
    {
        match self {
            ReceiveError::NotJson(cause) => {
                "parse server message: ".to_owned().concat(cause.as_str())
            },
            ReceiveError::Message(error) => error.message(),
        }
    }
}

/// A received message: what to log of it, and what comes of it. No event and no error means
/// that the next message is to be awaited.
#[derive(Debug)]
pub struct Received {
    pub log: InboundLog,
    pub outcome: Result<Option<TranscriptEvent>, ReceiveError>,
}

/// Whether `received` is what `pending` events and the text of a message give.
pub open spec fn received_as_text(
    received: Received,
    before: Seq<EventView>,
    after: Seq<EventView>,
    text: Seq<char>,
) -> bool {
    &&& received.log matches InboundLog::Text(logged) && logged@ == text
    &&& match read_json(text) {
        Err(error) => {
            &&& received.outcome matches Err(ReceiveError::NotJson(kept))
            &&& kept@ == error
            &&& after == before
        },
        Ok(value) => match message_events(value) {
            Err(error) => {
                &&& received.outcome matches Err(ReceiveError::Message(kept))
                &&& kept@ == error
                &&& after == before
            },
            Ok(events) => if events.len() == 0 {
                &&& received.outcome matches Ok(None)
                &&& after == before
            } else {
                &&& received.outcome matches Ok(Some(event))
                &&& seq![event@] + after == before + events
            },
        },
    }
}

/// The events that were received and not handed out yet.
#[derive(Debug)]
pub struct TranscriptReceiver {
    pending_events: VecDeque<TranscriptEvent>,
}

impl TranscriptReceiver {
    /// What the pending events say, the next one first.
    pub closed spec fn view(self) -> Seq<EventView> {
        event_views(self.pending_events@)
    }

    /// A receiver without pending events.
    pub fn new() -> (receiver: Self)
        ensures
            receiver@ == Seq::<EventView>::empty(),
    {
        let receiver = TranscriptReceiver { pending_events: VecDeque::new() };
        assert(receiver@ == Seq::<EventView>::empty());
        receiver
    }

    /// The next pending event.
    pub fn next_pending(&mut self) -> (event: Option<TranscriptEvent>)
        ensures
            match event {
                Some(event) => old(self)@ == seq![event@] + final(self)@,
                None => old(self)@.len() == 0 && final(self)@ == old(self)@,
            },
    {
        let ghost before = self@;
        let event = self.pending_events.pop_front();
        assert(event is Some ==> before == seq![event->Some_0@] + self@);
        event
    }

    /// What comes of a message from the wire.
    pub fn receive(&mut self, message: WireMessage) -> (received: Received)
        ensures
            match wire_text(message) {
                Some(text) => received_as_text(received, old(self)@, final(self)@, text),
                None => final(self)@ == old(self)@,
            },
            message matches WireMessage::Close(frame) ==> {
                &&& received.log matches InboundLog::Close(reason)
                &&& reason@ == close_text(frame)
                &&& received.outcome matches Ok(Some(TranscriptEvent::ConnectionClosed(said)))
                &&& said@ == close_text(frame)
            },
            message is Other ==> received.log is Nothing && received.outcome matches Ok(None),
    {
        let text: String = match message {
            WireMessage::Text(text) => text,
            WireMessage::Binary(bytes) => text_from_bytes(&bytes),
            WireMessage::Close(frame) => {
                let reason = format_close_frame(&frame);
                return Received {
                    log: InboundLog::Close(reason.clone()),
                    outcome: Ok(Some(TranscriptEvent::ConnectionClosed(reason))),
                };
            },
            WireMessage::Other => {
                return Received { log: InboundLog::Nothing, outcome: Ok(None) };
            },
        };
        let parsed = parse_json(text.as_str());
        let log = InboundLog::Text(text);
        let value = match parsed {
            Ok(value) => value,
            Err(error) => {
                return Received { log, outcome: Err(ReceiveError::NotJson(error)) };
            },
        };
        let events = match parse_server_message_events(&value) {
            Ok(events) => events,
            Err(error) => {
                return Received { log, outcome: Err(ReceiveError::Message(error)) };
            },
        };
        if events.len() == 0 {
            return Received { log, outcome: Ok(None) };
        }
        self.queue(events);
        let event = self.next_pending();
        Received { log, outcome: Ok(event) }
    }

    fn queue(&mut self, events: Vec<TranscriptEvent>)
        ensures
            final(self)@ == old(self)@ + event_views(events@),
    {
        let ghost listed = events@;
        let mut rest: Vec<TranscriptEvent> = Vec::new();
        let mut source: Vec<TranscriptEvent> = events;
        while source.len() > 0
            invariant
                source@.len() + rest@.len() == listed.len(),
                source@ == listed.take(source@.len() as int),
                forall|i: int| 0 <= i < rest@.len() ==> rest@[i] == listed[listed.len() - 1 - i],
            decreases source@.len(),
        {
            match source.pop() {
                Some(event) => rest.push(event),
                None => {},
            }
        }
        let ghost before = self.pending_events@;
        while rest.len() > 0
            invariant
                rest@.len() <= listed.len(),
                forall|i: int| 0 <= i < rest@.len() ==> rest@[i] == listed[listed.len() - 1 - i],
                self.pending_events@ == before + listed.take(listed.len() - rest@.len()),
            decreases rest@.len(),
        {
            match rest.pop() {
                Some(event) => {
                    let ghost at = listed.len() - rest@.len() - 1;
                    assert(listed.take(at + 1) == listed.take(at).push(event));
                    self.pending_events.push_back(event);
                },
                None => {},
            }
        }
        assert(listed.take(listed.len() as int) == listed);
        assert(self@ == event_views(before) + event_views(listed));
    }
}

/// A session about to be opened: where to connect, what to send first, and the two ends.
#[derive(Debug)]
pub struct Opening {
    pub url: String,
    pub setup: Outbound,
    pub sender: AudioSender,
    pub receiver: TranscriptReceiver,
}

/// Where to connect for the session that `config` describes, and what to send first.
pub fn connect(config: &Config) -> (opening: Opening)
    ensures
        opening.url@ == WS_URL@ + "?key="@ + config.api_key@,
        opening.setup.event@ == "setup"@,
        opening.setup.message@ == setup_message(*config),
        opening.sender.sample_rate == config.sample_rate,
        opening.receiver@ == Seq::<EventView>::empty(),
{
    Opening {
        url: WS_URL.to_owned().concat("?key=").concat(config.api_key.as_str()),
        setup: Outbound { event: "setup", message: build_setup_message(config) },
        sender: AudioSender { sample_rate: config.sample_rate },
        receiver: TranscriptReceiver::new(),
    }
}

/// Whether a message carries its server content: it reports no error, and nothing that comes
/// before the content.
pub open spec fn carries_content(value: JsonView, content: JsonView) -> bool {
    &&& value.member("error"@) is None
    &&& value.member("setupComplete"@) is None
    &&& value.member("goAway"@) is None
    &&& value.member("sessionResumptionUpdate"@) is None
    &&& value.member("toolCall"@) is None
    &&& value.member("toolCallCancellation"@) is None
    &&& value.member("serverContent"@) == Some(content)
}

/// Where an event of server content stands among the others.
pub open spec fn content_rank(event: EventView) -> int {
    match event {
        EventView::UsageMetadata(_) => 0,
        EventView::InputTranscription(_) => 1,
        EventView::ModelText => 2,
        EventView::GenerationComplete => 3,
        EventView::TurnComplete => 4,
        _ => 5,
    }
}

/// A message with server content gives an event for each thing that the content says, whatever
/// else it says: the end of the turn and of the generation exactly where it says so, the
/// transcription exactly where it has one that is not empty, with its text, and text of the model
/// exactly where some part has any. They come in that order: transcription, text of the model,
/// end of the generation, end of the turn; each at most once, and no other events but a report of
/// usage, which comes first.
pub proof fn law_content_is_read_whole(value: JsonView, content: JsonView)
    requires
        carries_content(value, content),
    ensures
        ({
            &&& message_events(value) matches Ok(events)
            &&& events.contains(EventView::TurnComplete) <==> content.member("turnComplete"@)
                == Some(JsonView::Bool(true))
            &&& events.contains(EventView::GenerationComplete) <==> content.member(
                "generationComplete"@,
            ) == Some(JsonView::Bool(true))
            &&& forall|text: Seq<char>|
                #[trigger] events.contains(EventView::InputTranscription(text)) <==> text.len() > 0
                    && member_of(content.member("inputTranscription"@), "text"@) == Some(
                    JsonView::Text(text),
                )
            &&& events.contains(EventView::ModelText) <==> {
                &&& member_of(content.member("modelTurn"@), "parts"@) matches Some(
                    JsonView::Array(parts),
                )
                &&& exists|i: int|
                    {
                        &&& 0 <= i < parts.len()
                        &&& (#[trigger] parts[i]).member("text"@) matches Some(JsonView::Text(text))
                        &&& text.len() > 0
                    }
            }
            &&& forall|i: int| 0 <= i < events.len() ==> content_rank(#[trigger] events[i]) < 5
            &&& forall|i: int, j: int|
                0 <= i < j < events.len() ==> content_rank(#[trigger] events[i]) < content_rank(
                    #[trigger] events[j],
                )
        }),
{
    let events = message_events(value)->Ok_0;
    let usage = usage_events(value.member("usageMetadata"@));
    let transcription = match content_transcription(content) {
        Some(text) => seq![EventView::InputTranscription(text)],
        None => Seq::empty(),
    };
    let model_text = if content_has_model_text(content) {
        seq![EventView::ModelText]
    } else {
        Seq::empty()
    };
    let generation = if flag_of_member(content.member("generationComplete"@)) == Some(true) {
        seq![EventView::GenerationComplete]
    } else {
        Seq::empty()
    };
    let turn = if flag_of_member(content.member("turnComplete"@)) == Some(true) {
        seq![EventView::TurnComplete]
    } else {
        Seq::empty()
    };
    let second = usage.len() as int;
    let third = second + transcription.len();
    let fourth = third + model_text.len();
    let fifth = fourth + generation.len();
    assert(events == usage + (transcription + model_text + generation + turn));
    assert(events.len() == fifth + turn.len());
    if turn.len() > 0 {
        assert(events[fifth] == EventView::TurnComplete);
    }
    if generation.len() > 0 {
        assert(events[fourth] == EventView::GenerationComplete);
    }
    if model_text.len() > 0 {
        assert(events[third] == EventView::ModelText);
    }
    if transcription.len() > 0 {
        assert(events[second] == transcription[0]);
    }
    assert forall|i: int| 0 <= i < events.len() implies content_rank(#[trigger] events[i]) == (if i
        < second {
        0int
    } else if i < third {
        1int
    } else if i < fourth {
        2int
    } else if i < fifth {
        3int
    } else {
        4int
    }) by {
        if i < second {
            assert(events[i] == usage[i]);
        }
    }
    if let Some(JsonView::Array(parts)) = member_of(content.member("modelTurn"@), "parts"@) {
        if some_part_has_text(parts) {
            let i = choose|i: int| 0 <= i < parts.len() && part_has_text(#[trigger] parts[i]);
            assert(parts[i].member("text"@) is Some);
        }
        assert forall|i: int|
            {
                &&& 0 <= i < parts.len()
                &&& (#[trigger] parts[i]).member("text"@) matches Some(JsonView::Text(text))
                &&& text.len() > 0
            } implies some_part_has_text(parts) by {
            assert(part_has_text(parts[i]));
        }
    }
}

/// What a count of a usage report comes to: the number that stands there, or the most that is
/// held where it is more, and nothing where none stands there.
pub open spec fn counts_as(value: JsonView, field: Seq<char>, count: u32) -> bool {
    match value.member(field) {
        Some(JsonView::Number(number)) => match number_unsigned(number) {
            Some(n) => count == n || (n > u32::MAX && count == u32::MAX),
            None => count == 0,
        },
        _ => count == 0,
    }
}

/// A usage report is an event, beside whatever else its message says and before it, with each
/// count as it was reported. Only a report in which every count is 0 is none.
pub proof fn law_usage_is_reported(value: JsonView, i: int)
    requires
        message_events(value) is Ok,
        0 <= i < message_events(value)->Ok_0.len(),
    ensures
        ({
            let events = message_events(value)->Ok_0;
            &&& events[i] matches EventView::UsageMetadata(usage) ==> {
                &&& i == 0
                &&& value.member("usageMetadata"@) matches Some(report)
                &&& counts_as(report, "promptTokenCount"@, usage.prompt_token_count)
                &&& counts_as(report, "cachedContentTokenCount"@, usage.cached_content_token_count)
                &&& counts_as(report, "responseTokenCount"@, usage.response_token_count)
                &&& counts_as(report, "toolUsePromptTokenCount"@, usage.tool_use_prompt_token_count)
                &&& counts_as(report, "thoughtsTokenCount"@, usage.thoughts_token_count)
                &&& counts_as(report, "totalTokenCount"@, usage.total_token_count)
            }
        }),
{
    let events = message_events(value)->Ok_0;
    let usage = usage_events(value.member("usageMetadata"@));
    let main = main_events(value)->Ok_0;
    assert(events == usage + main);
    if i >= usage.len() {
        assert(events[i] == main[i - usage.len()]);
        lemma_main_events_are_no_usage(value, i - usage.len());
    } else {
        assert(events[i] == usage[i]);
    }
}

proof fn lemma_main_events_are_no_usage(value: JsonView, i: int)
    requires
        main_events(value) is Ok,
        0 <= i < main_events(value)->Ok_0.len(),
    ensures
        !(main_events(value)->Ok_0[i] is UsageMetadata),
{
    if let Some(content) = value.member("serverContent"@) {
        lemma_content_is_no_usage(content);
    }
}

proof fn lemma_content_is_no_usage(content: JsonView)
    ensures
        forall|i: int|
            0 <= i < content_events(content).len() ==> !((#[trigger] content_events(content)[i])
                is UsageMetadata),
{
}

/// A report that counts anything is the first event of its message, if the message is well
/// formed.
pub proof fn law_usage_comes_first(value: JsonView, report: JsonView, field: Seq<char>, count: u32)
    requires
        message_events(value) is Ok,
        value.member("usageMetadata"@) == Some(report),
        field == "promptTokenCount"@ || field == "cachedContentTokenCount"@ || field
            == "responseTokenCount"@ || field == "toolUsePromptTokenCount"@ || field
            == "thoughtsTokenCount"@ || field == "totalTokenCount"@,
        counts_as(report, field, count),
        count > 0,
    ensures
        message_events(value)->Ok_0.len() > 0,
        message_events(value)->Ok_0[0] is UsageMetadata,
{
    let usage = usage_events(value.member("usageMetadata"@));
    let main = main_events(value)->Ok_0;
    assert(!usage_is_zero(usage_counts(report)));
    assert(message_events(value)->Ok_0 == usage + main);
    assert((usage + main)[0] == usage[0]);
}

/// A message that reports an error gives that error and no events: its message, or the error
/// itself where it is a text.
pub proof fn law_reported_errors_are_errors(value: JsonView, error: JsonView)
    requires
        value.member("error"@) == Some(error),
    ensures
        message_events(value) matches Err(ServerErrorView::Service(said)) && {
            &&& error.member("message"@) matches Some(JsonView::Text(text)) ==> said == text
            &&& error matches JsonView::Text(text) ==> said == text
        },
{
}

/// The events of a message besides its usage report: where the setup is complete, that; else
/// where the connection will be closed, that, with the time that is left; else where the session
/// can be resumed, or no longer can, that, with its handle.
pub proof fn law_session_messages_are_read(value: JsonView)
    requires
        value.member("error"@) is None,
    ensures
        value.member("setupComplete"@) is Some ==> (message_events(value) matches Ok(events)
            && events.len() > 0 && events.last() == EventView::SetupComplete),
        value.member("setupComplete"@) is None ==> (value.member("goAway"@) matches Some(notice)
            ==> {
            &&& message_events(value) matches Ok(events)
            &&& events.len() > 0
            &&& events.last() matches EventView::GoAway { time_left }
            &&& notice.member("timeLeft"@) matches Some(JsonView::Text(text)) ==> time_left == text
            &&& !(notice.member("timeLeft"@) matches Some(JsonView::Text(_))) ==> time_left
                == "unknown"@
        }),
        value.member("setupComplete"@) is None && value.member("goAway"@) is None ==> (
        value.member("sessionResumptionUpdate"@) matches Some(update) ==> {
            &&& message_events(value) matches Ok(events)
            &&& events.len() > 0
            &&& events.last() matches EventView::SessionResumptionUpdate { new_handle, resumable }
            &&& resumable <==> update.member("resumable"@) == Some(JsonView::Bool(true))
            &&& match update.member("newHandle"@) {
                Some(JsonView::Text(text)) => match new_handle {
                    Some(handle) => handle == trimmed(text) && handle.len() > 0,
                    None => trimmed(text).len() == 0,
                },
                _ => new_handle is None,
            }
        }),
{
}

/// Whether a value describes a call: it has an id and a name that are not empty.
pub open spec fn is_call(value: JsonView) -> bool {
    &&& value.member("id"@) matches Some(JsonView::Text(id)) && id.len() > 0
    &&& value.member("name"@) matches Some(JsonView::Text(name)) && name.len() > 0
}

proof fn lemma_calls_are_read(items: Seq<JsonView>)
    ensures
        match call_requests(items) {
            Ok(calls) => {
                &&& calls.len() == items.len()
                &&& forall|i: int|
                    0 <= i < items.len() ==> {
                        &&& (#[trigger] items[i]).member("id"@) == Some(JsonView::Text(calls[i].id))
                        &&& items[i].member("name"@) == Some(JsonView::Text(calls[i].name))
                        &&& is_call(items[i])
                        &&& items[i].member("args"@) matches Some(args) ==> calls[i].args == args
                        &&& items[i].member("args"@) is None ==> calls[i].args == JsonView::Object(
                            Map::empty(),
                        )
                    }
            },
            Err(_) => exists|i: int| 0 <= i < items.len() && !is_call(#[trigger] items[i]),
        },
    decreases items.len(),
{
    if items.len() > 0 {
        let before = items.drop_last();
        lemma_calls_are_read(before);
        match call_requests(items) {
            Ok(calls) => {
                assert forall|i: int| 0 <= i < items.len() implies {
                    &&& (#[trigger] items[i]).member("id"@) == Some(JsonView::Text(calls[i].id))
                    &&& items[i].member("name"@) == Some(JsonView::Text(calls[i].name))
                    &&& is_call(items[i])
                    &&& items[i].member("args"@) matches Some(args) ==> calls[i].args == args
                    &&& items[i].member("args"@) is None ==> calls[i].args == JsonView::Object(
                        Map::empty(),
                    )
                } by {
                    if i < before.len() {
                        assert(before[i] == items[i]);
                    }
                }
            },
            Err(_) => {
                if call_requests(before) is Err {
                    let i = choose|i: int| 0 <= i < before.len() && !is_call(#[trigger] before[i]);
                    assert(!is_call(items[i]));
                } else {
                    assert(!is_call(items[items.len() - 1]));
                }
            },
        }
    }
}

/// Tool calls are one event with every call in order, each with its id, its name and its
/// arguments; they are an error exactly where some call has no id or no name.
pub proof fn law_tool_calls_are_read_whole(value: JsonView, items: Seq<JsonView>)
    requires
        value.member("error"@) is None,
        value.member("setupComplete"@) is None,
        value.member("goAway"@) is None,
        value.member("sessionResumptionUpdate"@) is None,
        member_of(value.member("toolCall"@), "functionCalls"@) == Some(JsonView::Array(items)),
        items.len() > 0,
    ensures
        match message_events(value) {
            Ok(events) => {
                &&& events.len() > 0
                &&& events.last() matches EventView::ToolCall(calls)
                &&& calls.len() == items.len()
                &&& forall|i: int|
                    0 <= i < items.len() ==> {
                        &&& (#[trigger] items[i]).member("id"@) == Some(JsonView::Text(calls[i].id))
                        &&& items[i].member("name"@) == Some(JsonView::Text(calls[i].name))
                        &&& is_call(items[i])
                        &&& items[i].member("args"@) matches Some(args) ==> calls[i].args == args
                        &&& items[i].member("args"@) is None ==> calls[i].args == JsonView::Object(
                            Map::empty(),
                        )
                    }
            },
            Err(error) => {
                &&& exists|i: int| 0 <= i < items.len() && !is_call(#[trigger] items[i])
                &&& error is MissingCallId || error is MissingCallName
            },
        },
{
    lemma_calls_are_read(items);
    lemma_call_errors(items);
}

proof fn lemma_call_errors(items: Seq<JsonView>)
    ensures
        call_requests(items) matches Err(error) ==> error is MissingCallId
            || error is MissingCallName,
    decreases items.len(),
{
    if items.len() > 0 {
        lemma_call_errors(items.drop_last());
    }
}

/// The ids of a cancellation are the texts among its ids: a text is taken over behind those
/// before it, and nothing else is.
pub proof fn law_cancelled_ids_are_the_texts(items: Seq<JsonView>, item: JsonView)
    ensures
        texts_among(Seq::<JsonView>::empty()).len() == 0,
        item matches JsonView::Text(text) ==> texts_among(items.push(item)) == texts_among(
            items,
        ).push(text),
        !(item is Text) ==> texts_among(items.push(item)) == texts_among(items),
{
    assert(items.push(item).drop_last() == items);
}

/// A cancellation is an event with the ids of the calls, where it names any.
pub proof fn law_cancellations_are_read(value: JsonView, items: Seq<JsonView>)
    requires
        value.member("error"@) is None,
        value.member("setupComplete"@) is None,
        value.member("goAway"@) is None,
        value.member("sessionResumptionUpdate"@) is None,
        value.member("toolCall"@) is None,
        member_of(value.member("toolCallCancellation"@), "ids"@) == Some(JsonView::Array(items)),
    ensures
        message_events(value) matches Ok(events) && {
            texts_among(items).len() > 0 ==> events.len() > 0 && events.last()
                == EventView::ToolCallCancellation(texts_among(items))
        },
{
}

/// The model is named by its path: the trimmed name, behind `models/` where that is missing.
pub proof fn law_model_path_ends_in_the_name(model: Seq<char>)
    ensures
        trimmed(model).is_suffix_of(model_path(model)),
        "models/"@.is_prefix_of(trimmed(model)) ==> model_path(model) == trimmed(model),
        !"models/"@.is_prefix_of(trimmed(model)) ==> model_path(model).len() == 7 + trimmed(
            model,
        ).len(),
{
    reveal_strlit("models/");
    let path = model_path(model);
    let name = trimmed(model);
    assert(path.subrange(path.len() - name.len(), path.len() as int) == name);
}

proof fn lemma_setup_members_differ()
    ensures
        "model"@.len() == 5,
        "generationConfig"@.len() == 16,
        "contextWindowCompression"@.len() == 24,
        "sessionResumption"@.len() == 17,
        "inputAudioTranscription"@.len() == 23,
        "realtimeInputConfig"@.len() == 19,
        "tools"@.len() == 5,
        "systemInstruction"@.len() == 17,
        "model"@ != "tools"@,
        "sessionResumption"@ != "systemInstruction"@,
{
    reveal_strlit("model");
    reveal_strlit("generationConfig");
    reveal_strlit("contextWindowCompression");
    reveal_strlit("sessionResumption");
    reveal_strlit("inputAudioTranscription");
    reveal_strlit("realtimeInputConfig");
    reveal_strlit("tools");
    reveal_strlit("systemInstruction");
    assert("model"@[0] == 'm' && "tools"@[0] == 't');
    assert("sessionResumption"@[1] == 'e' && "systemInstruction"@[1] == 'y');
}

/// In every mode, the setup carries the instruction exactly where there is one, as its only part.
pub proof fn law_instructions_are_sent(config: Config)
    ensures
        ({
            let setup = setup_message(config).member("setup"@);
            let sent = member_of(setup, "systemInstruction"@);
            &&& sent is Some <==> config.system_instruction is Some
            &&& config.system_instruction matches Some(instruction) ==> {
                &&& member_of(sent, "parts"@) matches Some(JsonView::Array(parts))
                &&& parts.len() == 1
                &&& parts[0].member("text"@) == Some(JsonView::Text(instruction@))
            }
        }),
{
    lemma_setup_members_differ();
}

/// In every mode, the setup names the model by its path, asks for audio, keeps the context within
/// its tokens, and resumes the session whose handle there is, trimmed, where it is not blank.
pub proof fn law_setup_opens_the_session(config: Config)
    ensures
        ({
            let setup = setup_message(config).member("setup"@);
            let generation = member_of(setup, "generationConfig"@);
            let window = member_of(member_of(setup, "contextWindowCompression"@), "slidingWindow"@);
            let resumed = member_of(member_of(setup, "sessionResumption"@), "handle"@);
            &&& member_of(setup, "model"@) == Some(JsonView::Text(model_path(config.model@)))
            &&& member_of(generation, "responseModalities"@) matches Some(JsonView::Array(asked))
            &&& asked == seq![JsonView::Text("AUDIO"@)]
            &&& member_of(window, "targetTokens"@) == Some(
                JsonView::Number(unsigned_number(32768)),
            )
            &&& member_of(setup, "sessionResumption"@) is Some
            &&& match config.session_handle {
                Some(handle) => if trimmed(handle@).len() > 0 {
                    resumed == Some(JsonView::Text(trimmed(handle@)))
                } else {
                    resumed is None
                },
                None => resumed is None,
            }
        }),
{
    lemma_setup_members_differ();
    reveal_strlit("responseModalities");
    reveal_strlit("thinkingConfig");
    assert("responseModalities"@.len() == 18 && "thinkingConfig"@.len() == 14);
}

/// A draft session asks for the transcription of what it hears, and a finalizer session for
/// nothing of the kind: it marks speech itself, offers its one tool with its name, description and
/// parameters, and thinks at the medium level exactly with a flash model of the third generation.
pub proof fn law_modes_set_up_what_they_need(config: Config)
    ensures
        ({
            let setup = setup_message(config).member("setup"@);
            let thinking = member_of(
                member_of(member_of(setup, "generationConfig"@), "thinkingConfig"@),
                "thinkingLevel"@,
            );
            let detection = member_of(
                member_of(setup, "realtimeInputConfig"@),
                "automaticActivityDetection"@,
            );
            let name = model_path(config.model@).skip(7);
            match config.mode {
                SessionMode::Draft => {
                    &&& member_of(setup, "inputAudioTranscription"@) is Some
                    &&& member_of(setup, "realtimeInputConfig"@) is None
                    &&& member_of(setup, "tools"@) is None
                    &&& thinking is None
                },
                SessionMode::Finalizer { tool } => {
                    &&& member_of(setup, "inputAudioTranscription"@) is None
                    &&& member_of(detection, "disabled"@) == Some(JsonView::Bool(true))
                    &&& member_of(setup, "tools"@) matches Some(JsonView::Array(offered))
                    &&& offered.len() == 1
                    &&& offered[0].member("functionDeclarations"@) matches Some(
                        JsonView::Array(declared),
                    )
                    &&& declared.len() == 1
                    &&& declared[0].member("name"@) == Some(JsonView::Text(tool.name@))
                    &&& declared[0].member("description"@) == Some(
                        JsonView::Text(tool.description@),
                    )
                    &&& declared[0].member("parameters"@) == Some(tool.parameters@)
                    &&& if "gemini-3"@.is_prefix_of(name) && occurs_in("flash"@, name) {
                        thinking == Some(JsonView::Text("medium"@))
                    } else {
                        thinking is None
                    }
                },
            }
        }),
{
    lemma_setup_members_differ();
    reveal_strlit("models/");
    reveal_strlit("responseModalities");
    reveal_strlit("thinkingConfig");
    reveal_strlit("name");
    reveal_strlit("description");
    reveal_strlit("parameters");
    assert("models/"@.len() == 7);
    assert("responseModalities"@.len() == 18 && "thinkingConfig"@.len() == 14);
    assert("name"@.len() == 4 && "description"@.len() == 11 && "parameters"@.len() == 10);
}

/// Audio is sent as the base64 text of its bytes, with its kind and sample rate.
pub proof fn law_audio_messages_hold_the_audio(samples: Seq<i16>, sample_rate: u32)
    ensures
        ({
            let audio = member_of(
                audio_message(samples, sample_rate).member("realtimeInput"@),
                "audio"@,
            );
            &&& member_of(audio, "data"@) == Some(JsonView::Text(base64_text(pcm_bytes(samples))))
            &&& member_of(audio, "mimeType"@) matches Some(JsonView::Text(kind))
            &&& "audio/pcm;rate="@.is_prefix_of(kind)
            &&& spelled(kind.skip(15)) == sample_rate
        }),
{
    reveal_strlit("data");
    reveal_strlit("mimeType");
    reveal_strlit("audio/pcm;rate=");
    assert("data"@.len() == 4 && "mimeType"@.len() == 8 && "audio/pcm;rate="@.len() == 15);
    let rate = decimal(sample_rate as nat);
    let kind = "audio/pcm;rate="@ + rate;
    assert(kind.subrange(0, 15) == "audio/pcm;rate="@);
    assert(kind.skip(15) == rate);
    law_decimal_spells_the_number(sample_rate as nat, 0);
}

/// A sample of 16 bits is found again from its bytes as its two's complement.
pub proof fn law_samples_are_found_again(sample: i16)
    ensures
        0 <= sample_word(sample) < 65536,
        sample >= 0 ==> sample_word(sample) == sample,
        sample < 0 ==> sample_word(sample) - 65536 == sample,
{
}

/// Each call is answered by its id and its name, with its response, in order.
pub proof fn law_answers_name_their_calls(responses: Seq<FunctionResponse>, i: int)
    requires
        0 <= i < responses.len(),
    ensures
        ({
            let listed = member_of(
                tool_response_message(responses).member("toolResponse"@),
                "functionResponses"@,
            );
            &&& listed matches Some(JsonView::Array(answers))
            &&& answers.len() == responses.len()
            &&& answers[i].member("id"@) == Some(JsonView::Text(responses[i].id@))
            &&& answers[i].member("name"@) == Some(JsonView::Text(responses[i].name@))
            &&& answers[i].member("response"@) == Some(responses[i].response@)
        }),
{
    reveal_strlit("id");
    reveal_strlit("name");
    reveal_strlit("response");
    assert("id"@.len() == 2 && "name"@.len() == 4 && "response"@.len() == 8);
}

/// The words for a close frame name its code, and end in its reason where it gives one.
pub proof fn law_close_frames_are_named(frame: CloseInfo)
    ensures
        ("code "@ + decimal(frame.code as nat)).is_prefix_of(close_text(Some(frame))),
        frame.reason@.is_suffix_of(close_text(Some(frame))),
{
    let text = close_text(Some(frame));
    let code = "code "@ + decimal(frame.code as nat);
    let reason = frame.reason@;
    assert(text.subrange(0, code.len() as int) == code);
    assert(text.subrange(text.len() - reason.len(), text.len() as int) == reason);
}

/// The words for an error of a server message end in what the service said.
pub proof fn law_service_errors_are_named(message: Seq<char>)
    ensures
        message.is_suffix_of(server_error_text(ServerErrorView::Service(message))),
        server_error_text(ServerErrorView::MissingCallId) != server_error_text(
            ServerErrorView::MissingCallName,
        ),
{
    reveal_strlit("tool call missing id");
    reveal_strlit("tool call missing name");
    assert("tool call missing id"@.len() == 20 && "tool call missing name"@.len() == 22);
    let text = server_error_text(ServerErrorView::Service(message));
    assert(text.subrange(text.len() - message.len(), text.len() as int) == message);
}

/// Every event of a received text comes out, one after the other, behind the events that waited:
/// none is lost, doubled or reordered. A text that is no JSON, or reports an error, gives that
/// error, and what waited goes on waiting.
pub proof fn law_received_events_come_out_in_order(
    received: Received,
    before: Seq<EventView>,
    after: Seq<EventView>,
    text: Seq<char>,
)
    requires
        received_as_text(received, before, after, text),
    ensures
        received.log matches InboundLog::Text(logged) && logged@ == text,
        match read_json(text) {
            Err(error) => {
                &&& after == before
                &&& received.outcome matches Err(ReceiveError::NotJson(kept)) && kept@ == error
            },
            Ok(value) => match message_events(value) {
                Err(error) => {
                    &&& after == before
                    &&& received.outcome matches Err(ReceiveError::Message(kept)) && kept@ == error
                },
                Ok(events) => {
                    &&& received.outcome matches Ok(next)
                    &&& next is Some <==> events.len() > 0
                    &&& next matches Some(event) ==> seq![event@] + after == before + events
                    &&& next is None ==> after == before
                },
            },
        },
{
}

/// A message says one thing beside its usage, but for server content: the one event of it is the
/// last, and what comes before it is a report of usage. A message of no known kind, a tool call
/// without calls and a cancellation without ids say nothing.
pub proof fn law_messages_say_one_thing(value: JsonView)
    requires
        message_events(value) is Ok,
    ensures
        ({
            let events = message_events(value)->Ok_0;
            let session = value.member("setupComplete"@) is Some || value.member("goAway"@) is Some
                || value.member("sessionResumptionUpdate"@) is Some;
            let tool = value.member("toolCall"@) is Some;
            let cancelled = value.member("toolCallCancellation"@) is Some;
            let content = value.member("serverContent"@) is Some;
            &&& session || tool || cancelled || !content ==> events.len() <= 2 && forall|i: int|
                0 <= i < events.len() - 1 ==> (#[trigger] events[i]) is UsageMetadata
            &&& !session && !tool && !cancelled && !content ==> forall|i: int|
                0 <= i < events.len() ==> (#[trigger] events[i]) is UsageMetadata
            &&& !session && tool ==> (member_of(
                value.member("toolCall"@),
                "functionCalls"@,
            ) matches Some(JsonView::Array(calls)) && calls.len() > 0) || forall|i: int|
                0 <= i < events.len() ==> (#[trigger] events[i]) is UsageMetadata
            &&& !session && !tool && cancelled ==> (member_of(
                value.member("toolCallCancellation"@),
                "ids"@,
            ) matches Some(JsonView::Array(ids)) && texts_among(ids).len() > 0) || forall|i: int|
                0 <= i < events.len() ==> (#[trigger] events[i]) is UsageMetadata
        }),
{
    let reported = usage_events(value.member("usageMetadata"@));
    let main = main_events(value)->Ok_0;
    let events = message_events(value)->Ok_0;
    assert(events == reported + main);
    assert forall|i: int| 0 <= i < reported.len() implies (#[trigger] events[i])
        is UsageMetadata by {
        assert(events[i] == reported[i]);
    }
    if let Some(JsonView::Array(items)) = member_of(
        value.member("toolCall"@),
        "functionCalls"@,
    ) {
        lemma_calls_are_read(items);
    }
}

proof fn lemma_first_malformed_call(items: Seq<JsonView>, at: int)
    requires
        0 <= at < items.len(),
        forall|j: int| 0 <= j < at ==> is_call(#[trigger] items[j]),
        !is_call(items[at]),
    ensures
        call_requests(items) == Err::<Seq<CallView>, ServerErrorView>(
            call_request(items[at])->Err_0,
        ),
        call_request(items[at]) is Err,
    decreases items.len(),
{
    let before = items.drop_last();
    if at == items.len() - 1 {
        lemma_calls_are_read(before);
        assert forall|j: int| 0 <= j < before.len() implies is_call(#[trigger] before[j]) by {
            assert(before[j] == items[j]);
        }
    } else {
        assert forall|j: int| 0 <= j < at implies is_call(#[trigger] before[j]) by {
            assert(before[j] == items[j]);
        }
        assert(before[at] == items[at]);
        lemma_first_malformed_call(before, at);
    }
}

/// Of malformed calls the first is reported: that it has no id, or that it has no name.
pub proof fn law_first_malformed_call_is_reported(value: JsonView, items: Seq<JsonView>, at: int)
    requires
        value.member("error"@) is None,
        value.member("setupComplete"@) is None,
        value.member("goAway"@) is None,
        value.member("sessionResumptionUpdate"@) is None,
        member_of(value.member("toolCall"@), "functionCalls"@) == Some(JsonView::Array(items)),
        0 <= at < items.len(),
        forall|j: int| 0 <= j < at ==> is_call(#[trigger] items[j]),
        !is_call(items[at]),
    ensures
        message_events(value) matches Err(error) && {
            let has_id = items[at].member("id"@) matches Some(JsonView::Text(id)) && id.len() > 0;
            &&& !has_id ==> error is MissingCallId
            &&& has_id ==> error is MissingCallName
        },
{
    lemma_first_malformed_call(items, at);
}

/// An error that neither has a message nor is a text is an unknown one.
pub proof fn law_unknown_errors_are_called_so(value: JsonView, error: JsonView)
    requires
        value.member("error"@) == Some(error),
        !(error.member("message"@) matches Some(JsonView::Text(_))),
        !(error is Text),
    ensures
        message_events(value) == Err::<Seq<EventView>, ServerErrorView>(
            ServerErrorView::Service("unknown Gemini Live error"@),
        ),
{
}

/// The text of a message is taken as it stands, and of bytes as they read; other messages have
/// none.
pub proof fn law_messages_are_read_as_text(message: WireMessage)
    ensures
        message matches WireMessage::Text(text) ==> wire_text(message) == Some(text@),
        message matches WireMessage::Binary(bytes) ==> wire_text(message) == Some(
            lossy_text(bytes@),
        ),
        !(message is Text) && !(message is Binary) ==> wire_text(message) is None,
{
}

/// The value of a base64 digit.
pub open spec fn base64_value(digit: char) -> int {
    let code = digit as int;
    if 65 <= code <= 90 {
        code - 65
    } else if 97 <= code <= 122 {
        code - 97 + 26
    } else if 48 <= code <= 57 {
        code - 48 + 52
    } else if digit == '+' {
        62
    } else {
        63
    }
}

/// The bytes are found again in their base64 text: each three of them in four digits, which come
/// to a multiple of four.
pub proof fn law_base64_holds_the_bytes(bytes: Seq<u8>, i: int)
    requires
        0 <= i,
        3 * i + 2 < bytes.len(),
    ensures
        base64_text(bytes).len() % 4 == 0,
        4 * i + 3 < base64_text(bytes).len(),
        ({
            let text = base64_text(bytes);
            let a = base64_value(text[4 * i]);
            let b = base64_value(text[4 * i + 1]);
            let c = base64_value(text[4 * i + 2]);
            let d = base64_value(text[4 * i + 3]);
            &&& bytes[3 * i] == a * 4 + b / 16
            &&& bytes[3 * i + 1] == b % 16 * 16 + c / 4
            &&& bytes[3 * i + 2] == c % 4 * 64 + d
        }),
    decreases i,
{
    lemma_base64_length(bytes);
    let text = base64_text(bytes);
    let rest = bytes.skip(3);
    if i > 0 {
        law_base64_holds_the_bytes(rest, i - 1);
        assert(rest[3 * (i - 1)] == bytes[3 * i]);
        assert(rest[3 * (i - 1) + 1] == bytes[3 * i + 1]);
        assert(rest[3 * (i - 1) + 2] == bytes[3 * i + 2]);
        let behind = base64_text(rest);
        assert(text[4 * i] == behind[4 * (i - 1)]);
        assert(text[4 * i + 1] == behind[4 * (i - 1) + 1]);
        assert(text[4 * i + 2] == behind[4 * (i - 1) + 2]);
        assert(text[4 * i + 3] == behind[4 * (i - 1) + 3]);
    } else {
        let first = bytes[0] as int;
        let second = bytes[1] as int;
        let third = bytes[2] as int;
        lemma_base64_digit(first / 4);
        lemma_base64_digit(first % 4 * 16 + second / 16);
        lemma_base64_digit(second % 16 * 4 + third / 64);
        lemma_base64_digit(third % 64);
    }
}

proof fn lemma_base64_digit(value: int)
    requires
        0 <= value < 64,
    ensures
        base64_value(base64_digit(value)) == value,
{
}

proof fn lemma_base64_length(bytes: Seq<u8>)
    ensures
        base64_text(bytes).len() % 4 == 0,
    decreases bytes.len(),
{
    if bytes.len() > 2 {
        lemma_base64_length(bytes.skip(3));
    }
}

proof fn lemma_base64_rest(bytes: Seq<u8>, n: int)
    requires
        0 <= n,
        3 * n <= bytes.len() < 3 * n + 3,
    ensures
        ({
            let text = base64_text(bytes);
            let rest = bytes.skip(3 * n);
            &&& text.len() == 4 * n + base64_text(rest).len()
            &&& text.skip(4 * n) == base64_text(rest)
        }),
    decreases n,
{
    let text = base64_text(bytes);
    if n == 0 {
        assert(bytes.skip(0) == bytes);
        assert(text.skip(0) == text);
    } else {
        let shorter = bytes.skip(3);
        lemma_base64_rest(shorter, n - 1);
        assert(shorter.skip(3 * (n - 1)) == bytes.skip(3 * n));
        assert(text.skip(4 * n) == base64_text(shorter).skip(4 * (n - 1)));
    }
}

/// What full groups of three bytes leave over is found again in the last four digits, which are
/// padded with `=`; nothing follows where nothing is left over.
pub proof fn law_base64_pads_what_is_left_over(bytes: Seq<u8>, n: int)
    requires
        0 <= n,
        3 * n <= bytes.len() < 3 * n + 3,
    ensures
        ({
            let text = base64_text(bytes);
            let a = base64_value(text[4 * n]);
            let b = base64_value(text[4 * n + 1]);
            let c = base64_value(text[4 * n + 2]);
            &&& bytes.len() == 3 * n ==> text.len() == 4 * n
            &&& bytes.len() == 3 * n + 1 ==> {
                &&& text.len() == 4 * n + 4
                &&& bytes[3 * n] == a * 4 + b / 16
                &&& text[4 * n + 2] == '='
                &&& text[4 * n + 3] == '='
            }
            &&& bytes.len() == 3 * n + 2 ==> {
                &&& text.len() == 4 * n + 4
                &&& bytes[3 * n] == a * 4 + b / 16
                &&& bytes[3 * n + 1] == b % 16 * 16 + c / 4
                &&& text[4 * n + 3] == '='
            }
        }),
{
    lemma_base64_rest(bytes, n);
    let text = base64_text(bytes);
    let rest = bytes.skip(3 * n);
    let tail = base64_text(rest);
    assert(tail == text.skip(4 * n));
    if rest.len() > 0 {
        let first = rest[0] as int;
        let second = if rest.len() > 1 {
            rest[1] as int
        } else {
            0
        };
        lemma_base64_digit(first / 4);
        lemma_base64_digit(first % 4 * 16 + second / 16);
        lemma_base64_digit(second % 16 * 4);
        assert(text[4 * n] == tail[0]);
        assert(text[4 * n + 1] == tail[1]);
        assert(text[4 * n + 2] == tail[2]);
        assert(text[4 * n + 3] == tail[3]);
    }
}

/// A message is read exactly where it gives events and not an error, and the events and the error
/// are those that it gives.
pub proof fn law_reading_gives_what_the_message_says(
    result: Result<Vec<TranscriptEvent>, ServerMessageError>,
    value: JsonView,
)
    requires
        reads_as(result, message_events(value)),
    ensures
        result is Ok <==> message_events(value) is Ok,
        result matches Ok(events) ==> message_events(value)->Ok_0.len() == events@.len()
            && forall|i: int|
            0 <= i < events@.len() ==> message_events(value)->Ok_0[i] == (#[trigger] events@[i])@,
        result matches Err(error) ==> message_events(value)->Err_0 == error@,
{
    if let Ok(events) = result {
        assert(event_views(events@).len() == events@.len());
        assert forall|i: int| 0 <= i < events@.len() implies message_events(value)->Ok_0[i] == (
        #[trigger] events@[i])@ by {
            assert(event_views(events@)[i] == events@[i]@);
        }
    }
}

/// Reading a message with server content gives the end of the turn exactly where the content says
/// so, and the end of the generation exactly where it says that, whatever else it says; and the
/// transcription exactly where it has one that is not empty.
pub proof fn law_ends_are_read_from_content(
    value: &Json,
    content: JsonView,
    result: Result<Vec<TranscriptEvent>, ServerMessageError>,
)
    requires
        carries_content(value@, content),
        call_ensures(parse_server_message_events, (value,), result),
    ensures
        result matches Ok(events) && {
            let said = event_views(events@);
            &&& said.contains(EventView::TurnComplete) <==> content.member("turnComplete"@) == Some(
                JsonView::Bool(true),
            )
            &&& said.contains(EventView::GenerationComplete) <==> content.member(
                "generationComplete"@,
            ) == Some(JsonView::Bool(true))
            &&& forall|text: Seq<char>| #[trigger]
                said.contains(EventView::InputTranscription(text)) <==> text.len() > 0 && member_of(
                    content.member("inputTranscription"@),
                    "text"@,
                ) == Some(JsonView::Text(text))
        },
{
    law_content_is_read_whole(value@, content);
}

/// The setup message that is built, and the one with which a connection is opened, carry the
/// instruction exactly where the config has one, as its only part, in every mode.
pub proof fn law_built_setups_carry_the_instruction(
    config: &Config,
    message: Json,
    opening: Opening,
)
    ensures
        call_ensures(build_setup_message, (config,), message) ==> {
            let sent = member_of(message@.member("setup"@), "systemInstruction"@);
            &&& sent is Some <==> config.system_instruction is Some
            &&& config.system_instruction matches Some(instruction) ==> {
                &&& member_of(sent, "parts"@) matches Some(JsonView::Array(parts))
                &&& parts.len() == 1
                &&& parts[0].member("text"@) == Some(JsonView::Text(instruction@))
            }
        },
        call_ensures(connect, (config,), opening) ==> {
            let setup = opening.setup.message@.member("setup"@);
            let sent = member_of(setup, "systemInstruction"@);
            &&& sent is Some <==> config.system_instruction is Some
            &&& config.system_instruction matches Some(instruction) ==> {
                &&& member_of(sent, "parts"@) matches Some(JsonView::Array(parts))
                &&& parts.len() == 1
                &&& parts[0].member("text"@) == Some(JsonView::Text(instruction@))
            }
            &&& member_of(setup, "model"@) == Some(JsonView::Text(model_path(config.model@)))
            &&& config.api_key@.is_suffix_of(opening.url@)
            &&& WS_URL@.is_prefix_of(opening.url@)
            &&& opening.sender.sample_rate == config.sample_rate
            &&& opening.receiver@.len() == 0
        },
{
    law_instructions_are_sent(*config);
    law_setup_opens_the_session(*config);
    if call_ensures(connect, (config,), opening) {
        let url = opening.url@;
        let key = config.api_key@;
        assert(url.subrange(url.len() - key.len(), url.len() as int) == key);
    }
}

/// What a client sends says what it is for: audio with its samples, where there are any, text as
/// it stands, the marks that speech begins and ends, the end of the audio, and the answers to
/// calls, where there are any.
pub proof fn law_sent_messages_say_what_they_are_for(
    sender: &AudioSender,
    samples: &Vec<i16>,
    text: &str,
    responses: &Vec<FunctionResponse>,
    sent: Outbound,
    maybe: Option<Outbound>,
)
    ensures
        call_ensures(AudioSender::send_audio, (sender, samples), maybe) ==> {
            &&& maybe is Some <==> samples@.len() > 0
            &&& maybe matches Some(message) ==> member_of(
                member_of(message.message@.member("realtimeInput"@), "audio"@),
                "data"@,
            ) == Some(JsonView::Text(base64_text(pcm_bytes(samples@))))
        },
        call_ensures(AudioSender::send_realtime_text, (sender, text), sent) ==> member_of(
            sent.message@.member("realtimeInput"@),
            "text"@,
        ) == Some(JsonView::Text(text@)),
        call_ensures(AudioSender::send_activity_start, (sender,), sent) ==> member_of(
            sent.message@.member("realtimeInput"@),
            "activityStart"@,
        ) is Some,
        call_ensures(AudioSender::send_activity_end, (sender,), sent) ==> member_of(
            sent.message@.member("realtimeInput"@),
            "activityEnd"@,
        ) is Some,
        call_ensures(AudioSender::end_audio, (sender,), sent) ==> member_of(
            sent.message@.member("realtimeInput"@),
            "audioStreamEnd"@,
        ) == Some(JsonView::Bool(true)),
        call_ensures(AudioSender::send_tool_response, (sender, responses), maybe) ==> {
            &&& maybe is Some <==> responses@.len() > 0
            &&& maybe matches Some(message) ==> (member_of(
                message.message@.member("toolResponse"@),
                "functionResponses"@,
            ) matches Some(JsonView::Array(answers)) && answers.len() == responses@.len())
        },
{
    law_audio_messages_hold_the_audio(samples@, sender.sample_rate);
    if responses@.len() > 0 {
        law_answers_name_their_calls(responses@, 0);
    }
}

/// The events of a message come out in order, behind those that wait: the next one waits no
/// longer, and the rest goes on waiting. A connection that is closed is an event of its own.
pub proof fn law_events_are_received_in_order(
    receiver: &mut TranscriptReceiver,
    message: WireMessage,
    received: Received,
    next: Option<TranscriptEvent>,
)
    ensures
        call_ensures(TranscriptReceiver::next_pending, (receiver,), next) ==> {
            &&& next is Some <==> old(receiver)@.len() > 0
            &&& next matches Some(event) ==> event@ == old(receiver)@[0] && final(receiver)@
                == old(receiver)@.drop_first()
            &&& next is None ==> final(receiver)@ == old(receiver)@
        },
        call_ensures(TranscriptReceiver::receive, (receiver, message), received) ==> {
            &&& message matches WireMessage::Close(frame) ==> final(receiver)@ == old(receiver)@
                && (received.outcome matches Ok(Some(TranscriptEvent::ConnectionClosed(reason)))
                && reason@ == close_text(frame))
            &&& message is Other ==> final(receiver)@ == old(receiver)@ && (
            received.outcome matches Ok(None))
            &&& message matches WireMessage::Text(text) ==> (read_json(text@) matches Ok(value)
                ==> (message_events(value) matches Ok(events) ==> (
            received.outcome matches Ok(event) && (event is Some <==> events.len() > 0) && (
            event matches Some(first) ==> seq![first@] + final(receiver)@ == old(receiver)@
                + events))))
        },
{
    if call_ensures(TranscriptReceiver::next_pending, (receiver,), next) {
        if let Some(event) = next {
            let rest = final(receiver)@;
            assert((seq![event@] + rest).drop_first() == rest);
            assert((seq![event@] + rest)[0] == event@);
        }
    }
}

} // verus!
