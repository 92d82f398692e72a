//! What the workers of a source share: opening sessions, waiting between attempts, shutting
//! down, and the metrics of the queue between them.

use vstd::prelude::*;
use vstd::string::*;

use crate::capture::SourceKind;
use crate::json::Json;
use crate::seconds::Seconds;
use crate::transcriber::{Config, SessionMode, TranscriptEvent, UsageMetadata};
use crate::ui::{AppEvent, UsageSnapshot};

verus! {

use crate::capture::source_title;
use crate::json::JsonView;
use crate::seconds::{law_seconds_are_singles, lemma_exact_sum_is_undone, lemma_parts};
use crate::text::{view_opt, view_opt_str};

/// How long a session may take to be set up, in milliseconds.
pub const TRANSCRIBER_SETUP_TIMEOUT_MS: u64 = 15_000;

/// The wait before the second attempt to connect, in milliseconds.
pub const RECONNECT_BACKOFF_BASE_MS: u64 = 500;

/// The longest wait between attempts to connect, in milliseconds.
pub const RECONNECT_BACKOFF_MAX_MS: u64 = 5_000;

/// Nanoseconds in a millisecond.
pub const NANOS_PER_MILLI: u64 = 1_000_000;

/// One entry of a worker's log.
#[derive(Debug)]
pub struct LifecycleEntry {
    pub event: &'static str,
    pub details: Json,
}

/// What an entry says.
pub struct LifecycleView {
    pub event: Seq<char>,
    pub details: JsonView,
}

impl LifecycleEntry {
    pub open spec fn view(self) -> LifecycleView {
        LifecycleView { event: self.event@, details: self.details@ }
    }
}

/// What a worker's step shows on screen and writes to its log, each in order.
#[derive(Debug)]
pub struct Effects {
    pub ui: Vec<AppEvent>,
    pub log: Vec<LifecycleEntry>,
}

/// What effects say.
#[verifier::ext_equal]
pub struct EffectsView {
    pub ui: Seq<AppEvent<Seq<char>>>,
    pub log: Seq<LifecycleView>,
}

impl Effects {
    pub open spec fn view(self) -> EffectsView {
        EffectsView {
            ui: self.ui@.map_values(|event: AppEvent| event@),
            log: self.log@.map_values(|entry: LifecycleEntry| entry@),
        }
    }

    /// No effects.
    pub fn none() -> (effects: Self)
        ensures
            effects@ == no_effects(),
    {
        let effects = Effects { ui: Vec::new(), log: Vec::new() };
        assert(effects@ == no_effects());
        effects
    }

    /// The effects, and one more event on screen.
    pub fn show(self, event: AppEvent) -> (effects: Self)
        ensures
            effects@ == self@.show(event@),
    {
        let mut ui: Vec<AppEvent> = self.ui;
        ui.push(event);
        let effects = Effects { ui, log: self.log };
        assert(effects@ == self@.show(event@));
        effects
    }

    /// The effects, and one more entry in the log.
    pub fn note(self, event: &'static str, details: Json) -> (effects: Self)
        ensures
            effects@ == self@.note(event@, details@),
    {
        let mut log: Vec<LifecycleEntry> = self.log;
        let entry = LifecycleEntry { event, details };
        log.push(entry);
        let effects = Effects { ui: self.ui, log };
        assert(effects@ == self@.note(event@, details@));
        effects
    }
}

/// No effects.
pub open spec fn no_effects() -> EffectsView {
    EffectsView { ui: Seq::empty(), log: Seq::empty() }
}

impl EffectsView {
    /// The effects, and one more event on screen.
    pub open spec fn show(self, event: AppEvent<Seq<char>>) -> EffectsView {
        EffectsView { ui: self.ui.push(event), log: self.log }
    }

    /// The effects, and one more entry in the log.
    pub open spec fn note(self, event: Seq<char>, details: JsonView) -> EffectsView {
        EffectsView { ui: self.ui, log: self.log.push(LifecycleView { event, details }) }
    }
}

/// The state of a connection that is about to be opened.
pub open spec fn status_label(has_connected_once: bool, has_handle: bool) -> Seq<char> {
    if !has_connected_once {
        "connecting"@
    } else if has_handle {
        "resuming"@
    } else {
        "reconnecting"@
    }
}

/// The state of a connection that is about to be opened.
pub fn connection_status_label(has_connected_once: bool, resume_handle: Option<&str>) -> (label:
    &'static str)
    ensures
        label@ == status_label(has_connected_once, resume_handle is Some),
{
    if !has_connected_once {
        "connecting"
    } else if resume_handle.is_some() {
        "resuming"
    } else {
        "reconnecting"
    }
}

/// What is said of a connection that is opened again.
pub open spec fn reconnect_text(
    source: SourceKind,
    stream_label: Seq<char>,
    has_connected_once: bool,
    has_handle: bool,
) -> Option<Seq<char>> {
    if !has_connected_once {
        None
    } else if has_handle {
        Some(source_title(source) + " "@ + stream_label + " resuming existing Live session"@)
    } else {
        Some(
            source_title(source) + " "@ + stream_label
                + " reconnecting without a resumable handle; session context will restart"@,
        )
    }
}

/// What is said of a connection that is opened again.
pub fn reconnect_notice(
    source: SourceKind,
    stream_label: &str,
    has_connected_once: bool,
    resume_handle: Option<&str>,
) -> (notice: Option<String>)
    ensures
        view_opt(notice) == reconnect_text(
            source,
            stream_label@,
            has_connected_once,
            resume_handle is Some,
        ),
{
    if !has_connected_once {
        return None;
    }
    let subject = source.title().to_owned().concat(" ").concat(stream_label);
    if resume_handle.is_some() {
        Some(subject.concat(" resuming existing Live session"))
    } else {
        Some(
            subject.concat(
                " reconnecting without a resumable handle; session context will restart",
            ),
        )
    }
}

/// Two to the power `n`.
pub open spec fn power_of_two(n: nat) -> nat
    decreases n,
{
    if n == 0 {
        1
    } else {
        2 * power_of_two((n - 1) as nat)
    }
}

/// The wait before an attempt to connect, in milliseconds: it doubles with each attempt, up to
/// the fourth doubling and the longest wait.
pub open spec fn backoff_ms(attempt: u32) -> nat {
    let doublings = if attempt == 0 {
        0
    } else if attempt > 5 {
        4
    } else {
        (attempt - 1) as nat
    };
    let wait = RECONNECT_BACKOFF_BASE_MS as nat * power_of_two(doublings);
    if wait > RECONNECT_BACKOFF_MAX_MS {
        RECONNECT_BACKOFF_MAX_MS as nat
    } else {
        wait
    }
}

/// The wait before an attempt to connect, in milliseconds.
pub fn reconnect_backoff(attempt: u32) -> (wait_ms: u64)
    ensures
        wait_ms == backoff_ms(attempt),
{
    proof {
        reveal_with_fuel(power_of_two, 5);
    }
    let multiplier: u64 = if attempt <= 1 {
        1
    } else if attempt == 2 {
        2
    } else if attempt == 3 {
        4
    } else if attempt == 4 {
        8
    } else {
        16
    };
    let wait: u64 = RECONNECT_BACKOFF_BASE_MS * multiplier;
    if wait > RECONNECT_BACKOFF_MAX_MS {
        RECONNECT_BACKOFF_MAX_MS
    } else {
        wait
    }
}

/// The wait never shrinks from one attempt to the next, and stays within its bounds.
pub proof fn law_backoff_grows_within_bounds(attempt: u32)
    ensures
        RECONNECT_BACKOFF_BASE_MS <= backoff_ms(attempt) <= RECONNECT_BACKOFF_MAX_MS,
        attempt < u32::MAX ==> backoff_ms(attempt) <= backoff_ms((attempt + 1) as u32),
        attempt >= 5 ==> backoff_ms(attempt) == RECONNECT_BACKOFF_MAX_MS,
{
    reveal_with_fuel(power_of_two, 5);
}

/// The token counts of a report as the screen shows them.
pub open spec fn snapshot_of(metadata: UsageMetadata) -> UsageSnapshot {
    UsageSnapshot {
        prompt_token_count: metadata.prompt_token_count,
        cached_content_token_count: metadata.cached_content_token_count,
        response_token_count: metadata.response_token_count,
        tool_use_prompt_token_count: metadata.tool_use_prompt_token_count,
        thoughts_token_count: metadata.thoughts_token_count,
        total_token_count: metadata.total_token_count,
    }
}

/// The token counts of a report as the screen shows them.
pub fn usage_snapshot_from_metadata(metadata: &UsageMetadata) -> (snapshot: UsageSnapshot)
    ensures
        snapshot == snapshot_of(*metadata),
{
    UsageSnapshot {
        prompt_token_count: metadata.prompt_token_count,
        cached_content_token_count: metadata.cached_content_token_count,
        response_token_count: metadata.response_token_count,
        tool_use_prompt_token_count: metadata.tool_use_prompt_token_count,
        thoughts_token_count: metadata.thoughts_token_count,
        total_token_count: metadata.total_token_count,
    }
}

/// Whether a worker was told to stop, and how long it may still take.
#[derive(Debug, Clone, Copy, PartialEq, Eq, Structural)]
pub struct Shutdown {
    pub requested: bool,
    pub deadline: Option<i128>,
}

/// The shutdown after a request at `now`: a deadline once set stays.
pub open spec fn shutdown_after(shutdown: Shutdown, now: i64, grace_ms: u64) -> Shutdown {
    Shutdown {
        requested: true,
        deadline: match shutdown.deadline {
            Some(deadline) => Some(deadline),
            None => Some((now + grace_ms * NANOS_PER_MILLI) as i128),
        },
    }
}

impl Shutdown {
    /// No request yet.
    pub fn none() -> (shutdown: Self)
        ensures
            shutdown == (Shutdown { requested: false, deadline: None }),
    {
        Shutdown { requested: false, deadline: None }
    }

    /// Takes a request at `now`, to be met within `grace_ms` milliseconds.
    pub fn request_shutdown(&mut self, now: i64, grace_ms: u64)
        ensures
            *final(self) == shutdown_after(*old(self), now, grace_ms),
    {
        self.requested = true;
        if self.deadline.is_none() {
            self.deadline = Some(now as i128 + grace_ms as i128 * NANOS_PER_MILLI as i128);
        }
    }

    /// Whether the deadline, where there is one, has come at `now`.
    pub fn is_overdue(&self, now: i64) -> (overdue: bool)
        ensures
            overdue == (self.deadline matches Some(deadline) && now >= deadline),
    {
        match self.deadline {
            Some(deadline) => now as i128 >= deadline,
            None => false,
        }
    }
}

/// However often a shutdown is requested, the first request sets the deadline.
pub proof fn law_first_request_sets_the_deadline(
    shutdown: Shutdown,
    first: i64,
    second: i64,
    grace_ms: u64,
)
    ensures
        shutdown_after(shutdown_after(shutdown, first, grace_ms), second, grace_ms)
            == shutdown_after(shutdown, first, grace_ms),
{
}

/// An optional text, read.
pub fn text_opt(text: &Option<String>) -> (slice: Option<&str>)
    ensures
        view_opt_str(slice) == view_opt(*text),
        slice is Some == text is Some,
{
    match text {
        Some(text) => Some(text.as_str()),
        None => None,
    }
}

/// The details of a resumption update in the log.
pub open spec fn resumption_details(resumable: bool, handle_present: bool) -> JsonView {
    JsonView::Object(
        map![
            "resumable"@ => JsonView::Bool(resumable),
            "handle_present"@ => JsonView::Bool(handle_present),
        ],
    )
}

/// The handle after an update: replaced only where the session is resumable and a new handle
/// came with the update.
pub open spec fn handle_after(
    handle: Option<Seq<char>>,
    new_handle: Option<Seq<char>>,
    resumable: bool,
) -> Option<Seq<char>> {
    if resumable && new_handle is Some {
        new_handle
    } else {
        handle
    }
}

/// Takes a resumption update into account; the effects that came before are kept.
pub fn handle_session_resumption_update(
    effects: Effects,
    resume_handle: &mut Option<String>,
    new_handle: Option<String>,
    resumable: bool,
) -> (result: Effects)
    ensures
        view_opt(*final(resume_handle)) == handle_after(
            view_opt(*old(resume_handle)),
            view_opt(new_handle),
            resumable,
        ),
        result@ == effects@.note(
            "session_resumption_update"@,
            resumption_details(resumable, resumable && new_handle is Some),
        ),
{
    let mut handle_present = false;
    if resumable {
        if let Some(handle) = new_handle {
            *resume_handle = Some(handle);
            handle_present = true;
        }
    }
    effects.note(
        "session_resumption_update",
        Json::object().with("resumable", Json::flag(resumable)).with(
            "handle_present",
            Json::flag(handle_present),
        ),
    )
}

/// The session to open for a source: at the rate of the captured audio.
pub fn live_session_config(
    token: &str,
    model: &str,
    system_instruction: Option<&str>,
    resume_handle: Option<&str>,
    mode: SessionMode,
) -> (config: Config)
    ensures
        config.api_key@ == token@,
        config.model@ == model@,
        config.sample_rate == 16_000,
        view_opt(config.system_instruction) == view_opt_str(system_instruction),
        view_opt(config.session_handle) == view_opt_str(resume_handle),
        config.mode == mode,
{
    Config {
        api_key: token.to_owned(),
        model: model.to_owned(),
        sample_rate: 16_000,
        system_instruction: match system_instruction {
            Some(text) => Some(text.to_owned()),
            None => None,
        },
        session_handle: match resume_handle {
            Some(text) => Some(text.to_owned()),
            None => None,
        },
        mode,
    }
}

/// What is said of a failure to connect.
pub fn connect_failure_context(source: SourceKind) -> (text: String)
    ensures
        text@ == "connect transcriber for "@ + source_title(source),
{
    "connect transcriber for ".to_owned().concat(source.title())
}

/// How far the setup of a session has come.
#[derive(Debug)]
pub enum SetupStep {
    /// More events are to be awaited.
    Wait,
    /// The session is set up.
    Ready,
    /// The session cannot be set up.
    Failed(String),
}

/// The details of a notice that the connection will be closed, in the log.
pub open spec fn go_away_details(time_left: Seq<char>) -> JsonView {
    JsonView::Object(map!["time_left"@ => JsonView::Text(time_left)])
}

/// Handles an event that came before the session was set up; `None` where the connection ended.
pub fn handle_setup_event(
    source: SourceKind,
    resume_handle: &mut Option<String>,
    event: Option<TranscriptEvent>,
) -> (result: (SetupStep, Effects))
    ensures
        view_opt(*final(resume_handle)) == match event {
            Some(TranscriptEvent::SessionResumptionUpdate { new_handle, resumable }) =>
                handle_after(view_opt(*old(resume_handle)), view_opt(new_handle), resumable),
            _ => view_opt(*old(resume_handle)),
        },
        result.0 is Ready <==> event matches Some(TranscriptEvent::SetupComplete),
        match event {
            Some(TranscriptEvent::ConnectionClosed(reason)) => {
                &&& result.0 matches SetupStep::Failed(text)
                &&& text@ == "Gemini Live connection closed before setup completed: "@ + reason@
            },
            None => {
                &&& result.0 matches SetupStep::Failed(text)
                &&& text@ == "Gemini Live connection closed before setup completed"@
            },
            Some(_) => !(result.0 is Failed),
        },
        result.1@ == match event {
            Some(TranscriptEvent::SessionResumptionUpdate { new_handle, resumable }) =>
                no_effects().note(
                    "session_resumption_update"@,
                    resumption_details(resumable, resumable && new_handle is Some),
                ),
            Some(TranscriptEvent::GoAway { time_left }) => no_effects().show(
                AppEvent::Notice(
                    source_title(source) + " connection will renew in "@ + time_left@,
                ),
            ).note("go_away"@, go_away_details(time_left@)),
            _ => no_effects(),
        },
{
    match event {
        Some(TranscriptEvent::SetupComplete) => (SetupStep::Ready, Effects::none()),
        Some(TranscriptEvent::SessionResumptionUpdate { new_handle, resumable }) => {
            let effects = handle_session_resumption_update(
                Effects::none(),
                resume_handle,
                new_handle,
                resumable,
            );
            (SetupStep::Wait, effects)
        },
        Some(TranscriptEvent::GoAway { time_left }) => {
            let notice = source.title().to_owned().concat(" connection will renew in ").concat(
                time_left.as_str(),
            );
            let details = Json::object().with("time_left", Json::Text(time_left));
            (
                SetupStep::Wait,
                Effects::none().show(AppEvent::Notice(notice)).note("go_away", details),
            )
        },
        Some(TranscriptEvent::ConnectionClosed(reason)) => (
            SetupStep::Failed(
                "Gemini Live connection closed before setup completed: ".to_owned().concat(
                    reason.as_str(),
                ),
            ),
            Effects::none(),
        ),
        Some(_) => (SetupStep::Wait, Effects::none()),
        None => (
            SetupStep::Failed("Gemini Live connection closed before setup completed".to_owned()),
            Effects::none(),
        ),
    }
}

/// The turns that wait for their final text: how many, and how much audio they hold.
#[derive(Debug, Clone, Copy, PartialEq, Eq, Structural)]
pub struct QueueMetrics {
    pub queue_depth: usize,
    pub pending_audio_secs: Seconds,
}

/// The metrics with one more turn.
pub open spec fn metrics_with(metrics: QueueMetrics, audio: Seconds) -> QueueMetrics {
    QueueMetrics {
        queue_depth: if metrics.queue_depth == usize::MAX {
            usize::MAX
        } else {
            (metrics.queue_depth + 1) as usize
        },
        pending_audio_secs: metrics.pending_audio_secs.sum(audio),
    }
}

/// The metrics with one turn fewer.
pub open spec fn metrics_without(metrics: QueueMetrics, audio: Seconds) -> QueueMetrics {
    QueueMetrics {
        queue_depth: if metrics.queue_depth == 0 {
            0
        } else {
            (metrics.queue_depth - 1) as usize
        },
        pending_audio_secs: metrics.pending_audio_secs.difference(audio),
    }
}

/// The metrics as an event on screen.
pub open spec fn metrics_event(source: SourceKind, metrics: QueueMetrics) -> AppEvent<Seq<char>> {
    AppEvent::QueueMetrics {
        source,
        queue_depth: metrics.queue_depth,
        pending_audio_secs: metrics.pending_audio_secs,
    }
}

impl Default for QueueMetrics {
    fn default() -> (metrics: Self)
        ensures
            metrics == (QueueMetrics { queue_depth: 0, pending_audio_secs: Seconds { bits: 0 } }),
    {
        QueueMetrics { queue_depth: 0, pending_audio_secs: Seconds { bits: 0 } }
    }
}

impl QueueMetrics {
    /// The metrics as an event on screen.
    pub fn event(&self, source: SourceKind) -> (event: AppEvent)
        ensures
            event@ == metrics_event(source, *self),
    {
        AppEvent::QueueMetrics {
            source,
            queue_depth: self.queue_depth,
            pending_audio_secs: self.pending_audio_secs,
        }
    }

    /// Counts one more turn.
    pub fn increment_queue_metrics(&mut self, source: SourceKind, audio: Seconds) -> (event:
        AppEvent)
        ensures
            *final(self) == metrics_with(*old(self), audio),
            event@ == metrics_event(source, *final(self)),
    {
        self.queue_depth = self.queue_depth.saturating_add(1);
        self.pending_audio_secs = self.pending_audio_secs.plus(audio);
        self.event(source)
    }

    /// Counts one turn fewer.
    pub fn decrement_queue_metrics(&mut self, source: SourceKind, audio: Seconds) -> (event:
        AppEvent)
        ensures
            *final(self) == metrics_without(*old(self), audio),
            event@ == metrics_event(source, *final(self)),
    {
        self.queue_depth = self.queue_depth.saturating_sub(1);
        self.pending_audio_secs = self.pending_audio_secs.minus(audio);
        self.event(source)
    }
}

/// A turn that enters the queue and leaves it again leaves the metrics as they were, where the
/// sum of the waiting audio needs no rounding, as it does not where no audio waited. The depth is
/// as it was in any case.
pub proof fn law_metrics_are_restored(metrics: QueueMetrics, audio: Seconds)
    requires
        metrics.queue_depth < usize::MAX,
    ensures
        ({
            let waiting = metrics.pending_audio_secs;
            let sum = waiting.sum(audio);
            let after = metrics_without(metrics_with(metrics, audio), audio);
            &&& after.queue_depth == metrics.queue_depth
            &&& !sum.is_infinite() && sum.count() == waiting.count() + audio.count() ==> after
                == metrics
            &&& waiting.bits == 0 ==> after == metrics
        }),
{
    let waiting = metrics.pending_audio_secs;
    let sum = waiting.sum(audio);
    lemma_parts(waiting);
    if waiting.bits == 0 && !audio.is_infinite() {
        law_seconds_are_singles(audio);
    }
    if !sum.is_infinite() && sum.count() == waiting.count() + audio.count() {
        lemma_exact_sum_is_undone(waiting, audio);
    }
}

/// A turn of which the finalizer is to make a final text.
#[derive(Debug, Clone)]
pub struct PendingTurn<S> {
    pub turn_id: String,
    pub audio_samples: Vec<S>,
    pub audio_duration: u128,
    pub attempt_count: usize,
}

impl<S> PendingTurn<S> {
    /// The seconds of the turn's audio.
    pub fn audio_duration_secs(&self) -> (seconds: Seconds)
        ensures
            seconds == Seconds::of(self.audio_duration),
    {
        Seconds::of_nanos(self.audio_duration)
    }
}

/// The first two waits are of half a second, and each later one is twice the one before it, up to
/// five seconds.
pub proof fn law_waits_double(attempt: u32)
    ensures
        backoff_ms(0) == 500,
        backoff_ms(1) == 500,
        1 <= attempt < u32::MAX ==> backoff_ms((attempt + 1) as u32) == if 2 * backoff_ms(attempt)
            > 5_000 {
            5_000
        } else {
            2 * backoff_ms(attempt)
        },
{
    reveal_with_fuel(power_of_two, 6);
}

/// The first connection is said to connect, and nothing more is said of it. A later one is said
/// to resume exactly when there is a handle, and what is said of it names the source and the
/// stream.
pub proof fn law_reconnections_are_told_apart(
    source: SourceKind,
    stream_label: Seq<char>,
    has_connected_once: bool,
    has_handle: bool,
)
    ensures
        status_label(has_connected_once, has_handle) == "connecting"@ <==> !has_connected_once,
        status_label(has_connected_once, has_handle) == "resuming"@ <==> has_connected_once
            && has_handle,
        status_label(has_connected_once, has_handle) == "reconnecting"@ <==> has_connected_once
            && !has_handle,
        reconnect_text(source, stream_label, has_connected_once, has_handle) is Some
            <==> has_connected_once,
        reconnect_text(source, stream_label, has_connected_once, has_handle) matches Some(text)
            ==> (source_title(source) + " "@ + stream_label + " re"@).is_prefix_of(text) && (
        has_handle ==> " resuming existing Live session"@.is_suffix_of(text)) && (!has_handle
            ==> "; session context will restart"@.is_suffix_of(text)),
{
    reveal_strlit("connecting");
    reveal_strlit("resuming");
    reveal_strlit("reconnecting");
    assert("connecting"@.len() != "resuming"@.len());
    assert("connecting"@.len() != "reconnecting"@.len());
    assert("resuming"@.len() != "reconnecting"@.len());
    reveal_strlit(" re");
    let head = source_title(source) + " "@ + stream_label;
    if has_connected_once {
        if has_handle {
            reveal_strlit(" resuming existing Live session");
            let tail = " resuming existing Live session"@;
            assert(tail.take(3) == " re"@);
            assert((head + " re"@).is_prefix_of(head + tail)) by {
                assert((head + tail).take((head + " re"@).len() as int) == head + tail.take(3));
            }
            assert(tail.is_suffix_of(head + tail));
        } else {
            reveal_strlit(
                " reconnecting without a resumable handle; session context will restart",
            );
            reveal_strlit("; session context will restart");
            let tail = " reconnecting without a resumable handle; session context will restart"@;
            let end = "; session context will restart"@;
            assert(tail.take(3) == " re"@);
            assert((head + " re"@).is_prefix_of(head + tail)) by {
                assert((head + tail).take((head + " re"@).len() as int) == head + tail.take(3));
            }
            assert(tail.skip(tail.len() - end.len()) == end);
            assert(end.is_suffix_of(head + tail)) by {
                let whole = head + tail;
                assert(whole.subrange(whole.len() - end.len(), whole.len() as int) == tail.skip(
                    tail.len() - end.len(),
                ));
            }
        }
    }
}

/// A handle comes from the last update that offered one while the session was resumable; no other
/// update touches it.
pub proof fn law_handles_come_from_updates(
    handle: Option<Seq<char>>,
    offered: Seq<char>,
    new_handle: Option<Seq<char>>,
)
    ensures
        handle_after(handle, Some(offered), true) == Some(offered),
        handle_after(handle, new_handle, false) == handle,
        handle_after(handle, None, true) == handle,
{
}

/// What is logged of an update says whether the session is resumable and whether a handle was
/// taken; what is logged of a notice of renewal says the time that is left.
pub proof fn law_logged_details(resumable: bool, handle_present: bool, time_left: Seq<char>)
    ensures
        resumption_details(resumable, handle_present).member("resumable"@) == Some(
            JsonView::Bool(resumable),
        ),
        resumption_details(resumable, handle_present).member("handle_present"@) == Some(
            JsonView::Bool(handle_present),
        ),
        go_away_details(time_left).member("time_left"@) == Some(JsonView::Text(time_left)),
{
    reveal_strlit("resumable");
    reveal_strlit("handle_present");
    assert("resumable"@.len() != "handle_present"@.len());
}

/// A request is to be met within its grace, counted from the request; a worker that was asked to
/// stop stays so.
pub proof fn law_grace_begins_with_the_request(shutdown: Shutdown, now: i64, grace_ms: u64)
    ensures
        shutdown_after(shutdown, now, grace_ms).requested,
        shutdown.deadline is None ==> (shutdown_after(shutdown, now, grace_ms).deadline matches Some(
            deadline,
        ) && deadline - now == grace_ms * 1_000_000),
        shutdown.deadline is Some ==> shutdown_after(shutdown, now, grace_ms).deadline
            == shutdown.deadline,
{
}

/// Every count of a report is shown as it was reported.
pub proof fn law_counts_are_shown_as_reported(metadata: UsageMetadata)
    ensures
        snapshot_of(metadata).prompt_token_count == metadata.prompt_token_count,
        snapshot_of(metadata).cached_content_token_count == metadata.cached_content_token_count,
        snapshot_of(metadata).response_token_count == metadata.response_token_count,
        snapshot_of(metadata).tool_use_prompt_token_count == metadata.tool_use_prompt_token_count,
        snapshot_of(metadata).thoughts_token_count == metadata.thoughts_token_count,
        snapshot_of(metadata).total_token_count == metadata.total_token_count,
{
}

/// A turn that enters the queue makes it one deeper and adds its audio; one that leaves makes it
/// one shallower and takes its audio away; the depth stays within what can be counted. The screen
/// is told both.
pub proof fn law_queue_counts_its_turns(source: SourceKind, metrics: QueueMetrics, audio: Seconds)
    ensures
        metrics.queue_depth < usize::MAX ==> metrics_with(metrics, audio).queue_depth
            == metrics.queue_depth + 1,
        metrics.queue_depth == usize::MAX ==> metrics_with(metrics, audio).queue_depth
            == usize::MAX,
        metrics_with(metrics, audio).pending_audio_secs == metrics.pending_audio_secs.sum(audio),
        metrics.queue_depth > 0 ==> metrics_without(metrics, audio).queue_depth
            == metrics.queue_depth - 1,
        metrics.queue_depth == 0 ==> metrics_without(metrics, audio).queue_depth == 0,
        metrics_without(metrics, audio).pending_audio_secs == metrics.pending_audio_secs.difference(
            audio,
        ),
        metrics_event(source, metrics) matches AppEvent::QueueMetrics {
            source: shown_source,
            queue_depth,
            pending_audio_secs,
        } && shown_source == source && queue_depth == metrics.queue_depth && pending_audio_secs
            == metrics.pending_audio_secs,
{
}

/// Effects come in the order in which they are asked for: one more behind those there are, on
/// screen or in the log and not in the other.
pub proof fn law_effects_come_in_order(
    effects: EffectsView,
    shown: AppEvent<Seq<char>>,
    event: Seq<char>,
    details: JsonView,
)
    ensures
        effects.show(shown).ui == effects.ui.push(shown),
        effects.show(shown).log == effects.log,
        effects.note(event, details).ui == effects.ui,
        effects.note(event, details).log.len() == effects.log.len() + 1,
        effects.note(event, details).log.last().event == event,
        effects.note(event, details).log.last().details == details,
        effects.log.is_prefix_of(effects.note(event, details).log),
        no_effects().ui.len() == 0,
        no_effects().log.len() == 0,
{
}

/// The setup of a session waits for its completion: it is ready exactly when that comes, fails
/// exactly when the connection is closed or ends before, with the reason, and waits on otherwise.
/// A handle that is offered meanwhile is kept.
pub proof fn law_setup_waits_for_its_completion(
    source: SourceKind,
    resume_handle: &mut Option<String>,
    event: Option<TranscriptEvent>,
    result: (SetupStep, Effects),
)
    requires
        call_ensures(handle_setup_event, (source, resume_handle, event), result),
    ensures
        result.0 is Ready <==> event == Some(TranscriptEvent::SetupComplete),
        result.0 is Failed <==> (event is None || event->Some_0 is ConnectionClosed),
        event matches Some(TranscriptEvent::ConnectionClosed(reason)) ==> (
        result.0 matches SetupStep::Failed(text) && reason@.is_suffix_of(text@)),
        event matches Some(TranscriptEvent::SessionResumptionUpdate { new_handle, resumable })
            ==> {
            &&& resumable && new_handle is Some ==> view_opt(*final(resume_handle)) == view_opt(
                new_handle,
            )
            &&& !resumable || new_handle is None ==> view_opt(*final(resume_handle)) == view_opt(
                *old(resume_handle),
            )
        },
        !(event matches Some(TranscriptEvent::SessionResumptionUpdate { new_handle, resumable }))
            ==> view_opt(*final(resume_handle)) == view_opt(*old(resume_handle)),
        event matches Some(TranscriptEvent::GoAway { time_left }) ==> {
            &&& result.1@.ui.len() == 1
            &&& result.1@.ui[0] matches AppEvent::Notice(notice)
            &&& time_left@.is_suffix_of(notice)
        },
{
    if let Some(TranscriptEvent::ConnectionClosed(reason)) = event {
        if let SetupStep::Failed(text) = result.0 {
            assert(text@.subrange(text@.len() - reason@.len(), text@.len() as int) == reason@);
        }
    }
    if let Some(TranscriptEvent::GoAway { time_left }) = event {
        let notice = result.1@.ui[0]->Notice_0;
        assert(notice.subrange(notice.len() - time_left@.len(), notice.len() as int) == time_left@);
    }
}

/// A session is opened with the key, the model, the instruction and the handle that are given, in
/// the mode that is asked for, at the rate of the captured audio.
pub proof fn law_sessions_are_opened_as_asked(
    token: &str,
    model: &str,
    instruction: Option<&str>,
    handle: Option<&str>,
    mode: SessionMode,
    config: Config,
)
    requires
        call_ensures(live_session_config, (token, model, instruction, handle, mode), config),
    ensures
        config.api_key@ == token@,
        config.model@ == model@,
        config.sample_rate == 16_000,
        config.mode == mode,
        config.system_instruction is Some <==> instruction is Some,
        instruction matches Some(text) ==> config.system_instruction->Some_0@ == text@,
        config.session_handle is Some <==> handle is Some,
        handle matches Some(text) ==> config.session_handle->Some_0@ == text@,
{
}

/// A shutdown is overdue from its deadline on, and never where it has none.
pub proof fn law_shutdowns_are_overdue_from_their_deadline(
    shutdown: &Shutdown,
    now: i64,
    overdue: bool,
)
    requires
        call_ensures(Shutdown::is_overdue, (shutdown, now), overdue),
    ensures
        shutdown.deadline is None ==> !overdue,
        shutdown.deadline matches Some(deadline) ==> (overdue <==> deadline <= now),
{
}

/// A turn that is counted in and out again leaves the queue as deep as it was, and each time the
/// screen is told the depth.
pub proof fn law_counted_turns_are_told(
    metrics: &mut QueueMetrics,
    source: SourceKind,
    audio: Seconds,
    event: AppEvent,
)
    ensures
        call_ensures(
            QueueMetrics::increment_queue_metrics,
            (metrics, source, audio),
            event,
        ) ==> {
            &&& old(metrics).queue_depth < usize::MAX ==> final(metrics).queue_depth
                == old(metrics).queue_depth + 1
            &&& event@ matches AppEvent::QueueMetrics {
                source: of,
                queue_depth,
                pending_audio_secs,
            }
            &&& of == source
            &&& queue_depth == final(metrics).queue_depth
            &&& pending_audio_secs == final(metrics).pending_audio_secs
        },
        call_ensures(
            QueueMetrics::decrement_queue_metrics,
            (metrics, source, audio),
            event,
        ) ==> {
            &&& old(metrics).queue_depth > 0 ==> final(metrics).queue_depth
                == old(metrics).queue_depth - 1
            &&& event@ matches AppEvent::QueueMetrics {
                source: of,
                queue_depth,
                pending_audio_secs,
            }
            &&& of == source
            &&& queue_depth == final(metrics).queue_depth
            &&& pending_audio_secs == final(metrics).pending_audio_secs
        },
{
}

} // verus!
