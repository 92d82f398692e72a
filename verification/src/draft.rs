//! The draft worker of a source: it streams audio, follows the drafts that come back, and
//! hands completed turns over to be finalized.

use std::collections::VecDeque;

use vstd::prelude::*;
use vstd::string::*;

use crate::capture::{AudioChunk, SourceKind};
use crate::connection::{
    Effects, PendingTurn, QueueMetrics, Shutdown, connection_status_label,
    handle_session_resumption_update, reconnect_backoff, reconnect_notice, text_opt,
    usage_snapshot_from_metadata,
};
use crate::json::Json;
use crate::text::{decimal_text, has_prefix, hyphenate, padded_decimal_text, trim_text};
use crate::transcriber::TranscriptEvent;
use crate::transcript::TranscriptStore;
use crate::ui::AppEvent;

verus! {

use crate::capture::source_title;
use crate::connection::{
    EffectsView, backoff_ms, go_away_details, handle_after, metrics_event, metrics_with,
    no_effects, reconnect_text, resumption_details, shutdown_after, snapshot_of, status_label,
};
use crate::json::{JsonView, unsigned_number};
use crate::seconds::Seconds;
use crate::text::{
    decimal, hyphenated, law_decimal_spells_the_number, trimmed, view_opt, zero_padded,
};
use crate::transcriber::EventView;
use crate::transcript::{
    SessionView, TurnState, TurnView, as_failed, as_pending, as_unfinalized,
    law_registering_keeps_turns, law_replacing_changes_one_turn, lemma_source_index_found,
    lemma_turn_index_found, new_turn, source_index, turn_index, with_draft,
};

/// How long a draft worker may take to stop, in milliseconds.
pub const DRAFT_SHUTDOWN_GRACE_MS: u64 = 5_000;

/// The turn that is being spoken.
#[derive(Debug)]
pub struct CurrentTurn<S> {
    pub turn_id: String,
    pub started_at: i128,
    pub draft_text: String,
    pub audio_samples: Vec<S>,
    pub audio_duration: u128,
}

/// What the turn that is being spoken says.
#[verifier::ext_equal]
pub struct CurrentView<S> {
    pub turn_id: Seq<char>,
    pub started_at: i128,
    pub draft_text: Seq<char>,
    pub audio: Seq<S>,
    pub audio_duration: u128,
}

impl<S> CurrentTurn<S> {
    pub open spec fn view(self) -> CurrentView<S> {
        CurrentView {
            turn_id: self.turn_id@,
            started_at: self.started_at,
            draft_text: self.draft_text@,
            audio: self.audio_samples@,
            audio_duration: self.audio_duration,
        }
    }
}

/// What a turn that waits for its final text says.
#[verifier::ext_equal]
pub struct PendingView<S> {
    pub turn_id: Seq<char>,
    pub audio: Seq<S>,
    pub audio_duration: u128,
    pub attempt_count: usize,
}

/// What a turn that waits for its final text says.
pub open spec fn pending_view<S>(turn: PendingTurn<S>) -> PendingView<S> {
    PendingView {
        turn_id: turn.turn_id@,
        audio: turn.audio_samples@,
        audio_duration: turn.audio_duration,
        attempt_count: turn.attempt_count,
    }
}

/// The state of a draft worker.
#[derive(Debug)]
pub struct DraftWorker<S> {
    pub source: SourceKind,
    pub connected: bool,
    pub has_connected_once: bool,
    pub reconnect_attempt: u32,
    pub resume_handle: Option<String>,
    pub pending_audio: VecDeque<AudioChunk<S>>,
    pub current_turn: Option<CurrentTurn<S>>,
    pub last_completed_turn_id: Option<String>,
    pub last_completed_draft_text: String,
    pub next_turn_index: u64,
    pub shutdown: Shutdown,
    pub sent_audio_stream_end: bool,
}

/// What the state of a draft worker says.
#[verifier::ext_equal]
pub struct DraftView<S> {
    pub source: SourceKind,
    pub connected: bool,
    pub has_connected_once: bool,
    pub reconnect_attempt: u32,
    pub resume_handle: Option<Seq<char>>,
    pub pending_audio: Seq<AudioChunk<S>>,
    pub current_turn: Option<CurrentView<S>>,
    pub last_completed_turn_id: Option<Seq<char>>,
    pub last_completed_draft_text: Seq<char>,
    pub next_turn_index: u64,
    pub shutdown: Shutdown,
    pub sent_audio_stream_end: bool,
}

/// What an optional current turn says.
pub open spec fn view_opt_turn<S>(turn: Option<CurrentTurn<S>>) -> Option<CurrentView<S>> {
    match turn {
        Some(turn) => Some(turn@),
        None => None,
    }
}

impl<S> DraftWorker<S> {
    pub open spec fn view(self) -> DraftView<S> {
        DraftView {
            source: self.source,
            connected: self.connected,
            has_connected_once: self.has_connected_once,
            reconnect_attempt: self.reconnect_attempt,
            resume_handle: view_opt(self.resume_handle),
            pending_audio: self.pending_audio@,
            current_turn: view_opt_turn(self.current_turn),
            last_completed_turn_id: view_opt(self.last_completed_turn_id),
            last_completed_draft_text: self.last_completed_draft_text@,
            next_turn_index: self.next_turn_index,
            shutdown: self.shutdown,
            sent_audio_stream_end: self.sent_audio_stream_end,
        }
    }
}

/// `n` and one more, on a counter of 64 bits that stops at its largest value.
pub open spec fn next_index(n: u64) -> u64 {
    if n == u64::MAX {
        u64::MAX
    } else {
        (n + 1) as u64
    }
}

/// `n` and one more, on a counter of 32 bits that stops at its largest value.
pub open spec fn next_attempt(n: u32) -> u32 {
    if n == u32::MAX {
        u32::MAX
    } else {
        (n + 1) as u32
    }
}

/// The name of the turn `index` of a source.
pub open spec fn turn_name(source: SourceKind, index: u64) -> Seq<char> {
    hyphenated(source_title(source)) + "-turn-"@ + zero_padded(decimal(index as nat), 4)
}

/// A turn that begins.
pub open spec fn opened_turn<S>(turn_id: Seq<char>, started_at: i128) -> CurrentView<S> {
    CurrentView {
        turn_id,
        started_at,
        draft_text: Seq::empty(),
        audio: Seq::empty(),
        audio_duration: 0,
    }
}

/// The session with a turn registered, unless one of its name is there.
pub open spec fn registered(
    session: SessionView,
    source: SourceKind,
    turn_id: Seq<char>,
    index: u64,
    now_unix_ms: u128,
) -> SessionView {
    if session.has_turn(source, turn_id) {
        session
    } else {
        session.with_turns(
            source,
            session.turns_of(source).push(new_turn(turn_id, index, now_unix_ms)),
        )
    }
}

impl<S> DraftView<S> {
    /// The worker with a current turn, which begins at `started_at` where there was none.
    pub open spec fn with_open_turn(self, started_at: i128) -> DraftView<S> {
        match self.current_turn {
            Some(_) => self,
            None => DraftView {
                current_turn: Some(
                    opened_turn(turn_name(self.source, self.next_turn_index), started_at),
                ),
                next_turn_index: next_index(self.next_turn_index),
                ..self
            },
        }
    }

    /// The session after the worker has seen to it that there is a current turn.
    pub open spec fn session_with_open_turn(
        self,
        session: SessionView,
        now_unix_ms: u128,
    ) -> SessionView {
        match self.current_turn {
            Some(_) => session,
            None => registered(
                session,
                self.source,
                turn_name(self.source, self.next_turn_index),
                self.next_turn_index,
                now_unix_ms,
            ),
        }
    }

    /// Whether the session has the source, and each turn that the worker may still speak of.
    pub open spec fn known_to(self, session: SessionView) -> bool {
        &&& session.has_source(self.source)
        &&& self.current_turn matches Some(turn) ==> session.has_turn(self.source, turn.turn_id)
        &&& self.last_completed_turn_id matches Some(turn_id) ==> session.has_turn(
            self.source,
            turn_id,
        )
    }
}

/// Whether an incoming draft continues an existing one, or takes it back in part.
pub open spec fn drafts_match(existing: Seq<char>, incoming: Seq<char>) -> bool {
    ||| existing.len() == 0
    ||| existing.is_prefix_of(incoming)
    ||| incoming.is_prefix_of(existing)
}

fn draft_text_matches(existing: &str, incoming: &str) -> (matching: bool)
    ensures
        matching == drafts_match(existing@, incoming@),
{
    existing.is_empty() || has_prefix(incoming, existing) || has_prefix(existing, incoming)
}

/// The name of the turn `index` of a source.
pub fn turn_id_for(source: SourceKind, index: u64) -> (name: String)
    ensures
        name@ == turn_name(source, index),
{
    hyphenate(source.title()).concat("-turn-").concat(
        padded_decimal_text(index as u128, 4).as_str(),
    )
}

/// What comes of one step of a draft worker.
#[verifier::ext_equal]
pub struct DraftStep<S> {
    pub worker: DraftView<S>,
    pub session: SessionView,
    pub effects: EffectsView,
}

/// A status of a draft on screen.
pub open spec fn draft_status(source: SourceKind, status: Seq<char>) -> AppEvent<Seq<char>> {
    AppEvent::DraftStatus { source, status }
}

impl<S> DraftView<S> {
    /// Whether a draft belongs to the turn that was completed last: it does not go with the
    /// current turn, and it goes with that one.
    pub open spec fn revises_last_turn(self, text: Seq<char>) -> bool {
        &&& !(self.current_turn matches Some(turn) && drafts_match(turn.draft_text, text))
        &&& self.last_completed_turn_id is Some
        &&& drafts_match(self.last_completed_draft_text, text)
    }

    /// A draft for the turn that was completed last.
    pub open spec fn after_revision(
        self,
        session: SessionView,
        text: Seq<char>,
        now: i64,
    ) -> DraftStep<S> {
        let turn_id = self.last_completed_turn_id->Some_0;
        DraftStep {
            worker: DraftView { last_completed_draft_text: text, ..self },
            session: session.with_turn(
                self.source,
                turn_id,
                with_draft(session.turn(self.source, turn_id), text),
            ),
            effects: no_effects().show(draft_status(self.source, "capturing"@)).show(
                AppEvent::DraftTranscript { source: self.source, turn_id, at: now as i128, text },
            ),
        }
    }

    /// A draft for the current turn, which begins now where there is none.
    pub open spec fn after_draft(
        self,
        session: SessionView,
        text: Seq<char>,
        now: i64,
        now_unix_ms: u128,
    ) -> DraftStep<S> {
        let open = self.with_open_turn(now as i128);
        let turn = open.current_turn->Some_0;
        let known = self.session_with_open_turn(session, now_unix_ms);
        DraftStep {
            worker: DraftView {
                current_turn: Some(CurrentView { draft_text: text, ..turn }),
                ..open
            },
            session: known.with_turn(
                self.source,
                turn.turn_id,
                with_draft(known.turn(self.source, turn.turn_id), text),
            ),
            effects: no_effects().show(draft_status(self.source, "capturing"@)).show(
                AppEvent::DraftTranscript {
                    source: self.source,
                    turn_id: turn.turn_id,
                    at: turn.started_at,
                    text,
                },
            ),
        }
    }

    /// A transcription of what was heard: it revises the last turn or the current one, unless
    /// there is nothing in it.
    pub open spec fn after_transcription(
        self,
        session: SessionView,
        heard: Seq<char>,
        now: i64,
        now_unix_ms: u128,
    ) -> DraftStep<S> {
        let text = trimmed(heard);
        if text.len() == 0 {
            DraftStep { worker: self, session, effects: no_effects() }
        } else if self.revises_last_turn(text) {
            self.after_revision(session, text, now)
        } else {
            self.after_draft(session, text, now, now_unix_ms)
        }
    }
}

/// Keeps track of which turns are known when one of them is replaced.
proof fn lemma_known_after_replacing<S>(
    worker: DraftView<S>,
    session: SessionView,
    turn: TurnView,
)
    requires
        worker.known_to(session),
        session.has_turn(worker.source, turn.turn_id),
    ensures
        worker.known_to(session.with_turn(worker.source, turn.turn_id, turn)),
        session.with_turn(worker.source, turn.turn_id, turn).has_turn(
            worker.source,
            turn.turn_id,
        ),
        session.with_turn(worker.source, turn.turn_id, turn).turn(worker.source, turn.turn_id)
            == turn,
{
    law_replacing_changes_one_turn(session, worker.source, turn, worker.source, turn.turn_id);
    match worker.current_turn {
        Some(current) => law_replacing_changes_one_turn(
            session,
            worker.source,
            turn,
            worker.source,
            current.turn_id,
        ),
        None => {},
    }
    match worker.last_completed_turn_id {
        Some(turn_id) => law_replacing_changes_one_turn(
            session,
            worker.source,
            turn,
            worker.source,
            turn_id,
        ),
        None => {},
    }
}

/// Seeing to it that there is a current turn keeps every turn known, the new one included.
proof fn lemma_known_after_opening<S>(
    worker: DraftView<S>,
    session: SessionView,
    started_at: i128,
    now_unix_ms: u128,
)
    requires
        worker.known_to(session),
    ensures
        worker.with_open_turn(started_at).known_to(
            worker.session_with_open_turn(session, now_unix_ms),
        ),
{
    if worker.current_turn is None {
        let name = turn_name(worker.source, worker.next_turn_index);
        if !session.has_turn(worker.source, name) {
            let turn = new_turn(name, worker.next_turn_index, now_unix_ms);
            law_registering_keeps_turns(session, worker.source, turn, worker.source, name);
            match worker.last_completed_turn_id {
                Some(turn_id) => law_registering_keeps_turns(
                    session,
                    worker.source,
                    turn,
                    worker.source,
                    turn_id,
                ),
                None => {},
            }
        }
    }
}

proof fn lemma_named<S>(worker: DraftView<S>, session: SessionView, turn_id: Seq<char>)
    requires
        worker.known_to(session),
        session.has_turn(worker.source, turn_id),
    ensures
        session.turn(worker.source, turn_id).turn_id == turn_id,
{
    lemma_turn_index_found(session.turns_of(worker.source), turn_id);
}

impl<S: Copy> DraftWorker<S> {
    /// A worker that has not connected yet.
    pub fn new(source: SourceKind) -> (worker: Self)
        ensures
            worker@ == (DraftView::<S> {
                source,
                connected: false,
                has_connected_once: false,
                reconnect_attempt: 0,
                resume_handle: None,
                pending_audio: Seq::empty(),
                current_turn: None,
                last_completed_turn_id: None,
                last_completed_draft_text: Seq::empty(),
                next_turn_index: 1,
                shutdown: Shutdown { requested: false, deadline: None },
                sent_audio_stream_end: false,
            }),
    {
        DraftWorker {
            source,
            connected: false,
            has_connected_once: false,
            reconnect_attempt: 0,
            resume_handle: None,
            pending_audio: VecDeque::new(),
            current_turn: None,
            last_completed_turn_id: None,
            last_completed_draft_text: String::new(),
            next_turn_index: 1,
            shutdown: Shutdown::none(),
            sent_audio_stream_end: false,
        }
    }

    fn ensure_current_turn(
        &mut self,
        store: &mut TranscriptStore,
        started_at: i128,
        now_unix_ms: u128,
    )
        requires
            old(self)@.known_to(old(store)@),
        ensures
            final(self)@ == old(self)@.with_open_turn(started_at),
            final(store)@ == old(self)@.session_with_open_turn(old(store)@, now_unix_ms),
            final(self)@.known_to(final(store)@),
            final(self).current_turn is Some,
    {
        proof {
            lemma_known_after_opening(self@, store@, started_at, now_unix_ms);
        }
        if self.current_turn.is_none() {
            let turn_index: u64 = self.next_turn_index;
            self.next_turn_index = self.next_turn_index.saturating_add(1);
            let turn_id = turn_id_for(self.source, turn_index);
            store.register_turn(self.source, turn_id.as_str(), turn_index, now_unix_ms);
            self.current_turn = Some(
                CurrentTurn {
                    turn_id,
                    started_at,
                    draft_text: String::new(),
                    audio_samples: Vec::new(),
                    audio_duration: 0,
                },
            );
            assert(self@ == old(self)@.with_open_turn(started_at));
        }
    }

    fn take_transcription(
        &mut self,
        store: &mut TranscriptStore,
        heard: String,
        now: i64,
        now_unix_ms: u128,
    ) -> (effects: Effects)
        requires
            old(self)@.known_to(old(store)@),
        ensures
            (DraftStep { worker: final(self)@, session: final(store)@, effects: effects@ })
                == old(self)@.after_transcription(old(store)@, heard@, now, now_unix_ms),
            final(self)@.known_to(final(store)@),
    {
        let text = trim_text(heard.as_str());
        if text.as_str().is_empty() {
            return Effects::none();
        }
        let source = self.source;
        let effects = Effects::none().show(
            AppEvent::DraftStatus { source, status: "capturing".to_owned() },
        );
        let with_current = match &self.current_turn {
            Some(turn) => draft_text_matches(turn.draft_text.as_str(), text.as_str()),
            None => false,
        };
        if !with_current && draft_text_matches(
            self.last_completed_draft_text.as_str(),
            text.as_str(),
        ) {
            if let Some(last) = &self.last_completed_turn_id {
                let turn_id: String = last.clone();
                proof {
                    lemma_named(self@, store@, turn_id@);
                    lemma_known_after_replacing(
                        self@,
                        store@,
                        with_draft(store@.turn(source, turn_id@), text@),
                    );
                }
                store.update_draft(source, turn_id.as_str(), text.clone());
                self.last_completed_draft_text = text.clone();
                let shown = effects.show(
                    AppEvent::DraftTranscript { source, turn_id, at: now as i128, text },
                );
                assert(self@ == (DraftView { last_completed_draft_text: text@, ..old(self)@ }));
                return shown;
            }
        }
        self.ensure_current_turn(store, now as i128, now_unix_ms);
        let ghost open = self@;
        let ghost known = store@;
        let mut turn_id: String = String::new();
        let mut started_at: i128 = 0;
        if let Some(turn) = &mut self.current_turn {
            turn.draft_text = text.clone();
            turn_id = turn.turn_id.clone();
            started_at = turn.started_at;
        }
        proof {
            lemma_named(open, known, turn_id@);
            lemma_known_after_replacing(
                open,
                known,
                with_draft(known.turn(source, turn_id@), text@),
            );
        }
        store.update_draft(source, turn_id.as_str(), text.clone());
        assert(self@ == (DraftView {
            current_turn: Some(CurrentView { draft_text: text@, ..open.current_turn->Some_0 }),
            ..open
        }));
        effects.show(AppEvent::DraftTranscript { source, turn_id, at: started_at, text })
    }
}

/// What comes of an event for a draft worker: beside its step, a turn to be queued for its
/// final text, and the reason where the connection was closed.
#[verifier::ext_equal]
pub struct DraftReaction<S> {
    pub step: DraftStep<S>,
    pub metrics: QueueMetrics,
    pub queued: Option<PendingView<S>>,
    pub closed: Option<Seq<char>>,
}

/// The error of a turn that was completed without audio.
pub open spec fn no_audio_error() -> Seq<char> {
    "draft turn completed without buffered audio"@
}

impl<S> DraftView<S> {
    /// A reaction that changes neither the metrics nor the queue.
    pub open spec fn reaction(step: DraftStep<S>, metrics: QueueMetrics) -> DraftReaction<S> {
        DraftReaction { step, metrics, queued: None, closed: None }
    }

    /// A step that leaves the worker and the session as they are.
    pub open spec fn shows(self, session: SessionView, effects: EffectsView) -> DraftStep<S> {
        DraftStep { worker: self, session, effects }
    }

    /// The current turn is complete: it waits for its final text, and is queued with its audio
    /// where it has any; without audio it has failed.
    pub open spec fn after_completion(
        self,
        session: SessionView,
        metrics: QueueMetrics,
        now_unix_ms: u128,
    ) -> DraftReaction<S> {
        match self.current_turn {
            None => Self::reaction(self.shows(session, no_effects()), metrics),
            Some(turn) => {
                let worker = DraftView {
                    current_turn: None,
                    last_completed_turn_id: Some(turn.turn_id),
                    last_completed_draft_text: turn.draft_text,
                    ..self
                };
                let pending = session.with_turn(
                    self.source,
                    turn.turn_id,
                    as_pending(session.turn(self.source, turn.turn_id)),
                );
                let effects = no_effects().show(draft_status(self.source, "listening"@)).show(
                    AppEvent::TurnPending { source: self.source, turn_id: turn.turn_id },
                );
                if turn.audio.len() == 0 {
                    Self::reaction(
                        DraftStep {
                            worker,
                            session: pending.with_turn(
                                self.source,
                                turn.turn_id,
                                as_failed(
                                    pending.turn(self.source, turn.turn_id),
                                    no_audio_error(),
                                    now_unix_ms,
                                ),
                            ),
                            effects: effects.show(
                                AppEvent::TurnFailed {
                                    source: self.source,
                                    turn_id: turn.turn_id,
                                    error: no_audio_error(),
                                },
                            ),
                        },
                        metrics,
                    )
                } else {
                    DraftReaction {
                        step: DraftStep {
                            worker,
                            session: pending,
                            effects: effects.show(
                                metrics_event(
                                    self.source,
                                    metrics_with(metrics, Seconds::of(turn.audio_duration)),
                                ),
                            ),
                        },
                        metrics: metrics_with(metrics, Seconds::of(turn.audio_duration)),
                        queued: Some(
                            PendingView {
                                turn_id: turn.turn_id,
                                audio: turn.audio,
                                audio_duration: turn.audio_duration,
                                attempt_count: 0,
                            },
                        ),
                        closed: None,
                    }
                }
            },
        }
    }

    /// The details of a completed generation, in the log.
    pub open spec fn generation_details(self) -> JsonView {
        JsonView::Object(
            map![
                "turn_id"@ => match self.current_turn {
                    Some(turn) => JsonView::Text(turn.turn_id),
                    None => JsonView::Null,
                },
            ],
        )
    }

    /// What comes of an event.
    pub open spec fn after_event(
        self,
        session: SessionView,
        metrics: QueueMetrics,
        event: EventView,
        now: i64,
        now_unix_ms: u128,
    ) -> DraftReaction<S> {
        let title = source_title(self.source);
        match event {
            EventView::InputTranscription(heard) => Self::reaction(
                self.after_transcription(session, heard, now, now_unix_ms),
                metrics,
            ),
            EventView::GenerationComplete => Self::reaction(
                self.shows(
                    session,
                    no_effects().note("generation_complete"@, self.generation_details()).show(
                        draft_status(self.source, "listening"@),
                    ),
                ),
                metrics,
            ),
            EventView::TurnComplete => self.after_completion(session, metrics, now_unix_ms),
            EventView::UsageMetadata(usage) => Self::reaction(
                self.shows(
                    session,
                    no_effects().show(
                        AppEvent::Usage { source: self.source, usage: snapshot_of(usage) },
                    ),
                ),
                metrics,
            ),
            EventView::SessionResumptionUpdate { new_handle, resumable } => Self::reaction(
                DraftStep {
                    worker: DraftView {
                        resume_handle: handle_after(self.resume_handle, new_handle, resumable),
                        ..self
                    },
                    session,
                    effects: no_effects().note(
                        "session_resumption_update"@,
                        resumption_details(resumable, resumable && new_handle is Some),
                    ),
                },
                metrics,
            ),
            EventView::GoAway { time_left } => Self::reaction(
                self.shows(
                    session,
                    no_effects().show(
                        AppEvent::Notice(
                            title + " draft connection will renew in "@ + time_left,
                        ),
                    ).note("go_away"@, go_away_details(time_left)),
                ),
                metrics,
            ),
            EventView::ConnectionClosed(reason) => DraftReaction {
                closed: Some(reason),
                ..Self::reaction(
                    self.shows(
                        session,
                        no_effects().show(
                            AppEvent::Notice(title + " draft connection closed: "@ + reason),
                        ),
                    ),
                    metrics,
                )
            },
            EventView::SetupComplete
            | EventView::ModelText
            | EventView::ToolCall(_)
            | EventView::ToolCallCancellation(_) => Self::reaction(
                self.shows(session, no_effects()),
                metrics,
            ),
        }
    }
}

/// What comes of an event for a draft worker.
#[derive(Debug)]
pub struct DraftOutcome<S> {
    pub effects: Effects,
    pub queued: Option<PendingTurn<S>>,
    pub closed: Option<String>,
}

/// What an optional turn that waits for its final text says.
pub open spec fn view_opt_pending<S>(turn: Option<PendingTurn<S>>) -> Option<PendingView<S>> {
    match turn {
        Some(turn) => Some(pending_view(turn)),
        None => None,
    }
}

/// An outcome with nothing but effects.
fn effects_only<S>(effects: Effects) -> (outcome: DraftOutcome<S>)
    ensures
        outcome.effects == effects,
        outcome.queued is None,
        outcome.closed is None,
{
    DraftOutcome { effects, queued: None, closed: None }
}

impl<S: Copy> DraftWorker<S> {
    fn complete_turn(
        &mut self,
        store: &mut TranscriptStore,
        metrics: &mut QueueMetrics,
        now_unix_ms: u128,
    ) -> (outcome: DraftOutcome<S>)
        requires
            old(self)@.known_to(old(store)@),
        ensures
            (DraftReaction {
                step: DraftStep {
                    worker: final(self)@,
                    session: final(store)@,
                    effects: outcome.effects@,
                },
                metrics: *final(metrics),
                queued: view_opt_pending(outcome.queued),
                closed: view_opt(outcome.closed),
            }) == old(self)@.after_completion(old(store)@, *old(metrics), now_unix_ms),
            final(self)@.known_to(final(store)@),
    {
        let source = self.source;
        let turn = match self.current_turn.take() {
            Some(turn) => turn,
            None => return effects_only(Effects::none()),
        };
        let ghost before = old(self)@;
        let ghost session = store@;
        let turn_id: String = turn.turn_id;
        self.last_completed_turn_id = Some(turn_id.clone());
        self.last_completed_draft_text = turn.draft_text;
        proof {
            lemma_named(before, session, turn_id@);
            lemma_known_after_replacing(
                before,
                session,
                as_pending(session.turn(source, turn_id@)),
            );
        }
        store.mark_pending(source, turn_id.as_str());
        let effects = Effects::none().show(
            AppEvent::DraftStatus { source, status: "listening".to_owned() },
        ).show(AppEvent::TurnPending { source, turn_id: turn_id.clone() });
        if turn.audio_samples.len() == 0 {
            let error = "draft turn completed without buffered audio".to_owned();
            proof {
                lemma_known_after_replacing(
                    before,
                    store@,
                    as_failed(store@.turn(source, turn_id@), error@, now_unix_ms),
                );
            }
            store.mark_failed_at(source, turn_id.as_str(), error.clone(), now_unix_ms);
            return effects_only(
                effects.show(AppEvent::TurnFailed { source, turn_id, error }),
            );
        }
        let pending = PendingTurn {
            turn_id,
            audio_samples: turn.audio_samples,
            audio_duration: turn.audio_duration,
            attempt_count: 0,
        };
        let event = metrics.increment_queue_metrics(source, pending.audio_duration_secs());
        DraftOutcome { effects: effects.show(event), queued: Some(pending), closed: None }
    }

    /// Handles an event of the session.
    pub fn handle_draft_event(
        &mut self,
        store: &mut TranscriptStore,
        metrics: &mut QueueMetrics,
        event: TranscriptEvent,
        now: i64,
        now_unix_ms: u128,
    ) -> (outcome: DraftOutcome<S>)
        requires
            old(self)@.known_to(old(store)@),
        ensures
            (DraftReaction {
                step: DraftStep {
                    worker: final(self)@,
                    session: final(store)@,
                    effects: outcome.effects@,
                },
                metrics: *final(metrics),
                queued: view_opt_pending(outcome.queued),
                closed: view_opt(outcome.closed),
            }) == old(self)@.after_event(
                old(store)@,
                *old(metrics),
                event@,
                now,
                now_unix_ms,
            ),
            final(self)@.known_to(final(store)@),
    {
        let source = self.source;
        match event {
            TranscriptEvent::InputTranscription(heard) => {
                let effects = self.take_transcription(store, heard, now, now_unix_ms);
                effects_only(effects)
            },
            TranscriptEvent::GenerationComplete => {
                let turn = match &self.current_turn {
                    Some(turn) => Json::text(turn.turn_id.as_str()),
                    None => Json::Null,
                };
                effects_only(
                    Effects::none().note(
                        "generation_complete",
                        Json::object().with("turn_id", turn),
                    ).show(AppEvent::DraftStatus { source, status: "listening".to_owned() }),
                )
            },
            TranscriptEvent::TurnComplete => self.complete_turn(store, metrics, now_unix_ms),
            TranscriptEvent::UsageMetadata(usage) => effects_only(
                Effects::none().show(
                    AppEvent::Usage { source, usage: usage_snapshot_from_metadata(&usage) },
                ),
            ),
            TranscriptEvent::SessionResumptionUpdate { new_handle, resumable } => {
                let effects = handle_session_resumption_update(
                    Effects::none(),
                    &mut self.resume_handle,
                    new_handle,
                    resumable,
                );
                effects_only(effects)
            },
            TranscriptEvent::GoAway { time_left } => {
                let notice = source.title().to_owned().concat(
                    " draft connection will renew in ",
                ).concat(time_left.as_str());
                effects_only(
                    Effects::none().show(AppEvent::Notice(notice)).note(
                        "go_away",
                        Json::object().with("time_left", Json::Text(time_left)),
                    ),
                )
            },
            TranscriptEvent::ConnectionClosed(reason) => {
                let notice = source.title().to_owned().concat(
                    " draft connection closed: ",
                ).concat(reason.as_str());
                DraftOutcome {
                    effects: Effects::none().show(AppEvent::Notice(notice)),
                    queued: None,
                    closed: Some(reason),
                }
            },
            TranscriptEvent::SetupComplete
            | TranscriptEvent::ModelText
            | TranscriptEvent::ToolCall(_)
            | TranscriptEvent::ToolCallCancellation(_) => effects_only(Effects::none()),
        }
    }
}

/// What a draft worker does next.
#[derive(Debug, Clone, Copy, PartialEq, Eq, Structural)]
pub enum DraftAction {
    /// Open a session.
    Connect,
    /// Send the audio that waits, then the end of the stream.
    FlushAndEnd,
    /// Wait for what comes first: an event of the session; the audio that waits to be sent,
    /// if any; and, before a shutdown, more audio or the request to shut down.
    Stream { send_audio: bool, accept_audio: bool },
    /// Stop.
    Stop,
}

/// What a draft worker does after a failure to connect.
#[derive(Debug, Clone, Copy, PartialEq, Eq, Structural)]
pub enum ConnectFailure {
    /// Wait this many milliseconds, and try again.
    Retry { backoff_ms: u64 },
    /// Stop, as was requested.
    Stop,
    /// Give up on the source.
    Fatal,
}

/// How a connection was lost.
#[derive(Debug)]
pub enum ConnectionLoss {
    /// Audio could not be sent.
    SendFailed(String),
    /// No event could be received.
    ReceiveFailed(String),
    /// The connection ended without a close frame.
    Ended,
    /// The service closed the connection.
    Closed(String),
}

/// Why a connection was lost, in words.
pub open spec fn loss_text(loss: ConnectionLoss) -> Seq<char> {
    match loss {
        ConnectionLoss::SendFailed(error) => "send audio failed: "@ + error@,
        ConnectionLoss::ReceiveFailed(error) => "receive event failed: "@ + error@,
        ConnectionLoss::Ended => "connection closed without close frame"@,
        ConnectionLoss::Closed(reason) => reason@,
    }
}

impl ConnectionLoss {
    /// Why the connection was lost, in words.
    pub fn reason(&self) -> (text: String)
        ensures
            text@ == loss_text(*self),
    {
        match self {
            ConnectionLoss::SendFailed(error) => {
                "send audio failed: ".to_owned().concat(error.as_str())
            },
            ConnectionLoss::ReceiveFailed(error) => {
                "receive event failed: ".to_owned().concat(error.as_str())
            },
            ConnectionLoss::Ended => "connection closed without close frame".to_owned(),
            ConnectionLoss::Closed(reason) => reason.clone(),
        }
    }
}

/// The details of a state in the log.
pub open spec fn state_details(
    status: Seq<char>,
    reconnect_attempt: u32,
    has_handle: bool,
) -> JsonView {
    JsonView::Object(
        map![
            "status"@ => JsonView::Text(status),
            "reconnect_attempt"@ => JsonView::Number(unsigned_number(reconnect_attempt as u64)),
            "resume_handle_present"@ => JsonView::Bool(has_handle),
        ],
    )
}

/// The details of a bare state in the log.
pub open spec fn status_details(status: Seq<char>) -> JsonView {
    JsonView::Object(map!["status"@ => JsonView::Text(status)])
}

/// The details of a failed attempt to connect, in the log.
pub open spec fn reconnect_failed_details(error: Seq<char>, attempt: u32) -> JsonView {
    JsonView::Object(
        map![
            "error"@ => JsonView::Text(error),
            "reconnect_attempt"@ => JsonView::Number(unsigned_number(attempt as u64)),
            "backoff_ms"@ => JsonView::Number(unsigned_number(backoff_ms(attempt) as u64)),
        ],
    )
}

/// What is said of a failed attempt to connect again.
pub open spec fn retry_text(
    source: SourceKind,
    stream_label: Seq<char>,
    error: Seq<char>,
    attempt: u32,
) -> Seq<char> {
    source_title(source) + " "@ + stream_label + " reconnect failed: "@ + error
        + ". retrying in "@ + decimal(backoff_ms(attempt)) + " ms"@
}

/// The details of a lost connection in the log.
pub open spec fn connection_lost_details(
    reason: Seq<char>,
    attempt: u32,
    has_handle: bool,
) -> JsonView {
    JsonView::Object(
        map![
            "reason"@ => JsonView::Text(reason),
            "reconnect_attempt"@ => JsonView::Number(unsigned_number(attempt as u64)),
            "resume_handle_present"@ => JsonView::Bool(has_handle),
        ],
    )
}

/// The details of a state in the log.
pub fn build_state_details(status: &str, reconnect_attempt: u32, has_handle: bool) -> (details:
    Json)
    ensures
        details@ == state_details(status@, reconnect_attempt, has_handle),
{
    Json::object().with("status", Json::text(status)).with(
        "reconnect_attempt",
        Json::unsigned(reconnect_attempt as u64),
    ).with("resume_handle_present", Json::flag(has_handle))
}

/// The details of a failed attempt to connect, in the log.
pub fn build_reconnect_failed_details(error: &str, attempt: u32) -> (details: Json)
    ensures
        details@ == reconnect_failed_details(error@, attempt),
{
    Json::object().with("error", Json::text(error)).with(
        "reconnect_attempt",
        Json::unsigned(attempt as u64),
    ).with("backoff_ms", Json::unsigned(reconnect_backoff(attempt)))
}

/// What is said of a failed attempt to connect again.
pub fn build_retry_text(
    source: SourceKind,
    stream_label: &str,
    error: &str,
    attempt: u32,
) -> (text: String)
    ensures
        text@ == retry_text(source, stream_label@, error@, attempt),
{
    source.title().to_owned().concat(" ").concat(stream_label).concat(
        " reconnect failed: ",
    ).concat(error).concat(". retrying in ").concat(
        decimal_text(reconnect_backoff(attempt) as u128).as_str(),
    ).concat(" ms")
}

/// The details of a lost connection in the log.
pub fn build_connection_lost_details(reason: &str, attempt: u32, has_handle: bool) -> (details:
    Json)
    ensures
        details@ == connection_lost_details(reason@, attempt, has_handle),
        details is Object,
{
    Json::object().with("reason", Json::text(reason)).with(
        "reconnect_attempt",
        Json::unsigned(attempt as u64),
    ).with("resume_handle_present", Json::flag(has_handle))
}

impl<S> DraftView<S> {
    /// What is shown and logged of an attempt to connect that begins.
    pub open spec fn connecting_effects(self) -> EffectsView {
        let status = status_label(self.has_connected_once, self.resume_handle is Some);
        let shown = no_effects().show(draft_status(self.source, status));
        let noticed = match reconnect_text(
            self.source,
            "draft"@,
            self.has_connected_once,
            self.resume_handle is Some,
        ) {
            Some(text) => shown.show(AppEvent::Notice(text)),
            None => shown,
        };
        noticed.note(
            "state"@,
            state_details(status, self.reconnect_attempt, self.resume_handle is Some),
        )
    }

    /// What the worker does next.
    pub open spec fn action(self, now: i64) -> DraftAction {
        if !self.connected {
            DraftAction::Connect
        } else if self.shutdown.requested && !self.sent_audio_stream_end {
            DraftAction::FlushAndEnd
        } else if self.shutdown.requested && (self.shutdown.deadline matches Some(deadline) && now
            >= deadline) {
            DraftAction::Stop
        } else {
            DraftAction::Stream {
                send_audio: self.pending_audio.len() > 0,
                accept_audio: !self.shutdown.requested,
            }
        }
    }

    /// The worker after a chunk of audio has come: it is to be sent, and belongs to the current
    /// turn; where there is none, audio in which something is heard begins one.
    pub open spec fn with_audio(self, chunk: AudioChunk<S>) -> DraftView<S> {
        let heard = if self.current_turn is Some || chunk.has_activity {
            let open = self.with_open_turn(chunk.started_at);
            let turn = open.current_turn->Some_0;
            DraftView {
                current_turn: Some(
                    CurrentView {
                        audio: turn.audio + chunk.samples@,
                        audio_duration: if turn.audio_duration + chunk.duration > u128::MAX {
                            u128::MAX
                        } else {
                            (turn.audio_duration + chunk.duration) as u128
                        },
                        ..turn
                    },
                ),
                ..open
            }
        } else {
            self
        };
        DraftView { pending_audio: self.pending_audio.push(chunk), ..heard }
    }
}

fn copy_samples<S: Copy>(target: &mut Vec<S>, samples: &Vec<S>)
    ensures
        final(target)@ == old(target)@ + samples@,
{
    let mut i: usize = 0;
    while i < samples.len()
        invariant
            i <= samples@.len(),
            target@ == old(target)@ + samples@.take(i as int),
        decreases samples@.len() - i,
    {
        assert(samples@.take(i + 1) == samples@.take(i as int).push(samples@[i as int]));
        target.push(samples[i]);
        i += 1;
    }
    assert(samples@.take(samples@.len() as int) == samples@);
}

impl<S: Copy> DraftWorker<S> {
    /// What the worker does next.
    pub fn next_action(&mut self, now: i64) -> (action: DraftAction)
        ensures
            action == old(self)@.action(now),
            final(self)@ == (DraftView {
                sent_audio_stream_end: old(self)@.sent_audio_stream_end || action
                    == DraftAction::FlushAndEnd,
                ..old(self)@
            }),
    {
        if !self.connected {
            return DraftAction::Connect;
        }
        if self.shutdown.requested {
            if !self.sent_audio_stream_end {
                self.sent_audio_stream_end = true;
                return DraftAction::FlushAndEnd;
            }
            if self.shutdown.is_overdue(now) {
                return DraftAction::Stop;
            }
        }
        DraftAction::Stream {
            send_audio: self.pending_audio.len() > 0,
            accept_audio: !self.shutdown.requested,
        }
    }

    /// An attempt to connect begins.
    pub fn begin_connect(&self) -> (effects: Effects)
        ensures
            effects@ == self@.connecting_effects(),
    {
        let handle = text_opt(&self.resume_handle);
        let status = connection_status_label(self.has_connected_once, handle);
        let effects = Effects::none().show(
            AppEvent::DraftStatus { source: self.source, status: status.to_owned() },
        );
        let effects = match reconnect_notice(self.source, "draft", self.has_connected_once, handle) {
            Some(notice) => effects.show(AppEvent::Notice(notice)),
            None => effects,
        };
        effects.note(
            "state",
            build_state_details(status, self.reconnect_attempt, self.resume_handle.is_some()),
        )
    }

    /// A session was opened.
    pub fn connect_succeeded(&mut self) -> (effects: Effects)
        ensures
            final(self)@ == (DraftView {
                connected: true,
                has_connected_once: true,
                reconnect_attempt: 0,
                ..old(self)@
            }),
            effects@ == no_effects().show(draft_status(old(self).source, "listening"@)).note(
                "state"@,
                status_details("listening"@),
            ),
    {
        self.connected = true;
        self.has_connected_once = true;
        self.reconnect_attempt = 0;
        Effects::none().show(
            AppEvent::DraftStatus { source: self.source, status: "listening".to_owned() },
        ).note("state", Json::object().with("status", Json::text("listening")))
    }

    /// A session could not be opened. Once there was one, it is tried again, unless the worker
    /// is to stop; before that, it is an error of the source.
    pub fn connect_failed(&mut self, error: &str) -> (result: (ConnectFailure, Effects))
        ensures
            ({
                let worker = old(self)@;
                let attempt = next_attempt(worker.reconnect_attempt);
                if worker.shutdown.requested || worker.has_connected_once {
                    let logged = no_effects().note(
                        "reconnect_failed"@,
                        reconnect_failed_details(error@, attempt),
                    );
                    &&& final(self)@ == (DraftView { reconnect_attempt: attempt, ..worker })
                    &&& if worker.shutdown.requested {
                        &&& result.0 == ConnectFailure::Stop
                        &&& result.1@ == logged
                    } else {
                        &&& result.0 matches ConnectFailure::Retry { backoff_ms: wait }
                        &&& wait == backoff_ms(attempt)
                        &&& result.1@ == logged.show(
                            AppEvent::Notice(
                                retry_text(worker.source, "draft"@, error@, attempt),
                            ),
                        )
                    }
                } else {
                    &&& final(self)@ == worker
                    &&& result.0 == ConnectFailure::Fatal
                    &&& result.1@ == no_effects().show(
                        AppEvent::SourceError { source: worker.source, error: error@ },
                    ).note(
                        "fatal_error"@,
                        JsonView::Object(map!["error"@ => JsonView::Text(error@)]),
                    )
                }
            }),
    {
        if self.has_connected_once || self.shutdown.requested {
            self.reconnect_attempt = self.reconnect_attempt.saturating_add(1);
            let effects = Effects::none().note(
                "reconnect_failed",
                build_reconnect_failed_details(error, self.reconnect_attempt),
            );
            if self.shutdown.requested {
                return (ConnectFailure::Stop, effects);
            }
            let notice = build_retry_text(self.source, "draft", error, self.reconnect_attempt);
            let wait = reconnect_backoff(self.reconnect_attempt);
            return (
                ConnectFailure::Retry { backoff_ms: wait },
                effects.show(AppEvent::Notice(notice)),
            );
        }
        let effects = Effects::none().show(
            AppEvent::SourceError { source: self.source, error: error.to_owned() },
        ).note("fatal_error", Json::object().with("error", Json::text(error)));
        (ConnectFailure::Fatal, effects)
    }

    /// The worker is to stop.
    pub fn request_shutdown(&mut self, now: i64)
        ensures
            final(self)@ == (DraftView {
                shutdown: shutdown_after(old(self)@.shutdown, now, DRAFT_SHUTDOWN_GRACE_MS),
                ..old(self)@
            }),
    {
        self.shutdown.request_shutdown(now, DRAFT_SHUTDOWN_GRACE_MS);
    }

    /// A chunk of audio has come. A chunk without samples is passed over.
    pub fn audio_received(
        &mut self,
        store: &mut TranscriptStore,
        chunk: AudioChunk<S>,
        now_unix_ms: u128,
    )
        requires
            old(self)@.known_to(old(store)@),
        ensures
            final(self)@.known_to(final(store)@),
            if chunk.samples@.len() == 0 {
                &&& final(self)@ == old(self)@
                &&& final(store)@ == old(store)@
            } else {
                &&& final(self)@ == old(self)@.with_audio(chunk)
                &&& final(store)@ == if chunk.has_activity {
                    old(self)@.session_with_open_turn(old(store)@, now_unix_ms)
                } else {
                    old(store)@
                }
            },
    {
        if chunk.samples.len() == 0 {
            return;
        }
        if self.current_turn.is_some() || chunk.has_activity {
            self.ensure_current_turn(store, chunk.started_at, now_unix_ms);
            let ghost open = self@;
            if let Some(turn) = &mut self.current_turn {
                copy_samples(&mut turn.audio_samples, &chunk.samples);
                turn.audio_duration = turn.audio_duration.saturating_add(chunk.duration as u128);
            }
        }
        self.pending_audio.push_back(chunk);
        assert(self@ == old(self)@.with_audio(chunk));
    }

    /// The audio that is to be sent first.
    pub fn front_audio(&self) -> (chunk: Option<&AudioChunk<S>>)
        ensures
            match chunk {
                Some(chunk) => self@.pending_audio.len() > 0 && *chunk == self@.pending_audio[0],
                None => self@.pending_audio.len() == 0,
            },
    {
        if self.pending_audio.len() > 0 {
            Some(&self.pending_audio[0])
        } else {
            None
        }
    }

    /// The audio that was to be sent first was sent.
    pub fn audio_sent(&mut self)
        ensures
            final(self)@ == (DraftView {
                pending_audio: if old(self)@.pending_audio.len() > 0 {
                    old(self)@.pending_audio.drop_first()
                } else {
                    old(self)@.pending_audio
                },
                ..old(self)@
            }),
    {
        let _ = self.pending_audio.pop_front();
        assert(old(self)@.pending_audio.len() > 0 ==> self@.pending_audio == old(
            self,
        )@.pending_audio.drop_first());
    }

    /// The connection was lost; the audio that waits and the current turn are kept.
    pub fn connection_lost(&mut self, loss: &ConnectionLoss) -> (effects: Effects)
        ensures
            ({
                let worker = old(self)@;
                let reason = loss_text(*loss);
                let attempt = next_attempt(worker.reconnect_attempt);
                &&& final(self)@ == (DraftView {
                    connected: false,
                    sent_audio_stream_end: false,
                    reconnect_attempt: attempt,
                    ..worker
                })
                &&& effects@ == no_effects().show(
                    draft_status(worker.source, "reconnecting"@),
                ).show(
                    AppEvent::Notice(
                        source_title(worker.source) + " draft reconnecting: "@ + reason,
                    ),
                ).note(
                    "connection_lost"@,
                    connection_lost_details(reason, attempt, worker.resume_handle is Some),
                )
            }),
    {
        let reason = loss.reason();
        self.reconnect_attempt = self.reconnect_attempt.saturating_add(1);
        self.connected = false;
        self.sent_audio_stream_end = false;
        let source = self.source;
        let notice = source.title().to_owned().concat(" draft reconnecting: ").concat(
            reason.as_str(),
        );
        Effects::none().show(
            AppEvent::DraftStatus { source, status: "reconnecting".to_owned() },
        ).show(AppEvent::Notice(notice)).note(
            "connection_lost",
            build_connection_lost_details(
                reason.as_str(),
                self.reconnect_attempt,
                self.resume_handle.is_some(),
            ),
        )
    }

    /// A completed turn could not be queued, for the queue is closed: the turn has failed.
    pub fn queue_refused(
        &self,
        store: &mut TranscriptStore,
        turn_id: String,
        now_unix_ms: u128,
    ) -> (effects: Effects)
        requires
            old(store)@.has_turn(self.source, turn_id@),
        ensures
            final(store)@ == old(store)@.with_turn(
                self.source,
                turn_id@,
                as_failed(
                    old(store)@.turn(self.source, turn_id@),
                    "finalizer queue is closed"@,
                    now_unix_ms,
                ),
            ),
            effects@ == no_effects().show(
                AppEvent::TurnFailed {
                    source: self.source,
                    turn_id: turn_id@,
                    error: "finalizer queue is closed"@,
                },
            ),
    {
        let error = "finalizer queue is closed".to_owned();
        store.mark_failed_at(self.source, turn_id.as_str(), error.clone(), now_unix_ms);
        Effects::none().show(AppEvent::TurnFailed { source: self.source, turn_id, error })
    }

    /// The worker stops: a turn that is still being spoken is left with its draft.
    pub fn finish(&mut self, store: &mut TranscriptStore) -> (effects: Effects)
        requires
            old(self)@.known_to(old(store)@),
        ensures
            final(self)@ == (DraftView { current_turn: None, ..old(self)@ }),
            final(store)@ == match old(self)@.current_turn {
                Some(turn) => old(store)@.with_turn(
                    old(self)@.source,
                    turn.turn_id,
                    as_unfinalized(old(store)@.turn(old(self)@.source, turn.turn_id)),
                ),
                None => old(store)@,
            },
            effects@ == no_effects().show(draft_status(old(self).source, "stopped"@)).note(
                "state"@,
                status_details("stopped"@),
            ),
    {
        if let Some(turn) = self.current_turn.take() {
            store.mark_unfinalized(self.source, turn.turn_id.as_str());
        }
        Effects::none().show(
            AppEvent::DraftStatus { source: self.source, status: "stopped".to_owned() },
        ).note("state", Json::object().with("status", Json::text("stopped")))
    }
}

/// Turns of one source have different names where their numbers differ.
pub proof fn law_turn_names_differ(source: SourceKind, first: u64, second: u64)
    requires
        turn_name(source, first) == turn_name(source, second),
    ensures
        first == second,
{
    let prefix = hyphenated(source_title(source)) + "-turn-"@;
    let a = zero_padded(decimal(first as nat), 4);
    let b = zero_padded(decimal(second as nat), 4);
    assert((prefix + a).skip(prefix.len() as int) == a);
    assert((prefix + b).skip(prefix.len() as int) == b);
    law_decimal_spells_the_number(first as nat, 4);
    law_decimal_spells_the_number(second as nat, 4);
}

/// Whether each turn of a source is named after its number, and has a number below `next`.
pub open spec fn numbered(session: SessionView, source: SourceKind, next: u64) -> bool {
    forall|i: int|
        0 <= i < session.turns_of(source).len() ==> {
            &&& (#[trigger] session.turns_of(source)[i]).turn_id == turn_name(
                source,
                session.turns_of(source)[i].turn_index,
            )
            &&& session.turns_of(source)[i].turn_index < next
        }
}

proof fn lemma_numbered_after_replacing(
    session: SessionView,
    source: SourceKind,
    next: u64,
    turn: TurnView,
)
    requires
        numbered(session, source, next),
        session.has_turn(source, turn.turn_id),
        turn.turn_index == session.turn(source, turn.turn_id).turn_index,
    ensures
        numbered(session.with_turn(source, turn.turn_id, turn), source, next),
{
    let after = session.with_turn(source, turn.turn_id, turn);
    lemma_turn_index_found(session.turns_of(source), turn.turn_id);
    lemma_replaced_turns(session, source, turn);
    assert forall|i: int| 0 <= i < after.turns_of(source).len() implies {
        &&& (#[trigger] after.turns_of(source)[i]).turn_id == turn_name(
            source,
            after.turns_of(source)[i].turn_index,
        )
        &&& after.turns_of(source)[i].turn_index < next
    } by {
        assert(session.turns_of(source)[i].turn_index < next);
    }
}

/// The turns of a source after one of them was replaced.
proof fn lemma_replaced_turns(session: SessionView, source: SourceKind, turn: TurnView)
    requires
        session.has_turn(source, turn.turn_id),
    ensures
        session.with_turn(source, turn.turn_id, turn).turns_of(source) == session.turns_of(
            source,
        ).update(turn_index(session.turns_of(source), turn.turn_id), turn),
{
    lemma_source_index_found(session.sources, source);
    let after = session.with_turn(source, turn.turn_id, turn);
    lemma_source_index_found(after.sources, source);
    let at = source_index(session.sources, source);
    let now_at = source_index(after.sources, source);
    law_replacing_changes_one_turn(session, source, turn, source, turn.turn_id);
    if now_at < at {
        assert(session.sources[now_at].source != source);
    }
    if at < now_at {
        assert(after.sources[at].source != source);
    }
}

/// Where turns are numbered, the name of the next turn is not taken, and the turns stay
/// numbered once it is registered.
pub proof fn law_next_turn_is_fresh(
    session: SessionView,
    source: SourceKind,
    next: u64,
    now_unix_ms: u128,
)
    requires
        session.has_source(source),
        numbered(session, source, next),
        next < u64::MAX,
    ensures
        !session.has_turn(source, turn_name(source, next)),
        numbered(
            registered(session, source, turn_name(source, next), next, now_unix_ms),
            source,
            next_index(next),
        ),
{
    let name = turn_name(source, next);
    lemma_turn_index_found(session.turns_of(source), name);
    if session.has_turn(source, name) {
        let found = session.turn(source, name);
        law_turn_names_differ(source, found.turn_index, next);
    }
    let turn = new_turn(name, next, now_unix_ms);
    let turns = session.turns_of(source).push(turn);
    let after = session.with_turns(source, turns);
    law_registering_keeps_turns(session, source, turn, source, name);
    lemma_source_index_found(session.sources, source);
    lemma_source_index_found(after.sources, source);
    let at = source_index(session.sources, source);
    let now_at = source_index(after.sources, source);
    if now_at < at {
        assert(session.sources[now_at].source != source);
    }
    if at < now_at {
        assert(after.sources[at].source != source);
    }
    assert(after.turns_of(source) == turns);
    assert forall|i: int| 0 <= i < turns.len() implies {
        &&& (#[trigger] after.turns_of(source)[i]).turn_id == turn_name(
            source,
            after.turns_of(source)[i].turn_index,
        )
        &&& after.turns_of(source)[i].turn_index < next_index(next)
    } by {
        if i < turns.len() - 1 {
            assert(session.turns_of(source)[i].turn_index < next);
        }
    }
}

/// Whatever audio comes, the turns of the source stay numbered, and a turn that begins with it has
/// a name that was not taken.
pub proof fn law_audio_keeps_turns_numbered<S>(
    worker: DraftView<S>,
    session: SessionView,
    chunk: AudioChunk<S>,
    now_unix_ms: u128,
)
    requires
        worker.known_to(session),
        numbered(session, worker.source, worker.next_turn_index),
        worker.next_turn_index < u64::MAX,
    ensures
        ({
            let after = worker.with_audio(chunk);
            let known = if chunk.has_activity {
                worker.session_with_open_turn(session, now_unix_ms)
            } else {
                session
            };
            &&& numbered(known, worker.source, after.next_turn_index)
            &&& worker.current_turn is None && chunk.has_activity ==> {
                &&& after.current_turn matches Some(turn)
                &&& turn.turn_id == turn_name(worker.source, worker.next_turn_index)
                &&& !session.has_turn(worker.source, turn.turn_id)
                &&& known.has_turn(worker.source, turn.turn_id)
            }
        }),
{
    law_next_turn_is_fresh(session, worker.source, worker.next_turn_index, now_unix_ms);
    lemma_known_after_opening(worker, session, chunk.started_at, now_unix_ms);
}

/// Whatever event comes, the turns of the source stay numbered, and a turn that begins with it has
/// a name that was not taken.
pub proof fn law_turns_stay_numbered<S>(
    worker: DraftView<S>,
    session: SessionView,
    metrics: QueueMetrics,
    event: EventView,
    now: i64,
    now_unix_ms: u128,
)
    requires
        worker.known_to(session),
        numbered(session, worker.source, worker.next_turn_index),
        worker.next_turn_index < u64::MAX,
    ensures
        ({
            let step = worker.after_event(session, metrics, event, now, now_unix_ms).step;
            &&& numbered(step.session, worker.source, step.worker.next_turn_index)
            &&& worker.current_turn is None ==> (step.worker.current_turn matches Some(turn)
                ==> turn.turn_id == turn_name(worker.source, worker.next_turn_index)
                && !session.has_turn(worker.source, turn.turn_id))
        }),
{
    let source = worker.source;
    let next = worker.next_turn_index;
    law_next_turn_is_fresh(session, source, next, now_unix_ms);
    match event {
        EventView::InputTranscription(heard) => {
            let text = trimmed(heard);
            if text.len() > 0 {
                if worker.revises_last_turn(text) {
                    let turn_id = worker.last_completed_turn_id->Some_0;
                    lemma_named(worker, session, turn_id);
                    lemma_numbered_after_replacing(
                        session,
                        source,
                        next,
                        with_draft(session.turn(source, turn_id), text),
                    );
                } else {
                    lemma_known_after_opening(worker, session, now as i128, now_unix_ms);
                    let open = worker.with_open_turn(now as i128);
                    let known = worker.session_with_open_turn(session, now_unix_ms);
                    let turn_id = open.current_turn->Some_0.turn_id;
                    lemma_named(open, known, turn_id);
                    lemma_numbered_after_replacing(
                        known,
                        source,
                        open.next_turn_index,
                        with_draft(known.turn(source, turn_id), text),
                    );
                }
            }
        },
        EventView::TurnComplete => match worker.current_turn {
            Some(turn) => {
                lemma_named(worker, session, turn.turn_id);
                let waiting = as_pending(session.turn(source, turn.turn_id));
                lemma_known_after_replacing(worker, session, waiting);
                lemma_numbered_after_replacing(session, source, next, waiting);
                let pending = session.with_turn(source, turn.turn_id, waiting);
                lemma_numbered_after_replacing(
                    pending,
                    source,
                    next,
                    as_failed(
                        pending.turn(source, turn.turn_id),
                        no_audio_error(),
                        now_unix_ms,
                    ),
                );
            },
            None => {},
        },
        _ => {},
    }
}

/// No event touches the audio that waits to be sent, and the audio of the current turn is
/// either kept with it or queued with it, whole.
pub proof fn law_events_keep_the_audio<S>(
    worker: DraftView<S>,
    session: SessionView,
    metrics: QueueMetrics,
    event: EventView,
    now: i64,
    now_unix_ms: u128,
)
    ensures
        ({
            let reaction = worker.after_event(session, metrics, event, now, now_unix_ms);
            let after = reaction.step.worker;
            &&& after.pending_audio == worker.pending_audio
            &&& match worker.current_turn {
                Some(turn) => match (after.current_turn, reaction.queued) {
                    (Some(kept), None) => kept.turn_id == turn.turn_id && kept.audio == turn.audio
                        && kept.audio_duration == turn.audio_duration,
                    (None, Some(queued)) => event is TurnComplete && queued.turn_id
                        == turn.turn_id && queued.audio == turn.audio && queued.audio_duration
                        == turn.audio_duration,
                    (None, None) => event is TurnComplete && turn.audio.len() == 0,
                    (Some(_), Some(_)) => false,
                },
                None => reaction.queued is None,
            }
        }),
{
}

/// A completed turn waits for its final text, or has failed where it has no audio.
pub proof fn law_completed_turn_is_accounted_for<S>(
    worker: DraftView<S>,
    session: SessionView,
    metrics: QueueMetrics,
    now_unix_ms: u128,
)
    requires
        worker.known_to(session),
        worker.current_turn is Some,
    ensures
        ({
            let turn = worker.current_turn->Some_0;
            let reaction = worker.after_completion(session, metrics, now_unix_ms);
            let record = reaction.step.session.turn(worker.source, turn.turn_id);
            &&& record.draft_text == session.turn(worker.source, turn.turn_id).draft_text
            &&& if turn.audio.len() == 0 {
                &&& record.state == TurnState::Failed
                &&& record.error == Some(no_audio_error())
                &&& reaction.queued is None
                &&& reaction.metrics == metrics
            } else {
                &&& record.state == TurnState::Pending
                &&& reaction.queued is Some
                &&& reaction.metrics == metrics_with(metrics, Seconds::of(turn.audio_duration))
            }
        }),
{
    let turn = worker.current_turn->Some_0;
    lemma_named(worker, session, turn.turn_id);
    let waiting = as_pending(session.turn(worker.source, turn.turn_id));
    lemma_known_after_replacing(worker, session, waiting);
    let pending = session.with_turn(worker.source, turn.turn_id, waiting);
    lemma_known_after_replacing(
        worker,
        pending,
        as_failed(pending.turn(worker.source, turn.turn_id), no_audio_error(), now_unix_ms),
    );
}

/// A worker that was told to stop does so only behind the end of its audio stream, which is what
/// it sends first on a connection where it was not sent.
pub proof fn law_stop_follows_the_end_of_audio<S>(worker: DraftView<S>, now: i64)
    ensures
        worker.action(now) == DraftAction::Stop ==> worker.sent_audio_stream_end
            && worker.shutdown.requested && worker.connected,
        worker.shutdown.requested && worker.connected && !worker.sent_audio_stream_end
            ==> worker.action(now) == DraftAction::FlushAndEnd,
{
}

/// Whether one of two texts goes on where the other ends: they agree as far as both go.
pub open spec fn goes_on(existing: Seq<char>, text: Seq<char>) -> bool {
    forall|i: int| 0 <= i < existing.len() && i < text.len() ==> existing[i] == text[i]
}

proof fn lemma_matching_drafts_go_on(existing: Seq<char>, text: Seq<char>)
    ensures
        drafts_match(existing, text) == goes_on(existing, text),
{
    if goes_on(existing, text) {
        if existing.len() <= text.len() {
            assert(existing == text.subrange(0, existing.len() as int));
        } else {
            assert(text == existing.subrange(0, text.len() as int));
        }
    }
    if existing.is_prefix_of(text) {
        assert forall|i: int| 0 <= i < existing.len() && i < text.len() implies existing[i]
            == text[i] by {
            assert(text.subrange(0, existing.len() as int)[i] == text[i]);
        }
    }
    if text.is_prefix_of(existing) {
        assert forall|i: int| 0 <= i < existing.len() && i < text.len() implies existing[i]
            == text[i] by {
            assert(existing.subrange(0, text.len() as int)[i] == existing[i]);
        }
    }
}

/// A transcription in which something was said becomes, trimmed, the draft of one turn: in the
/// transcript, in what the worker remembers, and on screen. That is the turn that was completed
/// last, where the text goes on from its draft and not from that of the current turn, and the
/// current turn otherwise, which begins now where there is none. No other turn changes. A blank
/// transcription changes nothing.
pub proof fn law_drafts_follow_the_transcription<S>(
    worker: DraftView<S>,
    session: SessionView,
    metrics: QueueMetrics,
    heard: Seq<char>,
    now: i64,
    now_unix_ms: u128,
    other_source: SourceKind,
    other_id: Seq<char>,
)
    requires
        worker.known_to(session),
    ensures
        ({
            let text = trimmed(heard);
            let source = worker.source;
            let event = EventView::InputTranscription(heard);
            let reaction = worker.after_event(session, metrics, event, now, now_unix_ms);
            let after = reaction.step.worker;
            let known = reaction.step.session;
            let revised = {
                &&& worker.last_completed_turn_id is Some
                &&& goes_on(worker.last_completed_draft_text, text)
                &&& !(worker.current_turn matches Some(turn) && goes_on(turn.draft_text, text))
            };
            let turn_id = if revised {
                worker.last_completed_turn_id->Some_0
            } else {
                after.current_turn->Some_0.turn_id
            };
            let record = known.turn(source, turn_id);
            &&& reaction.metrics == metrics
            &&& reaction.queued is None
            &&& reaction.closed is None
            &&& reaction.step.effects.log.len() == 0
            &&& if text.len() == 0 {
                &&& after == worker
                &&& known == session
                &&& reaction.step.effects.ui.len() == 0
            } else {
                &&& known.has_turn(source, turn_id)
                &&& record.draft_text == text
                &&& if session.has_turn(source, turn_id) {
                    record == (TurnView { draft_text: text, ..session.turn(source, turn_id) })
                } else {
                    &&& record.turn_id == turn_id
                    &&& record.turn_index == worker.next_turn_index
                    &&& record.state == TurnState::Draft
                    &&& record.text.len() == 0
                    &&& record.created_at_unix_ms == now_unix_ms
                    &&& record.finalized_at_unix_ms is None
                    &&& record.error is None
                }
                &&& session.has_turn(other_source, other_id) && (other_source != source || other_id
                    != turn_id) ==> known.has_turn(other_source, other_id) && known.turn(
                    other_source,
                    other_id,
                ) == session.turn(other_source, other_id)
                &&& after == (DraftView {
                    current_turn: after.current_turn,
                    last_completed_draft_text: after.last_completed_draft_text,
                    next_turn_index: after.next_turn_index,
                    ..worker
                })
                &&& if revised {
                    &&& after.last_completed_draft_text == text
                    &&& after.current_turn == worker.current_turn
                    &&& after.next_turn_index == worker.next_turn_index
                } else {
                    &&& after.last_completed_draft_text == worker.last_completed_draft_text
                    &&& after.current_turn matches Some(turn)
                    &&& turn.draft_text == text
                    &&& match worker.current_turn {
                        Some(before) => {
                            &&& turn == (CurrentView { draft_text: text, ..before })
                            &&& after.next_turn_index == worker.next_turn_index
                        },
                        None => {
                            &&& turn.turn_id == turn_name(source, worker.next_turn_index)
                            &&& turn.started_at == now
                            &&& turn.audio.len() == 0
                            &&& turn.audio_duration == 0
                            &&& worker.next_turn_index < u64::MAX ==> after.next_turn_index
                                == worker.next_turn_index + 1
                        },
                    }
                }
                &&& reaction.step.effects.ui == seq![
                    AppEvent::DraftStatus { source, status: "capturing"@ },
                    AppEvent::DraftTranscript {
                        source,
                        turn_id,
                        at: if revised {
                            now as i128
                        } else {
                            after.current_turn->Some_0.started_at
                        },
                        text,
                    },
                ]
            }
        }),
{
    let text = trimmed(heard);
    let source = worker.source;
    lemma_matching_drafts_go_on(worker.last_completed_draft_text, text);
    if let Some(turn) = worker.current_turn {
        lemma_matching_drafts_go_on(turn.draft_text, text);
    }
    let step = worker.after_transcription(session, heard, now, now_unix_ms);
    assert(no_effects().ui =~= Seq::<AppEvent<Seq<char>>>::empty());
    if text.len() > 0 {
        if worker.revises_last_turn(text) {
            let turn_id = worker.last_completed_turn_id->Some_0;
            lemma_named(worker, session, turn_id);
            let turn = with_draft(session.turn(source, turn_id), text);
            law_replacing_changes_one_turn(session, source, turn, other_source, other_id);
            law_replacing_changes_one_turn(session, source, turn, source, turn_id);
            assert(step.effects.ui =~= seq![
                AppEvent::DraftStatus { source, status: "capturing"@ },
                AppEvent::DraftTranscript { source, turn_id, at: now as i128, text },
            ]);
        } else {
            let open = worker.with_open_turn(now as i128);
            let known = worker.session_with_open_turn(session, now_unix_ms);
            let turn_id = open.current_turn->Some_0.turn_id;
            lemma_known_after_opening(worker, session, now as i128, now_unix_ms);
            lemma_named(open, known, turn_id);
            if worker.current_turn is None && !session.has_turn(source, turn_id) {
                let begun = new_turn(turn_id, worker.next_turn_index, now_unix_ms);
                law_registering_keeps_turns(session, source, begun, other_source, other_id);
                law_registering_keeps_turns(session, source, begun, source, turn_id);
            }
            let turn = with_draft(known.turn(source, turn_id), text);
            law_replacing_changes_one_turn(known, source, turn, other_source, other_id);
            law_replacing_changes_one_turn(known, source, turn, source, turn_id);
            assert(step.effects.ui =~= seq![
                AppEvent::DraftStatus { source, status: "capturing"@ },
                AppEvent::DraftTranscript {
                    source,
                    turn_id,
                    at: open.current_turn->Some_0.started_at,
                    text,
                },
            ]);
        }
    }
}

/// The end of a turn hands the turn over whole: it is queued under its name, with all its audio
/// and no attempts made, waits in the transcript for its final text with its draft kept, counts in
/// the metrics, and is remembered as the turn that was completed last. A turn without audio is not
/// queued but fails. Without a current turn nothing happens. No other turn changes.
pub proof fn law_completed_turns_are_handed_over<S>(
    worker: DraftView<S>,
    session: SessionView,
    metrics: QueueMetrics,
    now: i64,
    now_unix_ms: u128,
    other_source: SourceKind,
    other_id: Seq<char>,
)
    requires
        worker.known_to(session),
    ensures
        ({
            let source = worker.source;
            let reaction = worker.after_event(
                session,
                metrics,
                EventView::TurnComplete,
                now,
                now_unix_ms,
            );
            let after = reaction.step.worker;
            let known = reaction.step.session;
            let shown = reaction.step.effects.ui;
            &&& reaction.closed is None
            &&& reaction.step.effects.log.len() == 0
            &&& match worker.current_turn {
                None => {
                    &&& after == worker
                    &&& known == session
                    &&& reaction.metrics == metrics
                    &&& reaction.queued is None
                    &&& shown.len() == 0
                },
                Some(turn) => {
                    let before = session.turn(source, turn.turn_id);
                    let record = known.turn(source, turn.turn_id);
                    &&& after == (DraftView {
                        current_turn: None,
                        last_completed_turn_id: Some(turn.turn_id),
                        last_completed_draft_text: turn.draft_text,
                        ..worker
                    })
                    &&& known.has_turn(source, turn.turn_id)
                    &&& session.has_turn(other_source, other_id) && (other_source != source
                        || other_id != turn.turn_id) ==> known.has_turn(other_source, other_id)
                        && known.turn(other_source, other_id) == session.turn(
                        other_source,
                        other_id,
                    )
                    &&& shown.len() == 3
                    &&& shown[0] == AppEvent::DraftStatus { source, status: "listening"@ }
                    &&& shown[1] == AppEvent::TurnPending::<Seq<char>> {
                        source,
                        turn_id: turn.turn_id,
                    }
                    &&& if turn.audio.len() > 0 {
                        &&& reaction.queued matches Some(queued)
                        &&& queued.turn_id == turn.turn_id
                        &&& queued.audio == turn.audio
                        &&& queued.audio_duration == turn.audio_duration
                        &&& queued.attempt_count == 0
                        &&& record == (TurnView { state: TurnState::Pending, ..before })
                        &&& metrics.queue_depth < usize::MAX ==> reaction.metrics.queue_depth
                            == metrics.queue_depth + 1
                        &&& reaction.metrics.pending_audio_secs == metrics.pending_audio_secs.sum(
                            Seconds::of(turn.audio_duration),
                        )
                        &&& shown[2] == AppEvent::QueueMetrics::<Seq<char>> {
                            source,
                            queue_depth: reaction.metrics.queue_depth,
                            pending_audio_secs: reaction.metrics.pending_audio_secs,
                        }
                    } else {
                        let error = "draft turn completed without buffered audio"@;
                        &&& reaction.queued is None
                        &&& reaction.metrics == metrics
                        &&& record == (TurnView {
                            state: TurnState::Failed,
                            error: Some(error),
                            finalized_at_unix_ms: Some(now_unix_ms),
                            ..before
                        })
                        &&& shown[2] == AppEvent::TurnFailed {
                            source,
                            turn_id: turn.turn_id,
                            error,
                        }
                    }
                },
            }
        }),
{
    if let Some(turn) = worker.current_turn {
        let source = worker.source;
        lemma_named(worker, session, turn.turn_id);
        let waiting = as_pending(session.turn(source, turn.turn_id));
        lemma_known_after_replacing(worker, session, waiting);
        law_replacing_changes_one_turn(session, source, waiting, other_source, other_id);
        let pending = session.with_turn(source, turn.turn_id, waiting);
        let failed = as_failed(
            pending.turn(source, turn.turn_id),
            no_audio_error(),
            now_unix_ms,
        );
        lemma_known_after_replacing(worker, pending, failed);
        law_replacing_changes_one_turn(pending, source, failed, other_source, other_id);
    }
}

/// Audio that comes in is to be sent, behind the audio that already waits, and belongs to the
/// current turn, behind what that has heard. Where there is none, audio in which something is
/// heard begins a turn at the time of the audio, and other audio belongs to no turn.
pub proof fn law_audio_belongs_to_the_current_turn<S>(
    worker: DraftView<S>,
    session: SessionView,
    chunk: AudioChunk<S>,
    now_unix_ms: u128,
)
    requires
        worker.known_to(session),
    ensures
        ({
            let after = worker.with_audio(chunk);
            let known = worker.session_with_open_turn(session, now_unix_ms);
            &&& after.pending_audio == worker.pending_audio.push(chunk)
            &&& after == (DraftView {
                pending_audio: after.pending_audio,
                current_turn: after.current_turn,
                next_turn_index: after.next_turn_index,
                ..worker
            })
            &&& match worker.current_turn {
                Some(before) => {
                    &&& after.current_turn matches Some(turn)
                    &&& turn.turn_id == before.turn_id
                    &&& turn.started_at == before.started_at
                    &&& turn.draft_text == before.draft_text
                    &&& turn.audio == before.audio + chunk.samples@
                    &&& before.audio_duration + chunk.duration <= u128::MAX ==> turn.audio_duration
                        == before.audio_duration + chunk.duration
                    &&& after.next_turn_index == worker.next_turn_index
                    &&& known == session
                },
                None => if chunk.has_activity {
                    &&& after.current_turn matches Some(turn)
                    &&& turn.turn_id == turn_name(worker.source, worker.next_turn_index)
                    &&& turn.started_at == chunk.started_at
                    &&& turn.draft_text.len() == 0
                    &&& turn.audio == chunk.samples@
                    &&& turn.audio_duration == chunk.duration
                    &&& worker.next_turn_index < u64::MAX ==> after.next_turn_index
                        == worker.next_turn_index + 1
                    &&& known.has_turn(worker.source, turn.turn_id)
                } else {
                    &&& after.current_turn is None
                    &&& after.next_turn_index == worker.next_turn_index
                },
            }
        }),
{
    lemma_known_after_opening(worker, session, chunk.started_at, now_unix_ms);
    if worker.current_turn is None && chunk.has_activity {
        assert(Seq::<S>::empty() + chunk.samples@ == chunk.samples@);
    }
}

/// An event that neither brings a draft nor ends a turn leaves the turns, the transcript and the
/// metrics alone. Token counts are shown as they were reported. A new handle is kept where the
/// session can be resumed with it, and no other event touches the handle. That the connection
/// will be renewed or was closed is said in a notice, and only a closed connection ends the
/// session.
pub proof fn law_other_events_leave_the_turns_alone<S>(
    worker: DraftView<S>,
    session: SessionView,
    metrics: QueueMetrics,
    event: EventView,
    now: i64,
    now_unix_ms: u128,
)
    requires
        !(event is InputTranscription),
        !(event is TurnComplete),
    ensures
        ({
            let source = worker.source;
            let reaction = worker.after_event(session, metrics, event, now, now_unix_ms);
            let after = reaction.step.worker;
            let shown = reaction.step.effects.ui;
            let logged = reaction.step.effects.log;
            &&& reaction.step.session == session
            &&& reaction.metrics == metrics
            &&& reaction.queued is None
            &&& after == (DraftView { resume_handle: after.resume_handle, ..worker })
            &&& match event {
                EventView::SessionResumptionUpdate { new_handle, resumable } => {
                    &&& resumable && new_handle is Some ==> after.resume_handle == new_handle
                    &&& !resumable || new_handle is None ==> after.resume_handle
                        == worker.resume_handle
                    &&& shown.len() == 0
                    &&& logged.len() == 1
                    &&& logged[0].event == "session_resumption_update"@
                },
                _ => after.resume_handle == worker.resume_handle,
            }
            &&& match event {
                EventView::ConnectionClosed(reason) => reaction.closed == Some(reason),
                _ => reaction.closed is None,
            }
            &&& event matches EventView::UsageMetadata(usage) ==> {
                &&& shown.len() == 1
                &&& shown[0] matches AppEvent::Usage { source: of, usage: counts }
                &&& of == source
                &&& counts.prompt_token_count == usage.prompt_token_count
                &&& counts.cached_content_token_count == usage.cached_content_token_count
                &&& counts.response_token_count == usage.response_token_count
                &&& counts.tool_use_prompt_token_count == usage.tool_use_prompt_token_count
                &&& counts.thoughts_token_count == usage.thoughts_token_count
                &&& counts.total_token_count == usage.total_token_count
            }
            &&& event matches EventView::GoAway { time_left } ==> {
                &&& shown.len() == 1
                &&& shown[0] matches AppEvent::Notice(notice)
                &&& time_left.is_suffix_of(notice)
                &&& source_title(source).is_prefix_of(notice)
                &&& logged.len() == 1
                &&& logged[0].event == "go_away"@
                &&& logged[0].details.member("time_left"@) == Some(JsonView::Text(time_left))
            }
            &&& event matches EventView::ConnectionClosed(reason) ==> {
                &&& shown.len() == 1
                &&& shown[0] matches AppEvent::Notice(notice)
                &&& reason.is_suffix_of(notice)
                &&& source_title(source).is_prefix_of(notice)
            }
            &&& event is GenerationComplete ==> {
                &&& shown.len() == 1
                &&& shown[0] == AppEvent::DraftStatus { source, status: "listening"@ }
                &&& logged.len() == 1
                &&& logged[0].event == "generation_complete"@
                &&& logged[0].details.member("turn_id"@) == Some(
                    match worker.current_turn {
                        Some(turn) => JsonView::Text(turn.turn_id),
                        None => JsonView::Null,
                    },
                )
            }
            &&& event is SetupComplete || event is ModelText || event is ToolCall
                || event is ToolCallCancellation ==> shown.len() == 0 && logged.len() == 0
        }),
{
    let title = source_title(worker.source);
    match event {
        EventView::GoAway { time_left } => {
            let notice = title + " draft connection will renew in "@ + time_left;
            assert(notice.subrange(0, title.len() as int) == title);
            assert(notice.subrange(notice.len() - time_left.len(), notice.len() as int)
                == time_left);
        },
        EventView::ConnectionClosed(reason) => {
            let notice = title + " draft connection closed: "@ + reason;
            assert(notice.subrange(0, title.len() as int) == title);
            assert(notice.subrange(notice.len() - reason.len(), notice.len() as int) == reason);
        },
        _ => {},
    }
}

/// What a worker does next: it connects where it is not connected; told to stop, it first ends
/// its audio stream, and stops when its deadline has passed; otherwise it streams, sends the
/// audio that waits, and takes in more so long as it was not told to stop.
pub proof fn law_next_action<S>(worker: DraftView<S>, now: i64)
    ensures
        worker.action(now) == DraftAction::Connect <==> !worker.connected,
        worker.action(now) == DraftAction::FlushAndEnd <==> worker.connected
            && worker.shutdown.requested && !worker.sent_audio_stream_end,
        worker.action(now) == DraftAction::Stop <==> worker.connected && worker.shutdown.requested
            && worker.sent_audio_stream_end && worker.shutdown.deadline is Some && now
            >= worker.shutdown.deadline->Some_0,
        worker.action(now) matches DraftAction::Stream { send_audio, accept_audio } ==> {
            &&& send_audio <==> worker.pending_audio.len() > 0
            &&& accept_audio <==> !worker.shutdown.requested
        },
{
}

/// An attempt to connect that begins is shown: as the first, as one that resumes the session, or
/// as one that starts it again; and all but the first are noticed.
pub proof fn law_connecting_is_shown<S>(worker: DraftView<S>)
    ensures
        ({
            let shown = worker.connecting_effects().ui;
            let logged = worker.connecting_effects().log;
            let status = if !worker.has_connected_once {
                "connecting"@
            } else if worker.resume_handle is Some {
                "resuming"@
            } else {
                "reconnecting"@
            };
            &&& shown[0] == AppEvent::DraftStatus { source: worker.source, status }
            &&& shown.len() == if worker.has_connected_once {
                2nat
            } else {
                1nat
            }
            &&& worker.has_connected_once ==> (shown[1] matches AppEvent::Notice(notice)
                && source_title(worker.source).is_prefix_of(notice))
            &&& logged.len() == 1
            &&& logged[0].event == "state"@
            &&& logged[0].details.member("status"@) == Some(JsonView::Text(status))
            &&& logged[0].details.member("resume_handle_present"@) == Some(
                JsonView::Bool(worker.resume_handle is Some),
            )
            &&& logged[0].details.member("reconnect_attempt"@) == Some(
                JsonView::Number(unsigned_number(worker.reconnect_attempt as u64)),
            )
        }),
{
    reveal_strlit("status");
    reveal_strlit("reconnect_attempt");
    reveal_strlit("resume_handle_present");
    assert("status"@.len() == 6 && "reconnect_attempt"@.len() == 17
        && "resume_handle_present"@.len() == 21);
    let title = source_title(worker.source);
    let notice = reconnect_text(
        worker.source,
        "draft"@,
        worker.has_connected_once,
        worker.resume_handle is Some,
    );
    if let Some(notice) = notice {
        assert(notice.subrange(0, title.len() as int) == title);
    }
}

/// A lost connection is explained by what was reported.
pub proof fn law_losses_name_their_cause(loss: ConnectionLoss)
    ensures
        loss matches ConnectionLoss::SendFailed(error) ==> error@.is_suffix_of(loss_text(loss)),
        loss matches ConnectionLoss::ReceiveFailed(error) ==> error@.is_suffix_of(loss_text(loss)),
        loss matches ConnectionLoss::Closed(reason) ==> loss_text(loss) == reason@,
{
    match loss {
        ConnectionLoss::SendFailed(error) | ConnectionLoss::ReceiveFailed(error) => {
            let text = loss_text(loss);
            assert(text.subrange(text.len() - error@.len(), text.len() as int) == error@);
        },
        _ => {},
    }
}

/// The details of a failed attempt to connect name the error, the attempt and the wait, and those
/// of a lost connection the reason, the attempt and whether the session can be resumed.
pub proof fn law_connection_details(text: Seq<char>, attempt: u32, has_handle: bool)
    ensures
        ({
            let failed = reconnect_failed_details(text, attempt);
            let lost = connection_lost_details(text, attempt, has_handle);
            let number = JsonView::Number(unsigned_number(attempt as u64));
            &&& failed.member("error"@) == Some(JsonView::Text(text))
            &&& failed.member("reconnect_attempt"@) == Some(number)
            &&& failed.member("backoff_ms"@) == Some(
                JsonView::Number(unsigned_number(backoff_ms(attempt) as u64)),
            )
            &&& lost.member("reason"@) == Some(JsonView::Text(text))
            &&& lost.member("reconnect_attempt"@) == Some(number)
            &&& lost.member("resume_handle_present"@) == Some(JsonView::Bool(has_handle))
        }),
{
    reveal_strlit("error");
    reveal_strlit("reason");
    reveal_strlit("backoff_ms");
    reveal_strlit("reconnect_attempt");
    reveal_strlit("resume_handle_present");
    assert("error"@.len() == 5 && "reason"@.len() == 6 && "backoff_ms"@.len() == 10
        && "reconnect_attempt"@.len() == 17 && "resume_handle_present"@.len() == 21);
}

/// After a transcription in which something is heard, a turn of the source has exactly the
/// trimmed text as its draft, the worker remembers that text for that turn, and it is shown as the
/// draft of that turn.
pub proof fn law_transcriptions_become_drafts<S: Copy>(
    worker: &mut DraftWorker<S>,
    store: &mut TranscriptStore,
    metrics: &mut QueueMetrics,
    event: TranscriptEvent,
    heard: String,
    now: i64,
    now_unix_ms: u128,
    outcome: DraftOutcome<S>,
)
    requires
        old(worker)@.known_to(old(store)@),
        event == TranscriptEvent::InputTranscription(heard),
        trimmed(heard@).len() > 0,
        call_ensures(
            DraftWorker::<S>::handle_draft_event,
            (worker, store, metrics, event, now, now_unix_ms),
            outcome,
        ),
    ensures
        ({
            let text = trimmed(heard@);
            let source = old(worker)@.source;
            &&& *final(metrics) == *old(metrics)
            &&& outcome.queued is None
            &&& outcome.closed is None
            &&& exists|turn_id: Seq<char>|
                {
                    &&& #[trigger] final(store)@.has_turn(source, turn_id)
                    &&& final(store)@.turn(source, turn_id).draft_text == text
                    &&& {
                        ||| final(worker)@.current_turn matches Some(turn) && turn.turn_id
                            == turn_id && turn.draft_text == text
                        ||| final(worker)@.last_completed_turn_id == Some(turn_id)
                            && final(worker)@.last_completed_draft_text == text
                    }
                    &&& outcome.effects@.ui.len() > 0
                    &&& outcome.effects@.ui.last() matches AppEvent::DraftTranscript {
                        source: of,
                        turn_id: named,
                        at,
                        text: shown,
                    }
                    &&& of == source && named == turn_id && shown == text
                }
        }),
{
    let before = old(worker)@;
    let source = before.source;
    let reaction = before.after_event(old(store)@, *old(metrics), event@, now, now_unix_ms);
    law_drafts_follow_the_transcription(
        before,
        old(store)@,
        *old(metrics),
        heard@,
        now,
        now_unix_ms,
        source,
        Seq::empty(),
    );
    let shown = outcome.effects@.ui.last();
    assert(outcome.effects@ == reaction.step.effects);
    assert(shown == outcome.effects@.ui[1]);
    let turn_id = shown->DraftTranscript_turn_id;
    assert(final(store)@.has_turn(source, turn_id));
}

/// A worker that connects is connected and starts to count its attempts anew; one that loses its
/// connection connects again, sends the end of its audio again, and counts one attempt more. All
/// that waits to be sent, the current turn and the handle stay.
pub proof fn law_connections_come_and_go<S: Copy>(
    worker: &mut DraftWorker<S>,
    loss: &ConnectionLoss,
    effects: Effects,
    now: i64,
)
    ensures
        call_ensures(DraftWorker::<S>::connect_succeeded, (worker,), effects) ==> {
            &&& final(worker)@ == (DraftView {
                connected: true,
                has_connected_once: true,
                reconnect_attempt: 0,
                ..old(worker)@
            })
            &&& effects@.ui == seq![
                AppEvent::DraftStatus { source: old(worker)@.source, status: "listening"@ },
            ]
        },
        call_ensures(DraftWorker::<S>::connection_lost, (worker, loss), effects) ==> {
            let attempt = final(worker)@.reconnect_attempt;
            &&& final(worker)@ == (DraftView {
                connected: false,
                sent_audio_stream_end: false,
                reconnect_attempt: attempt,
                ..old(worker)@
            })
            &&& old(worker)@.reconnect_attempt < u32::MAX ==> attempt
                == old(worker)@.reconnect_attempt + 1
            &&& final(worker)@.action(now) == DraftAction::Connect
            &&& effects@.ui.len() == 2
            &&& effects@.ui[0] == AppEvent::DraftStatus {
                source: old(worker)@.source,
                status: "reconnecting"@,
            }
            &&& effects@.ui[1] matches AppEvent::Notice(notice)
            &&& loss_text(*loss).is_suffix_of(notice)
            &&& effects@.log.len() == 1
            &&& effects@.log[0].event == "connection_lost"@
        },
{
    if call_ensures(DraftWorker::<S>::connect_succeeded, (worker,), effects) {
        assert(effects@.ui == seq![
            AppEvent::DraftStatus { source: old(worker)@.source, status: "listening"@ },
        ]);
    }
    if call_ensures(DraftWorker::<S>::connection_lost, (worker, loss), effects) {
        let notice = effects@.ui[1]->Notice_0;
        let reason = loss_text(*loss);
        assert(notice.subrange(notice.len() - reason.len(), notice.len() as int) == reason);
    }
}

/// A worker whose first connection fails gives up with the error; one that was connected before
/// tries again after the wait of its attempt, and says so; one that was told to stop stops.
pub proof fn law_failed_connections_are_tried_again<S: Copy>(
    worker: &mut DraftWorker<S>,
    error: &str,
    result: (ConnectFailure, Effects),
)
    requires
        call_ensures(DraftWorker::<S>::connect_failed, (worker, error), result),
    ensures
        ({
            let before = old(worker)@;
            let after = final(worker)@;
            let fatal = !before.shutdown.requested && !before.has_connected_once;
            &&& result.0 is Fatal <==> fatal
            &&& result.0 is Stop <==> before.shutdown.requested
            &&& after == (DraftView { reconnect_attempt: after.reconnect_attempt, ..before })
            &&& fatal ==> after.reconnect_attempt == before.reconnect_attempt && result.1@.ui
                == seq![AppEvent::SourceError { source: before.source, error: error@ }]
            &&& !fatal && before.reconnect_attempt < u32::MAX ==> after.reconnect_attempt
                == before.reconnect_attempt + 1
            &&& result.0 matches ConnectFailure::Retry { backoff_ms: wait } ==> wait == backoff_ms(
                after.reconnect_attempt,
            ) && result.1@.ui.len() == 1 && result.1@.ui[0] is Notice
            &&& result.0 is Stop ==> result.1@.ui.len() == 0
            &&& result.1@.log.len() == 1
        }),
{
    let before = old(worker)@;
    if !before.shutdown.requested && !before.has_connected_once {
        assert(result.1@.ui == seq![
            AppEvent::SourceError { source: before.source, error: error@ },
        ]);
    }
}

/// The audio that waits is sent in the order in which it came: the next to be sent is the oldest,
/// which is then waited for no more, and what comes in waits behind the rest. Audio without
/// samples is passed over.
pub proof fn law_audio_is_sent_in_order<S: Copy>(
    worker: &mut DraftWorker<S>,
    store: &mut TranscriptStore,
    chunk: AudioChunk<S>,
    next: Option<&AudioChunk<S>>,
    now_unix_ms: u128,
)
    ensures
        call_ensures(
            DraftWorker::<S>::audio_received,
            (worker, store, chunk, now_unix_ms),
            (),
        ) ==> {
            &&& chunk.samples@.len() > 0 ==> final(worker)@.pending_audio
                == old(worker)@.pending_audio.push(chunk)
            &&& chunk.samples@.len() == 0 ==> final(worker)@ == old(worker)@ && final(store)@
                == old(store)@
        },
        call_ensures(DraftWorker::<S>::audio_sent, (worker,), ()) ==> {
            &&& old(worker)@.pending_audio.len() > 0 ==> final(worker)@ == (DraftView {
                pending_audio: old(worker)@.pending_audio.drop_first(),
                ..old(worker)@
            })
            &&& old(worker)@.pending_audio.len() == 0 ==> final(worker)@ == old(worker)@
        },
        call_ensures(DraftWorker::<S>::front_audio, (&*old(worker),), next) ==> {
            &&& next is Some <==> old(worker)@.pending_audio.len() > 0
            &&& next matches Some(oldest) ==> *oldest == old(worker)@.pending_audio[0]
        },
{
}

/// A worker that is told to stop has five seconds for it, from the first time it is told; it ends
/// its audio stream once.
pub proof fn law_workers_stop_in_time<S: Copy>(
    worker: &mut DraftWorker<S>,
    now: i64,
    action: DraftAction,
)
    ensures
        call_ensures(DraftWorker::<S>::request_shutdown, (worker, now), ()) ==> {
            let shutdown = final(worker)@.shutdown;
            &&& final(worker)@ == (DraftView { shutdown, ..old(worker)@ })
            &&& shutdown.requested
            &&& old(worker)@.shutdown.deadline is None ==> (shutdown.deadline matches Some(
                deadline,
            ) && deadline == now + 5_000_000_000)
            &&& old(worker)@.shutdown.deadline is Some ==> shutdown.deadline
                == old(worker)@.shutdown.deadline
        },
        call_ensures(DraftWorker::<S>::next_action, (worker, now), action) ==> {
            &&& action == DraftAction::FlushAndEnd ==> final(worker)@.sent_audio_stream_end
                && !old(worker)@.sent_audio_stream_end
            &&& final(worker)@ == (DraftView {
                sent_audio_stream_end: final(worker)@.sent_audio_stream_end,
                ..old(worker)@
            })
            &&& action != DraftAction::FlushAndEnd ==> final(worker)@ == old(worker)@
            &&& action == DraftAction::Connect <==> !old(worker)@.connected
        },
{
}

/// A turn that is current when a worker finishes is left with its draft as its text; a turn that
/// nobody is left to finalize fails. No other turn changes.
pub proof fn law_unfinished_turns_are_settled<S: Copy>(
    worker: &mut DraftWorker<S>,
    refusing: &DraftWorker<S>,
    store: &mut TranscriptStore,
    turn_id: String,
    now_unix_ms: u128,
    effects: Effects,
    other_source: SourceKind,
    other_id: Seq<char>,
)
    requires
        old(worker)@.known_to(old(store)@),
        old(store)@.has_turn(refusing.source, turn_id@),
        old(store)@.has_turn(other_source, other_id),
    ensures
        call_ensures(DraftWorker::<S>::finish, (worker, store), effects) ==> {
            let source = old(worker)@.source;
            &&& final(worker)@.current_turn is None
            &&& old(worker)@.current_turn is None ==> final(store)@ == old(store)@
            &&& old(worker)@.current_turn matches Some(turn) ==> {
                let before = old(store)@.turn(source, turn.turn_id);
                let record = final(store)@.turn(source, turn.turn_id);
                &&& record.state == TurnState::Unfinalized
                &&& record.draft_text == before.draft_text
                &&& before.text.len() == 0 ==> record.text == before.draft_text
                &&& other_source != source || other_id != turn.turn_id ==> final(store)@.turn(
                    other_source,
                    other_id,
                ) == old(store)@.turn(other_source, other_id)
            }
            &&& effects@.ui.len() == 1
            &&& effects@.ui[0] == AppEvent::DraftStatus { source, status: "stopped"@ }
        },
        call_ensures(
            DraftWorker::<S>::queue_refused,
            (refusing, store, turn_id, now_unix_ms),
            effects,
        ) ==> {
            let record = final(store)@.turn(refusing.source, turn_id@);
            &&& record.state == TurnState::Failed
            &&& record.draft_text == old(store)@.turn(refusing.source, turn_id@).draft_text
            &&& record.error matches Some(error)
            &&& effects@.ui.len() == 1
            &&& effects@.ui[0] == AppEvent::TurnFailed {
                source: refusing.source,
                turn_id: turn_id@,
                error,
            }
            &&& other_source != refusing.source || other_id != turn_id@ ==> final(store)@.turn(
                other_source,
                other_id,
            ) == old(store)@.turn(other_source, other_id)
        },
{
    let source = old(worker)@.source;
    if let Some(turn) = old(worker)@.current_turn {
        let before = old(store)@.turn(source, turn.turn_id);
        lemma_turn_index_found(old(store)@.turns_of(source), turn.turn_id);
        law_replacing_changes_one_turn(
            old(store)@,
            source,
            as_unfinalized(before),
            other_source,
            other_id,
        );
    }
    let refused = old(store)@.turn(refusing.source, turn_id@);
    lemma_turn_index_found(old(store)@.turns_of(refusing.source), turn_id@);
    law_replacing_changes_one_turn(
        old(store)@,
        refusing.source,
        as_failed(refused, "finalizer queue is closed"@, now_unix_ms),
        other_source,
        other_id,
    );
}

/// At the end of a turn with audio the turn is handed over to be finalized: under its name, with
/// all its audio, and no attempt made; it waits in the transcript with its draft kept. A turn
/// without audio fails instead, and where there is no turn nothing is handed over.
pub proof fn law_completed_turns_are_queued<S: Copy>(
    worker: &mut DraftWorker<S>,
    store: &mut TranscriptStore,
    metrics: &mut QueueMetrics,
    event: TranscriptEvent,
    now: i64,
    now_unix_ms: u128,
    outcome: DraftOutcome<S>,
)
    requires
        old(worker)@.known_to(old(store)@),
        event == TranscriptEvent::TurnComplete,
        call_ensures(
            DraftWorker::<S>::handle_draft_event,
            (worker, store, metrics, event, now, now_unix_ms),
            outcome,
        ),
    ensures
        ({
            let source = old(worker)@.source;
            &&& outcome.closed is None
            &&& final(worker)@.current_turn is None
            &&& outcome.queued is Some <==> (old(worker)@.current_turn matches Some(turn)
                && turn.audio.len() > 0)
            &&& old(worker)@.current_turn matches Some(turn) ==> {
                let before = old(store)@.turn(source, turn.turn_id);
                let record = final(store)@.turn(source, turn.turn_id);
                &&& final(worker)@.last_completed_turn_id == Some(turn.turn_id)
                &&& final(worker)@.last_completed_draft_text == turn.draft_text
                &&& record.draft_text == before.draft_text
                &&& turn.audio.len() > 0 ==> {
                    &&& record.state == TurnState::Pending
                    &&& outcome.queued matches Some(queued)
                    &&& queued.turn_id@ == turn.turn_id
                    &&& queued.audio_samples@ == turn.audio
                    &&& queued.audio_duration == turn.audio_duration
                    &&& queued.attempt_count == 0
                }
                &&& turn.audio.len() == 0 ==> record.state == TurnState::Failed
                    && record.error is Some
            }
        }),
{
    law_completed_turns_are_handed_over(
        old(worker)@,
        old(store)@,
        *old(metrics),
        now,
        now_unix_ms,
        old(worker)@.source,
        Seq::empty(),
    );
}

} // verus!
