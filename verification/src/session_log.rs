//! The log of a session: its records, what is left out of them, when they are written out, and
//! which old logs are removed.

use vstd::prelude::*;
use vstd::string::*;

use crate::capture::SourceKind;
use crate::json::{Json, parse_json};
use crate::text::{decimal_text, has_prefix, hyphenate, same_text, trim_text};

verus! {

use crate::capture::{source_slug, source_title};
use crate::json::{
    JsonView, item_views, member_views, read_json, text_of_member, unsigned_number, written_json,
};
use crate::text::{decimal, hyphenated, law_decimal_spells_the_number, spelled, trimmed};
use crate::transcriber::{audio_message, base64_text, pcm_bytes, realtime_input};
use vstd::utf8::encode_utf8;

/// After how many records the log is written out.
pub const LOG_FLUSH_RECORD_THRESHOLD: usize = 32;

/// After how many milliseconds the log is written out.
pub const LOG_FLUSH_INTERVAL_MS: u64 = 250;

/// What stands in a log in the place of audio.
pub open spec fn omitted_audio(data: Seq<char>) -> Seq<char> {
    "<omitted audio payload: "@ + decimal(encode_utf8(data).len()) + " chars>"@
}

/// The audio that an object carries as text: it has `data`, and a `mimeType` of audio.
pub open spec fn audio_data(object: JsonView) -> Option<Seq<char>> {
    match text_of_member(object.member("mimeType"@)) {
        Some(mime) => if "audio/"@.is_prefix_of(mime) {
            text_of_member(object.member("data"@))
        } else {
            None
        },
        None => None,
    }
}

/// A value as it is logged: the same, but for audio.
pub open spec fn sanitized(value: JsonView) -> JsonView
    decreases value,
{
    match value {
        JsonView::Array(items) => JsonView::Array(
            Seq::new(
                items.len(),
                |i: int|
                    if 0 <= i < items.len() {
                        sanitized(items[i])
                    } else {
                        JsonView::Null
                    },
            ),
        ),
        JsonView::Object(members) => {
            match audio_data(value) {
                Some(data) => JsonView::Object(
                    sanitized_members(members).insert(
                        "data"@,
                        JsonView::Text(omitted_audio(data)),
                    ),
                ),
                None => JsonView::Object(sanitized_members(members)),
            }
        },
        other => other,
    }
}

/// What the members of an object say as they are logged, before audio is left out.
pub open spec fn sanitized_members(members: Map<Seq<char>, JsonView>) -> Map<Seq<char>, JsonView>
    decreases members,
{
    Map::new(
        |name: Seq<char>| members.contains_key(name),
        |name: Seq<char>|
            if members.dom().finite() && members.contains_key(name) {
                sanitized(members[name])
            } else {
                JsonView::Null
            },
    )
}

proof fn lemma_member_views_finite(members: Seq<(String, Json)>)
    ensures
        member_views(members).dom().finite(),
    decreases members.len(),
{
    if members.len() > 0 {
        lemma_member_views_finite(members.drop_last());
    }
}

/// A value as it is logged.
pub fn sanitize_json(value: &Json) -> (result: Json)
    ensures
        result@ == sanitized(value@),
    decreases value,
{
    match value {
        Json::Object(members) => {
            let mut kept: Vec<(String, Json)> = Vec::new();
            let mut i: usize = 0;
            assert(members@.take(0) == Seq::<(String, Json)>::empty());
            assert(member_views(kept@) == sanitized_members(member_views(members@.take(0))));
            while i < members.len()
                invariant
                    i <= members@.len(),
                    value matches Json::Object(listed) && listed == members,
                    member_views(kept@) == sanitized_members(
                        member_views(members@.take(i as int)),
                    ),
                decreases members@.len() - i,
            {
                let ghost before = kept@;
                let ghost read = member_views(members@.take(i as int));
                let name: String = members[i].0.clone();
                let item = sanitize_json(&members[i].1);
                kept.push((name, item));
                proof {
                    assert(kept@.drop_last() == before);
                    assert(members@.take(i + 1).drop_last() == members@.take(i as int));
                    lemma_member_views_finite(members@.take(i as int));
                    lemma_member_views_finite(members@.take(i + 1));
                    assert(member_views(members@.take(i + 1)) == read.insert(
                        members@[i as int].0@,
                        members@[i as int].1@,
                    ));
                    assert(sanitized_members(member_views(members@.take(i + 1)))
                        == sanitized_members(read).insert(name@, item@));
                }
                i += 1;
            }
            assert(members@.take(members@.len() as int) == members@);
            let sanitized_object = Json::Object(kept);
            match audio_text(value) {
                Some(data) => {
                    let omitted = "<omitted audio payload: ".to_owned().concat(
                        decimal_text(data.as_str().as_bytes().len() as u128).as_str(),
                    ).concat(" chars>");
                    sanitized_object.with("data", Json::Text(omitted))
                },
                None => sanitized_object,
            }
        },
        Json::Array(items) => {
            let mut kept: Vec<Json> = Vec::new();
            let mut i: usize = 0;
            while i < items.len()
                invariant
                    i <= items@.len(),
                    kept@.len() == i,
                    value matches Json::Array(listed) && listed == items,
                    forall|k: int|
                        0 <= k < i ==> (#[trigger] kept@[k])@ == sanitized(items@[k]@),
                decreases items@.len() - i,
            {
                kept.push(sanitize_json(&items[i]));
                i += 1;
            }
            assert(JsonView::Array(item_views(kept@)) == sanitized(
                JsonView::Array(item_views(items@)),
            )) by {
                let expected = sanitized(JsonView::Array(item_views(items@)))->Array_0;
                assert(item_views(kept@) == expected);
            }
            Json::Array(kept)
        },
        _ => value.clone(),
    }
}

/// The audio that an object carries as text.
fn audio_text(value: &Json) -> (data: Option<String>)
    ensures
        match data {
            Some(data) => audio_data(value@) == Some(data@),
            None => audio_data(value@) is None,
        },
{
    let mime = match value.get("mimeType") {
        Some(member) => match member.as_str() {
            Some(mime) => mime,
            None => return None,
        },
        None => return None,
    };
    if !has_prefix(mime, "audio/") {
        return None;
    }
    match value.get("data") {
        Some(member) => match member.as_str() {
            Some(data) => Some(data.to_owned()),
            None => None,
        },
        None => None,
    }
}

/// A logged object has the members of the object, and no more.
pub proof fn law_logging_keeps_the_members(members: Map<Seq<char>, JsonView>)
    ensures
        sanitized(JsonView::Object(members)) matches JsonView::Object(logged)
            && logged.dom() =~= members.dom(),
{
    let value = JsonView::Object(members);
    reveal_with_fuel(sanitized_members, 2);
    assert(sanitized_members(members).dom() =~= members.dom());
    match audio_data(value) {
        Some(_) => {
            assert(members.contains_key("data"@));
        },
        None => {},
    }
}

/// Audio is never logged: where an object carries audio, its `data` is logged as a note of its
/// length.
pub proof fn law_audio_is_not_logged(object: JsonView)
    requires
        audio_data(object) is Some,
    ensures
        sanitized(object).member("data"@) == Some(
            JsonView::Text(omitted_audio(audio_data(object)->Some_0)),
        ),
{
}

/// Of audio that is sent, the log holds the kind and a note of the length.
pub proof fn law_sent_audio_is_not_logged(samples: Seq<i16>, sample_rate: u32)
    ensures
        sanitized(audio_message(samples, sample_rate)) == realtime_input(
            "audio"@,
            JsonView::Object(
                map![
                    "data"@ => JsonView::Text(omitted_audio(base64_text(pcm_bytes(samples)))),
                    "mimeType"@ => JsonView::Text(
                        "audio/pcm;rate="@ + decimal(sample_rate as nat),
                    ),
                ],
            ),
        ),
{
    reveal_strlit("data");
    reveal_strlit("mimeType");
    reveal_strlit("audio");
    reveal_strlit("audio/");
    reveal_strlit("audio/pcm;rate=");
    reveal_strlit("realtimeInput");
    let data = base64_text(pcm_bytes(samples));
    let mime = "audio/pcm;rate="@ + decimal(sample_rate as nat);
    let members = map!["data"@ => JsonView::Text(data), "mimeType"@ => JsonView::Text(mime)];
    let carried = JsonView::Object(members);
    assert("data"@.len() == 4 && "mimeType"@.len() == 8);
    assert("audio/"@.is_prefix_of(mime)) by {
        assert(mime.take(6) =~= "audio/"@);
    }
    assert(audio_data(carried) == Some(data));
    assert(sanitized_members(members) =~= members);
    let noted = members.insert("data"@, JsonView::Text(omitted_audio(data)));
    assert(sanitized(carried) == JsonView::Object(noted));
    assert(noted =~= map![
        "data"@ => JsonView::Text(omitted_audio(data)),
        "mimeType"@ => JsonView::Text(mime),
    ]);
    let input = map!["audio"@ => carried];
    assert("audio"@.len() == 5);
    assert(audio_data(JsonView::Object(input)) is None);
    assert(sanitized_members(input) =~= map!["audio"@ => sanitized(carried)]);
    let outer = map!["realtimeInput"@ => JsonView::Object(input)];
    assert("realtimeInput"@.len() == 13);
    assert(audio_data(JsonView::Object(outer)) is None);
    assert(sanitized_members(outer) =~= map![
        "realtimeInput"@ => sanitized(JsonView::Object(input)),
    ]);
}

/// What is not an object or an array is logged as it is.
pub proof fn law_plain_values_are_logged_as_they_are(value: JsonView)
    requires
        !(value is Object),
        !(value is Array),
    ensures
        sanitized(value) == value,
{
}

/// The logger of one stream of a source: what its records say.
#[derive(Debug, Clone)]
pub struct SessionLogger {
    source: SourceKind,
    stream_label: String,
}

/// One record of a log, as a line, and whether the log is written out behind it.
#[derive(Debug)]
pub struct LogRecord {
    pub line: String,
    pub force_flush: bool,
}

/// A stream as it is named in a log.
pub open spec fn stream_name(stream_label: Seq<char>) -> Seq<char> {
    hyphenated(trimmed(stream_label))
}

/// The name of the log of a stream that begins at `timestamp_ms`.
pub open spec fn log_name(
    timestamp_ms: u128,
    source: SourceKind,
    stream_label: Seq<char>,
) -> Seq<char> {
    decimal(timestamp_ms as nat) + "-"@ + hyphenated(source_title(source)) + "-"@ + stream_name(
        stream_label,
    ) + ".jsonl"@
}

/// What a record says.
pub open spec fn record_view(
    ts_unix_ms: u64,
    source: SourceKind,
    stream_label: Seq<char>,
    direction: Seq<char>,
    event: Seq<char>,
    payload: JsonView,
) -> JsonView {
    JsonView::Object(
        map![
            "ts_unix_ms"@ => JsonView::Number(unsigned_number(ts_unix_ms)),
            "source"@ => JsonView::Text(source_slug(source)),
            "stream_label"@ => JsonView::Text(stream_label),
            "direction"@ => JsonView::Text(direction),
            "event"@ => JsonView::Text(event),
            "payload"@ => payload,
        ],
    )
}

/// Whether the log is written out behind a record: at the start and the end of a session.
pub open spec fn forces_flush(direction: Seq<char>, event: Seq<char>) -> bool {
    ||| direction == "lifecycle"@ && (event == "session_start"@ || event == "client_close"@)
    ||| direction == "inbound"@ && event == "close"@
}

/// Whether the log is written out behind a record.
pub fn should_force_flush(direction: &str, event: &str) -> (force: bool)
    ensures
        force == forces_flush(direction@, event@),
{
    (same_text(direction, "lifecycle") && (same_text(event, "session_start") || same_text(
        event,
        "client_close",
    ))) || (same_text(direction, "inbound") && same_text(event, "close"))
}

/// The name of the log of a stream that begins at `timestamp_ms`.
pub fn log_file_name(timestamp_ms: u128, source: SourceKind, stream_label: &str) -> (name: String)
    ensures
        name@ == log_name(timestamp_ms, source, stream_label@),
{
    decimal_text(timestamp_ms).concat("-").concat(hyphenate(source.title()).as_str()).concat(
        "-",
    ).concat(hyphenate(trim_text(stream_label).as_str()).as_str()).concat(".jsonl")
}

/// What is logged of a message that was received.
pub open spec fn inbound_payload(text: Seq<char>) -> JsonView {
    match read_json(text) {
        Ok(value) => sanitized(value),
        Err(_) => JsonView::Object(map!["raw_text"@ => JsonView::Text(text)]),
    }
}

impl SessionLogger {
    /// The source that is logged.
    pub closed spec fn source(self) -> SourceKind {
        self.source
    }

    /// The stream that is logged.
    pub closed spec fn label(self) -> Seq<char> {
        self.stream_label@
    }

    /// Whether a record is what the logger writes.
    pub open spec fn writes(
        self,
        record: LogRecord,
        ts_unix_ms: u64,
        direction: Seq<char>,
        event: Seq<char>,
        payload: JsonView,
    ) -> bool {
        &&& record.line@ == written_json(
            record_view(ts_unix_ms, self.source(), self.label(), direction, event, payload),
        )
        &&& record.force_flush == forces_flush(direction, event)
    }

    /// A logger for a stream of a source.
    pub fn create(source: SourceKind, stream_label: &str) -> (logger: Self)
        ensures
            logger.source() == source,
            logger.label() == stream_name(stream_label@),
    {
        SessionLogger { source, stream_label: hyphenate(trim_text(stream_label).as_str()) }
    }

    fn log_record(&self, ts_unix_ms: u64, direction: &str, event: &str, payload: Json) -> (record:
        LogRecord)
        ensures
            self.writes(record, ts_unix_ms, direction@, event@, payload@),
    {
        let record = Json::object().with("ts_unix_ms", Json::unsigned(ts_unix_ms)).with(
            "source",
            Json::text(self.source.debug_slug()),
        ).with("stream_label", Json::text(self.stream_label.as_str())).with(
            "direction",
            Json::text(direction),
        ).with("event", Json::text(event)).with("payload", payload);
        LogRecord { line: record.to_text(), force_flush: should_force_flush(direction, event) }
    }

    /// The first record of a session.
    pub fn log_start(&self, ts_unix_ms: u64, model: &str, log_path: &str) -> (record: LogRecord)
        ensures
            self.writes(
                record,
                ts_unix_ms,
                "lifecycle"@,
                "session_start"@,
                JsonView::Object(
                    map![
                        "model"@ => JsonView::Text(model@),
                        "stream_label"@ => JsonView::Text(self.label()),
                        "log_path"@ => JsonView::Text(log_path@),
                    ],
                ),
            ),
    {
        let payload = Json::object().with("model", Json::text(model)).with(
            "stream_label",
            Json::text(self.stream_label.as_str()),
        ).with("log_path", Json::text(log_path));
        self.log_record(ts_unix_ms, "lifecycle", "session_start", payload)
    }

    /// A record of a state of the session.
    pub fn log_lifecycle(&self, ts_unix_ms: u64, event: &str, payload: Json) -> (record: LogRecord)
        ensures
            self.writes(record, ts_unix_ms, "lifecycle"@, event@, payload@),
    {
        self.log_record(ts_unix_ms, "lifecycle", event, payload)
    }

    /// A record of a message that is sent, without its audio.
    pub fn log_outbound_json(&self, ts_unix_ms: u64, event: &str, payload: &Json) -> (record:
        LogRecord)
        ensures
            self.writes(record, ts_unix_ms, "outbound"@, event@, sanitized(payload@)),
    {
        self.log_record(ts_unix_ms, "outbound", event, sanitize_json(payload))
    }

    /// A record of a message that was received, without its audio.
    pub fn log_inbound_message_text(&self, ts_unix_ms: u64, text: &str) -> (record: LogRecord)
        ensures
            self.writes(record, ts_unix_ms, "inbound"@, "message"@, inbound_payload(text@)),
    {
        let payload = match parse_json(text) {
            Ok(value) => sanitize_json(&value),
            Err(_) => Json::object().with("raw_text", Json::text(text)),
        };
        self.log_record(ts_unix_ms, "inbound", "message", payload)
    }

    /// A record of the end of a connection.
    pub fn log_close(&self, ts_unix_ms: u64, reason: &str) -> (record: LogRecord)
        ensures
            self.writes(
                record,
                ts_unix_ms,
                "inbound"@,
                "close"@,
                JsonView::Object(map!["reason"@ => JsonView::Text(reason@)]),
            ),
    {
        self.log_record(
            ts_unix_ms,
            "inbound",
            "close",
            Json::object().with("reason", Json::text(reason)),
        )
    }
}

/// When a log is written out: the records that wait, and since when.
#[derive(Debug)]
pub struct LogWriter {
    pending_records: usize,
    flush_record_threshold: usize,
    flush_interval_ms: u64,
    last_flush_at: i64,
}

/// Nanoseconds in a millisecond.
pub const NANOS_PER_MILLI: i128 = 1_000_000;

impl LogWriter {
    /// The number of records that wait.
    pub closed spec fn pending(self) -> usize {
        self.pending_records
    }

    /// The number of records behind which the log is written out: at least one.
    pub closed spec fn threshold(self) -> usize {
        self.flush_record_threshold
    }

    /// The time after which the log is written out, in milliseconds.
    pub closed spec fn interval_ms(self) -> u64 {
        self.flush_interval_ms
    }

    /// When the log was last written out.
    pub closed spec fn last_flush(self) -> i64 {
        self.last_flush_at
    }

    /// A log that is written out by the usual policy.
    pub fn new(now: i64) -> (writer: Self)
        ensures
            writer.pending() == 0,
            writer.threshold() == LOG_FLUSH_RECORD_THRESHOLD,
            writer.interval_ms() == LOG_FLUSH_INTERVAL_MS,
            writer.last_flush() == now,
    {
        LogWriter::with_policy(LOG_FLUSH_RECORD_THRESHOLD, LOG_FLUSH_INTERVAL_MS, now)
    }

    /// A log that is written out behind so many records, or after so much time.
    pub fn with_policy(flush_record_threshold: usize, flush_interval_ms: u64, now: i64) -> (writer:
        Self)
        ensures
            writer.pending() == 0,
            writer.threshold() == if flush_record_threshold == 0 {
                1
            } else {
                flush_record_threshold
            },
            writer.interval_ms() == flush_interval_ms,
            writer.last_flush() == now,
    {
        LogWriter {
            pending_records: 0,
            flush_record_threshold: if flush_record_threshold == 0 {
                1
            } else {
                flush_record_threshold
            },
            flush_interval_ms,
            last_flush_at: now,
        }
    }

    /// Counts a record that was written; says whether the log is to be written out now.
    pub fn write_record(&mut self, force_flush: bool, now: i64) -> (flush: bool)
        ensures
            final(self).pending() == if old(self).pending() == usize::MAX {
                usize::MAX
            } else {
                (old(self).pending() + 1) as usize
            },
            final(self).threshold() == old(self).threshold(),
            final(self).interval_ms() == old(self).interval_ms(),
            final(self).last_flush() == old(self).last_flush(),
            flush == (force_flush || final(self).pending() >= old(self).threshold() || (now >= old(
                self,
            ).last_flush() && now - old(self).last_flush() >= old(self).interval_ms()
                * NANOS_PER_MILLI) || old(self).interval_ms() == 0),
    {
        self.pending_records = self.pending_records.saturating_add(1);
        let elapsed: i128 = if now >= self.last_flush_at {
            now as i128 - self.last_flush_at as i128
        } else {
            0
        };
        let threshold_reached = self.pending_records >= self.flush_record_threshold;
        let interval_reached = elapsed >= self.flush_interval_ms as i128 * NANOS_PER_MILLI;
        force_flush || threshold_reached || interval_reached
    }

    /// The log was written out.
    pub fn flushed(&mut self, now: i64)
        ensures
            final(self).pending() == 0,
            final(self).threshold() == old(self).threshold(),
            final(self).interval_ms() == old(self).interval_ms(),
            final(self).last_flush() == now,
    {
        self.pending_records = 0;
        self.last_flush_at = now;
    }
}

/// An object carries audio exactly when its `mimeType` is a text that begins with `audio/` and
/// its `data` is a text; that text is the audio.
pub proof fn law_audio_is_recognized(members: Map<Seq<char>, JsonView>, data: Seq<char>)
    ensures
        audio_data(JsonView::Object(members)) == Some(data) <==> {
            &&& members.contains_key("mimeType"@)
            &&& members.contains_key("data"@)
            &&& members["mimeType"@] matches JsonView::Text(mime)
            &&& "audio/"@.is_prefix_of(mime)
            &&& members["data"@] == JsonView::Text(data)
        },
{
}

/// What is logged of a value has its shape: an array has its items in order, an object has its
/// members, each as it is logged itself, but for the `data` of audio.
pub proof fn law_logged_values_keep_their_shape(
    items: Seq<JsonView>,
    i: int,
    members: Map<Seq<char>, JsonView>,
    name: Seq<char>,
)
    requires
        members.dom().finite(),
    ensures
        sanitized(JsonView::Array(items)) matches JsonView::Array(logged) && logged.len()
            == items.len() && (0 <= i < items.len() ==> logged[i] == sanitized(items[i])),
        members.contains_key(name) && (name != "data"@ || audio_data(JsonView::Object(members))
            is None) ==> sanitized(JsonView::Object(members)).member(name) == Some(
            sanitized(members[name]),
        ),
{
    if 0 <= i < items.len() {
        assert(sanitized(JsonView::Array(items))->Array_0[i] == sanitized(items[i]));
    }
    if members.contains_key(name) {
        assert(sanitized_members(members)[name] == sanitized(members[name]));
        assert(sanitized_members(members).contains_key(name));
    }
}

/// Whether there is no audio anywhere in a value.
pub open spec fn is_silent(value: JsonView) -> bool
    decreases value,
{
    match value {
        JsonView::Array(items) => forall|i: int|
            if 0 <= i < items.len() {
                is_silent(#[trigger] items[i])
            } else {
                true
            },
        JsonView::Object(members) => {
            &&& audio_data(value) is None
            &&& members.dom().finite()
            &&& forall|name: Seq<char>|
                if members.dom().finite() && members.contains_key(name) {
                    is_silent(#[trigger] members[name])
                } else {
                    true
                }
        },
        _ => true,
    }
}

/// A value without audio is logged as it is.
pub proof fn law_values_without_audio_are_logged_as_they_are(value: JsonView)
    requires
        is_silent(value),
    ensures
        sanitized(value) == value,
    decreases value,
{
    match value {
        JsonView::Array(items) => {
            assert forall|i: int| 0 <= i < items.len() implies sanitized(#[trigger] items[i])
                == items[i] by {
                assert(is_silent(items[i]));
                law_values_without_audio_are_logged_as_they_are(items[i]);
            }
            assert(sanitized(value)->Array_0 == items);
        },
        JsonView::Object(members) => {
            assert forall|name: Seq<char>|
                members.contains_key(name) implies #[trigger] sanitized_members(members)[name]
                == members[name] by {
                assert(is_silent(members[name]));
                law_values_without_audio_are_logged_as_they_are(members[name]);
            }
            assert(sanitized_members(members) == members);
        },
        _ => {},
    }
}

/// The note in the place of audio says how long the text of the audio was, in bytes.
pub proof fn law_omitted_audio_is_measured(data: Seq<char>)
    ensures
        ({
            let note = omitted_audio(data);
            let head = "<omitted audio payload: "@;
            let tail = " chars>"@;
            &&& head.is_prefix_of(note)
            &&& tail.is_suffix_of(note)
            &&& spelled(note.subrange(head.len() as int, note.len() - tail.len()))
                == encode_utf8(data).len()
        }),
{
    let note = omitted_audio(data);
    let head = "<omitted audio payload: "@;
    let tail = " chars>"@;
    let digits = decimal(encode_utf8(data).len());
    law_decimal_spells_the_number(encode_utf8(data).len(), 0);
    assert(note.subrange(head.len() as int, note.len() - tail.len()) == digits);
    assert(note.subrange(note.len() - tail.len(), note.len() as int) == tail);
}

/// A record says when, of which source and stream, in which direction and what happened, and what
/// was sent or received, each under its name.
pub proof fn law_records_say_what_happened(
    ts_unix_ms: u64,
    source: SourceKind,
    stream_label: Seq<char>,
    direction: Seq<char>,
    event: Seq<char>,
    payload: JsonView,
)
    ensures
        ({
            let record = record_view(ts_unix_ms, source, stream_label, direction, event, payload);
            &&& record.member("ts_unix_ms"@) == Some(JsonView::Number(unsigned_number(ts_unix_ms)))
            &&& source == SourceKind::Microphone ==> record.member("source"@) == Some(
                JsonView::Text("microphone"@),
            )
            &&& source == SourceKind::SystemAudio ==> record.member("source"@) == Some(
                JsonView::Text("system-audio"@),
            )
            &&& record.member("stream_label"@) == Some(JsonView::Text(stream_label))
            &&& record.member("direction"@) == Some(JsonView::Text(direction))
            &&& record.member("event"@) == Some(JsonView::Text(event))
            &&& record.member("payload"@) == Some(payload)
        }),
{
    reveal_strlit("ts_unix_ms");
    reveal_strlit("source");
    reveal_strlit("stream_label");
    reveal_strlit("direction");
    reveal_strlit("event");
    reveal_strlit("payload");
    assert("ts_unix_ms"@.len() == 10);
    assert("source"@.len() == 6);
    assert("stream_label"@.len() == 12);
    assert("direction"@.len() == 9);
    assert("event"@.len() == 5);
    assert("payload"@.len() == 7);
}

/// The log is written out behind the record that a session started, that the client closed it, and
/// that the service closed it, and behind no other.
pub proof fn law_ends_are_written_out(direction: Seq<char>, event: Seq<char>)
    ensures
        forces_flush("lifecycle"@, "session_start"@),
        forces_flush("lifecycle"@, "client_close"@),
        forces_flush("inbound"@, "close"@),
        forces_flush(direction, event) ==> {
            ||| direction == "lifecycle"@ && event == "session_start"@
            ||| direction == "lifecycle"@ && event == "client_close"@
            ||| direction == "inbound"@ && event == "close"@
        },
{
}

/// A log is named by the time at which it begins, the source and the stream, with hyphens for
/// spaces, and ends in `.jsonl`.
pub proof fn law_logs_are_named_by_their_stream(
    timestamp_ms: u128,
    source: SourceKind,
    stream_label: Seq<char>,
)
    ensures
        ({
            let name = log_name(timestamp_ms, source, stream_label);
            let digits = decimal(timestamp_ms as nat);
            &&& (digits + "-"@).is_prefix_of(name)
            &&& spelled(digits) == timestamp_ms
            &&& ".jsonl"@.is_suffix_of(name)
            &&& source == SourceKind::Microphone ==> name == digits + "-microphone-"@ + hyphenated(
                trimmed(stream_label),
            ) + ".jsonl"@
            &&& source == SourceKind::SystemAudio ==> name == digits + "-system-audio-"@
                + hyphenated(trimmed(stream_label)) + ".jsonl"@
        }),
{
    let name = log_name(timestamp_ms, source, stream_label);
    let digits = decimal(timestamp_ms as nat);
    law_decimal_spells_the_number(timestamp_ms as nat, 0);
    let tail = ".jsonl"@;
    assert(name.subrange(name.len() - tail.len(), name.len() as int) == tail);
    reveal_strlit("-");
    reveal_strlit("microphone");
    reveal_strlit("system audio");
    reveal_strlit("-microphone-");
    reveal_strlit("-system-audio-");
    let title = hyphenated(source_title(source));
    assert((digits + "-"@).is_prefix_of(name)) by {
        let short = digits + "-"@;
        assert(name.take(short.len() as int) == short);
    }
    match source {
        SourceKind::Microphone => {
            assert("-"@ + title + "-"@ == "-microphone-"@);
        },
        SourceKind::SystemAudio => {
            assert("-"@ + title + "-"@ == "-system-audio-"@);
        },
    }
    let stream = hyphenated(trimmed(stream_label));
    assert(name == digits + ("-"@ + title + "-"@) + stream + tail);
}

/// What is logged of a message that can be read is the message as it is logged; of any other, its
/// text.
pub proof fn law_received_messages_are_logged(text: Seq<char>)
    ensures
        read_json(text) matches Ok(value) ==> inbound_payload(text) == sanitized(value),
        read_json(text) is Err ==> inbound_payload(text).member("raw_text"@) == Some(
            JsonView::Text(text),
        ),
{
}

/// The log is written out behind a record exactly when it is forced, when enough records wait, or
/// when it was last written out long enough ago; once it is, none waits.
pub proof fn law_logs_are_written_out_in_time(
    writer: &mut LogWriter,
    force_flush: bool,
    now: i64,
    flush: bool,
)
    ensures
        call_ensures(LogWriter::write_record, (writer, force_flush, now), flush) ==> {
            let since = now - old(writer).last_flush();
            &&& force_flush ==> flush
            &&& old(writer).pending() < usize::MAX ==> final(writer).pending()
                == old(writer).pending() + 1
            &&& old(writer).pending() + 1 >= old(writer).threshold() ==> flush
            &&& since >= 0 && since >= old(writer).interval_ms() * 1_000_000 ==> flush
            &&& flush && !force_flush && old(writer).interval_ms() > 0 ==> old(writer).pending() + 1
                >= old(writer).threshold() || since >= old(writer).interval_ms() * 1_000_000
        },
        call_ensures(LogWriter::flushed, (writer, now), ()) ==> {
            &&& final(writer).pending() == 0
            &&& final(writer).last_flush() == now
            &&& final(writer).threshold() == old(writer).threshold()
            &&& final(writer).interval_ms() == old(writer).interval_ms()
        },
        call_ensures(LogWriter::new, (now,), *old(writer)) ==> {
            &&& old(writer).pending() == 0
            &&& old(writer).threshold() == 32
            &&& old(writer).interval_ms() == 250
            &&& old(writer).last_flush() == now
        },
{
}

} // verus!
