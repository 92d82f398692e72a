//! What the screen shows: the panes of the sources, their turns, and the lines that they make.

use std::collections::VecDeque;

use vstd::prelude::*;
use vstd::string::*;

use crate::capture::SourceKind;
use crate::normalize::normalize_transcript_text;
use crate::seconds::{Seconds, round_ratio};
use crate::text::{chars_of, decimal_text, padded_decimal_text, same_text};
use crate::transcript::DisplayAction;
use crate::wrap::{char_display_width, wrap_line};

verus! {

use crate::capture::source_title;
use crate::normalize::{ink, law_normalizing_keeps_the_ink, normalized};
use crate::seconds::{law_rounding_is_to_the_nearest, rounded, two_to};
use crate::text::{
    decimal, law_decimal_spells_the_number, law_padding_puts_zeros_in_front, spelled, view_opt,
    views, zero_padded,
};
use crate::wrap::{law_wrapped_lines_fit, total_columns, wrapped};
use vstd::utf8::{encode_utf8, is_ascii_chars, is_ascii_chars_encode_utf8};

/// How many notices are kept.
pub const MAX_NOTICES: usize = 8;

/// How many turns of a source are kept.
pub const MAX_TURNS_PER_SOURCE: usize = 512;

/// Something that the screen shows or reacts to.
///
/// Times are nanoseconds on the clock of the audio chunks; levels are thousandths.
#[derive(Debug, Clone)]
pub enum AppEvent<T = String> {
    DraftStatus { source: SourceKind, status: T },
    FinalizerStatus { source: SourceKind, status: T },
    QueueMetrics { source: SourceKind, queue_depth: usize, pending_audio_secs: Seconds },
    CaptureLevel { source: SourceKind, rms_thousandths: u32 },
    DraftTranscript { source: SourceKind, turn_id: T, at: i128, text: T },
    TurnPending { source: SourceKind, turn_id: T },
    TurnFinalized { source: SourceKind, turn_id: T, text: T, display_action: DisplayAction },
    TurnFailed { source: SourceKind, turn_id: T, error: T },
    Usage { source: SourceKind, usage: UsageSnapshot },
    SourceError { source: SourceKind, error: T },
    Notice(T),
    Redraw,
    Quit,
}

/// Token counts as the screen shows them.
#[derive(Debug, Clone, Copy, PartialEq, Eq, Structural)]
pub struct UsageSnapshot {
    pub prompt_token_count: u32,
    pub cached_content_token_count: u32,
    pub response_token_count: u32,
    pub tool_use_prompt_token_count: u32,
    pub thoughts_token_count: u32,
    pub total_token_count: u32,
}

impl AppEvent<String> {
    /// What the event says.
    pub open spec fn view(self) -> AppEvent<Seq<char>> {
        match self {
            AppEvent::DraftStatus { source, status } => AppEvent::DraftStatus {
                source,
                status: status@,
            },
            AppEvent::FinalizerStatus { source, status } => AppEvent::FinalizerStatus {
                source,
                status: status@,
            },
            AppEvent::QueueMetrics { source, queue_depth, pending_audio_secs } =>
                AppEvent::QueueMetrics { source, queue_depth, pending_audio_secs },
            AppEvent::CaptureLevel { source, rms_thousandths } => AppEvent::CaptureLevel {
                source,
                rms_thousandths,
            },
            AppEvent::DraftTranscript { source, turn_id, at, text } => AppEvent::DraftTranscript {
                source,
                turn_id: turn_id@,
                at,
                text: text@,
            },
            AppEvent::TurnPending { source, turn_id } => AppEvent::TurnPending {
                source,
                turn_id: turn_id@,
            },
            AppEvent::TurnFinalized { source, turn_id, text, display_action } =>
                AppEvent::TurnFinalized {
                    source,
                    turn_id: turn_id@,
                    text: text@,
                    display_action,
                },
            AppEvent::TurnFailed { source, turn_id, error } => AppEvent::TurnFailed {
                source,
                turn_id: turn_id@,
                error: error@,
            },
            AppEvent::Usage { source, usage } => AppEvent::Usage { source, usage },
            AppEvent::SourceError { source, error } => AppEvent::SourceError {
                source,
                error: error@,
            },
            AppEvent::Notice(text) => AppEvent::Notice(text@),
            AppEvent::Redraw => AppEvent::Redraw,
            AppEvent::Quit => AppEvent::Quit,
        }
    }
}

/// Hours, minutes and seconds, each of at least two digits.
pub open spec fn clock_text(nanos: u128) -> Seq<char> {
    let seconds = nanos / 1_000_000_000;
    zero_padded(decimal((seconds / 3600) as nat), 2) + ":"@ + zero_padded(
        decimal((seconds % 3600 / 60) as nat),
        2,
    ) + ":"@ + zero_padded(decimal((seconds % 60) as nat), 2)
}

/// A time span of so many nanoseconds as hours, minutes and seconds.
pub fn format_relative_time(nanos: u128) -> (text: String)
    ensures
        text@ == clock_text(nanos),
{
    let seconds: u128 = nanos / 1_000_000_000;
    padded_decimal_text(seconds / 3600, 2).concat(":").concat(
        padded_decimal_text(seconds % 3600 / 60, 2).as_str(),
    ).concat(":").concat(padded_decimal_text(seconds % 60, 2).as_str())
}

/// A number of tenths with one decimal.
pub open spec fn tenths_text(tenths: nat) -> Seq<char> {
    decimal(tenths / 10) + "."@ + decimal(tenths % 10)
}

fn build_tenths_text(tenths: u128) -> (text: String)
    ensures
        text@ == tenths_text(tenths as nat),
{
    decimal_text(tenths / 10).concat(".").concat(decimal_text(tenths % 10).as_str())
}

/// By how many bits `n / unit` is shifted to have the 53 bits of a double, for `n >= unit`.
pub open spec fn double_shift(n: nat, unit: nat) -> int
    decreases n - unit,
{
    if unit == 0 || n < 2 * unit {
        52
    } else {
        double_shift(n, 2 * unit) - 1
    }
}

/// The tenths of the double nearest to `n / unit`, rounded in turn.
pub open spec fn double_tenths(n: nat, unit: nat) -> nat {
    let scale = two_to(double_shift(n, unit) as nat);
    rounded(10 * rounded(n * scale, unit), scale)
}

/// A token count, in thousands or millions where there are as many.
pub open spec fn token_text(tokens: u32) -> Seq<char> {
    if tokens >= 1_000_000 {
        tenths_text(double_tenths(tokens as nat, 1_000_000)) + "M"@
    } else if tokens >= 1_000 {
        tenths_text(double_tenths(tokens as nat, 1_000)) + "k"@
    } else {
        decimal(tokens as nat)
    }
}

proof fn lemma_two_to_positive(n: nat)
    ensures
        two_to(n) >= 1,
    decreases n,
{
    if n > 0 {
        lemma_two_to_positive((n - 1) as nat);
    }
}

fn double_tenths_of(n: u32, unit: u32) -> (tenths: u128)
    requires
        1_000 <= unit <= n,
    ensures
        tenths == double_tenths(n as nat, unit as nat),
{
    let mut reached: u64 = unit as u64;
    let mut shift: u32 = 52;
    let mut scale: u128 = 0x10_0000_0000_0000;
    proof {
        reveal_with_fuel(two_to, 53);
    }
    while 2 * reached <= n as u64
        invariant
            1_000 <= unit <= reached <= n,
            shift <= 52,
            reached >= 1_000 * two_to((52 - shift) as nat),
            scale == two_to(shift as nat),
            1 <= scale <= 0x10_0000_0000_0000,
            double_shift(n as nat, unit as nat) + 52 == double_shift(n as nat, reached as nat)
                + shift,
        decreases n - reached,
    {
        proof {
            if shift == 0 {
                reveal_with_fuel(two_to, 53);
                assert(false);
            }
            lemma_two_to_positive((shift - 1) as nat);
        }
        reached = 2 * reached;
        shift = shift - 1;
        scale = scale / 2;
    }
    assert(0 <= n * scale <= 0xffff_ffff * 0x10_0000_0000_0000) by (nonlinear_arith)
        requires
            0 <= n <= 0xffff_ffff,
            0 <= scale <= 0x10_0000_0000_0000,
    ;
    let product: u128 = n as u128 * scale;
    round_ratio(10 * round_ratio(product, unit as u128), scale)
}

/// A token count, in thousands or millions where there are as many.
pub fn abbreviate_token_count(tokens: u32) -> (text: String)
    ensures
        text@ == token_text(tokens),
{
    if tokens >= 1_000_000 {
        build_tenths_text(double_tenths_of(tokens, 1_000_000)).concat("M")
    } else if tokens >= 1_000 {
        build_tenths_text(double_tenths_of(tokens, 1_000)).concat("k")
    } else {
        decimal_text(tokens as u128)
    }
}

/// A color of the screen.
#[derive(Debug, Clone, Copy, PartialEq, Eq, Structural)]
pub enum Tint {
    Plain,
    Red,
    LightRed,
    Yellow,
    LightYellow,
    Green,
    Gray,
    DarkGray,
    White,
}

/// A line before it is wrapped: lines that follow are indented below its text.
#[derive(Debug, Clone)]
pub struct DisplayLine {
    pub prefix: String,
    pub text: String,
    pub tint: Tint,
}

/// What a line says.
#[verifier::ext_equal]
pub struct LineView {
    pub prefix: Seq<char>,
    pub text: Seq<char>,
    pub tint: Tint,
}

impl DisplayLine {
    pub open spec fn view(self) -> LineView {
        LineView { prefix: self.prefix@, text: self.text@, tint: self.tint }
    }

    /// A line without a prefix.
    pub fn plain(text: String, tint: Tint) -> (line: Self)
        ensures
            line@ == plain_line(text@, tint),
    {
        DisplayLine { prefix: String::new(), text, tint }
    }

    /// A line of a turn, with the time at which the turn began or another prefix.
    pub fn transcript(
        started_at: u128,
        text: String,
        tint: Tint,
        prefix_override: Option<String>,
    ) -> (line: Self)
        ensures
            line@ == (LineView {
                prefix: match prefix_override {
                    Some(prefix) => prefix@,
                    None => clock_text(started_at) + " | "@,
                },
                text: text@,
                tint,
            }),
    {
        let prefix = match prefix_override {
            Some(prefix) => prefix,
            None => format_relative_time(started_at).concat(" | "),
        };
        DisplayLine { prefix, text, tint }
    }
}

/// A line without a prefix.
pub open spec fn plain_line(text: Seq<char>, tint: Tint) -> LineView {
    LineView { prefix: Seq::empty(), text, tint }
}

/// What lines say.
pub open spec fn line_views(lines: Seq<DisplayLine>) -> Seq<LineView> {
    lines.map_values(|line: DisplayLine| line@)
}

/// So many spaces.
pub open spec fn spaces(count: nat) -> Seq<char> {
    Seq::new(count, |i: int| ' ')
}

fn build_spaces(count: usize) -> (text: String)
    ensures
        text@ == spaces(count as nat),
{
    let mut text: String = String::new();
    let mut i: usize = 0;
    while i < count
        invariant
            i <= count,
            text@ == spaces(i as nat),
        decreases count - i,
    {
        text.push(' ');
        assert(spaces((i + 1) as nat) == spaces(i as nat).push(' '));
        i += 1;
    }
    text
}

/// The lines of the text behind a prefix: the first behind the prefix, the others behind as
/// many spaces as the prefix has bytes.
pub open spec fn hung(prefix: Seq<char>, lines: Seq<Seq<char>>) -> Seq<Seq<char>> {
    Seq::new(
        lines.len(),
        |i: int|
            if i == 0 {
                prefix + lines[i]
            } else {
                spaces(encode_utf8(prefix).len()) + lines[i]
            },
    )
}

/// A line, wrapped. A prefix that leaves no room for the text is wrapped with it.
pub open spec fn wrapped_line(line: LineView, width: nat) -> Seq<Seq<char>> {
    if line.prefix.len() == 0 {
        wrapped(line.text, width)
    } else if width <= total_columns(line.prefix) {
        wrapped(line.prefix + line.text, width)
    } else {
        hung(line.prefix, wrapped(line.text, (width - total_columns(line.prefix)) as nat))
    }
}

/// The columns of `text`, where there are fewer than `limit`.
fn columns_below(text: &str, limit: usize) -> (total: Option<usize>)
    ensures
        match total {
            Some(total) => total == total_columns(text@) && total < limit,
            None => total_columns(text@) >= limit,
        },
{
    let chars = chars_of(text);
    let mut total: usize = 0;
    let mut i: usize = 0;
    assert(chars@.take(0) == Seq::<char>::empty());
    if limit == 0 {
        return None;
    }
    while i < chars.len()
        invariant
            i <= chars@.len(),
            chars@ == text@,
            total == total_columns(chars@.take(i as int)),
            total < limit,
        decreases chars@.len() - i,
    {
        let more = char_display_width(chars[i]);
        proof {
            assert(chars@.take(i + 1).drop_last() == chars@.take(i as int));
            assert(chars@.take(i + 1).last() == chars@[i as int]);
            assert(chars@.take(chars@.len() as int) == chars@);
            lemma_columns_grow(chars@, i + 1, chars@.len() as int);
        }
        if more >= limit - total {
            return None;
        }
        total += more;
        i += 1;
    }
    assert(chars@.take(chars@.len() as int) == chars@);
    Some(total)
}

proof fn lemma_columns_grow(s: Seq<char>, i: int, j: int)
    requires
        0 <= i <= j <= s.len(),
    ensures
        total_columns(s.take(i)) <= total_columns(s.take(j)),
    decreases j - i,
{
    if i < j {
        lemma_columns_grow(s, i, j - 1);
        assert(s.take(j).drop_last() == s.take(j - 1));
    }
}

/// A line, wrapped.
pub fn wrap_display_line(line: &DisplayLine, width: usize) -> (lines: Vec<String>)
    ensures
        views(lines@) == wrapped_line(line@, width as nat),
{
    if line.prefix.as_str().is_empty() {
        return wrap_line(line.text.as_str(), width);
    }
    let prefix_width: usize = match columns_below(line.prefix.as_str(), width) {
        Some(total) => total,
        None => {
            let whole: String = line.prefix.clone().concat(line.text.as_str());
            return wrap_line(whole.as_str(), width);
        },
    };
    let body = wrap_line(line.text.as_str(), width - prefix_width);
    let indent = build_spaces(line.prefix.as_str().as_bytes().len());
    let mut lines: Vec<String> = Vec::new();
    let mut i: usize = 0;
    while i < body.len()
        invariant
            i <= body@.len(),
            lines@.len() == i,
            indent@ == spaces(encode_utf8(line.prefix@).len()),
            forall|k: int|
                0 <= k < i ==> (#[trigger] lines@[k])@ == hung(line.prefix@, views(body@))[k],
        decreases body@.len() - i,
    {
        let start: String = if i == 0 {
            line.prefix.clone()
        } else {
            indent.clone()
        };
        lines.push(start.concat(body[i].as_str()));
        i += 1;
    }
    assert(views(lines@) == hung(line.prefix@, views(body@)));
    lines
}

/// One line on screen.
#[derive(Debug, Clone)]
pub struct ScreenLine {
    pub text: String,
    pub tint: Tint,
}

/// What a line on screen says.
pub struct ScreenView {
    pub text: Seq<char>,
    pub tint: Tint,
}

impl ScreenLine {
    pub open spec fn view(self) -> ScreenView {
        ScreenView { text: self.text@, tint: self.tint }
    }
}

/// What lines on screen say.
pub open spec fn screen_views(lines: Seq<ScreenLine>) -> Seq<ScreenView> {
    lines.map_values(|line: ScreenLine| line@)
}

/// Texts as lines on screen.
pub open spec fn tinted(texts: Seq<Seq<char>>, tint: Tint) -> Seq<ScreenView> {
    texts.map_values(|text: Seq<char>| ScreenView { text, tint })
}

/// The lines on screen that lines make, one after the other.
pub open spec fn screen_of(lines: Seq<LineView>, width: nat) -> Seq<ScreenView>
    decreases lines.len(),
{
    if lines.len() == 0 {
        Seq::empty()
    } else {
        screen_of(lines.drop_last(), width) + tinted(
            wrapped_line(lines.last(), width),
            lines.last().tint,
        )
    }
}

/// The lines on screen in a pane of a width; there is at least one column, and one line.
pub open spec fn screen(lines: Seq<LineView>, width: u16) -> Seq<ScreenView> {
    let wide = screen_of(
        lines,
        if width == 0 {
            1
        } else {
            width as nat
        },
    );
    if wide.len() == 0 {
        seq![ScreenView { text: Seq::empty(), tint: Tint::Plain }]
    } else {
        wide
    }
}

/// The lines on screen in a pane of a width.
pub fn wrap_display_lines(lines: &Vec<DisplayLine>, width: u16) -> (result: Vec<ScreenLine>)
    ensures
        screen_views(result@) == screen(line_views(lines@), width),
{
    let wrap_width: usize = if width == 0 {
        1
    } else {
        width as usize
    };
    let mut result: Vec<ScreenLine> = Vec::new();
    let mut i: usize = 0;
    assert(screen_views(result@) == Seq::<ScreenView>::empty());
    assert(line_views(lines@).take(0) == Seq::<LineView>::empty());
    while i < lines.len()
        invariant
            i <= lines@.len(),
            screen_views(result@) == screen_of(
                line_views(lines@).take(i as int),
                wrap_width as nat,
            ),
        decreases lines@.len() - i,
    {
        let ghost before = screen_views(result@);
        let tint = lines[i].tint;
        let segments = wrap_display_line(&lines[i], wrap_width);
        let ghost texts = views(segments@);
        let mut k: usize = 0;
        assert(before + tinted(texts, tint).take(0) == before);
        while k < segments.len()
            invariant
                k <= segments@.len(),
                texts == views(segments@),
                screen_views(result@) == before + tinted(texts, tint).take(k as int),
            decreases segments@.len() - k,
        {
            let ghost so_far = result@;
            let line = ScreenLine { text: segments[k].clone(), tint };
            result.push(line);
            proof {
                assert(screen_views(result@) == screen_views(so_far).push(line@));
                assert(tinted(texts, tint).take(k + 1) == tinted(texts, tint).take(
                    k as int,
                ).push(line@));
            }
            k += 1;
        }
        proof {
            assert(tinted(texts, tint).take(texts.len() as int) == tinted(texts, tint));
            assert(line_views(lines@).take(i + 1).drop_last() == line_views(lines@).take(
                i as int,
            ));
            assert(line_views(lines@).take(i + 1).last() == lines@[i as int]@);
        }
        i += 1;
    }
    assert(line_views(lines@).take(lines@.len() as int) == line_views(lines@));
    if result.len() == 0 {
        let empty: String = String::new();
        result.push(ScreenLine { text: empty, tint: Tint::Plain });
        assert(empty@ == Seq::<char>::empty());
        assert(screen_views(result@) == seq![
            ScreenView { text: Seq::<char>::empty(), tint: Tint::Plain },
        ]);
    }
    result
}

/// How far a pane is scrolled to show its last lines, in 16 bits.
pub open spec fn scroll_for(line_count: nat, height: u16) -> u16 {
    if line_count <= height {
        0
    } else {
        ((line_count - height) % 65536) as u16
    }
}

/// How far a pane is scrolled to show its last lines.
pub fn compute_scroll(line_count: usize, height: u16) -> (scroll: u16)
    ensures
        scroll == scroll_for(line_count as nat, height),
{
    let hidden: usize = line_count.saturating_sub(height as usize);
    (hidden % 65536) as u16
}

/// How far a turn on screen has come.
#[derive(Debug, Clone, Copy, PartialEq, Eq, Structural)]
pub enum PaneTurnState {
    Draft,
    PendingFinalization,
    Final,
    Failed,
}

/// A turn on screen; it began so many nanoseconds after the application.
#[derive(Debug, Clone, PartialEq, Eq)]
pub struct TimestampedTurn {
    pub turn_id: String,
    pub started_at: u128,
    pub draft_text: String,
    pub final_text: Option<String>,
    pub state: PaneTurnState,
    pub display_action: DisplayAction,
    pub error: Option<String>,
}

/// What a turn on screen says.
#[verifier::ext_equal]
pub struct PaneTurnView {
    pub turn_id: Seq<char>,
    pub started_at: u128,
    pub draft_text: Seq<char>,
    pub final_text: Option<Seq<char>>,
    pub state: PaneTurnState,
    pub display_action: DisplayAction,
    pub error: Option<Seq<char>>,
}

impl TimestampedTurn {
    pub open spec fn view(self) -> PaneTurnView {
        PaneTurnView {
            turn_id: self.turn_id@,
            started_at: self.started_at,
            draft_text: self.draft_text@,
            final_text: view_opt(self.final_text),
            state: self.state,
            display_action: self.display_action,
            error: view_opt(self.error),
        }
    }
}

/// What turns on screen say.
pub open spec fn pane_turn_views(turns: Seq<TimestampedTurn>) -> Seq<PaneTurnView> {
    turns.map_values(|turn: TimestampedTurn| turn@)
}

/// The lines of a pane as they were last laid out.
#[derive(Debug, Clone)]
pub struct PaneLayoutCache {
    pub width: u16,
    pub height: u16,
    pub revision: u64,
    pub scroll: u16,
    pub lines: Vec<ScreenLine>,
}

/// What is shown of one source.
#[derive(Debug)]
pub struct SourcePane {
    pub draft_status: String,
    pub finalizer_status: String,
    pub capture_rms_thousandths: Option<u32>,
    pub queue_depth: usize,
    pub pending_audio_secs: Seconds,
    pub turns: Vec<TimestampedTurn>,
    pub usage: Option<UsageSnapshot>,
    pub error: Option<String>,
    pub content_revision: u64,
    pub layout_cache: Option<PaneLayoutCache>,
}

/// What a pane says.
#[verifier::ext_equal]
pub struct PaneView {
    pub draft_status: Seq<char>,
    pub finalizer_status: Seq<char>,
    pub capture_rms_thousandths: Option<u32>,
    pub queue_depth: usize,
    pub pending_audio_secs: Seconds,
    pub turns: Seq<PaneTurnView>,
    pub usage: Option<UsageSnapshot>,
    pub error: Option<Seq<char>>,
}

impl SourcePane {
    pub open spec fn view(self) -> PaneView {
        PaneView {
            draft_status: self.draft_status@,
            finalizer_status: self.finalizer_status@,
            capture_rms_thousandths: self.capture_rms_thousandths,
            queue_depth: self.queue_depth,
            pending_audio_secs: self.pending_audio_secs,
            turns: pane_turn_views(self.turns@),
            usage: self.usage,
            error: view_opt(self.error),
        }
    }

    /// A layout that is kept is that of the pane as it is.
    pub open spec fn wf(self) -> bool {
        self.layout_cache matches Some(cache) ==> {
            &&& cache.revision == self.content_revision
            &&& screen_views(cache.lines@) == screen(pane_lines(self@), cache.width)
            &&& cache.scroll == scroll_for(cache.lines@.len(), cache.height)
        }
    }
}

/// The prefix of a turn that goes on where the turn before it left off.
pub open spec fn continuation_prefix() -> Seq<char> {
    spaces(11)
}

/// Whether one of the turns has a final text.
pub open spec fn any_final(turns: Seq<PaneTurnView>) -> bool
    decreases turns.len(),
{
    if turns.len() == 0 {
        false
    } else {
        any_final(turns.drop_last()) || turns.last().state == PaneTurnState::Final
    }
}

/// The text of a turn on screen.
pub open spec fn turn_text(turn: PaneTurnView) -> Seq<char> {
    match turn.state {
        PaneTurnState::Draft => "[draft] "@ + turn.draft_text,
        PaneTurnState::PendingFinalization => "[pending] "@ + turn.draft_text,
        PaneTurnState::Final => match turn.final_text {
            Some(text) => text,
            None => Seq::empty(),
        },
        PaneTurnState::Failed => "[failed] "@ + turn.draft_text,
    }
}

/// The color of a turn on screen.
pub open spec fn turn_tint(state: PaneTurnState) -> Tint {
    match state {
        PaneTurnState::Draft => Tint::Yellow,
        PaneTurnState::PendingFinalization => Tint::LightYellow,
        PaneTurnState::Final => Tint::White,
        PaneTurnState::Failed => Tint::LightRed,
    }
}

/// The lines of a turn: its text behind the time or, where it goes on from a turn before it,
/// behind spaces; and its error, where it has one.
pub open spec fn turn_lines(turn: PaneTurnView, final_before: bool) -> Seq<LineView> {
    let line = LineView {
        prefix: if turn.state == PaneTurnState::Final && turn.display_action
            == DisplayAction::AppendPreviousBlock && final_before {
            continuation_prefix()
        } else {
            clock_text(turn.started_at) + " | "@
        },
        text: turn_text(turn),
        tint: turn_tint(turn.state),
    };
    match turn.error {
        Some(error) => seq![line, plain_line("           "@ + error, Tint::Red)],
        None => seq![line],
    }
}

/// The lines of turns.
pub open spec fn lines_of_turns(turns: Seq<PaneTurnView>) -> Seq<LineView>
    decreases turns.len(),
{
    if turns.len() == 0 {
        Seq::empty()
    } else {
        lines_of_turns(turns.drop_last()) + turn_lines(
            turns.last(),
            any_final(turns.drop_last()),
        )
    }
}

/// The lines of a pane: those of its turns, or that there are none yet; and the error of the
/// source, where it has one.
pub open spec fn pane_lines(pane: PaneView) -> Seq<LineView> {
    let lines = lines_of_turns(pane.turns);
    let shown = if lines.len() == 0 {
        seq![plain_line("waiting for transcription…"@, Tint::DarkGray)]
    } else {
        lines
    };
    match pane.error {
        Some(error) => shown.push(plain_line(Seq::empty(), Tint::Plain)).push(
            plain_line(error, Tint::Red),
        ),
        None => shown,
    }
}

impl Default for SourcePane {
    fn default() -> (pane: Self)
        ensures
            pane.wf(),
            pane@ == empty_pane(Seq::empty()),
    {
        let pane = SourcePane {
            draft_status: String::new(),
            finalizer_status: String::new(),
            capture_rms_thousandths: None,
            queue_depth: 0,
            pending_audio_secs: Seconds { bits: 0 },
            turns: Vec::new(),
            usage: None,
            error: None,
            content_revision: 0,
            layout_cache: None,
        };
        assert(pane@ == empty_pane(Seq::empty()));
        pane
    }
}

/// A pane without anything in it but a status.
pub open spec fn empty_pane(status: Seq<char>) -> PaneView {
    PaneView {
        draft_status: status,
        finalizer_status: status,
        capture_rms_thousandths: None,
        queue_depth: 0,
        pending_audio_secs: Seconds { bits: 0 },
        turns: Seq::empty(),
        usage: None,
        error: None,
    }
}

/// The place of the first turn named `turn_id`, or the number of turns where there is none.
pub open spec fn pane_turn_index(turns: Seq<PaneTurnView>, turn_id: Seq<char>) -> int
    decreases turns.len(),
{
    if turns.len() == 0 {
        0
    } else if turns[0].turn_id == turn_id {
        0
    } else {
        1 + pane_turn_index(turns.drop_first(), turn_id)
    }
}

proof fn lemma_pane_turn_index(turns: Seq<PaneTurnView>, turn_id: Seq<char>, at: int)
    requires
        0 <= at <= turns.len(),
        forall|i: int| 0 <= i < at ==> (#[trigger] turns[i]).turn_id != turn_id,
        at < turns.len() ==> turns[at].turn_id == turn_id,
    ensures
        pane_turn_index(turns, turn_id) == at,
    decreases turns.len(),
{
    if at > 0 {
        let rest = turns.drop_first();
        assert forall|i: int| 0 <= i < at - 1 implies (#[trigger] rest[i]).turn_id != turn_id by {
            assert(rest[i] == turns[i + 1]);
        }
        lemma_pane_turn_index(rest, turn_id, at - 1);
    }
}

impl PaneView {
    /// Whether the pane has a turn named `turn_id`.
    pub open spec fn has_turn(self, turn_id: Seq<char>) -> bool {
        pane_turn_index(self.turns, turn_id) < self.turns.len()
    }

    /// The turn named `turn_id`.
    pub open spec fn turn(self, turn_id: Seq<char>) -> PaneTurnView {
        self.turns[pane_turn_index(self.turns, turn_id)]
    }

    /// The pane with another turn in the place of the one named `turn_id`.
    pub open spec fn with_turn(self, turn_id: Seq<char>, turn: PaneTurnView) -> PaneView {
        PaneView { turns: self.turns.update(pane_turn_index(self.turns, turn_id), turn), ..self }
    }

    /// The pane after a draft of a turn: an empty draft is passed over, a known turn is a draft
    /// again and keeps the earlier of the two times, and a new turn takes the place of the
    /// oldest where there are as many as are kept.
    pub open spec fn with_draft(
        self,
        turn_id: Seq<char>,
        text: Seq<char>,
        started_at: u128,
    ) -> PaneView {
        if text.len() == 0 {
            self
        } else if self.has_turn(turn_id) {
            let turn = self.turn(turn_id);
            if turn.draft_text == text {
                self
            } else {
                self.with_turn(
                    turn_id,
                    PaneTurnView {
                        draft_text: text,
                        started_at: if started_at < turn.started_at {
                            started_at
                        } else {
                            turn.started_at
                        },
                        state: PaneTurnState::Draft,
                        ..turn
                    },
                )
            }
        } else {
            let kept = if self.turns.len() == MAX_TURNS_PER_SOURCE {
                self.turns.drop_first()
            } else {
                self.turns
            };
            PaneView {
                turns: kept.push(
                    PaneTurnView {
                        turn_id,
                        started_at,
                        draft_text: text,
                        final_text: None,
                        state: PaneTurnState::Draft,
                        display_action: DisplayAction::NewBlock,
                        error: None,
                    },
                ),
                ..self
            }
        }
    }

    /// The pane after a turn began to wait for its final text.
    pub open spec fn with_pending(self, turn_id: Seq<char>) -> PaneView {
        if self.has_turn(turn_id) {
            self.with_turn(
                turn_id,
                PaneTurnView {
                    state: PaneTurnState::PendingFinalization,
                    ..self.turn(turn_id)
                },
            )
        } else {
            self
        }
    }

    /// The pane after a turn got its final text.
    pub open spec fn with_final(
        self,
        turn_id: Seq<char>,
        text: Seq<char>,
        display_action: DisplayAction,
    ) -> PaneView {
        if self.has_turn(turn_id) {
            self.with_turn(
                turn_id,
                PaneTurnView {
                    final_text: Some(text),
                    state: PaneTurnState::Final,
                    display_action,
                    error: None,
                    ..self.turn(turn_id)
                },
            )
        } else {
            self
        }
    }

    /// The pane after a turn failed.
    pub open spec fn with_failure(self, turn_id: Seq<char>, error: Seq<char>) -> PaneView {
        if self.has_turn(turn_id) {
            self.with_turn(
                turn_id,
                PaneTurnView {
                    state: PaneTurnState::Failed,
                    error: Some(error),
                    ..self.turn(turn_id)
                },
            )
        } else {
            self
        }
    }

    /// The pane after an error of its source.
    pub open spec fn with_error(self, error: Seq<char>) -> PaneView {
        if self.error == Some(error) {
            self
        } else {
            PaneView {
                draft_status: "error"@,
                finalizer_status: "error"@,
                error: Some(error),
                ..self
            }
        }
    }
}

/// Token counts in which each count that is not 0 replaces the one before it.
pub open spec fn merged_usage(before: UsageSnapshot, usage: UsageSnapshot) -> UsageSnapshot {
    UsageSnapshot {
        prompt_token_count: merged_count(before.prompt_token_count, usage.prompt_token_count),
        cached_content_token_count: merged_count(
            before.cached_content_token_count,
            usage.cached_content_token_count,
        ),
        response_token_count: merged_count(
            before.response_token_count,
            usage.response_token_count,
        ),
        tool_use_prompt_token_count: merged_count(
            before.tool_use_prompt_token_count,
            usage.tool_use_prompt_token_count,
        ),
        thoughts_token_count: merged_count(
            before.thoughts_token_count,
            usage.thoughts_token_count,
        ),
        total_token_count: merged_count(before.total_token_count, usage.total_token_count),
    }
}

/// The later of two counts that is not 0.
pub open spec fn merged_count(before: u32, count: u32) -> u32 {
    if count > 0 {
        count
    } else {
        before
    }
}

/// Token counts of nothing.
pub open spec fn no_usage() -> UsageSnapshot {
    UsageSnapshot {
        prompt_token_count: 0,
        cached_content_token_count: 0,
        response_token_count: 0,
        tool_use_prompt_token_count: 0,
        thoughts_token_count: 0,
        total_token_count: 0,
    }
}

/// The token counts of a pane before a report: nothing where there were none.
pub open spec fn usage_or_none(usage: Option<UsageSnapshot>) -> UsageSnapshot {
    match usage {
        Some(usage) => usage,
        None => no_usage(),
    }
}

fn merge_count(before: u32, count: u32) -> (merged: u32)
    ensures
        merged == merged_count(before, count),
{
    if count > 0 {
        count
    } else {
        before
    }
}

impl SourcePane {
    fn invalidate_layout(&mut self)
        ensures
            final(self)@ == old(self)@,
            final(self).wf(),
            final(self).layout_cache is None,
            final(self).turns == old(self).turns,
    {
        self.content_revision = self.content_revision.wrapping_add(1);
        self.layout_cache = None;
    }

    fn find_turn(&self, turn_id: &str) -> (at: usize)
        ensures
            at == pane_turn_index(self@.turns, turn_id@),
            at <= self.turns@.len(),
    {
        let mut at: usize = 0;
        while at < self.turns.len()
            invariant
                at <= self.turns@.len(),
                forall|i: int| 0 <= i < at ==> (#[trigger] self@.turns[i]).turn_id != turn_id@,
            decreases self.turns@.len() - at,
        {
            if same_text(self.turns[at].turn_id.as_str(), turn_id) {
                proof {
                    lemma_pane_turn_index(self@.turns, turn_id@, at as int);
                }
                return at;
            }
            at += 1;
        }
        proof {
            lemma_pane_turn_index(self@.turns, turn_id@, at as int);
        }
        at
    }

    /// Sets the status of the draft.
    pub fn set_draft_status(&mut self, status: String) -> (changed: bool)
        requires
            old(self).wf(),
        ensures
            final(self).wf(),
            final(self)@ == (PaneView { draft_status: status@, ..old(self)@ }),
            changed == (old(self)@.draft_status != status@),
    {
        if same_text(self.draft_status.as_str(), status.as_str()) {
            return false;
        }
        self.draft_status = status;
        self.invalidate_layout();
        true
    }

    /// Sets the status of the finalizer.
    pub fn set_finalizer_status(&mut self, status: String) -> (changed: bool)
        requires
            old(self).wf(),
        ensures
            final(self).wf(),
            final(self)@ == (PaneView { finalizer_status: status@, ..old(self)@ }),
            changed == (old(self)@.finalizer_status != status@),
    {
        if same_text(self.finalizer_status.as_str(), status.as_str()) {
            return false;
        }
        self.finalizer_status = status;
        self.invalidate_layout();
        true
    }

    /// Sets what waits for its final text.
    pub fn set_queue_metrics(&mut self, queue_depth: usize, pending_audio_secs: Seconds) -> (changed:
        bool)
        requires
            old(self).wf(),
        ensures
            final(self).wf(),
            changed == !(old(self)@.queue_depth == queue_depth
                && old(self)@.pending_audio_secs.is_near(pending_audio_secs)),
            final(self)@ == if changed {
                PaneView { queue_depth, pending_audio_secs, ..old(self)@ }
            } else {
                old(self)@
            },
    {
        if self.queue_depth == queue_depth && self.pending_audio_secs.near(pending_audio_secs) {
            return false;
        }
        self.queue_depth = queue_depth;
        self.pending_audio_secs = pending_audio_secs;
        self.invalidate_layout();
        true
    }

    /// Sets the level of what is captured, in thousandths.
    pub fn set_capture_rms(&mut self, rms_thousandths: u32) -> (changed: bool)
        requires
            old(self).wf(),
        ensures
            final(self).wf(),
            changed == (old(self)@.capture_rms_thousandths != Some(rms_thousandths)),
            final(self)@ == (PaneView {
                capture_rms_thousandths: Some(rms_thousandths),
                ..old(self)@
            }),
    {
        let same = match self.capture_rms_thousandths {
            Some(level) => level == rms_thousandths,
            None => false,
        };
        if same {
            return false;
        }
        self.capture_rms_thousandths = Some(rms_thousandths);
        self.invalidate_layout();
        true
    }

    /// Shows an error of the source.
    pub fn set_error(&mut self, error: String) -> (changed: bool)
        requires
            old(self).wf(),
        ensures
            final(self).wf(),
            changed == (old(self)@.error != Some(error@)),
            final(self)@ == old(self)@.with_error(error@),
    {
        let same = match &self.error {
            Some(shown) => same_text(shown.as_str(), error.as_str()),
            None => false,
        };
        if same {
            return false;
        }
        self.draft_status = "error".to_owned();
        self.finalizer_status = "error".to_owned();
        self.error = Some(error);
        self.invalidate_layout();
        true
    }

    /// Takes a report of token counts: each count that is not 0 replaces the one before it.
    pub fn set_usage(&mut self, usage: UsageSnapshot) -> (changed: bool)
        requires
            old(self).wf(),
        ensures
            final(self).wf(),
            final(self)@ == (PaneView {
                usage: Some(merged_usage(usage_or_none(old(self)@.usage), usage)),
                ..old(self)@
            }),
            changed == (merged_usage(usage_or_none(old(self)@.usage), usage) != usage_or_none(
                old(self)@.usage,
            )),
    {
        let previous = match self.usage {
            Some(usage) => usage,
            None => UsageSnapshot {
                prompt_token_count: 0,
                cached_content_token_count: 0,
                response_token_count: 0,
                tool_use_prompt_token_count: 0,
                thoughts_token_count: 0,
                total_token_count: 0,
            },
        };
        let merged = UsageSnapshot {
            prompt_token_count: merge_count(
                previous.prompt_token_count,
                usage.prompt_token_count,
            ),
            cached_content_token_count: merge_count(
                previous.cached_content_token_count,
                usage.cached_content_token_count,
            ),
            response_token_count: merge_count(
                previous.response_token_count,
                usage.response_token_count,
            ),
            tool_use_prompt_token_count: merge_count(
                previous.tool_use_prompt_token_count,
                usage.tool_use_prompt_token_count,
            ),
            thoughts_token_count: merge_count(
                previous.thoughts_token_count,
                usage.thoughts_token_count,
            ),
            total_token_count: merge_count(
                previous.total_token_count,
                usage.total_token_count,
            ),
        };
        self.usage = Some(merged);
        assert(pane_lines(self@) == pane_lines(old(self)@));
        merged != previous
    }

    /// Shows a draft of a turn.
    pub fn update_draft(&mut self, turn_id: String, text: String, started_at: u128) -> (changed:
        bool)
        requires
            old(self).wf(),
        ensures
            final(self).wf(),
            final(self)@ == old(self)@.with_draft(turn_id@, text@, started_at),
            changed == (text@.len() > 0 && !(old(self)@.has_turn(turn_id@) && old(self)@.turn(
                turn_id@,
            ).draft_text == text@)),
    {
        if text.as_str().is_empty() {
            return false;
        }
        let at = self.find_turn(turn_id.as_str());
        if at < self.turns.len() {
            if same_text(self.turns[at].draft_text.as_str(), text.as_str()) {
                return false;
            }
            self.turns[at].draft_text = text;
            if started_at < self.turns[at].started_at {
                self.turns[at].started_at = started_at;
            }
            self.turns[at].state = PaneTurnState::Draft;
            self.invalidate_layout();
            assert(self@.turns == old(self)@.with_draft(turn_id@, text@, started_at).turns);
            return true;
        }
        if self.turns.len() == MAX_TURNS_PER_SOURCE {
            let _ = self.turns.remove(0);
            assert(self@.turns == old(self)@.turns.drop_first());
        }
        let ghost kept = self.turns@;
        let turn = TimestampedTurn {
            turn_id,
            started_at,
            draft_text: text,
            final_text: None,
            state: PaneTurnState::Draft,
            display_action: DisplayAction::NewBlock,
            error: None,
        };
        self.turns.push(turn);
        assert(pane_turn_views(self.turns@) == pane_turn_views(kept).push(turn@));
        self.invalidate_layout();
        true
    }

    /// Shows that a turn waits for its final text.
    pub fn mark_pending(&mut self, turn_id: &str) -> (changed: bool)
        requires
            old(self).wf(),
        ensures
            final(self).wf(),
            final(self)@ == old(self)@.with_pending(turn_id@),
            changed == (old(self)@.has_turn(turn_id@) && old(self)@.turn(turn_id@).state
                != PaneTurnState::PendingFinalization),
    {
        let at = self.find_turn(turn_id);
        if at >= self.turns.len() {
            return false;
        }
        if self.turns[at].state == PaneTurnState::PendingFinalization {
            assert(self@.turns == old(self)@.with_pending(turn_id@).turns);
            return false;
        }
        self.turns[at].state = PaneTurnState::PendingFinalization;
        self.invalidate_layout();
        assert(self@.turns == old(self)@.with_pending(turn_id@).turns);
        true
    }

    /// Shows the final text of a turn.
    pub fn mark_final(
        &mut self,
        turn_id: &str,
        text: String,
        display_action: DisplayAction,
    ) -> (changed: bool)
        requires
            old(self).wf(),
        ensures
            final(self).wf(),
            final(self)@ == old(self)@.with_final(turn_id@, text@, display_action),
            changed == old(self)@.has_turn(turn_id@),
    {
        let at = self.find_turn(turn_id);
        if at >= self.turns.len() {
            return false;
        }
        self.turns[at].final_text = Some(text);
        self.turns[at].state = PaneTurnState::Final;
        self.turns[at].display_action = display_action;
        self.turns[at].error = None;
        self.invalidate_layout();
        assert(self@.turns == old(self)@.with_final(turn_id@, text@, display_action).turns);
        true
    }

    /// Shows that a turn failed.
    pub fn mark_failed(&mut self, turn_id: &str, error: String) -> (changed: bool)
        requires
            old(self).wf(),
        ensures
            final(self).wf(),
            final(self)@ == old(self)@.with_failure(turn_id@, error@),
            changed == (old(self)@.has_turn(turn_id@) && !(old(self)@.turn(turn_id@).state
                == PaneTurnState::Failed && old(self)@.turn(turn_id@).error == Some(error@))),
    {
        let at = self.find_turn(turn_id);
        if at >= self.turns.len() {
            return false;
        }
        let same_error = match &self.turns[at].error {
            Some(shown) => same_text(shown.as_str(), error.as_str()),
            None => false,
        };
        if self.turns[at].state == PaneTurnState::Failed && same_error {
            assert(self@.turns == old(self)@.with_failure(turn_id@, error@).turns);
            return false;
        }
        self.turns[at].state = PaneTurnState::Failed;
        self.turns[at].error = Some(error);
        self.invalidate_layout();
        assert(self@.turns == old(self)@.with_failure(turn_id@, error@).turns);
        true
    }
}

/// Whether a status means that the source cannot be heard for now.
pub open spec fn degraded(status: Seq<char>) -> bool {
    ||| status == "resuming"@
    ||| status == "reconnecting"@
    ||| status == "starting"@
    ||| status == "connecting"@
}

/// Whether a status means that the source cannot be heard for now.
pub fn is_degraded_status(status: &str) -> (result: bool)
    ensures
        result == degraded(status@),
{
    same_text(status, "resuming") || same_text(status, "reconnecting") || same_text(
        status,
        "starting",
    ) || same_text(status, "connecting")
}

/// The color of a pane's border.
pub open spec fn border_tint(pane: PaneView) -> Tint {
    if pane.error is Some {
        Tint::Red
    } else if degraded(pane.draft_status) || degraded(pane.finalizer_status) {
        Tint::Yellow
    } else if pane.draft_status == "listening"@ || pane.draft_status == "capturing"@ {
        Tint::Green
    } else {
        Tint::Gray
    }
}

/// A number of thousandths with three decimals.
pub open spec fn thousandths_text(thousandths: u32) -> Seq<char> {
    decimal((thousandths / 1000) as nat) + "."@ + zero_padded(
        decimal((thousandths % 1000) as nat),
        3,
    )
}

/// The level in a pane's title.
pub open spec fn level_text(level: Option<u32>) -> Seq<char> {
    match level {
        Some(thousandths) => "rms "@ + thousandths_text(thousandths),
        None => "rms --"@,
    }
}

/// A number of seconds with one decimal.
pub open spec fn seconds_text(seconds: Seconds) -> Seq<char> {
    if seconds.is_infinite() {
        "inf"@
    } else {
        tenths_text(seconds.tenths())
    }
}

/// The queue in a pane's title: its depth, and the seconds of audio that wait.
pub open spec fn queue_text(queue_depth: usize, pending_audio_secs: Seconds) -> Seq<char> {
    if queue_depth == 0 {
        "q 0"@
    } else {
        "q "@ + decimal(queue_depth as nat) + " | "@ + seconds_text(pending_audio_secs) + "s"@
    }
}

/// The title of a pane.
pub open spec fn pane_title(pane: PaneView, source: SourceKind) -> Seq<char> {
    let start = source_title(source) + " [d:"@ + pane.draft_status + " | f:"@
        + pane.finalizer_status + " | "@ + level_text(pane.capture_rms_thousandths) + " | "@
        + queue_text(pane.queue_depth, pane.pending_audio_secs);
    match pane.usage {
        Some(usage) => if usage.prompt_token_count > 0 {
            start + " | ctx "@ + token_text(usage.prompt_token_count) + "]"@
        } else {
            start + "]"@
        },
        None => start + "]"@,
    }
}

fn build_seconds_text(seconds: Seconds) -> (text: String)
    ensures
        text@ == seconds_text(seconds),
{
    match seconds.in_tenths() {
        Some((whole, tenth)) => decimal_text(whole).concat(".").concat(
            decimal_text(tenth).as_str(),
        ),
        None => "inf".to_owned(),
    }
}

fn build_queue_text(queue_depth: usize, pending_audio_secs: Seconds) -> (text: String)
    ensures
        text@ == queue_text(queue_depth, pending_audio_secs),
{
    if queue_depth == 0 {
        return "q 0".to_owned();
    }
    "q ".to_owned().concat(decimal_text(queue_depth as u128).as_str()).concat(" | ").concat(
        build_seconds_text(pending_audio_secs).as_str(),
    ).concat("s")
}

impl SourcePane {
    /// The color of the pane's border.
    pub fn border_style(&self) -> (tint: Tint)
        ensures
            tint == border_tint(self@),
    {
        if self.error.is_some() {
            Tint::Red
        } else if is_degraded_status(self.draft_status.as_str()) || is_degraded_status(
            self.finalizer_status.as_str(),
        ) {
            Tint::Yellow
        } else if same_text(self.draft_status.as_str(), "listening") || same_text(
            self.draft_status.as_str(),
            "capturing",
        ) {
            Tint::Green
        } else {
            Tint::Gray
        }
    }

    /// The title of the pane.
    pub fn title(&self, source: SourceKind) -> (text: String)
        ensures
            text@ == pane_title(self@, source),
    {
        let level = match self.capture_rms_thousandths {
            Some(thousandths) => "rms ".to_owned().concat(
                decimal_text((thousandths / 1000) as u128).as_str(),
            ).concat(".").concat(padded_decimal_text((thousandths % 1000) as u128, 3).as_str()),
            None => "rms --".to_owned(),
        };
        proof {
            if self.capture_rms_thousandths is Some {
                let thousandths = self.capture_rms_thousandths->Some_0;
                let whole = decimal((thousandths / 1000) as nat);
                let part = zero_padded(decimal((thousandths % 1000) as nat), 3);
                assert("rms "@ + whole + "."@ + part == "rms "@ + (whole + "."@ + part));
            }
        }
        let start = source.title().to_owned().concat(" [d:").concat(
            self.draft_status.as_str(),
        ).concat(" | f:").concat(self.finalizer_status.as_str()).concat(" | ").concat(
            level.as_str(),
        ).concat(" | ").concat(
            build_queue_text(self.queue_depth, self.pending_audio_secs).as_str(),
        );
        match self.usage {
            Some(usage) => if usage.prompt_token_count > 0 {
                start.concat(" | ctx ").concat(
                    abbreviate_token_count(usage.prompt_token_count).as_str(),
                ).concat("]")
            } else {
                start.concat("]")
            },
            None => start.concat("]"),
        }
    }

    /// The lines of the pane.
    pub fn display_lines(&self) -> (lines: Vec<DisplayLine>)
        ensures
            line_views(lines@) == pane_lines(self@),
    {
        let mut lines: Vec<DisplayLine> = Vec::new();
        let mut final_before = false;
        let mut i: usize = 0;
        assert(line_views(lines@) == Seq::<LineView>::empty());
        assert(self@.turns.take(0) == Seq::<PaneTurnView>::empty());
        while i < self.turns.len()
            invariant
                i <= self.turns@.len(),
                line_views(lines@) == lines_of_turns(self@.turns.take(i as int)),
                final_before == any_final(self@.turns.take(i as int)),
            decreases self.turns@.len() - i,
        {
            let turn = &self.turns[i];
            let ghost before = lines@;
            proof {
                assert(self@.turns.take(i + 1).drop_last() == self@.turns.take(i as int));
                assert(self@.turns.take(i + 1).last() == turn@);
            }
            let prefix_override = if turn.state == PaneTurnState::Final && turn.display_action
                == DisplayAction::AppendPreviousBlock && final_before {
                Some(build_spaces(11))
            } else {
                None
            };
            let text: String = match turn.state {
                PaneTurnState::Draft => "[draft] ".to_owned().concat(turn.draft_text.as_str()),
                PaneTurnState::PendingFinalization => "[pending] ".to_owned().concat(
                    turn.draft_text.as_str(),
                ),
                PaneTurnState::Final => match &turn.final_text {
                    Some(text) => text.clone(),
                    None => String::new(),
                },
                PaneTurnState::Failed => "[failed] ".to_owned().concat(turn.draft_text.as_str()),
            };
            let tint = match turn.state {
                PaneTurnState::Draft => Tint::Yellow,
                PaneTurnState::PendingFinalization => Tint::LightYellow,
                PaneTurnState::Final => Tint::White,
                PaneTurnState::Failed => Tint::LightRed,
            };
            let line = DisplayLine::transcript(turn.started_at, text, tint, prefix_override);
            assert(line@ == turn_lines(turn@, final_before)[0]);
            lines.push(line);
            assert(line_views(lines@) == line_views(before).push(line@));
            match &turn.error {
                Some(error) => {
                    let ghost with_text = lines@;
                    let below = DisplayLine::plain(
                        "           ".to_owned().concat(error.as_str()),
                        Tint::Red,
                    );
                    lines.push(below);
                    assert(line_views(lines@) == line_views(with_text).push(below@));
                    assert(turn_lines(turn@, final_before) == seq![line@, below@]);
                    assert(line_views(lines@) == line_views(before) + seq![line@, below@]);
                },
                None => {
                    assert(turn_lines(turn@, final_before) == seq![line@]);
                    assert(line_views(lines@) == line_views(before) + seq![line@]);
                },
            }
            if turn.state == PaneTurnState::Final {
                final_before = true;
            }
            i += 1;
        }
        assert(self@.turns.take(self@.turns.len() as int) == self@.turns);
        if lines.len() == 0 {
            let line = DisplayLine::plain("waiting for transcription…".to_owned(), Tint::DarkGray);
            lines.push(line);
            assert(line_views(lines@) == seq![line@]);
        }
        let ghost shown = lines@;
        if let Some(error) = &self.error {
            let blank = DisplayLine::plain(String::new(), Tint::Plain);
            let line = DisplayLine::plain(error.clone(), Tint::Red);
            lines.push(blank);
            lines.push(line);
            assert(line_views(lines@) == line_views(shown).push(blank@).push(line@));
        }
        lines
    }

    /// The lines of the pane on screen, and how far it is scrolled. They are laid out again only
    /// where the pane or its size has changed.
    pub fn layout_for(&mut self, width: u16, height: u16) -> (layout: &PaneLayoutCache)
        requires
            old(self).wf(),
        ensures
            final(self).wf(),
            final(self)@ == old(self)@,
            screen_views(layout.lines@) == screen(pane_lines(old(self)@), width),
            layout.scroll == scroll_for(layout.lines@.len(), height),
            layout.width == width,
            layout.height == height,
    {
        let kept = match self.layout_cache.take() {
            Some(cache) => if cache.width == width && cache.revision == self.content_revision {
                Some(cache)
            } else {
                None
            },
            None => None,
        };
        let cache = match kept {
            Some(cache) => {
                let scroll = compute_scroll(cache.lines.len(), height);
                PaneLayoutCache { height, scroll, ..cache }
            },
            None => {
                let lines = wrap_display_lines(&self.display_lines(), width);
                let scroll = compute_scroll(lines.len(), height);
                PaneLayoutCache {
                    width,
                    height,
                    revision: self.content_revision,
                    scroll,
                    lines,
                }
            },
        };
        self.layout_cache.insert(cache)
    }
}

/// The panes of the sources that are shown.
#[derive(Debug)]
pub struct PaneTable {
    pub microphone: Option<SourcePane>,
    pub system_audio: Option<SourcePane>,
}

/// What an optional pane says.
pub open spec fn view_opt_pane(pane: Option<SourcePane>) -> Option<PaneView> {
    match pane {
        Some(pane) => Some(pane@),
        None => None,
    }
}

impl PaneTable {
    /// What the pane of a source says, where it is shown.
    pub open spec fn pane_of(self, source: SourceKind) -> Option<PaneView> {
        match source {
            SourceKind::Microphone => view_opt_pane(self.microphone),
            SourceKind::SystemAudio => view_opt_pane(self.system_audio),
        }
    }

    /// The layouts that are kept are those of the panes as they are.
    pub open spec fn wf(self) -> bool {
        &&& self.microphone matches Some(pane) ==> pane.wf()
        &&& self.system_audio matches Some(pane) ==> pane.wf()
    }

    /// The pane of a source, where it is shown.
    pub fn get_mut(&mut self, source: SourceKind) -> (pane: Option<&mut SourcePane>)
        requires
            old(self).wf(),
        ensures
            match pane {
                Some(pane) => {
                    &&& old(self).pane_of(source) == Some((*pane)@)
                    &&& (*pane).wf()
                    &&& final(self).pane_of(source) == Some((*final(pane))@)
                    &&& (*final(pane)).wf() ==> final(self).wf()
                },
                None => {
                    &&& old(self).pane_of(source) is None
                    &&& final(self).pane_of(source) is None
                    &&& final(self).wf()
                },
            },
            match source {
                SourceKind::Microphone => final(self).system_audio == old(self).system_audio,
                SourceKind::SystemAudio => final(self).microphone == old(self).microphone,
            },
    {
        match source {
            SourceKind::Microphone => match &mut self.microphone {
                Some(pane) => Some(pane),
                None => None,
            },
            SourceKind::SystemAudio => match &mut self.system_audio {
                Some(pane) => Some(pane),
                None => None,
            },
        }
    }
}

/// What is on screen.
#[derive(Debug)]
pub struct App {
    pub started_at: i64,
    pub model: String,
    pub profile_summary: String,
    pub sources: Vec<SourceKind>,
    pub panes: PaneTable,
    pub notices: VecDeque<String>,
}

/// What the screen says.
#[verifier::ext_equal]
pub struct ScreenState {
    pub started_at: i64,
    pub model: Seq<char>,
    pub profile_summary: Seq<char>,
    pub sources: Seq<SourceKind>,
    pub microphone: Option<PaneView>,
    pub system_audio: Option<PaneView>,
    pub notices: Seq<Seq<char>>,
}

impl ScreenState {
    /// The pane of a source, where it is shown.
    pub open spec fn pane(self, source: SourceKind) -> Option<PaneView> {
        match source {
            SourceKind::Microphone => self.microphone,
            SourceKind::SystemAudio => self.system_audio,
        }
    }

    /// The screen with another pane for a source.
    pub open spec fn with_pane(self, source: SourceKind, pane: PaneView) -> ScreenState {
        match source {
            SourceKind::Microphone => ScreenState { microphone: Some(pane), ..self },
            SourceKind::SystemAudio => ScreenState { system_audio: Some(pane), ..self },
        }
    }

    /// The screen with one more notice: the oldest makes room where there are as many as are
    /// kept.
    pub open spec fn with_notice(self, notice: Seq<char>) -> ScreenState {
        let kept = if self.notices.len() == MAX_NOTICES {
            self.notices.drop_first()
        } else {
            self.notices
        };
        ScreenState { notices: kept.push(notice), ..self }
    }
}

/// The nanoseconds from one time to another, or none where the other is not later.
pub open spec fn elapsed_ns(from: i64, to: i128) -> u128 {
    if to <= from {
        0
    } else {
        (to - from) as u128
    }
}

fn elapsed(from: i64, to: i128) -> (nanos: u128)
    ensures
        nanos == elapsed_ns(from, to),
{
    if to <= from as i128 {
        0
    } else if from >= 0 {
        (to - from as i128) as u128
    } else {
        let before: u128 = (0 - from as i128) as u128;
        if to >= 0 {
            to as u128 + before
        } else {
            before - (0 - to) as u128
        }
    }
}

/// What becomes of a pane by an event of its source; `None` where the event is of no source.
pub open spec fn pane_after(
    pane: PaneView,
    event: AppEvent<Seq<char>>,
    started_at: i64,
) -> PaneView {
    match event {
        AppEvent::DraftStatus { source, status } => PaneView { draft_status: status, ..pane },
        AppEvent::FinalizerStatus { source, status } => PaneView {
            finalizer_status: status,
            ..pane
        },
        AppEvent::QueueMetrics { source, queue_depth, pending_audio_secs } => if pane.queue_depth
            == queue_depth && pane.pending_audio_secs.is_near(pending_audio_secs) {
            pane
        } else {
            PaneView { queue_depth, pending_audio_secs, ..pane }
        },
        AppEvent::CaptureLevel { source, rms_thousandths } => PaneView {
            capture_rms_thousandths: Some(rms_thousandths),
            ..pane
        },
        AppEvent::DraftTranscript { source, turn_id, at, text } => pane.with_draft(
            turn_id,
            normalized(text),
            elapsed_ns(started_at, at),
        ),
        AppEvent::TurnPending { source, turn_id } => pane.with_pending(turn_id),
        AppEvent::TurnFinalized { source, turn_id, text, display_action } => pane.with_final(
            turn_id,
            normalized(text),
            display_action,
        ),
        AppEvent::TurnFailed { source, turn_id, error } => pane.with_failure(turn_id, error),
        AppEvent::Usage { source, usage } => PaneView {
            usage: Some(merged_usage(usage_or_none(pane.usage), usage)),
            ..pane
        },
        AppEvent::SourceError { source, error } => pane.with_error(error),
        AppEvent::Notice(_) | AppEvent::Redraw | AppEvent::Quit => pane,
    }
}

/// The source that an event is of.
pub open spec fn event_source(event: AppEvent<Seq<char>>) -> Option<SourceKind> {
    match event {
        AppEvent::DraftStatus { source, status } => Some(source),
        AppEvent::FinalizerStatus { source, status } => Some(source),
        AppEvent::QueueMetrics { source, queue_depth, pending_audio_secs } => Some(source),
        AppEvent::CaptureLevel { source, rms_thousandths } => Some(source),
        AppEvent::DraftTranscript { source, turn_id, at, text } => Some(source),
        AppEvent::TurnPending { source, turn_id } => Some(source),
        AppEvent::TurnFinalized { source, turn_id, text, display_action } => Some(source),
        AppEvent::TurnFailed { source, turn_id, error } => Some(source),
        AppEvent::Usage { source, usage } => Some(source),
        AppEvent::SourceError { source, error } => Some(source),
        AppEvent::Notice(_) | AppEvent::Redraw | AppEvent::Quit => None,
    }
}

/// The screen after an event. An event of a source that is not shown is passed over.
pub open spec fn screen_after(state: ScreenState, event: AppEvent<Seq<char>>) -> ScreenState {
    match event_source(event) {
        Some(source) => match state.pane(source) {
            Some(pane) => {
                let shown = state.with_pane(source, pane_after(pane, event, state.started_at));
                match event {
                    AppEvent::SourceError { source: _, error } => shown.with_notice(
                        source_title(source) + ": "@ + error,
                    ),
                    _ => shown,
                }
            },
            None => state,
        },
        None => match event {
            AppEvent::Notice(text) => state.with_notice(text),
            _ => state,
        },
    }
}

/// Whether an event of its source changes what a pane shows.
pub open spec fn pane_redraws(pane: PaneView, event: AppEvent<Seq<char>>) -> bool {
    match event {
        AppEvent::DraftStatus { source, status } => pane.draft_status != status,
        AppEvent::FinalizerStatus { source, status } => pane.finalizer_status != status,
        AppEvent::QueueMetrics { source, queue_depth, pending_audio_secs } => !(pane.queue_depth
            == queue_depth && pane.pending_audio_secs.is_near(pending_audio_secs)),
        AppEvent::CaptureLevel { source, rms_thousandths } => pane.capture_rms_thousandths != Some(
            rms_thousandths,
        ),
        AppEvent::DraftTranscript { source, turn_id, at, text } => normalized(text).len() > 0 && !(
        pane.has_turn(turn_id) && pane.turn(turn_id).draft_text == normalized(text)),
        AppEvent::TurnPending { source, turn_id } => pane.has_turn(turn_id) && pane.turn(
            turn_id,
        ).state != PaneTurnState::PendingFinalization,
        AppEvent::TurnFinalized { source, turn_id, text, display_action } => pane.has_turn(
            turn_id,
        ),
        AppEvent::TurnFailed { source, turn_id, error } => pane.has_turn(turn_id) && !(pane.turn(
            turn_id,
        ).state == PaneTurnState::Failed && pane.turn(turn_id).error == Some(error)),
        AppEvent::Usage { source, usage } => merged_usage(usage_or_none(pane.usage), usage)
            != usage_or_none(pane.usage),
        AppEvent::SourceError { source, error } => pane.error != Some(error),
        AppEvent::Notice(_) | AppEvent::Redraw | AppEvent::Quit => false,
    }
}

/// Whether an event calls for the screen to be drawn again: it changes the pane of its source,
/// or brings a notice.
pub open spec fn redraws(state: ScreenState, event: AppEvent<Seq<char>>) -> bool {
    match event_source(event) {
        Some(source) => match state.pane(source) {
            Some(pane) => event is SourceError || pane_redraws(pane, event),
            None => false,
        },
        None => event is Notice,
    }
}

impl SourcePane {
    /// Shows an event of the pane's source; says whether the pane has changed.
    fn apply(&mut self, event: AppEvent, started_at: i64) -> (changed: bool)
        requires
            old(self).wf(),
        ensures
            final(self).wf(),
            final(self)@ == pane_after(old(self)@, event@, started_at),
            changed == pane_redraws(old(self)@, event@),
    {
        match event {
            AppEvent::DraftStatus { source: _, status } => self.set_draft_status(status),
            AppEvent::FinalizerStatus { source: _, status } => self.set_finalizer_status(status),
            AppEvent::QueueMetrics { source: _, queue_depth, pending_audio_secs } => {
                self.set_queue_metrics(queue_depth, pending_audio_secs)
            },
            AppEvent::CaptureLevel { source: _, rms_thousandths } => self.set_capture_rms(
                rms_thousandths,
            ),
            AppEvent::DraftTranscript { source: _, turn_id, at, text } => self.update_draft(
                turn_id,
                normalize_transcript_text(text.as_str()),
                elapsed(started_at, at),
            ),
            AppEvent::TurnPending { source: _, turn_id } => self.mark_pending(turn_id.as_str()),
            AppEvent::TurnFinalized { source: _, turn_id, text, display_action } => {
                self.mark_final(
                    turn_id.as_str(),
                    normalize_transcript_text(text.as_str()),
                    display_action,
                )
            },
            AppEvent::TurnFailed { source: _, turn_id, error } => self.mark_failed(
                turn_id.as_str(),
                error,
            ),
            AppEvent::Usage { source: _, usage } => self.set_usage(usage),
            AppEvent::SourceError { source: _, error } => self.set_error(error),
            AppEvent::Notice(_) | AppEvent::Redraw | AppEvent::Quit => false,
        }
    }
}

impl AppEvent<String> {
    /// The source that the event is of.
    pub fn source(&self) -> (result: Option<SourceKind>)
        ensures
            result == event_source(self@),
    {
        match self {
            AppEvent::DraftStatus { source, .. } => Some(*source),
            AppEvent::FinalizerStatus { source, .. } => Some(*source),
            AppEvent::QueueMetrics { source, .. } => Some(*source),
            AppEvent::CaptureLevel { source, .. } => Some(*source),
            AppEvent::DraftTranscript { source, .. } => Some(*source),
            AppEvent::TurnPending { source, .. } => Some(*source),
            AppEvent::TurnFinalized { source, .. } => Some(*source),
            AppEvent::TurnFailed { source, .. } => Some(*source),
            AppEvent::Usage { source, .. } => Some(*source),
            AppEvent::SourceError { source, .. } => Some(*source),
            AppEvent::Notice(_) | AppEvent::Redraw | AppEvent::Quit => None,
        }
    }
}

fn starting_pane() -> (pane: SourcePane)
    ensures
        pane.wf(),
        pane@ == empty_pane("starting"@),
{
    let mut pane = SourcePane::default();
    pane.draft_status = "starting".to_owned();
    pane.finalizer_status = "starting".to_owned();
    pane
}

/// The pane of a source at the start.
pub open spec fn first_pane(sources: Seq<SourceKind>, source: SourceKind) -> Option<PaneView> {
    if sources.contains(source) {
        Some(empty_pane("starting"@))
    } else {
        None
    }
}

impl App {
    pub open spec fn view(self) -> ScreenState {
        ScreenState {
            started_at: self.started_at,
            model: self.model@,
            profile_summary: self.profile_summary@,
            sources: self.sources@,
            microphone: view_opt_pane(self.panes.microphone),
            system_audio: view_opt_pane(self.panes.system_audio),
            notices: views(self.notices@),
        }
    }

    /// The layouts that are kept are up to date, and no more notices are kept than should be.
    pub open spec fn wf(self) -> bool {
        self.panes.wf() && self.notices@.len() <= MAX_NOTICES
    }

    /// A screen for the sources, at the time `started_at`.
    pub fn new(
        model: String,
        profile_summary: String,
        sources: Vec<SourceKind>,
        started_at: i64,
    ) -> (app: Self)
        ensures
            app.wf(),
            app@ == (ScreenState {
                started_at,
                model: model@,
                profile_summary: profile_summary@,
                sources: sources@,
                microphone: first_pane(sources@, SourceKind::Microphone),
                system_audio: first_pane(sources@, SourceKind::SystemAudio),
                notices: Seq::empty(),
            }),
    {
        let microphone = if crate::capture::has_source(&sources, SourceKind::Microphone) {
            Some(starting_pane())
        } else {
            None
        };
        let system_audio = if crate::capture::has_source(&sources, SourceKind::SystemAudio) {
            Some(starting_pane())
        } else {
            None
        };
        let app = App {
            started_at,
            model,
            profile_summary,
            sources,
            panes: PaneTable { microphone, system_audio },
            notices: VecDeque::new(),
        };
        assert(app@.notices == Seq::<Seq<char>>::empty());
        app
    }

    fn push_notice(&mut self, message: String) -> (changed: bool)
        requires
            old(self).wf(),
        ensures
            final(self).wf(),
            changed,
            final(self)@ == old(self)@.with_notice(message@),
    {
        if self.notices.len() == MAX_NOTICES {
            let _ = self.notices.pop_front();
            assert(views(self.notices@) == old(self)@.notices.drop_first());
        }
        let ghost kept = self.notices@;
        self.notices.push_back(message);
        assert(views(self.notices@) == views(kept).push(message@));
        true
    }

    /// Shows an event; says whether the screen is to be drawn again.
    pub fn apply(&mut self, event: AppEvent) -> (changed: bool)
        requires
            old(self).wf(),
        ensures
            final(self).wf(),
            final(self)@ == screen_after(old(self)@, event@),
            changed == redraws(old(self)@, event@),
    {
        let started_at = self.started_at;
        let source = match event.source() {
            Some(source) => source,
            None => match event {
                AppEvent::Notice(message) => return self.push_notice(message),
                _ => return false,
            },
        };
        let notice: Option<String> = match &event {
            AppEvent::SourceError { source, error } => Some(
                source.title().to_owned().concat(": ").concat(error.as_str()),
            ),
            _ => None,
        };
        let changed = match self.panes.get_mut(source) {
            Some(pane) => pane.apply(event, started_at),
            None => return false,
        };
        match notice {
            Some(message) => self.push_notice(message),
            None => changed,
        }
    }

    /// The first line of the status.
    pub fn status_text(&self) -> (text: String)
        ensures
            text@ == "model: "@ + self@.model + " | capture: 16 kHz mono | q: quit"@,
    {
        "model: ".to_owned().concat(self.model.as_str()).concat(
            " | capture: 16 kHz mono | q: quit",
        )
    }

    /// The latest notice, or that everything is ready.
    pub fn latest_notice(&self) -> (text: String)
        ensures
            text@ == if self@.notices.len() == 0 {
                "ready"@
            } else {
                self@.notices.last()
            },
    {
        if self.notices.len() == 0 {
            "ready".to_owned()
        } else {
            let last: usize = self.notices.len() - 1;
            self.notices[last].clone()
        }
    }

    /// The first line of the controls.
    pub fn controls_text(&self) -> (text: String)
        ensures
            text@ == "q quit | "@ + self@.profile_summary,
    {
        "q quit | ".to_owned().concat(self.profile_summary.as_str())
    }
}

/// Handles an event of the screen: it ends the application, has the screen drawn, or is shown.
pub fn handle_ui_event(
    app: &mut App,
    event: AppEvent,
    should_draw: &mut bool,
    should_quit: &mut bool,
)
    requires
        old(app).wf(),
    ensures
        final(app).wf(),
        final(app)@ == screen_after(old(app)@, event@),
        *final(should_quit) == (*old(should_quit) || event is Quit),
        *final(should_draw) == (*old(should_draw) || event is Redraw || redraws(
            old(app)@,
            event@,
        )),
{
    match event {
        AppEvent::Quit => {
            *should_quit = true;
        },
        AppEvent::Redraw => {
            *should_draw = true;
        },
        event => {
            if app.apply(event) {
                *should_draw = true;
            }
        },
    }
}

/// What comes from the terminal.
#[derive(Debug)]
pub enum TerminalInput {
    /// A key for a character, and whether it went down.
    Key { character: char, pressed: bool },
    /// The terminal has another size.
    Resize,
    /// Anything else, or nothing for a while.
    Other,
    /// Nothing could be read.
    ReadFailed(String),
    /// It could not be told whether there is anything to read.
    PollFailed(String),
}

/// What input means for the screen.
pub open spec fn input_event(input: TerminalInput) -> Option<AppEvent<Seq<char>>> {
    match input {
        TerminalInput::Key { character, pressed } => if pressed && character == 'q' {
            Some(AppEvent::Quit)
        } else {
            None
        },
        TerminalInput::Resize => Some(AppEvent::Redraw),
        TerminalInput::Other => None,
        TerminalInput::ReadFailed(error) => Some(
            AppEvent::Notice("terminal input error: "@ + error@),
        ),
        TerminalInput::PollFailed(error) => Some(
            AppEvent::Notice("terminal poll error: "@ + error@),
        ),
    }
}

/// What an optional event says.
pub open spec fn view_opt_event(event: Option<AppEvent>) -> Option<AppEvent<Seq<char>>> {
    match event {
        Some(event) => Some(event@),
        None => None,
    }
}

/// What input means for the screen, and whether it is the last: after the request to quit and
/// after an error nothing more is read.
pub fn handle_terminal_input(input: TerminalInput) -> (result: (Option<AppEvent>, bool))
    ensures
        view_opt_event(result.0) == input_event(input),
        result.1 == (input_event(input) is Some && !(input is Resize)),
{
    match input {
        TerminalInput::Key { character, pressed } => if pressed && character == 'q' {
            (Some(AppEvent::Quit), true)
        } else {
            (None, false)
        },
        TerminalInput::Resize => (Some(AppEvent::Redraw), false),
        TerminalInput::Other => (None, false),
        TerminalInput::ReadFailed(error) => (
            Some(AppEvent::Notice("terminal input error: ".to_owned().concat(error.as_str()))),
            true,
        ),
        TerminalInput::PollFailed(error) => (
            Some(AppEvent::Notice("terminal poll error: ".to_owned().concat(error.as_str()))),
            true,
        ),
    }
}

/// A rectangle on screen.
#[derive(Debug, Clone, Copy, PartialEq, Eq, Structural)]
pub struct Area {
    pub x: u16,
    pub y: u16,
    pub width: u16,
    pub height: u16,
}

/// What is inside the border of a rectangle.
pub open spec fn inside(area: Area) -> Area {
    Area {
        x: if area.x == u16::MAX {
            u16::MAX
        } else {
            (area.x + 1) as u16
        },
        y: if area.y == u16::MAX {
            u16::MAX
        } else {
            (area.y + 1) as u16
        },
        width: if area.width < 2 {
            0
        } else {
            (area.width - 2) as u16
        },
        height: if area.height < 2 {
            0
        } else {
            (area.height - 2) as u16
        },
    }
}

/// What is inside the border of a rectangle.
pub fn inner_rect(area: Area) -> (inner: Area)
    ensures
        inner == inside(area),
{
    Area {
        x: area.x.saturating_add(1),
        y: area.y.saturating_add(1),
        width: area.width.saturating_sub(2),
        height: area.height.saturating_sub(2),
    }
}

/// Drafts, turns that wait for their final text, final turns and failed ones differ in color.
pub proof fn law_turn_states_look_different(first: PaneTurnState, second: PaneTurnState)
    requires
        first != second,
    ensures
        turn_tint(first) != turn_tint(second),
{
}

proof fn lemma_decimal_is_ascii(n: nat)
    ensures
        is_ascii_chars(decimal(n)),
    decreases n,
{
    if n >= 10 {
        lemma_decimal_is_ascii(n / 10);
    }
}

proof fn lemma_padded_is_ascii(s: Seq<char>, width: nat)
    requires
        is_ascii_chars(s),
    ensures
        is_ascii_chars(zero_padded(s, width)),
    decreases width - s.len(),
{
    if s.len() < width {
        lemma_padded_is_ascii(seq!['0'] + s, width);
    }
}

/// The lines of a turn line up: where there is room behind the time at which it began, each
/// line of the text begins in the same column, the first behind the time, the others behind
/// spaces.
pub proof fn law_turn_text_lines_up(started_at: u128, text: Seq<char>, tint: Tint, width: nat)
    requires
        total_columns(clock_text(started_at) + " | "@) < width,
    ensures
        ({
            let prefix = clock_text(started_at) + " | "@;
            let body = wrapped(text, (width - total_columns(prefix)) as nat);
            let lines = wrapped_line(LineView { prefix, text, tint }, width);
            &&& lines.len() == body.len()
            &&& forall|i: int|
                0 <= i < lines.len() ==> #[trigger] lines[i] == (if i == 0 {
                    prefix
                } else {
                    spaces(prefix.len())
                }) + body[i]
        }),
{
    let prefix = clock_text(started_at) + " | "@;
    let seconds = started_at / 1_000_000_000;
    reveal_strlit(":");
    reveal_strlit(" | ");
    lemma_decimal_is_ascii((seconds / 3600) as nat);
    lemma_decimal_is_ascii((seconds % 3600 / 60) as nat);
    lemma_decimal_is_ascii((seconds % 60) as nat);
    lemma_padded_is_ascii(decimal((seconds / 3600) as nat), 2);
    lemma_padded_is_ascii(decimal((seconds % 3600 / 60) as nat), 2);
    lemma_padded_is_ascii(decimal((seconds % 60) as nat), 2);
    assert(is_ascii_chars(prefix));
    is_ascii_chars_encode_utf8(prefix);
}

/// The time of a turn does not move later while the turn is shown, and only an earlier draft of
/// the turn moves it at all.
pub proof fn law_turn_times_are_stable(
    pane: PaneView,
    event: AppEvent<Seq<char>>,
    started_at: i64,
    turn_id: Seq<char>,
)
    requires
        pane_in_order(pane),
        pane.has_turn(turn_id),
        pane_after(pane, event, started_at).has_turn(turn_id),
    ensures
        ({
            let before = pane.turn(turn_id).started_at;
            let after = pane_after(pane, event, started_at).turn(turn_id).started_at;
            &&& after <= before
            &&& after < before ==> (event matches AppEvent::DraftTranscript {
                source,
                turn_id: drafted,
                at,
                text,
            } && drafted == turn_id && after == elapsed_ns(started_at, at))
        }),
{
    let after = pane_after(pane, event, started_at);
    lemma_pane_turn_index_found(pane.turns, turn_id);
    lemma_pane_turn_index_found(after.turns, turn_id);
    let i = pane_turn_index(pane.turns, turn_id);
    let j = pane_turn_index(after.turns, turn_id);
    law_panes_stay_in_order(pane, event, started_at);
    match event {
        AppEvent::DraftTranscript { source, turn_id: drafted, at, text } => {
            lemma_pane_turn_index_found(pane.turns, drafted);
            if normalized(text).len() > 0 && !pane.has_turn(drafted) {
                let dropped: int = if pane.turns.len() == MAX_TURNS_PER_SOURCE {
                    1
                } else {
                    0
                };
                if i >= dropped {
                    assert(after.turns[i - dropped] == pane.turns[i]);
                    assert(j == i - dropped);
                } else {
                    assert(j < after.turns.len() - 1 ==> after.turns[j] == pane.turns[j + dropped]);
                }
            } else {
                assert(after.turns[i].turn_id == turn_id);
                assert(j == i);
            }
        },
        AppEvent::TurnPending { source, turn_id: named } => {
            lemma_pane_turn_index_found(pane.turns, named);
            assert(after.turns[i].turn_id == turn_id);
        },
        AppEvent::TurnFinalized { source, turn_id: named, text, display_action } => {
            lemma_pane_turn_index_found(pane.turns, named);
            assert(after.turns[i].turn_id == turn_id);
        },
        AppEvent::TurnFailed { source, turn_id: named, error } => {
            lemma_pane_turn_index_found(pane.turns, named);
            assert(after.turns[i].turn_id == turn_id);
        },
        _ => {},
    }
}

/// Whether two panes look the same: title, border and lines.
pub open spec fn looks_same(a: PaneView, b: PaneView, source: SourceKind) -> bool {
    &&& pane_title(a, source) == pane_title(b, source)
    &&& border_tint(a) == border_tint(b)
    &&& pane_lines(a) == pane_lines(b)
}

proof fn lemma_pane_turn_index_found(turns: Seq<PaneTurnView>, turn_id: Seq<char>)
    ensures
        0 <= pane_turn_index(turns, turn_id) <= turns.len(),
        pane_turn_index(turns, turn_id) < turns.len() ==> turns[pane_turn_index(
            turns,
            turn_id,
        )].turn_id == turn_id,
        forall|i: int|
            0 <= i < pane_turn_index(turns, turn_id) ==> (#[trigger] turns[i]).turn_id != turn_id,
    decreases turns.len(),
{
    if turns.len() > 0 && turns[0].turn_id != turn_id {
        let rest = turns.drop_first();
        lemma_pane_turn_index_found(rest, turn_id);
        assert forall|i: int| 0 <= i < pane_turn_index(turns, turn_id) implies (
        #[trigger] turns[i]).turn_id != turn_id by {
            if i > 0 {
                assert(turns[i] == rest[i - 1]);
            }
        }
    }
}

/// An event that does not call for the screen to be drawn again changes nothing that is seen.
pub proof fn law_undrawn_events_are_not_seen(
    state: ScreenState,
    event: AppEvent<Seq<char>>,
    source: SourceKind,
)
    requires
        !redraws(state, event),
    ensures
        screen_after(state, event).notices == state.notices,
        match (state.pane(source), screen_after(state, event).pane(source)) {
            (Some(before), Some(after)) => looks_same(before, after, source),
            (None, None) => true,
            _ => false,
        },
{
    match event_source(event) {
        Some(shown) => match state.pane(shown) {
            Some(pane) => match event {
                AppEvent::TurnPending { source: _, turn_id } => {
                    lemma_pane_turn_index_found(pane.turns, turn_id);
                    assert(pane.with_pending(turn_id).turns == pane.turns);
                },
                AppEvent::TurnFailed { source: _, turn_id, error } => {
                    lemma_pane_turn_index_found(pane.turns, turn_id);
                    assert(pane.with_failure(turn_id, error).turns == pane.turns);
                },
                _ => {},
            },
            None => {},
        },
        None => {},
    }
}

/// An event of one source leaves the pane of another as it is.
pub proof fn law_panes_are_separate(
    state: ScreenState,
    event: AppEvent<Seq<char>>,
    other: SourceKind,
)
    requires
        event_source(event) != Some(other),
    ensures
        screen_after(state, event).pane(other) == state.pane(other),
{
}

/// Whether the turns of a pane have names of their own, and are no more than are kept.
pub open spec fn pane_in_order(pane: PaneView) -> bool {
    &&& pane.turns.len() <= MAX_TURNS_PER_SOURCE
    &&& forall|i: int, j: int|
        0 <= i < j < pane.turns.len() ==> (#[trigger] pane.turns[i]).turn_id != (
        #[trigger] pane.turns[j]).turn_id
}

/// Whatever event comes, the turns of a pane have names of their own, and are no more than are
/// kept.
pub proof fn law_panes_stay_in_order(
    pane: PaneView,
    event: AppEvent<Seq<char>>,
    started_at: i64,
)
    requires
        pane_in_order(pane),
    ensures
        pane_in_order(pane_after(pane, event, started_at)),
{
    match event {
        AppEvent::DraftTranscript { source, turn_id, at, text } => {
            lemma_pane_turn_index_found(pane.turns, turn_id);
            let after = pane_after(pane, event, started_at);
            if normalized(text).len() > 0 && !pane.has_turn(turn_id) {
                let dropped: int = if pane.turns.len() == MAX_TURNS_PER_SOURCE {
                    1
                } else {
                    0
                };
                assert forall|i: int, j: int| 0 <= i < j < after.turns.len() implies (
                #[trigger] after.turns[i]).turn_id != (#[trigger] after.turns[j]).turn_id by {
                    assert(after.turns[i] == pane.turns[i + dropped]);
                    if j < after.turns.len() - 1 {
                        assert(after.turns[j] == pane.turns[j + dropped]);
                    }
                }
            }
        },
        AppEvent::TurnPending { source, turn_id } => {
            lemma_pane_turn_index_found(pane.turns, turn_id);
        },
        AppEvent::TurnFinalized { source, turn_id, text, display_action } => {
            lemma_pane_turn_index_found(pane.turns, turn_id);
        },
        AppEvent::TurnFailed { source, turn_id, error } => {
            lemma_pane_turn_index_found(pane.turns, turn_id);
        },
        _ => {},
    }
}

/// Where the lines of the turn `i` begin.
pub open spec fn first_line_of(turns: Seq<PaneTurnView>, i: int) -> int {
    lines_of_turns(turns.take(i)).len() as int
}

proof fn lemma_lines_of_a_turn(turns: Seq<PaneTurnView>, i: int)
    requires
        0 <= i < turns.len(),
    ensures
        ({
            let lines = lines_of_turns(turns);
            let own = turn_lines(turns[i], any_final(turns.take(i)));
            let at = first_line_of(turns, i);
            &&& 0 <= at
            &&& at + own.len() <= lines.len()
            &&& forall|k: int| 0 <= k < own.len() ==> #[trigger] lines[at + k] == own[k]
        }),
    decreases turns.len(),
{
    let before = turns.drop_last();
    if i < before.len() {
        lemma_lines_of_a_turn(before, i);
        assert(before.take(i) == turns.take(i));
        assert(before[i] == turns[i]);
        let own = turn_lines(turns[i], any_final(turns.take(i)));
        let at = first_line_of(turns, i);
        assert forall|k: int| 0 <= k < own.len() implies #[trigger] lines_of_turns(turns)[at + k]
            == own[k] by {
            assert(lines_of_turns(before)[at + k] == own[k]);
        }
    } else {
        assert(turns.take(i) == before);
        assert(turns.last() == turns[i]);
    }
}

proof fn lemma_any_final(turns: Seq<PaneTurnView>)
    ensures
        any_final(turns) <==> exists|j: int|
            0 <= j < turns.len() && (#[trigger] turns[j]).state == PaneTurnState::Final,
    decreases turns.len(),
{
    if turns.len() > 0 {
        let before = turns.drop_last();
        lemma_any_final(before);
        if any_final(before) {
            let j = choose|j: int|
                0 <= j < before.len() && (#[trigger] before[j]).state == PaneTurnState::Final;
            assert(turns[j].state == PaneTurnState::Final);
        }
        if turns.last().state == PaneTurnState::Final {
            assert(turns[turns.len() - 1].state == PaneTurnState::Final);
        }
        assert forall|j: int|
            0 <= j < turns.len() && (#[trigger] turns[j]).state
                == PaneTurnState::Final implies any_final(turns) by {
            if j < before.len() {
                assert(before[j] == turns[j]);
            }
        }
    }
}

/// A pane shows each of its turns: a final one as its final text, a failed one as its draft and
/// its error, one that waits and a draft as their draft, each marked as what it is; behind the
/// time at which it began, or behind as much space where it is final and goes on from a final turn
/// before it.
pub proof fn law_turns_are_shown_as_what_they_are(pane: PaneView, i: int)
    requires
        0 <= i < pane.turns.len(),
    ensures
        ({
            let turn = pane.turns[i];
            let lines = pane_lines(pane);
            let at = first_line_of(pane.turns, i);
            let line = lines[at];
            let goes_on = {
                &&& turn.state == PaneTurnState::Final
                &&& turn.display_action == DisplayAction::AppendPreviousBlock
                &&& exists|j: int|
                    0 <= j < i && (#[trigger] pane.turns[j]).state == PaneTurnState::Final
            };
            &&& 0 <= at < lines.len()
            &&& turn.state == PaneTurnState::Draft ==> line.text == "[draft] "@ + turn.draft_text
            &&& turn.state == PaneTurnState::PendingFinalization ==> line.text == "[pending] "@
                + turn.draft_text
            &&& turn.state == PaneTurnState::Failed ==> line.text == "[failed] "@ + turn.draft_text
            &&& turn.state == PaneTurnState::Final ==> (turn.final_text matches Some(text)
                ==> line.text == text)
            &&& goes_on ==> line.prefix.len() == 11 && forall|k: int|
                0 <= k < 11 ==> #[trigger] line.prefix[k] == ' '
            &&& !goes_on ==> line.prefix == clock_text(turn.started_at) + " | "@
            &&& turn.state == PaneTurnState::Draft ==> line.tint == Tint::Yellow
            &&& turn.state == PaneTurnState::PendingFinalization ==> line.tint == Tint::LightYellow
            &&& turn.state == PaneTurnState::Final ==> line.tint == Tint::White
            &&& turn.state == PaneTurnState::Failed ==> line.tint == Tint::LightRed
            &&& turn.error matches Some(error) ==> {
                &&& at + 1 < lines.len()
                &&& error.is_suffix_of(lines[at + 1].text)
                &&& lines[at + 1].prefix.len() == 0
                &&& lines[at + 1].tint == Tint::Red
            }
        }),
{
    let turn = pane.turns[i];
    lemma_lines_of_a_turn(pane.turns, i);
    lemma_any_final(pane.turns.take(i));
    let own = turn_lines(turn, any_final(pane.turns.take(i)));
    let at = first_line_of(pane.turns, i);
    assert(lines_of_turns(pane.turns)[at + 0] == own[0]);
    let before = pane.turns.take(i);
    assert forall|j: int|
        0 <= j < i && (#[trigger] pane.turns[j]).state == PaneTurnState::Final implies any_final(
        before,
    ) by {
        assert(before[j] == pane.turns[j]);
    }
    if any_final(before) {
        let j = choose|j: int|
            0 <= j < before.len() && (#[trigger] before[j]).state == PaneTurnState::Final;
        assert(pane.turns[j].state == PaneTurnState::Final);
    }
    if let Some(error) = turn.error {
        assert(lines_of_turns(pane.turns)[at + 1] == own[1]);
        let text = "           "@ + error;
        assert(text.subrange(text.len() - error.len(), text.len() as int) == error);
    }
}

/// A pane shows its turns in order, and nothing but its turns, and the error of the source behind
/// them; where there are no turns it says that it waits.
pub proof fn law_pane_shows_its_turns_and_error(pane: PaneView)
    ensures
        ({
            let lines = pane_lines(pane);
            let shown = lines_of_turns(pane.turns);
            &&& pane.turns.len() > 0 ==> shown.len() >= pane.turns.len() && shown.is_prefix_of(lines)
            &&& pane.turns.len() == 0 ==> lines.len() > 0 && lines[0].text
                == "waiting for transcription…"@
            &&& pane.error is None && pane.turns.len() > 0 ==> lines == shown
            &&& pane.error matches Some(error) ==> {
                &&& lines.last().text == error
                &&& lines.last().tint == Tint::Red
                &&& pane.turns.len() > 0 ==> lines.len() == shown.len() + 2
            }
        }),
{
    lemma_turns_have_lines(pane.turns);
    let lines = pane_lines(pane);
    let shown = lines_of_turns(pane.turns);
    if pane.turns.len() > 0 {
        assert(lines.subrange(0, shown.len() as int) == shown);
    }
}

proof fn lemma_turns_have_lines(turns: Seq<PaneTurnView>)
    ensures
        lines_of_turns(turns).len() >= turns.len(),
        turns.len() == 0 ==> lines_of_turns(turns).len() == 0,
    decreases turns.len(),
{
    if turns.len() > 0 {
        lemma_turns_have_lines(turns.drop_last());
    }
}

/// The turn of a name in a pane where it is replaced.
proof fn lemma_pane_replacing(pane: PaneView, turn_id: Seq<char>, turn: PaneTurnView)
    requires
        pane.has_turn(turn_id),
        turn.turn_id == turn_id,
    ensures
        ({
            let after = pane.with_turn(turn_id, turn);
            let at = pane_turn_index(pane.turns, turn_id);
            &&& 0 <= at < pane.turns.len()
            &&& pane_turn_index(after.turns, turn_id) == at
            &&& after.has_turn(turn_id)
            &&& after.turn(turn_id) == turn
            &&& after.turns.len() == pane.turns.len()
            &&& forall|i: int|
                0 <= i < pane.turns.len() && i != at ==> #[trigger] after.turns[i] == pane.turns[i]
        }),
{
    let after = pane.with_turn(turn_id, turn);
    let at = pane_turn_index(pane.turns, turn_id);
    lemma_pane_turn_index_found(pane.turns, turn_id);
    lemma_pane_turn_index_found(after.turns, turn_id);
    let found = pane_turn_index(after.turns, turn_id);
    assert(after.turns[at].turn_id == turn_id);
    if found < at {
        assert(after.turns[found] == pane.turns[found]);
    }
}

/// The final text of a turn that is shown reaches the screen: its line reads as that text,
/// normalized, with every character of it that is not whitespace, in order, in the color of final
/// turns. The time at which it began stays, an error that it had goes, and no other turn changes.
pub proof fn law_final_texts_reach_the_screen(
    state: ScreenState,
    source: SourceKind,
    turn_id: Seq<char>,
    text: Seq<char>,
    display_action: DisplayAction,
)
    requires
        state.pane(source) is Some,
        state.pane(source)->Some_0.has_turn(turn_id),
    ensures
        ({
            let pane = state.pane(source)->Some_0;
            let event = AppEvent::TurnFinalized { source, turn_id, text, display_action };
            let at = pane_turn_index(pane.turns, turn_id);
            &&& redraws(state, event)
            &&& screen_after(state, event).pane(source) matches Some(after)
            &&& after == (PaneView { turns: after.turns, ..pane })
            &&& after.turns.len() == pane.turns.len()
            &&& forall|i: int|
                0 <= i < pane.turns.len() && i != at ==> #[trigger] after.turns[i] == pane.turns[i]
            &&& pane_turn_index(after.turns, turn_id) == at
            &&& after.turns[at].state == PaneTurnState::Final
            &&& after.turns[at].display_action == display_action
            &&& after.turns[at].error is None
            &&& after.turns[at].draft_text == pane.turns[at].draft_text
            &&& after.turns[at].started_at == pane.turns[at].started_at
            &&& pane_lines(after)[first_line_of(after.turns, at)].text == normalized(text)
            &&& ink(pane_lines(after)[first_line_of(after.turns, at)].text) == ink(text)
            &&& pane_lines(after)[first_line_of(after.turns, at)].tint == Tint::White
        }),
{
    let pane = state.pane(source)->Some_0;
    let event = AppEvent::TurnFinalized { source, turn_id, text, display_action };
    let at = pane_turn_index(pane.turns, turn_id);
    lemma_pane_turn_index_found(pane.turns, turn_id);
    let turn = PaneTurnView {
        final_text: Some(normalized(text)),
        state: PaneTurnState::Final,
        display_action,
        error: None,
        ..pane.turn(turn_id)
    };
    lemma_pane_replacing(pane, turn_id, turn);
    let after = screen_after(state, event).pane(source)->Some_0;
    law_turns_are_shown_as_what_they_are(after, at);
    law_normalizing_keeps_the_ink(text);
}

/// A draft reaches the screen: its turn is there, is the last one where it is new, and holds the
/// text, normalized, with every character of it that is not whitespace, in order. A draft that
/// says something else than before is shown as a draft, behind the earlier of the times at which
/// it is said to have begun, counted from the start of the session. A blank draft is passed over.
/// The turns that are kept, but for the oldest where there are too many, stay as they are.
pub proof fn law_drafts_reach_the_screen(
    state: ScreenState,
    source: SourceKind,
    turn_id: Seq<char>,
    at: i128,
    text: Seq<char>,
)
    requires
        state.pane(source) is Some,
        pane_in_order(state.pane(source)->Some_0),
    ensures
        ({
            let pane = state.pane(source)->Some_0;
            let event = AppEvent::DraftTranscript { source, turn_id, at, text };
            let shown = normalized(text);
            let began = if at <= state.started_at {
                0int
            } else {
                at - state.started_at
            };
            &&& screen_after(state, event).pane(source) matches Some(after)
            &&& after == (PaneView { turns: after.turns, ..pane })
            &&& ink(shown) == ink(text)
            &&& if shown.len() == 0 {
                after == pane
            } else {
                let place = pane_turn_index(after.turns, turn_id);
                let turn = after.turns[place];
                let line = pane_lines(after)[first_line_of(after.turns, place)];
                &&& after.has_turn(turn_id)
                &&& turn.draft_text == shown
                &&& redraws(state, event) <==> !(pane.has_turn(turn_id) && pane.turn(
                    turn_id,
                ).draft_text == shown)
                &&& redraws(state, event) ==> turn.state == PaneTurnState::Draft && line.text
                    == "[draft] "@ + shown
                &&& if pane.has_turn(turn_id) {
                    let before = pane.turn(turn_id);
                    &&& place == pane_turn_index(pane.turns, turn_id)
                    &&& after.turns.len() == pane.turns.len()
                    &&& forall|i: int|
                        0 <= i < pane.turns.len() && i != place ==> #[trigger] after.turns[i]
                            == pane.turns[i]
                    &&& turn == (PaneTurnView {
                        draft_text: turn.draft_text,
                        started_at: turn.started_at,
                        state: turn.state,
                        ..before
                    })
                    &&& before.draft_text != shown ==> turn.started_at <= before.started_at
                        && turn.started_at <= began && (turn.started_at == before.started_at
                        || turn.started_at == began)
                    &&& before.draft_text == shown ==> after == pane
                } else {
                    &&& place == after.turns.len() - 1
                    &&& turn.started_at == began
                    &&& turn.final_text is None
                    &&& turn.error is None
                    &&& if pane.turns.len() < 512 {
                        after.turns.drop_last() == pane.turns
                    } else {
                        after.turns.drop_last() == pane.turns.drop_first()
                    }
                }
            }
        }),
{
    let pane = state.pane(source)->Some_0;
    let event = AppEvent::DraftTranscript { source, turn_id, at, text };
    let shown = normalized(text);
    law_normalizing_keeps_the_ink(text);
    law_panes_stay_in_order(pane, event, state.started_at);
    let after = screen_after(state, event).pane(source)->Some_0;
    if shown.len() > 0 {
        lemma_pane_turn_index_found(pane.turns, turn_id);
        if pane.has_turn(turn_id) {
            let before = pane.turn(turn_id);
            if before.draft_text != shown {
                let began = elapsed_ns(state.started_at, at);
                let turn = PaneTurnView {
                    draft_text: shown,
                    started_at: if began < before.started_at {
                        began
                    } else {
                        before.started_at
                    },
                    state: PaneTurnState::Draft,
                    ..before
                };
                lemma_pane_replacing(pane, turn_id, turn);
                law_turns_are_shown_as_what_they_are(after, pane_turn_index(pane.turns, turn_id));
            }
        } else {
            let last = after.turns.len() - 1;
            lemma_pane_turn_index_found(after.turns, turn_id);
            assert(after.turns[last].turn_id == turn_id);
            let place = pane_turn_index(after.turns, turn_id);
            if place < last {
                assert(after.turns[place].turn_id != after.turns[last].turn_id);
            }
            law_turns_are_shown_as_what_they_are(after, last);
            if pane.turns.len() < 512 {
                assert(after.turns.drop_last() == pane.turns);
            } else {
                assert(after.turns.drop_last() == pane.turns.drop_first());
            }
        }
    }
}

/// That a turn waits for its final text, or has failed, reaches the screen: the turn is marked so,
/// keeps its draft and its time, and a failed one shows its error. No other turn changes, and the
/// end of a turn that is not shown changes nothing.
pub proof fn law_turn_ends_reach_the_screen(
    state: ScreenState,
    source: SourceKind,
    turn_id: Seq<char>,
    error: Seq<char>,
)
    requires
        state.pane(source) is Some,
    ensures
        ({
            let pane = state.pane(source)->Some_0;
            let at = pane_turn_index(pane.turns, turn_id);
            let waits = AppEvent::TurnPending { source, turn_id };
            let fails = AppEvent::TurnFailed { source, turn_id, error };
            &&& screen_after(state, waits).pane(source) matches Some(waiting)
            &&& screen_after(state, fails).pane(source) matches Some(failed)
            &&& if pane.has_turn(turn_id) {
                &&& waiting == (PaneView { turns: waiting.turns, ..pane })
                &&& failed == (PaneView { turns: failed.turns, ..pane })
                &&& waiting.turns.len() == pane.turns.len()
                &&& failed.turns.len() == pane.turns.len()
                &&& forall|i: int|
                    0 <= i < pane.turns.len() && i != at ==> #[trigger] waiting.turns[i]
                        == pane.turns[i]
                &&& forall|i: int|
                    0 <= i < pane.turns.len() && i != at ==> #[trigger] failed.turns[i]
                        == pane.turns[i]
                &&& pane_lines(waiting)[first_line_of(waiting.turns, at)].text == "[pending] "@
                    + pane.turns[at].draft_text
                &&& waiting.turns[at] == (PaneTurnView {
                    state: PaneTurnState::PendingFinalization,
                    ..pane.turns[at]
                })
                &&& pane_lines(failed)[first_line_of(failed.turns, at)].text == "[failed] "@
                    + pane.turns[at].draft_text
                &&& error.is_suffix_of(pane_lines(failed)[first_line_of(failed.turns, at) + 1].text)
                &&& failed.turns[at] == (PaneTurnView {
                    state: PaneTurnState::Failed,
                    error: Some(error),
                    ..pane.turns[at]
                })
            } else {
                &&& waiting == pane
                &&& failed == pane
            }
        }),
{
    let pane = state.pane(source)->Some_0;
    if pane.has_turn(turn_id) {
        let at = pane_turn_index(pane.turns, turn_id);
        lemma_pane_turn_index_found(pane.turns, turn_id);
        let waits = PaneTurnView {
            state: PaneTurnState::PendingFinalization,
            ..pane.turn(turn_id)
        };
        let fails = PaneTurnView {
            state: PaneTurnState::Failed,
            error: Some(error),
            ..pane.turn(turn_id)
        };
        lemma_pane_replacing(pane, turn_id, waits);
        lemma_pane_replacing(pane, turn_id, fails);
        law_turns_are_shown_as_what_they_are(pane.with_turn(turn_id, waits), at);
        law_turns_are_shown_as_what_they_are(pane.with_turn(turn_id, fails), at);
    }
}

/// Statuses, levels, queues and token counts reach the pane of their source as they were given: a
/// count that is 0 leaves the one before it. An error of a source is shown in its pane, which then
/// has that status, and in a notice. The turns stay as they are.
pub proof fn law_states_reach_the_screen(
    state: ScreenState,
    source: SourceKind,
    text: Seq<char>,
    number: u32,
    depth: usize,
    seconds: Seconds,
    usage: UsageSnapshot,
)
    requires
        state.pane(source) is Some,
    ensures
        ({
            let pane = state.pane(source)->Some_0;
            let drafting = AppEvent::DraftStatus { source, status: text };
            let finalizing = AppEvent::FinalizerStatus { source, status: text };
            let level = AppEvent::CaptureLevel::<Seq<char>> { source, rms_thousandths: number };
            let queue = AppEvent::QueueMetrics::<Seq<char>> {
                source,
                queue_depth: depth,
                pending_audio_secs: seconds,
            };
            let report = AppEvent::Usage::<Seq<char>> { source, usage };
            let failure = AppEvent::SourceError { source, error: text };
            let queued = screen_after(state, queue).pane(source)->Some_0;
            let counted = screen_after(state, report).pane(source)->Some_0;
            let failed = screen_after(state, failure).pane(source)->Some_0;
            &&& screen_after(state, drafting).pane(source) == Some(
                PaneView { draft_status: text, ..pane },
            )
            &&& screen_after(state, finalizing).pane(source) == Some(
                PaneView { finalizer_status: text, ..pane },
            )
            &&& screen_after(state, level).pane(source) == Some(
                PaneView { capture_rms_thousandths: Some(number), ..pane },
            )
            &&& queued == (PaneView {
                queue_depth: queued.queue_depth,
                pending_audio_secs: queued.pending_audio_secs,
                ..pane
            })
            &&& queued.queue_depth == depth
            &&& queued.pending_audio_secs == seconds || (queued == pane
                && pane.pending_audio_secs.is_near(seconds))
            &&& counted == (PaneView { usage: counted.usage, ..pane })
            &&& counted.usage matches Some(counts)
            &&& usage.prompt_token_count > 0 ==> counts.prompt_token_count
                == usage.prompt_token_count
            &&& usage.cached_content_token_count > 0 ==> counts.cached_content_token_count
                == usage.cached_content_token_count
            &&& usage.response_token_count > 0 ==> counts.response_token_count
                == usage.response_token_count
            &&& usage.tool_use_prompt_token_count > 0 ==> counts.tool_use_prompt_token_count
                == usage.tool_use_prompt_token_count
            &&& usage.thoughts_token_count > 0 ==> counts.thoughts_token_count
                == usage.thoughts_token_count
            &&& usage.total_token_count > 0 ==> counts.total_token_count == usage.total_token_count
            &&& pane.usage matches Some(before) ==> {
                &&& usage.prompt_token_count == 0 ==> counts.prompt_token_count
                    == before.prompt_token_count
                &&& usage.cached_content_token_count == 0 ==> counts.cached_content_token_count
                    == before.cached_content_token_count
                &&& usage.response_token_count == 0 ==> counts.response_token_count
                    == before.response_token_count
                &&& usage.tool_use_prompt_token_count == 0 ==> counts.tool_use_prompt_token_count
                    == before.tool_use_prompt_token_count
                &&& usage.thoughts_token_count == 0 ==> counts.thoughts_token_count
                    == before.thoughts_token_count
                &&& usage.total_token_count == 0 ==> counts.total_token_count
                    == before.total_token_count
            }
            &&& failed.error == Some(text)
            &&& failed.turns == pane.turns
            &&& pane.error != Some(text) ==> failed.draft_status == "error"@
                && failed.finalizer_status == "error"@
            &&& pane.error == Some(text) ==> failed == pane
            &&& failed == (PaneView {
                draft_status: failed.draft_status,
                finalizer_status: failed.finalizer_status,
                error: failed.error,
                ..pane
            })
            &&& pane_lines(failed).last().text == text
            &&& screen_after(state, failure).notices.len() > 0
            &&& text.is_suffix_of(screen_after(state, failure).notices.last())
            &&& source_title(source).is_prefix_of(screen_after(state, failure).notices.last())
        }),
{
    let title = source_title(source);
    let notice = title + ": "@ + text;
    assert(notice.subrange(0, title.len() as int) == title);
    assert(notice.subrange(notice.len() - text.len(), notice.len() as int) == text);
}

/// A notice is the latest from then on, the ones before it stay in order, the oldest goes where
/// there are eight, and nothing else on screen changes.
pub proof fn law_notices_are_kept_in_order(state: ScreenState, text: Seq<char>)
    requires
        state.notices.len() <= 8,
    ensures
        ({
            let after = screen_after(state, AppEvent::Notice(text));
            &&& redraws(state, AppEvent::Notice(text))
            &&& after == (ScreenState { notices: after.notices, ..state })
            &&& 0 < after.notices.len() <= 8
            &&& after.notices.last() == text
            &&& state.notices.len() < 8 ==> after.notices.drop_last() == state.notices
            &&& state.notices.len() == 8 ==> after.notices.drop_last()
                == state.notices.drop_first()
        }),
{
    let after = screen_after(state, AppEvent::Notice(text));
    if state.notices.len() < 8 {
        assert(after.notices.drop_last() == state.notices);
    } else {
        assert(after.notices.drop_last() == state.notices.drop_first());
    }
}

/// An event of a source that is not shown changes nothing, nor does a call to draw or to quit.
pub proof fn law_events_of_hidden_sources_are_passed_over(
    state: ScreenState,
    event: AppEvent<Seq<char>>,
)
    requires
        event is Redraw || event is Quit || (event_source(event) is Some && state.pane(
            event_source(event)->Some_0,
        ) is None),
    ensures
        screen_after(state, event) == state,
        !redraws(state, event),
{
}

/// Every event but a notice, a call to draw and a call to quit is of the source that it names.
pub proof fn law_events_name_their_source(
    source: SourceKind,
    text: Seq<char>,
    at: i128,
    number: u32,
    depth: usize,
    seconds: Seconds,
    usage: UsageSnapshot,
    display_action: DisplayAction,
)
    ensures
        event_source(AppEvent::DraftStatus { source, status: text }) == Some(source),
        event_source(AppEvent::FinalizerStatus { source, status: text }) == Some(source),
        event_source(
            AppEvent::QueueMetrics { source, queue_depth: depth, pending_audio_secs: seconds },
        ) == Some(source),
        event_source(AppEvent::CaptureLevel { source, rms_thousandths: number }) == Some(source),
        event_source(AppEvent::DraftTranscript { source, turn_id: text, at, text }) == Some(source),
        event_source(AppEvent::TurnPending { source, turn_id: text }) == Some(source),
        event_source(
            AppEvent::TurnFinalized { source, turn_id: text, text, display_action },
        ) == Some(source),
        event_source(AppEvent::TurnFailed { source, turn_id: text, error: text }) == Some(source),
        event_source(AppEvent::Usage { source, usage }) == Some(source),
        event_source(AppEvent::SourceError { source, error: text }) == Some(source),
        event_source(AppEvent::Notice(text)) is None,
{
}

/// The sources that were chosen are shown from the start, without turns or errors, and no others.
pub proof fn law_chosen_sources_are_shown(sources: Seq<SourceKind>, source: SourceKind)
    ensures
        first_pane(sources, source) is Some <==> sources.contains(source),
        first_pane(sources, source) matches Some(pane) ==> {
            &&& pane.turns.len() == 0
            &&& pane.error is None
            &&& pane.usage is None
            &&& pane.queue_depth == 0
            &&& pane.capture_rms_thousandths is None
            &&& pane.draft_status == "starting"@
            &&& pane.finalizer_status == "starting"@
        },
{
}

/// Where the lines on screen of the line `i` begin.
pub open spec fn first_row_of(lines: Seq<LineView>, i: int, width: nat) -> int {
    screen_of(lines.take(i), width).len() as int
}

proof fn lemma_rows_of_a_line(lines: Seq<LineView>, i: int, width: nat)
    requires
        0 <= i < lines.len(),
    ensures
        ({
            let rows = screen_of(lines, width);
            let own = wrapped_line(lines[i], width);
            let at = first_row_of(lines, i, width);
            &&& 0 <= at
            &&& at + own.len() <= rows.len()
            &&& forall|k: int|
                0 <= k < own.len() ==> #[trigger] rows[at + k] == (ScreenView {
                    text: own[k],
                    tint: lines[i].tint,
                })
        }),
    decreases lines.len(),
{
    let before = lines.drop_last();
    let own = wrapped_line(lines[i], width);
    let at = first_row_of(lines, i, width);
    let rows = screen_of(lines, width);
    if i < before.len() {
        lemma_rows_of_a_line(before, i, width);
        assert(before.take(i) == lines.take(i));
        assert(before[i] == lines[i]);
        assert forall|k: int| 0 <= k < own.len() implies #[trigger] rows[at + k] == (ScreenView {
            text: own[k],
            tint: lines[i].tint,
        }) by {
            assert(screen_of(before, width)[at + k] == rows[at + k]);
        }
    } else {
        assert(lines.take(i) == before);
        assert(lines.last() == lines[i]);
    }
}

/// Every line reaches the screen, in its color, as rows one under the other: a line without a
/// prefix as its wrapped text, one with a prefix with its text wrapped behind it, or together with
/// it where there is no room behind it.
pub proof fn law_lines_reach_the_screen(lines: Seq<LineView>, width: u16, i: int)
    requires
        0 <= i < lines.len(),
    ensures
        ({
            let columns = if width == 0 {
                1nat
            } else {
                width as nat
            };
            let line = lines[i];
            let rows = screen(lines, width);
            let at = first_row_of(lines, i, columns);
            let room = columns - total_columns(line.prefix);
            let texts = if line.prefix.len() == 0 {
                wrapped(line.text, columns)
            } else if room <= 0 {
                wrapped(line.prefix + line.text, columns)
            } else {
                wrapped(line.text, room as nat)
            };
            &&& 0 <= at
            &&& at + texts.len() <= rows.len()
            &&& forall|k: int|
                0 <= k < texts.len() ==> {
                    &&& (#[trigger] rows[at + k]).tint == line.tint
                    &&& texts[k].is_suffix_of(rows[at + k].text)
                    &&& line.prefix.len() == 0 || room <= 0 ==> rows[at + k].text == texts[k]
                    &&& line.prefix.len() > 0 && room > 0 && k == 0 ==> rows[at].text
                        == line.prefix + texts[0]
                }
        }),
{
    let columns = if width == 0 {
        1nat
    } else {
        width as nat
    };
    let line = lines[i];
    let own = wrapped_line(line, columns);
    lemma_rows_of_a_line(lines, i, columns);
    let at = first_row_of(lines, i, columns);
    let rows = screen_of(lines, columns);
    let room = columns - total_columns(line.prefix);
    let texts = if line.prefix.len() == 0 {
        wrapped(line.text, columns)
    } else if room <= 0 {
        wrapped(line.prefix + line.text, columns)
    } else {
        wrapped(line.text, room as nat)
    };
    law_wrapped_lines_fit(line.text, columns);
    law_wrapped_lines_fit(line.prefix + line.text, columns);
    if room > 0 {
        law_wrapped_lines_fit(line.text, room as nat);
    }
    assert(own.len() == texts.len() && own.len() > 0);
    assert(screen(lines, width) == rows) by {
        assert(rows[at + 0] == rows[at]);
    }
    assert forall|k: int| 0 <= k < texts.len() implies {
        &&& (#[trigger] rows[at + k]).tint == line.tint
        &&& texts[k].is_suffix_of(rows[at + k].text)
        &&& line.prefix.len() == 0 || room <= 0 ==> rows[at + k].text == texts[k]
        &&& line.prefix.len() > 0 && room > 0 && k == 0 ==> rows[at].text == line.prefix + texts[0]
    } by {
        let text = rows[at + k].text;
        assert(text == own[k]);
        assert(text.subrange(text.len() - texts[k].len(), text.len() as int) == texts[k]);
    }
}

/// The last line of a pane is in sight: a pane with more lines than rows is scrolled so that its
/// last line stands in its last row, and one with no more than that is not scrolled.
pub proof fn law_last_line_is_in_sight(line_count: nat, height: u16)
    requires
        line_count < 65536,
    ensures
        line_count <= height ==> scroll_for(line_count, height) == 0,
        line_count > height ==> scroll_for(line_count, height) + height == line_count,
{
}

/// The time of a turn is written as hours, minutes and seconds, which together are the whole
/// seconds of it; minutes and seconds are two digits below sixty.
pub proof fn law_times_are_spelled_out(nanos: u128)
    ensures
        exists|hours: Seq<char>, minutes: Seq<char>, seconds: Seq<char>|
            {
                &&& clock_text(nanos) == #[trigger] (hours + ":"@ + minutes + ":"@ + seconds)
                &&& spelled(hours) * 3600 + spelled(minutes) * 60 + spelled(seconds) == nanos
                    / 1_000_000_000
                &&& 0 <= spelled(minutes) < 60
                &&& 0 <= spelled(seconds) < 60
                &&& hours.len() >= 2
                &&& minutes.len() == 2
                &&& seconds.len() == 2
            },
{
    let total = nanos / 1_000_000_000;
    let hours = zero_padded(decimal((total / 3600) as nat), 2);
    let minutes = zero_padded(decimal((total % 3600 / 60) as nat), 2);
    let seconds = zero_padded(decimal((total % 60) as nat), 2);
    law_decimal_spells_the_number((total / 3600) as nat, 2);
    law_decimal_spells_the_number((total % 3600 / 60) as nat, 2);
    law_decimal_spells_the_number((total % 60) as nat, 2);
    law_padding_puts_zeros_in_front(decimal((total / 3600) as nat), 2);
    law_padding_puts_zeros_in_front(decimal((total % 3600 / 60) as nat), 2);
    law_padding_puts_zeros_in_front(decimal((total % 60) as nat), 2);
    lemma_two_digits((total % 3600 / 60) as nat);
    lemma_two_digits((total % 60) as nat);
    assert(clock_text(nanos) == hours + ":"@ + minutes + ":"@ + seconds);
}

proof fn lemma_two_digits(n: nat)
    requires
        n < 100,
    ensures
        decimal(n).len() <= 2,
{
    reveal_with_fuel(decimal, 3);
}

/// A number of tenths and one of thousandths are written as whole ones, a point, and one or three
/// digits.
pub proof fn law_decimals_are_spelled_out(tenths: nat, thousandths: u32)
    ensures
        exists|whole: Seq<char>, part: Seq<char>|
            {
                &&& tenths_text(tenths) == #[trigger] (whole + "."@ + part)
                &&& 10 * spelled(whole) + spelled(part) == tenths
                &&& part.len() == 1
            },
        exists|whole: Seq<char>, part: Seq<char>|
            {
                &&& thousandths_text(thousandths) == #[trigger] (whole + "."@ + part)
                &&& 1000 * spelled(whole) + spelled(part) == thousandths
                &&& part.len() == 3
            },
{
    law_decimal_spells_the_number(tenths / 10, 0);
    law_decimal_spells_the_number(tenths % 10, 0);
    reveal_with_fuel(decimal, 4);
    assert(tenths_text(tenths) == decimal(tenths / 10) + "."@ + decimal(tenths % 10));
    law_decimal_spells_the_number((thousandths / 1000) as nat, 0);
    law_decimal_spells_the_number((thousandths % 1000) as nat, 3);
    let part = zero_padded(decimal((thousandths % 1000) as nat), 3);
    law_padding_puts_zeros_in_front(decimal((thousandths % 1000) as nat), 3);
    assert(thousandths_text(thousandths) == decimal((thousandths / 1000) as nat) + "."@ + part);
}

/// The title of a pane names the source and its two states, then the level, the queue and, where
/// there is any, the context.
pub proof fn law_titles_name_the_states(pane: PaneView, source: SourceKind)
    ensures
        ({
            let title = pane_title(pane, source);
            let states = source_title(source) + " [d:"@ + pane.draft_status + " | f:"@
                + pane.finalizer_status + " | "@;
            let has_context = pane.usage matches Some(usage) && usage.prompt_token_count > 0;
            &&& states.is_prefix_of(title)
            &&& title.last() == ']'
            &&& pane.capture_rms_thousandths matches Some(level) ==> (states + "rms "@
                + thousandths_text(level)).is_prefix_of(title)
            &&& pane.capture_rms_thousandths is None ==> (states + "rms --"@).is_prefix_of(title)
            &&& has_context ==> (" | ctx "@ + token_text(pane.usage->Some_0.prompt_token_count)
                + "]"@).is_suffix_of(title)
            &&& pane.queue_depth == 0 && !has_context ==> (" | q 0]"@).is_suffix_of(title)
            &&& pane.queue_depth > 0 && !has_context ==> (" | q "@ + decimal(
                pane.queue_depth as nat,
            ) + " | "@ + seconds_text(pane.pending_audio_secs) + "s]"@).is_suffix_of(title)
        }),
{
    let title = pane_title(pane, source);
    let states = source_title(source) + " [d:"@ + pane.draft_status + " | f:"@
        + pane.finalizer_status + " | "@;
    let level = level_text(pane.capture_rms_thousandths);
    let queue = queue_text(pane.queue_depth, pane.pending_audio_secs);
    let start = states + level + " | "@ + queue;
    let has_context = pane.usage matches Some(usage) && usage.prompt_token_count > 0;
    reveal_strlit("]");
    reveal_strlit(" | ");
    reveal_strlit("q 0");
    reveal_strlit(" | q 0]");
    reveal_strlit("q ");
    reveal_strlit(" | q ");
    reveal_strlit("s");
    reveal_strlit("s]");
    let end = if has_context {
        " | ctx "@ + token_text(pane.usage->Some_0.prompt_token_count) + "]"@
    } else {
        "]"@
    };
    assert(title == start + end);
    assert(title.subrange(0, states.len() as int) == states);
    assert(title.subrange(0, (states + level).len() as int) == states + level);
    assert(states + ("rms "@ + thousandths_text(pane.capture_rms_thousandths->Some_0)) == states
        + "rms "@ + thousandths_text(pane.capture_rms_thousandths->Some_0));
    assert(title.subrange(title.len() - end.len(), title.len() as int) == end);
    let tail = " | "@ + queue + "]"@;
    if !has_context {
        assert(title.subrange(title.len() - tail.len(), title.len() as int) == tail);
        if pane.queue_depth == 0 {
            assert(tail == " | q 0]"@);
        } else {
            assert(tail == " | q "@ + decimal(pane.queue_depth as nat) + " | "@ + seconds_text(
                pane.pending_audio_secs,
            ) + "s]"@);
        }
    }
}

/// The border of a pane is red with an error, yellow while either session is being opened, green
/// while the source is heard, and gray otherwise.
pub proof fn law_borders_tell_the_state(pane: PaneView)
    ensures
        ({
            let opening = |status: Seq<char>|
                status == "starting"@ || status == "connecting"@ || status == "resuming"@ || status
                    == "reconnecting"@;
            let heard = pane.draft_status == "listening"@ || pane.draft_status == "capturing"@;
            let opens = opening(pane.draft_status) || opening(pane.finalizer_status);
            &&& border_tint(pane) == Tint::Red <==> pane.error is Some
            &&& border_tint(pane) == Tint::Yellow <==> pane.error is None && opens
            &&& border_tint(pane) == Tint::Green <==> pane.error is None && !opens && heard
            &&& border_tint(pane) == Tint::Gray <==> pane.error is None && !opens && !heard
        }),
{
}

/// A pressed `q` quits, and no other key does anything; a resize draws the screen again; input
/// that cannot be read is noticed, with the error.
pub proof fn law_input_is_understood(input: TerminalInput)
    ensures
        input_event(input) == Some(AppEvent::Quit::<Seq<char>>) <==> (
        input matches TerminalInput::Key { character, pressed } && pressed && character == 'q'),
        input_event(input) == Some(AppEvent::Redraw::<Seq<char>>) <==> input is Resize,
        input is Key && !(input_event(input) == Some(AppEvent::Quit::<Seq<char>>)) ==> input_event(
            input,
        ) is None,
        input is Other ==> input_event(input) is None,
        input matches TerminalInput::ReadFailed(error) ==> (input_event(input) matches Some(
            AppEvent::Notice(notice),
        ) && error@.is_suffix_of(notice)),
        input matches TerminalInput::PollFailed(error) ==> (input_event(input) matches Some(
            AppEvent::Notice(notice),
        ) && error@.is_suffix_of(notice)),
{
    match input {
        TerminalInput::ReadFailed(error) => {
            let notice = "terminal input error: "@ + error@;
            assert(notice.subrange(notice.len() - error@.len(), notice.len() as int) == error@);
        },
        TerminalInput::PollFailed(error) => {
            let notice = "terminal poll error: "@ + error@;
            assert(notice.subrange(notice.len() - error@.len(), notice.len() as int) == error@);
        },
        _ => {},
    }
}

/// What is inside a border leaves a cell on each side, where there is room for it, and nothing
/// where there is not.
pub proof fn law_borders_leave_a_cell_on_each_side(area: Area)
    ensures
        area.x < u16::MAX ==> inside(area).x == area.x + 1,
        area.y < u16::MAX ==> inside(area).y == area.y + 1,
        area.x == u16::MAX ==> inside(area).x == u16::MAX,
        area.y == u16::MAX ==> inside(area).y == u16::MAX,
        area.width >= 2 ==> inside(area).width + 2 == area.width,
        area.height >= 2 ==> inside(area).height + 2 == area.height,
        area.width < 2 ==> inside(area).width == 0,
        area.height < 2 ==> inside(area).height == 0,
{
}

proof fn lemma_two_to_at_least(n: nat, k: nat)
    requires
        k <= n,
    ensures
        two_to(k) <= two_to(n),
        two_to(k) > 0,
    decreases n,
{
    if n > k {
        lemma_two_to_at_least((n - 1) as nat, k);
    } else if n > 0 {
        lemma_two_to_at_least((n - 1) as nat, (n - 1) as nat);
    }
}

proof fn lemma_double_shift_at_least(n: nat, unit: nat, k: nat)
    requires
        unit > 0,
        n < two_to(k + 1) * unit,
    ensures
        double_shift(n, unit) >= 52 - k,
    decreases k,
{
    if n >= 2 * unit {
        if k == 0 {
            assert(two_to(1) == 2) by {
                reveal_with_fuel(two_to, 2);
            }
            assert(false);
        }
        assert(two_to(k + 1) == 2 * two_to(k));
        assert(two_to(k + 1) * unit == two_to(k) * (2 * unit)) by (nonlinear_arith)
            requires
                two_to(k + 1) == 2 * two_to(k),
        ;
        lemma_double_shift_at_least(n, 2 * unit, (k - 1) as nat);
    }
}

proof fn lemma_double_tenths_near(n: nat, unit: nat)
    requires
        unit > 0,
        n < 0x1_0000_0000,
    ensures
        -unit <= double_tenths(n, unit) * unit - 10 * n <= unit,
{
    assert(two_to(32) == 0x1_0000_0000) by {
        reveal_with_fuel(two_to, 33);
    }
    assert(n < two_to(32) * unit) by (nonlinear_arith)
        requires
            two_to(32) == 0x1_0000_0000,
            n < 0x1_0000_0000,
            unit > 0,
    ;
    lemma_double_shift_at_least(n, unit, 31);
    let shift = double_shift(n, unit) as nat;
    lemma_two_to_at_least(shift, 4);
    assert(two_to(4) == 16) by {
        reveal_with_fuel(two_to, 5);
    }
    let scale = two_to(shift);
    let m = rounded(n * scale, unit);
    let t = rounded(10 * m, scale);
    law_rounding_is_to_the_nearest(n * scale, unit);
    law_rounding_is_to_the_nearest(10 * m, scale);
    assert(-unit <= t * unit - 10 * n <= unit) by (nonlinear_arith)
        requires
            scale >= 16,
            unit > 0,
            -(unit as int) <= 2 * (m * unit - n * scale) <= unit,
            -(scale as int) <= 2 * (t * scale - 10 * m) <= scale,
    {
        assert(2 * (t * scale - 10 * m) * unit <= scale * unit);
        assert(2 * (t * scale - 10 * m) * unit >= -(scale * unit));
        let off = t * unit - 10 * n;
        assert(2 * off * scale == 2 * (t * scale - 10 * m) * unit + 10 * (2 * (m * unit - n
            * scale)));
        assert(2 * off * scale <= scale * unit + 10 * unit);
        assert(2 * off * scale >= -(scale * unit + 10 * unit));
        assert(10 * unit <= scale * unit);
        assert(off * scale <= scale * unit);
        assert(off * scale >= -(scale * unit));
    }
}

/// A token count is written out below a thousand; from there on it is written in thousands, and
/// from a million on in millions, with one decimal, which is off by no more than one.
pub proof fn law_token_counts_are_shortened(tokens: u32)
    ensures
        tokens < 1_000 ==> token_text(tokens) == decimal(tokens as nat),
        1_000 <= tokens < 1_000_000 ==> exists|tenths: nat|
            {
                &&& token_text(tokens) == #[trigger] tenths_text(tenths) + "k"@
                &&& -1_000 <= tenths * 1_000 - 10 * tokens <= 1_000
            },
        tokens >= 1_000_000 ==> exists|tenths: nat|
            {
                &&& token_text(tokens) == #[trigger] tenths_text(tenths) + "M"@
                &&& -1_000_000 <= tenths * 1_000_000 - 10 * tokens <= 1_000_000
            },
{
    lemma_double_tenths_near(tokens as nat, 1_000);
    lemma_double_tenths_near(tokens as nat, 1_000_000);
    let thousands = double_tenths(tokens as nat, 1_000);
    let millions = double_tenths(tokens as nat, 1_000_000);
    assert(tenths_text(thousands) + "k"@ == tenths_text(thousands) + "k"@);
    assert(tenths_text(millions) + "M"@ == tenths_text(millions) + "M"@);
}

/// After a turn that the pane of its source shows was finalized, its line reads as the final text,
/// normalized: it holds every character of the text that is not whitespace, in order.
pub proof fn law_applied_final_texts_are_shown(
    app: &mut App,
    event: AppEvent,
    source: SourceKind,
    turn_id: String,
    text: String,
    display_action: DisplayAction,
    changed: bool,
)
    requires
        old(app).wf(),
        event == (AppEvent::TurnFinalized { source, turn_id, text, display_action }),
        old(app)@.pane(source) is Some,
        old(app)@.pane(source)->Some_0.has_turn(turn_id@),
        call_ensures(App::apply, (app, event), changed),
    ensures
        changed,
        final(app)@.pane(source) matches Some(after) && {
            let at = pane_turn_index(after.turns, turn_id@);
            let line = pane_lines(after)[first_line_of(after.turns, at)];
            &&& after.has_turn(turn_id@)
            &&& after.turn(turn_id@).state == PaneTurnState::Final
            &&& line.text == normalized(text@)
            &&& ink(line.text) == ink(text@)
        },
{
    law_final_texts_reach_the_screen(old(app)@, source, turn_id@, text@, display_action);
}

/// The lines of a pane in which a turn has just got its final text hold that text; those of one in
/// which a turn has just got a draft hold the draft.
pub proof fn law_lines_hold_what_was_just_said(
    pane: &mut SourcePane,
    turn_id: &str,
    name: String,
    text: String,
    display_action: DisplayAction,
    started_at: u128,
    changed: bool,
    lines: Vec<DisplayLine>,
)
    requires
        old(pane).wf(),
        name@ == turn_id@,
        call_ensures(SourcePane::display_lines, (&*final(pane),), lines),
    ensures
        call_ensures(SourcePane::mark_final, (pane, turn_id, text, display_action), changed) ==> {
            &&& changed <==> old(pane)@.has_turn(turn_id@)
            &&& changed ==> exists|i: int|
                0 <= i < lines@.len() && (#[trigger] lines@[i])@.text == text@
        },
        call_ensures(SourcePane::update_draft, (pane, name, text, started_at), changed) ==> {
            &&& changed && pane_in_order(old(pane)@) ==> exists|i: int|
                0 <= i < lines@.len() && (#[trigger] lines@[i])@.text == "[draft] "@ + text@
            &&& !changed ==> final(pane)@ == old(pane)@
        },
{
    let before = old(pane)@;
    let after = final(pane)@;
    let at = pane_turn_index(after.turns, turn_id@);
    lemma_pane_turn_index_found(before.turns, turn_id@);
    if call_ensures(SourcePane::mark_final, (pane, turn_id, text, display_action), changed)
        && changed {
        let replaced = PaneTurnView {
            final_text: Some(text@),
            state: PaneTurnState::Final,
            display_action,
            error: None,
            ..before.turn(turn_id@)
        };
        lemma_pane_replacing(before, turn_id@, replaced);
        law_turns_are_shown_as_what_they_are(after, at);
        let i = first_line_of(after.turns, at);
        assert(line_views(lines@)[i] == lines@[i]@);
    }
    if call_ensures(SourcePane::update_draft, (pane, name, text, started_at), changed) && changed
        && pane_in_order(before) {
        if before.has_turn(turn_id@) {
            let replaced = after.turns[pane_turn_index(before.turns, turn_id@)];
            lemma_pane_replacing(before, turn_id@, replaced);
            law_turns_are_shown_as_what_they_are(after, at);
            let i = first_line_of(after.turns, at);
            assert(line_views(lines@)[i] == lines@[i]@);
        } else {
            let last = after.turns.len() - 1;
            law_turns_are_shown_as_what_they_are(after, last);
            let i = first_line_of(after.turns, last);
            assert(line_views(lines@)[i] == lines@[i]@);
        }
    }
}

/// A call to quit quits, a call to draw draws, and so does every event that changes what is seen;
/// once called for, neither is taken back. The latest notice is shown, and where there was none,
/// that the screen is ready.
pub proof fn law_events_quit_and_draw(
    app: &mut App,
    event: AppEvent,
    should_draw: &mut bool,
    should_quit: &mut bool,
    notice: String,
)
    ensures
        call_ensures(handle_ui_event, (app, event, should_draw, should_quit), ()) ==> {
            &&& *final(should_quit) <==> *old(should_quit) || event is Quit
            &&& *old(should_draw) ==> *final(should_draw)
            &&& event is Redraw || event is Notice ==> *final(should_draw)
        },
        call_ensures(App::latest_notice, (&*old(app),), notice) ==> {
            &&& old(app)@.notices.len() > 0 ==> notice@ == old(app)@.notices.last()
            &&& old(app)@.notices.len() == 0 ==> notice@ == "ready"@
        },
{
}

/// After a draft in which something is heard, the pane of its source shows the turn, and the turn
/// holds the draft, normalized: every character of it that is not whitespace, in order. After a
/// failure of a turn that is shown, its error is shown below its draft.
pub proof fn law_applied_drafts_and_failures_are_shown(
    app: &mut App,
    event: AppEvent,
    source: SourceKind,
    turn_id: String,
    at: i128,
    text: String,
    changed: bool,
)
    requires
        old(app).wf(),
        old(app)@.pane(source) matches Some(pane) && pane_in_order(pane),
        call_ensures(App::apply, (app, event), changed),
    ensures
        event == (AppEvent::DraftTranscript { source, turn_id, at, text }) && normalized(
            text@,
        ).len() > 0 ==> (final(app)@.pane(source) matches Some(after) && {
            &&& after.has_turn(turn_id@)
            &&& after.turn(turn_id@).draft_text == normalized(text@)
            &&& ink(after.turn(turn_id@).draft_text) == ink(text@)
            &&& changed ==> after.turn(turn_id@).state == PaneTurnState::Draft
        }),
        event == (AppEvent::TurnFailed { source, turn_id, error: text }) && old(app)@.pane(
            source,
        )->Some_0.has_turn(turn_id@) ==> (final(app)@.pane(source) matches Some(after) && {
            let place = pane_turn_index(after.turns, turn_id@);
            let line = first_line_of(after.turns, place);
            &&& after.has_turn(turn_id@)
            &&& after.turn(turn_id@).state == PaneTurnState::Failed
            &&& text@.is_suffix_of(pane_lines(after)[line + 1].text)
        }),
{
    law_drafts_reach_the_screen(old(app)@, source, turn_id@, at, text@);
    law_turn_ends_reach_the_screen(old(app)@, source, turn_id@, text@);
    let pane = old(app)@.pane(source)->Some_0;
    if event == (AppEvent::TurnFailed { source, turn_id, error: text }) && pane.has_turn(
        turn_id@,
    ) {
        lemma_pane_turn_index_found(pane.turns, turn_id@);
        lemma_pane_replacing(
            pane,
            turn_id@,
            PaneTurnView {
                state: PaneTurnState::Failed,
                error: Some(text@),
                ..pane.turn(turn_id@)
            },
        );
    }
}

} // verus!
