//! The transcript of a session: its turns, their states, and the profile they follow.

use vstd::prelude::*;
use vstd::string::*;

use crate::capture::SourceKind;
use crate::text::{join_texts, nonblank_text, same_text};

verus! {

use crate::text::{
    joined, law_parts_stand_between_the_rest, nonblank, occurs_in, stands_at, trimmed, view_opt,
    view_opt_str, views,
};

/// The language that is written where none is configured.
pub const DEFAULT_PRIMARY_LANGUAGE: &'static str = "zh-Hant";

/// What happens to numerals.
#[derive(Debug, Clone, Copy, PartialEq, Eq, Structural)]
pub enum NumeralPolicy {
    Preserve,
    Normalize,
}

impl Default for NumeralPolicy {
    fn default() -> (policy: Self)
        ensures
            policy == NumeralPolicy::Preserve,
    {
        NumeralPolicy::Preserve
    }
}

/// What the config file says of transcription.
#[derive(Debug, Clone)]
pub struct TranscriptionConfig {
    pub primary_language: Option<String>,
    pub allowed_languages: Vec<String>,
    pub keep_disfluencies: bool,
    pub collapse_self_corrections: bool,
    pub dedupe_immediate_repetition: bool,
    pub numeral_policy: NumeralPolicy,
}

impl Default for TranscriptionConfig {
    fn default() -> (config: Self)
        ensures
            config.primary_language is None,
            config.allowed_languages@ == Seq::<String>::empty(),
            !config.keep_disfluencies,
            !config.collapse_self_corrections,
            !config.dedupe_immediate_repetition,
            config.numeral_policy == NumeralPolicy::Preserve,
    {
        TranscriptionConfig {
            primary_language: None,
            allowed_languages: Vec::new(),
            keep_disfluencies: false,
            collapse_self_corrections: false,
            dedupe_immediate_repetition: false,
            numeral_policy: NumeralPolicy::Preserve,
        }
    }
}

/// How turns are to be transcribed.
#[derive(Debug, PartialEq, Eq)]
pub struct TranscriptionProfile {
    pub primary_language: String,
    pub allowed_languages: Vec<String>,
    pub keep_disfluencies: bool,
    pub collapse_self_corrections: bool,
    pub dedupe_immediate_repetition: bool,
    pub numeral_policy: NumeralPolicy,
}

/// What a profile says.
#[verifier::ext_equal]
pub struct ProfileView {
    pub primary_language: Seq<char>,
    pub allowed_languages: Seq<Seq<char>>,
    pub keep_disfluencies: bool,
    pub collapse_self_corrections: bool,
    pub dedupe_immediate_repetition: bool,
    pub numeral_policy: NumeralPolicy,
}

impl TranscriptionProfile {
    pub open spec fn view(self) -> ProfileView {
        ProfileView {
            primary_language: self.primary_language@,
            allowed_languages: views(self.allowed_languages@),
            keep_disfluencies: self.keep_disfluencies,
            collapse_self_corrections: self.collapse_self_corrections,
            dedupe_immediate_repetition: self.dedupe_immediate_repetition,
            numeral_policy: self.numeral_policy,
        }
    }
}

/// The profile without a config.
pub open spec fn default_profile() -> ProfileView {
    ProfileView {
        primary_language: DEFAULT_PRIMARY_LANGUAGE@,
        allowed_languages: Seq::empty(),
        keep_disfluencies: true,
        collapse_self_corrections: false,
        dedupe_immediate_repetition: false,
        numeral_policy: NumeralPolicy::Preserve,
    }
}

impl Default for TranscriptionProfile {
    fn default() -> (profile: Self)
        ensures
            profile@ == default_profile(),
    {
        let profile = TranscriptionProfile {
            primary_language: DEFAULT_PRIMARY_LANGUAGE.to_owned(),
            allowed_languages: Vec::new(),
            keep_disfluencies: true,
            collapse_self_corrections: false,
            dedupe_immediate_repetition: false,
            numeral_policy: NumeralPolicy::Preserve,
        };
        assert(profile@ == default_profile());
        profile
    }
}

fn clone_texts(texts: &Vec<String>) -> (copies: Vec<String>)
    ensures
        copies@ == texts@,
{
    let mut copies: Vec<String> = Vec::new();
    let mut i: usize = 0;
    while i < texts.len()
        invariant
            i <= texts@.len(),
            copies@ == texts@.take(i as int),
        decreases texts@.len() - i,
    {
        assert(texts@.take(i + 1) == texts@.take(i as int).push(texts@[i as int]));
        copies.push(texts[i].clone());
        i += 1;
    }
    assert(texts@.take(texts@.len() as int) == texts@);
    copies
}

impl Clone for TranscriptionProfile {
    fn clone(&self) -> (copy: Self)
        ensures
            copy@ == self@,
    {
        TranscriptionProfile {
            primary_language: self.primary_language.clone(),
            allowed_languages: clone_texts(&self.allowed_languages),
            keep_disfluencies: self.keep_disfluencies,
            collapse_self_corrections: self.collapse_self_corrections,
            dedupe_immediate_repetition: self.dedupe_immediate_repetition,
            numeral_policy: self.numeral_policy,
        }
    }
}

/// The languages allowed beside the primary one: trimmed, without blanks, without the primary
/// language, each where it first stands.
pub open spec fn allowed_beside(primary: Seq<char>, listed: Seq<Seq<char>>) -> Seq<Seq<char>>
    decreases listed.len(),
{
    if listed.len() == 0 {
        Seq::empty()
    } else {
        let before = allowed_beside(primary, listed.drop_last());
        match nonblank(listed.last()) {
            Some(language) => if language == primary || before.contains(language) {
                before
            } else {
                before.push(language)
            },
            None => before,
        }
    }
}

/// The primary language that a config gives.
pub open spec fn configured_primary(config: TranscriptionConfig) -> Seq<char> {
    let given = match config.primary_language {
        Some(language) => nonblank(language@),
        None => None,
    };
    match given {
        Some(language) => language,
        None => DEFAULT_PRIMARY_LANGUAGE@,
    }
}

/// The profile that a config gives.
pub open spec fn configured_profile(config: Option<TranscriptionConfig>) -> ProfileView {
    match config {
        Some(config) => ProfileView {
            primary_language: configured_primary(config),
            allowed_languages: allowed_beside(
                configured_primary(config),
                views(config.allowed_languages@),
            ),
            keep_disfluencies: config.keep_disfluencies,
            collapse_self_corrections: config.collapse_self_corrections,
            dedupe_immediate_repetition: config.dedupe_immediate_repetition,
            numeral_policy: config.numeral_policy,
        },
        None => default_profile(),
    }
}

fn sanitize_language(language: Option<String>) -> (result: Option<String>)
    ensures
        view_opt(result) == match language {
            Some(language) => nonblank(language@),
            None => None,
        },
{
    match language {
        Some(language) => nonblank_text(language.as_str()),
        None => None,
    }
}

fn has_text(texts: &Vec<String>, text: &str) -> (found: bool)
    ensures
        found == views(texts@).contains(text@),
{
    let mut i: usize = 0;
    while i < texts.len()
        invariant
            i <= texts@.len(),
            forall|k: int| 0 <= k < i ==> views(texts@)[k] != text@,
        decreases texts@.len() - i,
    {
        if same_text(texts[i].as_str(), text) {
            assert(views(texts@)[i as int] == text@);
            return true;
        }
        i += 1;
    }
    false
}

/// The allowed languages neither repeat each other nor the primary one.
pub proof fn law_allowed_languages_are_distinct(primary: Seq<char>, listed: Seq<Seq<char>>)
    ensures
        allowed_beside(primary, listed).no_duplicates(),
        !allowed_beside(primary, listed).contains(primary),
    decreases listed.len(),
{
    if listed.len() > 0 {
        law_allowed_languages_are_distinct(primary, listed.drop_last());
        let before = allowed_beside(primary, listed.drop_last());
        match nonblank(listed.last()) {
            Some(language) => {
                let pushed = before.push(language);
                if language != primary && !before.contains(language) {
                    assert forall|i: int, j: int|
                        0 <= i < pushed.len() && 0 <= j < pushed.len() && i
                            != j implies pushed[i] != pushed[j] by {
                        if i < before.len() && j < before.len() {
                            assert(before[i] != before[j]);
                        } else if i < before.len() {
                            assert(before.contains(before[i]));
                        } else {
                            assert(before.contains(before[j]));
                        }
                    }
                    assert forall|i: int| 0 <= i < pushed.len() implies pushed[i] != primary by {
                        if i < before.len() {
                            assert(before.contains(before[i]));
                        }
                    }
                }
            },
            None => {},
        }
    }
}

/// A flag as it is written in an instruction.
pub open spec fn flag_label(value: bool) -> Seq<char> {
    if value {
        "true"@
    } else {
        "false"@
    }
}

fn bool_label(value: bool) -> (label: &'static str)
    ensures
        label@ == flag_label(value),
{
    if value {
        "true"
    } else {
        "false"
    }
}

/// A numeral policy as it is written in an instruction.
pub open spec fn numeral_label(policy: NumeralPolicy) -> Seq<char> {
    match policy {
        NumeralPolicy::Preserve => "preserve"@,
        NumeralPolicy::Normalize => "normalize"@,
    }
}

/// A profile in one line.
pub open spec fn profile_summary(profile: ProfileView) -> Seq<char> {
    if profile.allowed_languages.len() == 0 {
        "lang: "@ + profile.primary_language
    } else {
        "lang: "@ + profile.primary_language + " | allow: "@ + joined(
            profile.allowed_languages,
            ", "@,
        )
    }
}

/// The languages that a final text may be in, the primary one first.
pub open spec fn output_languages(profile: ProfileView) -> Seq<Seq<char>> {
    seq![profile.primary_language] + profile.allowed_languages
}

/// The allowed languages as they are written in an instruction.
pub open spec fn allowed_label(profile: ProfileView) -> Seq<char> {
    if profile.allowed_languages.len() == 0 {
        "none"@
    } else {
        joined(profile.allowed_languages, ", "@)
    }
}

/// The instruction to a finalizer.
pub open spec fn finalizer_text(profile: ProfileView) -> Seq<char> {
    "You are a turn-level transcription finalizer.\nYou may only respond by calling finalize_transcript.\nProduce a single final transcript text for the current audio turn.\nPrimary output language: "@
        + profile.primary_language
        + ".\nAdditional allowed languages that may remain as spoken: "@ + allowed_label(profile)
        + ".\nIf speech is in any other language, translate that span into the primary output language.\nPrefer to keep text in the primary output language and the additional allowed languages.\nSet output_language as a best-effort hint for the dominant language of the final text.\nPreferred output_language values: "@
        + joined(output_languages(profile), ", "@) + ".\nKeep disfluencies: "@ + flag_label(
        profile.keep_disfluencies,
    ) + ".\nCollapse self corrections: "@ + flag_label(profile.collapse_self_corrections)
        + ".\nDeduplicate immediate repetition: "@ + flag_label(profile.dedupe_immediate_repetition)
        + ".\nNumeral policy: "@ + numeral_label(profile.numeral_policy)
        + ".\nUse prior turns only as context for understanding. Do not revise prior finalized turns.\nDo not output conversational text.\nIf the audio is empty or only noise, set is_empty_or_noise to true and emit empty text."@
}

impl TranscriptionProfile {
    /// The profile that a config gives.
    pub fn from_config(config: Option<TranscriptionConfig>) -> (profile: Result<Self, String>)
        ensures
            profile matches Ok(profile) && profile@ == configured_profile(config),
    {
        let config = match config {
            Some(config) => config,
            None => return Ok(TranscriptionProfile::default()),
        };
        let listed = &config.allowed_languages;
        let primary_language: String = match sanitize_language(config.primary_language) {
            Some(language) => language,
            None => DEFAULT_PRIMARY_LANGUAGE.to_owned(),
        };
        let mut allowed: Vec<String> = Vec::new();
        let mut i: usize = 0;
        assert(views(allowed@) == Seq::<Seq<char>>::empty());
        while i < listed.len()
            invariant
                i <= listed@.len(),
                views(allowed@) == allowed_beside(
                    primary_language@,
                    views(listed@).take(i as int),
                ),
            decreases listed@.len() - i,
        {
            let ghost before = allowed@;
            assert(views(listed@).take(i + 1).drop_last() == views(listed@).take(i as int));
            match nonblank_text(listed[i].as_str()) {
                Some(language) => {
                    if !same_text(language.as_str(), primary_language.as_str()) && !has_text(
                        &allowed,
                        language.as_str(),
                    ) {
                        allowed.push(language);
                        assert(views(allowed@) == views(before).push(language@));
                    }
                },
                None => {},
            }
            i += 1;
        }
        assert(views(listed@).take(listed@.len() as int) == views(listed@));
        Ok(
            TranscriptionProfile {
                primary_language,
                allowed_languages: allowed,
                keep_disfluencies: config.keep_disfluencies,
                collapse_self_corrections: config.collapse_self_corrections,
                dedupe_immediate_repetition: config.dedupe_immediate_repetition,
                numeral_policy: config.numeral_policy,
            },
        )
    }

    /// The profile in one line.
    pub fn summary(&self) -> (text: String)
        ensures
            text@ == profile_summary(self@),
    {
        let primary = "lang: ".to_owned().concat(self.primary_language.as_str());
        if self.allowed_languages.len() == 0 {
            primary
        } else {
            primary.concat(" | allow: ").concat(
                join_texts(&self.allowed_languages, ", ").as_str(),
            )
        }
    }

    /// The languages that a final text may be in, the primary one first.
    pub fn allowed_output_languages(&self) -> (languages: Vec<String>)
        ensures
            views(languages@) == output_languages(self@),
    {
        let mut languages: Vec<String> = Vec::new();
        languages.push(self.primary_language.clone());
        let mut i: usize = 0;
        while i < self.allowed_languages.len()
            invariant
                i <= self.allowed_languages@.len(),
                languages@ == seq![self.primary_language] + self.allowed_languages@.take(i as int),
            decreases self.allowed_languages@.len() - i,
        {
            assert(self.allowed_languages@.take(i + 1) == self.allowed_languages@.take(
                i as int,
            ).push(self.allowed_languages@[i as int]));
            languages.push(self.allowed_languages[i].clone());
            i += 1;
        }
        assert(self.allowed_languages@.take(self.allowed_languages@.len() as int)
            == self.allowed_languages@);
        assert(views(languages@) == output_languages(self@));
        languages
    }

    /// The instruction to a finalizer.
    pub fn finalizer_instruction(&self) -> (text: String)
        ensures
            text@ == finalizer_text(self@),
    {
        let allowed = if self.allowed_languages.len() == 0 {
            "none".to_owned()
        } else {
            join_texts(&self.allowed_languages, ", ")
        };
        let output_languages = join_texts(&self.allowed_output_languages(), ", ");
        let numeral_policy = match self.numeral_policy {
            NumeralPolicy::Preserve => "preserve",
            NumeralPolicy::Normalize => "normalize",
        };
        "You are a turn-level transcription finalizer.\nYou may only respond by calling finalize_transcript.\nProduce a single final transcript text for the current audio turn.\nPrimary output language: ".to_owned().concat(
            self.primary_language.as_str(),
        ).concat(".\nAdditional allowed languages that may remain as spoken: ").concat(
            allowed.as_str(),
        ).concat(
            ".\nIf speech is in any other language, translate that span into the primary output language.\nPrefer to keep text in the primary output language and the additional allowed languages.\nSet output_language as a best-effort hint for the dominant language of the final text.\nPreferred output_language values: ",
        ).concat(output_languages.as_str()).concat(".\nKeep disfluencies: ").concat(
            bool_label(self.keep_disfluencies),
        ).concat(".\nCollapse self corrections: ").concat(
            bool_label(self.collapse_self_corrections),
        ).concat(".\nDeduplicate immediate repetition: ").concat(
            bool_label(self.dedupe_immediate_repetition),
        ).concat(".\nNumeral policy: ").concat(numeral_policy).concat(
            ".\nUse prior turns only as context for understanding. Do not revise prior finalized turns.\nDo not output conversational text.\nIf the audio is empty or only noise, set is_empty_or_noise to true and emit empty text.",
        )
    }
}

/// Where a final text goes on screen.
#[derive(Debug, Clone, Copy, PartialEq, Eq, Structural)]
pub enum DisplayAction {
    NewBlock,
    AppendPreviousBlock,
}

/// What a finalizer gives for a turn.
#[derive(Debug)]
pub struct FinalizedTurnPayload {
    pub text: String,
    pub output_language: String,
    pub detected_languages: Vec<String>,
    pub is_empty_or_noise: bool,
    pub display_action: DisplayAction,
}

impl Clone for FinalizedTurnPayload {
    fn clone(&self) -> (copy: Self)
        ensures
            copy.text == self.text,
            copy.output_language == self.output_language,
            copy.detected_languages@ == self.detected_languages@,
            copy.is_empty_or_noise == self.is_empty_or_noise,
            copy.display_action == self.display_action,
    {
        FinalizedTurnPayload {
            text: self.text.clone(),
            output_language: self.output_language.clone(),
            detected_languages: clone_texts(&self.detected_languages),
            is_empty_or_noise: self.is_empty_or_noise,
            display_action: self.display_action,
        }
    }
}

/// How far a turn has come.
#[derive(Debug, Clone, Copy, PartialEq, Eq, Structural)]
pub enum TurnState {
    Draft,
    Pending,
    Final,
    Failed,
    Unfinalized,
}

/// One turn of a transcript.
#[derive(Debug, Clone, PartialEq, Eq)]
pub struct ExportedTurn {
    pub turn_id: String,
    pub turn_index: u64,
    pub state: TurnState,
    pub text: String,
    pub output_language: String,
    pub draft_text: String,
    pub detected_languages: Vec<String>,
    pub is_empty_or_noise: bool,
    pub display_action: DisplayAction,
    pub created_at_unix_ms: u128,
    pub finalized_at_unix_ms: Option<u128>,
    pub error: Option<String>,
}

/// What a turn says.
#[verifier::ext_equal]
pub struct TurnView {
    pub turn_id: Seq<char>,
    pub turn_index: u64,
    pub state: TurnState,
    pub text: Seq<char>,
    pub output_language: Seq<char>,
    pub draft_text: Seq<char>,
    pub detected_languages: Seq<Seq<char>>,
    pub is_empty_or_noise: bool,
    pub display_action: DisplayAction,
    pub created_at_unix_ms: u128,
    pub finalized_at_unix_ms: Option<u128>,
    pub error: Option<Seq<char>>,
}

impl ExportedTurn {
    pub open spec fn view(self) -> TurnView {
        TurnView {
            turn_id: self.turn_id@,
            turn_index: self.turn_index,
            state: self.state,
            text: self.text@,
            output_language: self.output_language@,
            draft_text: self.draft_text@,
            detected_languages: views(self.detected_languages@),
            is_empty_or_noise: self.is_empty_or_noise,
            display_action: self.display_action,
            created_at_unix_ms: self.created_at_unix_ms,
            finalized_at_unix_ms: self.finalized_at_unix_ms,
            error: view_opt(self.error),
        }
    }
}

/// The turns of one source.
#[derive(Debug, Clone, PartialEq, Eq)]
pub struct SourceTranscript {
    pub source: SourceKind,
    pub turns: Vec<ExportedTurn>,
}

/// What the turns of one source say.
#[verifier::ext_equal]
pub struct SourceView {
    pub source: SourceKind,
    pub turns: Seq<TurnView>,
}

/// What turns say.
pub open spec fn turn_views(turns: Seq<ExportedTurn>) -> Seq<TurnView> {
    turns.map_values(|turn: ExportedTurn| turn@)
}

impl SourceTranscript {
    pub open spec fn view(self) -> SourceView {
        SourceView { source: self.source, turns: turn_views(self.turns@) }
    }
}

/// What the turns of several sources say.
pub open spec fn source_views(sources: Seq<SourceTranscript>) -> Seq<SourceView> {
    sources.map_values(|source: SourceTranscript| source@)
}

/// The transcript of a session.
#[derive(Debug, Clone, PartialEq, Eq)]
pub struct SessionTranscript {
    pub session_id: String,
    pub created_at_unix_ms: u128,
    pub ended_at_unix_ms: Option<u128>,
    pub draft_model: String,
    pub finalizer_model: String,
    pub transcription_profile: TranscriptionProfile,
    pub sources: Vec<SourceTranscript>,
}

/// What the transcript of a session says.
#[verifier::ext_equal]
pub struct SessionView {
    pub session_id: Seq<char>,
    pub created_at_unix_ms: u128,
    pub ended_at_unix_ms: Option<u128>,
    pub draft_model: Seq<char>,
    pub finalizer_model: Seq<char>,
    pub transcription_profile: ProfileView,
    pub sources: Seq<SourceView>,
}

impl SessionTranscript {
    pub open spec fn view(self) -> SessionView {
        SessionView {
            session_id: self.session_id@,
            created_at_unix_ms: self.created_at_unix_ms,
            ended_at_unix_ms: self.ended_at_unix_ms,
            draft_model: self.draft_model@,
            finalizer_model: self.finalizer_model@,
            transcription_profile: self.transcription_profile@,
            sources: source_views(self.sources@),
        }
    }
}

/// The place of the first entry of `source`, or the number of entries where there is none.
pub open spec fn source_index(sources: Seq<SourceView>, source: SourceKind) -> int
    decreases sources.len(),
{
    if sources.len() == 0 {
        0
    } else if sources[0].source == source {
        0
    } else {
        1 + source_index(sources.drop_first(), source)
    }
}

/// The place of the first turn named `turn_id`, or the number of turns where there is none.
pub open spec fn turn_index(turns: Seq<TurnView>, turn_id: Seq<char>) -> int
    decreases turns.len(),
{
    if turns.len() == 0 {
        0
    } else if turns[0].turn_id == turn_id {
        0
    } else {
        1 + turn_index(turns.drop_first(), turn_id)
    }
}

proof fn lemma_source_index(sources: Seq<SourceView>, source: SourceKind, at: int)
    requires
        0 <= at <= sources.len(),
        forall|i: int| 0 <= i < at ==> (#[trigger] sources[i]).source != source,
        at < sources.len() ==> sources[at].source == source,
    ensures
        source_index(sources, source) == at,
    decreases sources.len(),
{
    if at > 0 {
        let rest = sources.drop_first();
        assert forall|i: int| 0 <= i < at - 1 implies (#[trigger] rest[i]).source != source by {
            assert(rest[i] == sources[i + 1]);
        }
        lemma_source_index(rest, source, at - 1);
    }
}

proof fn lemma_turn_index(turns: Seq<TurnView>, turn_id: Seq<char>, at: int)
    requires
        0 <= at <= turns.len(),
        forall|i: int| 0 <= i < at ==> (#[trigger] turns[i]).turn_id != turn_id,
        at < turns.len() ==> turns[at].turn_id == turn_id,
    ensures
        turn_index(turns, turn_id) == at,
    decreases turns.len(),
{
    if at > 0 {
        let rest = turns.drop_first();
        assert forall|i: int| 0 <= i < at - 1 implies (#[trigger] rest[i]).turn_id != turn_id by {
            assert(rest[i] == turns[i + 1]);
        }
        lemma_turn_index(rest, turn_id, at - 1);
    }
}

/// What `source_index` finds is the first entry of the source, if there is one.
pub proof fn lemma_source_index_found(sources: Seq<SourceView>, source: SourceKind)
    ensures
        0 <= source_index(sources, source) <= sources.len(),
        source_index(sources, source) < sources.len() ==> sources[source_index(
            sources,
            source,
        )].source == source,
        forall|i: int|
            0 <= i < source_index(sources, source) ==> (#[trigger] sources[i]).source != source,
    decreases sources.len(),
{
    if sources.len() > 0 && sources[0].source != source {
        let rest = sources.drop_first();
        lemma_source_index_found(rest, source);
        assert forall|i: int| 0 <= i < source_index(sources, source) implies (
        #[trigger] sources[i]).source != source by {
            if i > 0 {
                assert(sources[i] == rest[i - 1]);
            }
        }
    }
}

/// What `turn_index` finds is the first turn of the name, if there is one.
pub proof fn lemma_turn_index_found(turns: Seq<TurnView>, turn_id: Seq<char>)
    ensures
        0 <= turn_index(turns, turn_id) <= turns.len(),
        turn_index(turns, turn_id) < turns.len() ==> turns[turn_index(turns, turn_id)].turn_id
            == turn_id,
        forall|i: int|
            0 <= i < turn_index(turns, turn_id) ==> (#[trigger] turns[i]).turn_id != turn_id,
    decreases turns.len(),
{
    if turns.len() > 0 && turns[0].turn_id != turn_id {
        let rest = turns.drop_first();
        lemma_turn_index_found(rest, turn_id);
        assert forall|i: int| 0 <= i < turn_index(turns, turn_id) implies (
        #[trigger] turns[i]).turn_id != turn_id by {
            if i > 0 {
                assert(turns[i] == rest[i - 1]);
            }
        }
    }
}

impl SessionView {
    /// Whether the session has `source`.
    pub open spec fn has_source(self, source: SourceKind) -> bool {
        source_index(self.sources, source) < self.sources.len()
    }

    /// The turns of `source`.
    pub open spec fn turns_of(self, source: SourceKind) -> Seq<TurnView> {
        self.sources[source_index(self.sources, source)].turns
    }

    /// Whether `source` has a turn named `turn_id`.
    pub open spec fn has_turn(self, source: SourceKind, turn_id: Seq<char>) -> bool {
        &&& self.has_source(source)
        &&& turn_index(self.turns_of(source), turn_id) < self.turns_of(source).len()
    }

    /// The turn of `source` named `turn_id`.
    pub open spec fn turn(self, source: SourceKind, turn_id: Seq<char>) -> TurnView {
        self.turns_of(source)[turn_index(self.turns_of(source), turn_id)]
    }

    /// The session with other turns for `source`.
    pub open spec fn with_turns(self, source: SourceKind, turns: Seq<TurnView>) -> SessionView {
        SessionView {
            sources: self.sources.update(
                source_index(self.sources, source),
                SourceView { source, turns },
            ),
            ..self
        }
    }

    /// The session with another turn in the place of the one named `turn_id`.
    pub open spec fn with_turn(
        self,
        source: SourceKind,
        turn_id: Seq<char>,
        turn: TurnView,
    ) -> SessionView {
        self.with_turns(
            source,
            self.turns_of(source).update(turn_index(self.turns_of(source), turn_id), turn),
        )
    }
}

/// A turn about which nothing is known but that it began.
pub open spec fn new_turn(turn_id: Seq<char>, turn_index: u64, created_at: u128) -> TurnView {
    TurnView {
        turn_id,
        turn_index,
        state: TurnState::Draft,
        text: Seq::empty(),
        output_language: Seq::empty(),
        draft_text: Seq::empty(),
        detected_languages: Seq::empty(),
        is_empty_or_noise: false,
        display_action: DisplayAction::NewBlock,
        created_at_unix_ms: created_at,
        finalized_at_unix_ms: None,
        error: None,
    }
}

/// The turn with a draft.
pub open spec fn with_draft(turn: TurnView, draft_text: Seq<char>) -> TurnView {
    TurnView { draft_text, ..turn }
}

/// The turn, waiting for its final text.
pub open spec fn as_pending(turn: TurnView) -> TurnView {
    TurnView { state: TurnState::Pending, ..turn }
}

/// The turn with its final text.
pub open spec fn as_final(turn: TurnView, payload: FinalizedTurnPayload, at: u128) -> TurnView {
    TurnView {
        state: TurnState::Final,
        text: payload.text@,
        output_language: payload.output_language@,
        detected_languages: views(payload.detected_languages@),
        is_empty_or_noise: payload.is_empty_or_noise,
        display_action: payload.display_action,
        finalized_at_unix_ms: Some(at),
        error: None,
        ..turn
    }
}

/// The turn, given up with an error.
pub open spec fn as_failed(turn: TurnView, error: Seq<char>, at: u128) -> TurnView {
    TurnView {
        state: TurnState::Failed,
        error: Some(error),
        finalized_at_unix_ms: Some(at),
        ..turn
    }
}

/// The turn, left with its draft for want of a final text.
pub open spec fn as_unfinalized(turn: TurnView) -> TurnView {
    TurnView {
        state: TurnState::Unfinalized,
        text: if turn.text.len() == 0 {
            turn.draft_text
        } else {
            turn.text
        },
        ..turn
    }
}

/// Trusted: `SystemTime::now`, as milliseconds since the Unix epoch, or 0 on a clock that
/// stands before it. Nothing is claimed of the time itself.
#[verifier::external_body]
pub fn unix_timestamp_ms() -> (now: u128) {
    std::time::SystemTime::now().duration_since(std::time::UNIX_EPOCH).unwrap_or_default().as_millis()
}

/// The transcript of a session while it is being made.
#[derive(Debug)]
pub struct TranscriptStore {
    pub session: SessionTranscript,
}

impl TranscriptStore {
    pub open spec fn view(self) -> SessionView {
        self.session@
    }

    /// A session that begins now, with the sources given and no turns.
    pub fn new(
        session_id: String,
        draft_model: String,
        finalizer_model: String,
        transcription_profile: TranscriptionProfile,
        sources: Vec<SourceKind>,
    ) -> (store: Self)
        ensures
            exists|now: u128|
                store@ == #[trigger] new_session(
                    session_id@,
                    draft_model@,
                    finalizer_model@,
                    transcription_profile@,
                    sources@,
                    now,
                ),
    {
        let now = unix_timestamp_ms();
        TranscriptStore::new_at(
            session_id,
            draft_model,
            finalizer_model,
            transcription_profile,
            sources,
            now,
        )
    }

    /// A session that begins at `now`, with the sources given and no turns.
    pub fn new_at(
        session_id: String,
        draft_model: String,
        finalizer_model: String,
        transcription_profile: TranscriptionProfile,
        sources: Vec<SourceKind>,
        now: u128,
    ) -> (store: Self)
        ensures
            store@ == new_session(
                session_id@,
                draft_model@,
                finalizer_model@,
                transcription_profile@,
                sources@,
                now,
            ),
    {
        let mut records: Vec<SourceTranscript> = Vec::new();
        let mut i: usize = 0;
        while i < sources.len()
            invariant
                i <= sources@.len(),
                records@.len() == i,
                forall|k: int|
                    0 <= k < i ==> (#[trigger] records@[k])@ == empty_source(sources@[k]),
            decreases sources@.len() - i,
        {
            let record = SourceTranscript { source: sources[i], turns: Vec::new() };
            assert(record@ == empty_source(sources@[i as int]));
            records.push(record);
            i += 1;
        }
        assert(source_views(records@) == sources@.map_values(
            |source: SourceKind| empty_source(source),
        ));
        TranscriptStore {
            session: SessionTranscript {
                session_id,
                created_at_unix_ms: now,
                ended_at_unix_ms: None,
                draft_model,
                finalizer_model,
                transcription_profile,
                sources: records,
            },
        }
    }

    /// The id of the session.
    pub fn session_id(&self) -> (id: &str)
        ensures
            id@ == self@.session_id,
    {
        self.session.session_id.as_str()
    }

    fn find_source(&self, source: SourceKind) -> (at: usize)
        ensures
            at == source_index(self@.sources, source),
    {
        let mut at: usize = 0;
        while at < self.session.sources.len() && self.session.sources[at].source != source
            invariant
                at <= self.session.sources@.len(),
                forall|i: int|
                    0 <= i < at ==> (#[trigger] self@.sources[i]).source != source,
            ensures
                at <= self.session.sources@.len(),
                forall|i: int|
                    0 <= i < at ==> (#[trigger] self@.sources[i]).source != source,
                at < self.session.sources@.len() ==> self@.sources[at as int].source == source,
            decreases self.session.sources@.len() - at,
        {
            at += 1;
        }
        proof {
            lemma_source_index(self@.sources, source, at as int);
        }
        at
    }

    fn find_turn(&self, entry: usize, turn_id: &str) -> (at: usize)
        requires
            entry < self.session.sources@.len(),
        ensures
            at == turn_index(self@.sources[entry as int].turns, turn_id@),
    {
        let turns = &self.session.sources[entry].turns;
        let ghost listed = self@.sources[entry as int].turns;
        let mut at: usize = 0;
        while at < turns.len()
            invariant
                at <= turns@.len(),
                listed == turn_views(turns@),
                listed == self@.sources[entry as int].turns,
                forall|i: int| 0 <= i < at ==> (#[trigger] listed[i]).turn_id != turn_id@,
            decreases turns@.len() - at,
        {
            if same_text(turns[at].turn_id.as_str(), turn_id) {
                proof {
                    lemma_turn_index(listed, turn_id@, at as int);
                }
                return at;
            }
            at += 1;
        }
        proof {
            lemma_turn_index(listed, turn_id@, at as int);
        }
        at
    }

    /// Adds a turn to those of `source`, unless one of its name is there.
    pub fn register_turn(
        &mut self,
        source: SourceKind,
        turn_id: &str,
        turn_index: u64,
        created_at_unix_ms: u128,
    )
        requires
            old(self)@.has_source(source),
        ensures
            final(self)@ == if old(self)@.has_turn(source, turn_id@) {
                old(self)@
            } else {
                old(self)@.with_turns(
                    source,
                    old(self)@.turns_of(source).push(
                        new_turn(turn_id@, turn_index, created_at_unix_ms),
                    ),
                )
            },
            final(self)@.has_turn(source, turn_id@),
    {
        let entry = self.find_source(source);
        let at = self.find_turn(entry, turn_id);
        if at < self.session.sources[entry].turns.len() {
            return;
        }
        let turn = ExportedTurn {
            turn_id: turn_id.to_owned(),
            turn_index,
            state: TurnState::Draft,
            text: String::new(),
            output_language: String::new(),
            draft_text: String::new(),
            detected_languages: Vec::new(),
            is_empty_or_noise: false,
            display_action: DisplayAction::NewBlock,
            created_at_unix_ms,
            finalized_at_unix_ms: None,
            error: None,
        };
        assert(turn@ == new_turn(turn_id@, turn_index, created_at_unix_ms));
        self.session.sources[entry].turns.push(turn);
        proof {
            let turns = old(self)@.turns_of(source).push(turn@);
            assert(turn_views(self.session.sources@[entry as int].turns@) == turns);
            lemma_source_index_found(old(self)@.sources, source);
            assert(self@.sources == old(self)@.sources.update(
                entry as int,
                SourceView { source, turns },
            ));
            assert(self@ == old(self)@.with_turns(source, turns));
            lemma_turn_index_found(old(self)@.turns_of(source), turn_id@);
            assert(forall|i: int|
                0 <= i < old(self)@.turns_of(source).len() ==> turns[i] == old(self)@.turns_of(
                    source,
                )[i]);
            lemma_turn_index(turns, turn_id@, turns.len() - 1);
            lemma_source_index_kept(old(self)@, source, turns);
        }
    }

    /// Sets the draft of a turn.
    pub fn update_draft(&mut self, source: SourceKind, turn_id: &str, draft_text: String)
        requires
            old(self)@.has_turn(source, turn_id@),
        ensures
            final(self)@ == old(self)@.with_turn(
                source,
                turn_id@,
                with_draft(old(self)@.turn(source, turn_id@), draft_text@),
            ),
    {
        let entry = self.find_source(source);
        let at = self.find_turn(entry, turn_id);
        self.session.sources[entry].turns[at].draft_text = draft_text;
        proof {
            lemma_turn_replaced(old(self).session, self.session, source, turn_id@);
        }
    }

    /// Marks a turn as waiting for its final text.
    pub fn mark_pending(&mut self, source: SourceKind, turn_id: &str)
        requires
            old(self)@.has_turn(source, turn_id@),
        ensures
            final(self)@ == old(self)@.with_turn(
                source,
                turn_id@,
                as_pending(old(self)@.turn(source, turn_id@)),
            ),
    {
        let entry = self.find_source(source);
        let at = self.find_turn(entry, turn_id);
        self.session.sources[entry].turns[at].state = TurnState::Pending;
        proof {
            lemma_turn_replaced(old(self).session, self.session, source, turn_id@);
        }
    }

    /// Gives a turn its final text.
    pub fn mark_final(
        &mut self,
        source: SourceKind,
        turn_id: &str,
        payload: FinalizedTurnPayload,
        finalized_at_unix_ms: u128,
    )
        requires
            old(self)@.has_turn(source, turn_id@),
        ensures
            final(self)@ == old(self)@.with_turn(
                source,
                turn_id@,
                as_final(old(self)@.turn(source, turn_id@), payload, finalized_at_unix_ms),
            ),
    {
        let entry = self.find_source(source);
        let at = self.find_turn(entry, turn_id);
        self.session.sources[entry].turns[at].state = TurnState::Final;
        self.session.sources[entry].turns[at].text = payload.text;
        self.session.sources[entry].turns[at].output_language = payload.output_language;
        self.session.sources[entry].turns[at].detected_languages = payload.detected_languages;
        self.session.sources[entry].turns[at].is_empty_or_noise = payload.is_empty_or_noise;
        self.session.sources[entry].turns[at].display_action = payload.display_action;
        self.session.sources[entry].turns[at].finalized_at_unix_ms = Some(finalized_at_unix_ms);
        self.session.sources[entry].turns[at].error = None;
        proof {
            lemma_turn_replaced(old(self).session, self.session, source, turn_id@);
        }
    }

    /// Gives a turn up, now.
    pub fn mark_failed(&mut self, source: SourceKind, turn_id: &str, error: String)
        requires
            old(self)@.has_turn(source, turn_id@),
        ensures
            exists|now: u128|
                final(self)@ == old(self)@.with_turn(
                    source,
                    turn_id@,
                    #[trigger] as_failed(old(self)@.turn(source, turn_id@), error@, now),
                ),
    {
        let now = unix_timestamp_ms();
        self.mark_failed_at(source, turn_id, error, now);
    }

    /// Gives a turn up at `now`.
    pub fn mark_failed_at(
        &mut self,
        source: SourceKind,
        turn_id: &str,
        error: String,
        now: u128,
    )
        requires
            old(self)@.has_turn(source, turn_id@),
        ensures
            final(self)@ == old(self)@.with_turn(
                source,
                turn_id@,
                as_failed(old(self)@.turn(source, turn_id@), error@, now),
            ),
    {
        let entry = self.find_source(source);
        let at = self.find_turn(entry, turn_id);
        self.session.sources[entry].turns[at].state = TurnState::Failed;
        self.session.sources[entry].turns[at].error = Some(error);
        self.session.sources[entry].turns[at].finalized_at_unix_ms = Some(now);
        proof {
            lemma_turn_replaced(old(self).session, self.session, source, turn_id@);
        }
    }

    /// Leaves a turn with its draft.
    pub fn mark_unfinalized(&mut self, source: SourceKind, turn_id: &str)
        requires
            old(self)@.has_turn(source, turn_id@),
        ensures
            final(self)@ == old(self)@.with_turn(
                source,
                turn_id@,
                as_unfinalized(old(self)@.turn(source, turn_id@)),
            ),
    {
        let entry = self.find_source(source);
        let at = self.find_turn(entry, turn_id);
        self.session.sources[entry].turns[at].state = TurnState::Unfinalized;
        if self.session.sources[entry].turns[at].text.as_str().is_empty() {
            let draft: String = self.session.sources[entry].turns[at].draft_text.clone();
            self.session.sources[entry].turns[at].text = draft;
        }
        proof {
            lemma_turn_replaced(old(self).session, self.session, source, turn_id@);
        }
    }

    /// Ends the session now.
    pub fn finish_session(&mut self)
        ensures
            exists|now: u128| final(self)@ == #[trigger] ended_session(old(self)@, now),
    {
        let now = unix_timestamp_ms();
        self.finish_session_at(now);
    }

    /// Ends the session at `now`.
    pub fn finish_session_at(&mut self, now: u128)
        ensures
            final(self)@ == ended_session(old(self)@, now),
    {
        self.session.ended_at_unix_ms = Some(now);
    }
}

/// The session, ended at `now`.
pub open spec fn ended_session(session: SessionView, now: u128) -> SessionView {
    SessionView { ended_at_unix_ms: Some(now), ..session }
}

/// Giving a source other turns leaves it where it is.
proof fn lemma_source_index_kept(session: SessionView, source: SourceKind, turns: Seq<TurnView>)
    requires
        session.has_source(source),
    ensures
        source_index(session.with_turns(source, turns).sources, source) == source_index(
            session.sources,
            source,
        ),
        session.with_turns(source, turns).has_source(source),
        session.with_turns(source, turns).turns_of(source) == turns,
{
    lemma_source_index_found(session.sources, source);
    let at = source_index(session.sources, source);
    lemma_source_index(session.with_turns(source, turns).sources, source, at);
}

/// Where one turn of one source was replaced, that is all that changed in what is said.
proof fn lemma_turn_replaced(
    before: SessionTranscript,
    after: SessionTranscript,
    source: SourceKind,
    turn_id: Seq<char>,
)
    requires
        before@.has_turn(source, turn_id),
        after.session_id == before.session_id,
        after.created_at_unix_ms == before.created_at_unix_ms,
        after.ended_at_unix_ms == before.ended_at_unix_ms,
        after.draft_model == before.draft_model,
        after.finalizer_model == before.finalizer_model,
        after.transcription_profile == before.transcription_profile,
        ({
            let entry = source_index(before@.sources, source);
            let at = turn_index(before@.turns_of(source), turn_id);
            &&& after.sources@ =~= before.sources@.update(entry, after.sources@[entry])
            &&& after.sources@[entry].source == before.sources@[entry].source
            &&& after.sources@[entry].turns@ =~= before.sources@[entry].turns@.update(
                at,
                after.sources@[entry].turns@[at],
            )
        }),
    ensures
        after@ == before@.with_turn(
            source,
            turn_id,
            after.sources@[source_index(before@.sources, source)].turns@[turn_index(
                before@.turns_of(source),
                turn_id,
            )]@,
        ),
{
    lemma_source_index_found(before@.sources, source);
    lemma_turn_index_found(before@.turns_of(source), turn_id);
    let entry = source_index(before@.sources, source);
    let at = turn_index(before@.turns_of(source), turn_id);
    let turns = before@.turns_of(source).update(at, after.sources@[entry].turns@[at]@);
    assert(turn_views(after.sources@[entry].turns@) == turns);
    assert(after@.sources == before@.sources.update(entry, SourceView { source, turns }));
}

/// A source without turns.
pub open spec fn empty_source(source: SourceKind) -> SourceView {
    SourceView { source, turns: Seq::empty() }
}

/// A session without turns.
pub open spec fn new_session(
    session_id: Seq<char>,
    draft_model: Seq<char>,
    finalizer_model: Seq<char>,
    transcription_profile: ProfileView,
    sources: Seq<SourceKind>,
    now: u128,
) -> SessionView {
    SessionView {
        session_id,
        created_at_unix_ms: now,
        ended_at_unix_ms: None,
        draft_model,
        finalizer_model,
        transcription_profile,
        sources: sources.map_values(|source: SourceKind| empty_source(source)),
    }
}

/// Whether no source has two turns of one name, and no source stands twice.
pub open spec fn names_distinct(session: SessionView) -> bool {
    &&& forall|i: int, j: int|
        0 <= i < j < session.sources.len() ==> (#[trigger] session.sources[i]).source != (
        #[trigger] session.sources[j]).source
    &&& forall|e: int, i: int, j: int|
        0 <= e < session.sources.len() && 0 <= i < j < session.sources[e].turns.len()
            ==> (#[trigger] session.sources[e].turns[i]).turn_id != (
        #[trigger] session.sources[e].turns[j]).turn_id
}

/// A session begins without two entries of one source or two turns of one name, where its
/// sources are distinct.
pub proof fn law_new_session_names_are_distinct(
    session_id: Seq<char>,
    draft_model: Seq<char>,
    finalizer_model: Seq<char>,
    transcription_profile: ProfileView,
    sources: Seq<SourceKind>,
    now: u128,
)
    requires
        sources.no_duplicates(),
    ensures
        names_distinct(
            new_session(
                session_id,
                draft_model,
                finalizer_model,
                transcription_profile,
                sources,
                now,
            ),
        ),
{
}

/// Registering a turn keeps the names distinct.
pub proof fn law_registering_keeps_names_distinct(
    session: SessionView,
    source: SourceKind,
    turn: TurnView,
)
    requires
        names_distinct(session),
        session.has_source(source),
        !session.has_turn(source, turn.turn_id),
    ensures
        names_distinct(session.with_turns(source, session.turns_of(source).push(turn))),
{
    lemma_source_index_found(session.sources, source);
    lemma_turn_index_found(session.turns_of(source), turn.turn_id);
    let at = source_index(session.sources, source);
    let turns = session.turns_of(source).push(turn);
    let after = session.with_turns(source, turns);
    assert forall|i: int, j: int| 0 <= i < j < after.sources.len() implies (
    #[trigger] after.sources[i]).source != (#[trigger] after.sources[j]).source by {
        assert(session.sources[i].source != session.sources[j].source);
    }
    assert forall|e: int, i: int, j: int|
        0 <= e < after.sources.len() && 0 <= i < j < after.sources[e].turns.len() implies (
    #[trigger] after.sources[e].turns[i]).turn_id != (
    #[trigger] after.sources[e].turns[j]).turn_id by {
        let old_turns = session.sources[e].turns;
        if e == at {
            if j < old_turns.len() {
                assert(old_turns[i].turn_id != old_turns[j].turn_id);
            } else {
                assert(old_turns[i].turn_id != turn.turn_id);
            }
        } else {
            assert(old_turns[i].turn_id != old_turns[j].turn_id);
        }
    }
}

/// Replacing a turn by one of its name keeps the names distinct, keeps every turn findable,
/// puts the new turn in its place, and leaves every other turn as it was.
pub proof fn law_replacing_changes_one_turn(
    session: SessionView,
    source: SourceKind,
    turn: TurnView,
    other_source: SourceKind,
    other_id: Seq<char>,
)
    requires
        session.has_turn(source, turn.turn_id),
    ensures
        ({
            let after = session.with_turn(source, turn.turn_id, turn);
            &&& names_distinct(session) ==> names_distinct(after)
            &&& after.has_source(other_source) == session.has_source(other_source)
            &&& after.has_turn(other_source, other_id) == session.has_turn(
                other_source,
                other_id,
            )
            &&& after.turn(source, turn.turn_id) == turn
            &&& session.has_turn(other_source, other_id) && (other_source != source || other_id
                != turn.turn_id) ==> after.turn(other_source, other_id) == session.turn(
                other_source,
                other_id,
            )
        }),
{
    let turn_id = turn.turn_id;
    let after = session.with_turn(source, turn_id, turn);
    let before_turns = session.turns_of(source);
    let at = turn_index(before_turns, turn_id);
    let turns = before_turns.update(at, turn);
    lemma_source_index_found(session.sources, source);
    lemma_turn_index_found(before_turns, turn_id);
    lemma_source_index_kept(session, source, turns);
    lemma_turn_index(turns, turn_id, at);
    lemma_source_index_found(session.sources, other_source);
    let other_at = source_index(session.sources, other_source);
    assert forall|i: int| 0 <= i < other_at implies (#[trigger] after.sources[i]).source
        != other_source by {
        assert(session.sources[i].source != other_source);
    }
    lemma_source_index(after.sources, other_source, other_at);
    if session.has_source(other_source) && other_source == source {
        lemma_turn_index_found(before_turns, other_id);
        let place = turn_index(before_turns, other_id);
        assert forall|i: int| 0 <= i < place implies (#[trigger] turns[i]).turn_id
            != other_id by {
            assert(before_turns[i].turn_id != other_id);
        }
        lemma_turn_index(turns, other_id, place);
    }
    if names_distinct(session) {
        assert forall|i: int, j: int| 0 <= i < j < after.sources.len() implies (
        #[trigger] after.sources[i]).source != (#[trigger] after.sources[j]).source by {
            assert(session.sources[i].source != session.sources[j].source);
        }
        assert forall|e: int, i: int, j: int|
            0 <= e < after.sources.len() && 0 <= i < j < after.sources[e].turns.len() implies (
        #[trigger] after.sources[e].turns[i]).turn_id != (
        #[trigger] after.sources[e].turns[j]).turn_id by {
            assert(session.sources[e].turns[i].turn_id != session.sources[e].turns[j].turn_id);
        }
    }
}

/// Registering a turn keeps every turn that was there, and every source.
pub proof fn law_registering_keeps_turns(
    session: SessionView,
    source: SourceKind,
    turn: TurnView,
    other_source: SourceKind,
    other_id: Seq<char>,
)
    requires
        session.has_source(source),
        !session.has_turn(source, turn.turn_id),
    ensures
        ({
            let after = session.with_turns(source, session.turns_of(source).push(turn));
            &&& after.has_source(other_source) == session.has_source(other_source)
            &&& after.has_turn(source, turn.turn_id)
            &&& after.turn(source, turn.turn_id) == turn
            &&& session.has_turn(other_source, other_id) ==> after.has_turn(
                other_source,
                other_id,
            ) && after.turn(other_source, other_id) == session.turn(other_source, other_id)
        }),
{
    let before_turns = session.turns_of(source);
    let turns = before_turns.push(turn);
    let after = session.with_turns(source, turns);
    lemma_source_index_found(session.sources, source);
    lemma_turn_index_found(before_turns, turn.turn_id);
    lemma_source_index_kept(session, source, turns);
    assert(forall|i: int| 0 <= i < before_turns.len() ==> turns[i] == before_turns[i]);
    lemma_turn_index(turns, turn.turn_id, before_turns.len() as int);
    lemma_source_index_found(session.sources, other_source);
    let other_at = source_index(session.sources, other_source);
    assert forall|i: int| 0 <= i < other_at implies (#[trigger] after.sources[i]).source
        != other_source by {
        assert(session.sources[i].source != other_source);
    }
    lemma_source_index(after.sources, other_source, other_at);
    if session.has_turn(other_source, other_id) && other_source == source {
        lemma_turn_index_found(before_turns, other_id);
        let place = turn_index(before_turns, other_id);
        assert(place < before_turns.len());
        lemma_turn_index(turns, other_id, place);
    }
}

/// A turn that ends without a final text is exported with its draft; one that has a final
/// text keeps it.
pub proof fn law_unfinalized_turn_keeps_a_text(turn: TurnView)
    ensures
        as_unfinalized(turn).text == if turn.text.len() == 0 {
            turn.draft_text
        } else {
            turn.text
        },
        as_unfinalized(as_unfinalized(turn)) == as_unfinalized(turn),
        as_unfinalized(turn).draft_text == turn.draft_text,
{
}

/// Why a path is not fit for an export: it does not end in `.json`.
#[derive(Debug, Clone, Copy, PartialEq, Eq, Structural)]
pub struct NotJsonPath;

impl NotJsonPath {
    /// The error in words.
    pub fn message(&self) -> (text: String)
        ensures
            text@ == "transcript export path must end with .json"@,
    {
        "transcript export path must end with .json".to_owned()
    }
}

/// The place of the last `wanted` in `s`, or -1.
pub open spec fn last_index(s: Seq<char>, wanted: char) -> int
    decreases s.len(),
{
    if s.len() == 0 {
        -1
    } else if s.last() == wanted {
        s.len() - 1
    } else {
        last_index(s.drop_last(), wanted)
    }
}

/// The last name of a path whose names are parted by `/`: empty names and `.` behind a `/`
/// are passed over, and `..` is none.
pub open spec fn file_name(path: Seq<char>) -> Option<Seq<char>>
    decreases path.len(),
{
    let slash = last_index(path, '/');
    let name = path.skip(slash + 1);
    if name.len() == 0 || name == "."@ {
        if slash < 0 || slash >= path.len() {
            None
        } else {
            file_name(path.take(slash))
        }
    } else if name == ".."@ {
        None
    } else {
        Some(name)
    }
}

/// What follows the last `.` of a file name; a `.` at its beginning does not count.
pub open spec fn extension(name: Seq<char>) -> Option<Seq<char>> {
    let dot = last_index(name, '.');
    if dot <= 0 {
        None
    } else {
        Some(name.skip(dot + 1))
    }
}

/// The extension of the last name of a path.
pub open spec fn extension_of(path: Seq<char>) -> Option<Seq<char>> {
    match file_name(path) {
        Some(name) => extension(name),
        None => None,
    }
}

/// Whether a path names a file with the extension `json`.
pub open spec fn is_json_path(path: Seq<char>) -> bool {
    extension_of(path) == Some("json"@)
}

/// Whether every machine parts a path in the same way: it holds nothing that parts names, or
/// begins a path, on some machines only.
pub open spec fn is_portable(path: Seq<char>) -> bool {
    &&& !path.contains('\\')
    &&& !path.contains(':')
    &&& !(path.len() >= 2 && path[0] == '/' && path[1] == '/')
}

/// Whether `part` stands in `path` behind a `.` that is not its first character.
pub open spec fn follows_a_dot(path: Seq<char>, part: Seq<char>) -> bool {
    exists|dot: int|
        {
            &&& 1 <= dot
            &&& dot + 1 + part.len() <= path.len()
            &&& #[trigger] path[dot] == '.'
            &&& path.subrange(dot + 1, dot + 1 + part.len()) == part
        }
}

/// Trusted: `std::path::Path::extension`, which takes the last name of a path and gives what
/// follows its last `.`, unless that is the name's first character. How a path is parted into
/// names depends on the machine, so what the last name is, is claimed of portable paths alone;
/// of any other, no more than that the extension stands in the path behind a `.`.
#[verifier::external_body]
fn path_extension(path: &str) -> (found: Option<String>)
    ensures
        is_portable(path@) ==> view_opt(found) == extension_of(path@),
        found matches Some(part) ==> follows_a_dot(path@, part@),
{
    std::path::Path::new(path).extension().and_then(|part| part.to_str()).map(|part| part.to_owned())
}

/// Accepts the extension `json`.
pub fn validate_export_extension(extension: Option<&str>) -> (result: Result<(), NotJsonPath>)
    ensures
        result is Ok <==> view_opt_str(extension) == Some("json"@),
{
    match extension {
        Some(extension) => if same_text(extension, "json") {
            Ok(())
        } else {
            Err(NotJsonPath)
        },
        None => Err(NotJsonPath),
    }
}

/// Accepts the paths whose last name, as the machine parts the path, has the extension `json`.
pub fn validate_export_path(path: &str) -> (result: Result<(), NotJsonPath>)
    ensures
        is_portable(path@) ==> (result is Ok <==> is_json_path(path@)),
        result is Ok ==> follows_a_dot(path@, "json"@),
{
    match path_extension(path) {
        Some(extension) => validate_export_extension(Some(extension.as_str())),
        None => validate_export_extension(None),
    }
}

/// A turn begins as a draft of nothing: no text, no language, no error, and not settled.
pub proof fn law_turns_begin_empty(turn_id: Seq<char>, turn_index: u64, created_at: u128)
    ensures
        ({
            let turn = new_turn(turn_id, turn_index, created_at);
            &&& turn.turn_id == turn_id
            &&& turn.turn_index == turn_index
            &&& turn.created_at_unix_ms == created_at
            &&& turn.state == TurnState::Draft
            &&& turn.text.len() == 0
            &&& turn.draft_text.len() == 0
            &&& turn.output_language.len() == 0
            &&& turn.detected_languages.len() == 0
            &&& !turn.is_empty_or_noise
            &&& turn.display_action == DisplayAction::NewBlock
            &&& turn.finalized_at_unix_ms is None
            &&& turn.error is None
        }),
{
}

/// Whether two turns are the same but for their drafts, their states, and what settling a turn
/// sets.
pub open spec fn same_identity(a: TurnView, b: TurnView) -> bool {
    &&& a.turn_id == b.turn_id
    &&& a.turn_index == b.turn_index
    &&& a.created_at_unix_ms == b.created_at_unix_ms
}

/// Whether two turns were settled in the same way, or neither was.
pub open spec fn same_outcome(a: TurnView, b: TurnView) -> bool {
    &&& a.text == b.text
    &&& a.output_language == b.output_language
    &&& a.detected_languages == b.detected_languages
    &&& a.is_empty_or_noise == b.is_empty_or_noise
    &&& a.display_action == b.display_action
    &&& a.finalized_at_unix_ms == b.finalized_at_unix_ms
    &&& a.error == b.error
}

/// A draft replaces the draft of its turn and touches nothing else; waiting for a final text
/// touches the state alone.
pub proof fn law_drafts_touch_the_draft_alone(turn: TurnView, draft_text: Seq<char>)
    ensures
        with_draft(turn, draft_text).draft_text == draft_text,
        with_draft(turn, draft_text).state == turn.state,
        same_identity(with_draft(turn, draft_text), turn),
        same_outcome(with_draft(turn, draft_text), turn),
        as_pending(turn).state == TurnState::Pending,
        as_pending(turn).draft_text == turn.draft_text,
        same_identity(as_pending(turn), turn),
        same_outcome(as_pending(turn), turn),
        as_unfinalized(turn).state == TurnState::Unfinalized,
        same_identity(as_unfinalized(turn), turn),
        as_unfinalized(turn).finalized_at_unix_ms == turn.finalized_at_unix_ms,
        as_unfinalized(turn).error == turn.error,
        as_unfinalized(turn).output_language == turn.output_language,
        as_unfinalized(turn).detected_languages == turn.detected_languages,
        as_unfinalized(turn).is_empty_or_noise == turn.is_empty_or_noise,
        as_unfinalized(turn).display_action == turn.display_action,
{
}

/// A turn that is finalized says what the answer says, without an error, and keeps its draft.
pub proof fn law_final_turns_say_what_the_answer_says(
    turn: TurnView,
    payload: FinalizedTurnPayload,
    at: u128,
)
    ensures
        ({
            let settled = as_final(turn, payload, at);
            &&& settled.state == TurnState::Final
            &&& settled.text == payload.text@
            &&& settled.output_language == payload.output_language@
            &&& settled.detected_languages.len() == payload.detected_languages@.len()
            &&& forall|i: int|
                0 <= i < payload.detected_languages@.len()
                    ==> #[trigger] settled.detected_languages[i] == payload.detected_languages@[i]@
            &&& settled.is_empty_or_noise == payload.is_empty_or_noise
            &&& settled.display_action == payload.display_action
            &&& settled.finalized_at_unix_ms == Some(at)
            &&& settled.error is None
            &&& settled.draft_text == turn.draft_text
            &&& same_identity(settled, turn)
        }),
{
}

/// A turn that is given up carries the error and the time, and keeps the texts it had.
pub proof fn law_failed_turns_keep_their_texts(turn: TurnView, error: Seq<char>, at: u128)
    ensures
        ({
            let settled = as_failed(turn, error, at);
            &&& settled.state == TurnState::Failed
            &&& settled.error == Some(error)
            &&& settled.finalized_at_unix_ms == Some(at)
            &&& settled.text == turn.text
            &&& settled.draft_text == turn.draft_text
            &&& settled.output_language == turn.output_language
            &&& settled.detected_languages == turn.detected_languages
            &&& settled.is_empty_or_noise == turn.is_empty_or_noise
            &&& settled.display_action == turn.display_action
            &&& same_identity(settled, turn)
        }),
{
}

/// A session begins with its sources, in order and without turns, and has not ended; ending it
/// sets the time of its end alone.
pub proof fn law_sessions_begin_and_end(
    session_id: Seq<char>,
    draft_model: Seq<char>,
    finalizer_model: Seq<char>,
    transcription_profile: ProfileView,
    sources: Seq<SourceKind>,
    now: u128,
    session: SessionView,
    end: u128,
)
    ensures
        ({
            let begun = new_session(
                session_id,
                draft_model,
                finalizer_model,
                transcription_profile,
                sources,
                now,
            );
            &&& begun.session_id == session_id
            &&& begun.draft_model == draft_model
            &&& begun.finalizer_model == finalizer_model
            &&& begun.transcription_profile == transcription_profile
            &&& begun.created_at_unix_ms == now
            &&& begun.ended_at_unix_ms is None
            &&& begun.sources.len() == sources.len()
            &&& forall|i: int|
                0 <= i < sources.len() ==> (#[trigger] begun.sources[i]).source == sources[i]
                    && begun.sources[i].turns.len() == 0
        }),
        ended_session(session, end).ended_at_unix_ms == Some(end),
        ended_session(session, end).sources == session.sources,
        ended_session(session, end).session_id == session.session_id,
        ended_session(session, end).created_at_unix_ms == session.created_at_unix_ms,
        ended_session(session, end).draft_model == session.draft_model,
        ended_session(session, end).finalizer_model == session.finalizer_model,
        ended_session(session, end).transcription_profile == session.transcription_profile,
{
}

/// A session has a source exactly when one of its entries is of it, and a turn exactly when one
/// of that entry's turns has the name; the entry and the turn are the first such.
pub proof fn law_turns_are_found_by_name(
    session: SessionView,
    source: SourceKind,
    turn_id: Seq<char>,
)
    ensures
        session.has_source(source) <==> exists|e: int|
            0 <= e < session.sources.len() && (#[trigger] session.sources[e]).source == source,
        session.has_source(source) ==> (session.has_turn(source, turn_id) <==> exists|i: int|
            0 <= i < session.turns_of(source).len() && (#[trigger] session.turns_of(
                source,
            )[i]).turn_id == turn_id),
        session.has_turn(source, turn_id) ==> session.turn(source, turn_id).turn_id == turn_id,
{
    lemma_source_index_found(session.sources, source);
    if session.has_source(source) {
        lemma_turn_index_found(session.turns_of(source), turn_id);
    }
}

/// The profile follows the config: each switch as it stands there, the primary language trimmed,
/// or the default where none is said.
pub proof fn law_profile_follows_the_config(config: TranscriptionConfig)
    ensures
        ({
            let profile = configured_profile(Some(config));
            &&& profile.keep_disfluencies == config.keep_disfluencies
            &&& profile.collapse_self_corrections == config.collapse_self_corrections
            &&& profile.dedupe_immediate_repetition == config.dedupe_immediate_repetition
            &&& profile.numeral_policy == config.numeral_policy
            &&& config.primary_language matches Some(said) ==> trimmed(said@).len() > 0
                ==> profile.primary_language == trimmed(said@)
            &&& (config.primary_language is None || trimmed(
                config.primary_language->Some_0@,
            ).len() == 0) ==> profile.primary_language == "zh-Hant"@
        }),
        ({
            let profile = configured_profile(None);
            &&& profile.primary_language == "zh-Hant"@
            &&& profile.allowed_languages.len() == 0
            &&& profile.keep_disfluencies
            &&& !profile.collapse_self_corrections
            &&& !profile.dedupe_immediate_repetition
            &&& profile.numeral_policy == NumeralPolicy::Preserve
        }),
{
}

/// A language is allowed exactly when it is listed, trimmed and not blank, and is not the primary
/// one. The languages stand in the order in which they are first listed: what is listed later
/// comes behind.
pub proof fn law_listed_languages_are_allowed(
    primary: Seq<char>,
    listed: Seq<Seq<char>>,
    more: Seq<Seq<char>>,
    language: Seq<char>,
)
    ensures
        allowed_beside(primary, listed).contains(language) <==> {
            &&& language.len() > 0
            &&& language != primary
            &&& exists|i: int| 0 <= i < listed.len() && trimmed(#[trigger] listed[i]) == language
        },
        allowed_beside(primary, listed).is_prefix_of(allowed_beside(primary, listed + more)),
{
    lemma_listed_language_is_allowed(primary, listed, language);
    lemma_allowed_languages_stay(primary, listed, more);
}

proof fn lemma_listed_language_is_allowed(
    primary: Seq<char>,
    listed: Seq<Seq<char>>,
    language: Seq<char>,
)
    ensures
        allowed_beside(primary, listed).contains(language) <==> {
            &&& language.len() > 0
            &&& language != primary
            &&& exists|i: int| 0 <= i < listed.len() && trimmed(#[trigger] listed[i]) == language
        },
    decreases listed.len(),
{
    if listed.len() > 0 {
        let before = listed.drop_last();
        let allowed = allowed_beside(primary, before);
        let last = trimmed(listed.last());
        lemma_listed_language_is_allowed(primary, before, language);
        assert forall|i: int| 0 <= i < before.len() implies before[i] == #[trigger] listed[i] by {}
        if exists|i: int| 0 <= i < listed.len() && trimmed(#[trigger] listed[i]) == language {
            let i = choose|i: int| 0 <= i < listed.len() && trimmed(#[trigger] listed[i]) == language;
            if i < before.len() {
                assert(trimmed(before[i]) == language);
            }
        }
        if exists|i: int| 0 <= i < before.len() && trimmed(#[trigger] before[i]) == language {
            let i = choose|i: int| 0 <= i < before.len() && trimmed(#[trigger] before[i]) == language;
            assert(trimmed(listed[i]) == language);
        }
        assert(listed[listed.len() - 1] == listed.last());
        let whole = allowed.push(last);
        assert(whole.contains(language) <==> allowed.contains(language) || language == last) by {
            if allowed.contains(language) {
                let k = choose|k: int| 0 <= k < allowed.len() && allowed[k] == language;
                assert(whole[k] == language);
            }
            if language == last {
                assert(whole[allowed.len() as int] == language);
            }
            if whole.contains(language) {
                let k = choose|k: int| 0 <= k < whole.len() && whole[k] == language;
                if k < allowed.len() {
                    assert(allowed[k] == language);
                }
            }
        }
    }
}

proof fn lemma_allowed_languages_stay(
    primary: Seq<char>,
    listed: Seq<Seq<char>>,
    more: Seq<Seq<char>>,
)
    ensures
        allowed_beside(primary, listed).is_prefix_of(allowed_beside(primary, listed + more)),
    decreases more.len(),
{
    if more.len() == 0 {
        assert(listed + more == listed);
    } else {
        lemma_allowed_languages_stay(primary, listed, more.drop_last());
        assert((listed + more).drop_last() == listed + more.drop_last());
    }
}

/// The summary of a profile names the primary language, and behind it every allowed one, if any
/// is.
pub proof fn law_summary_names_the_languages(profile: ProfileView, i: int)
    ensures
        profile.allowed_languages.len() == 0 ==> profile_summary(profile) == "lang: "@
            + profile.primary_language,
        profile.allowed_languages.len() > 0 ==> ("lang: "@ + profile.primary_language
            + " | allow: "@ + profile.allowed_languages[0]).is_prefix_of(profile_summary(profile)),
        0 <= i < profile.allowed_languages.len() ==> occurs_in(
            profile.allowed_languages[i],
            profile_summary(profile),
        ),
{
    if profile.allowed_languages.len() > 0 {
        let head = "lang: "@ + profile.primary_language + " | allow: "@;
        let list = joined(profile.allowed_languages, ", "@);
        lemma_joined_begins(profile.allowed_languages, ", "@);
        if 0 <= i < profile.allowed_languages.len() {
            lemma_joined_holds(profile.allowed_languages, ", "@, i);
            let at = choose|at: int| stands_at(list, profile.allowed_languages[i], at);
            let part = profile.allowed_languages[i];
            let whole = head + list;
            assert(whole.subrange(head.len() + at, head.len() + at + part.len()) == part) by {
                assert(list.subrange(at, at + part.len()) == part);
                assert forall|k: int| 0 <= k < part.len() implies whole[head.len() + at + k]
                    == part[k] by {
                    assert(list.subrange(at, at + part.len())[k] == list[at + k]);
                }
            }
            assert(stands_at(whole, part, head.len() + at));
        }
    }
}

proof fn lemma_joined_begins(parts: Seq<Seq<char>>, separator: Seq<char>)
    requires
        parts.len() > 0,
    ensures
        parts[0].is_prefix_of(joined(parts, separator)),
    decreases parts.len(),
{
    if parts.len() > 1 {
        lemma_joined_begins(parts.drop_last(), separator);
    }
}

proof fn lemma_joined_holds(parts: Seq<Seq<char>>, separator: Seq<char>, i: int)
    requires
        0 <= i < parts.len(),
    ensures
        occurs_in(parts[i], joined(parts, separator)),
    decreases parts.len(),
{
    let whole = joined(parts, separator);
    let part = parts[i];
    if parts.len() == 1 {
        assert(whole.subrange(0, part.len() as int) == part);
        assert(stands_at(whole, part, 0));
    } else if i == parts.len() - 1 {
        let head = joined(parts.drop_last(), separator) + separator;
        law_parts_stand_between_the_rest(head, part, Seq::empty());
        assert(head + part + Seq::<char>::empty() == whole);
    } else {
        let before = joined(parts.drop_last(), separator);
        lemma_joined_holds(parts.drop_last(), separator, i);
        let at = choose|at: int| stands_at(before, part, at);
        assert(whole.subrange(at, at + part.len()) == before.subrange(at, at + part.len()));
        assert(stands_at(whole, part, at));
    }
}

/// The languages of a final text are the primary one, first, and the allowed ones.
pub proof fn law_output_languages_begin_with_the_primary(profile: ProfileView)
    ensures
        output_languages(profile).len() == profile.allowed_languages.len() + 1,
        output_languages(profile)[0] == profile.primary_language,
        forall|i: int|
            0 <= i < profile.allowed_languages.len() ==> #[trigger] profile.allowed_languages[i]
                == output_languages(profile)[i + 1],
{
}

/// The instruction to a finalizer states the profile: the primary language, the languages that
/// may remain, and each switch as it stands.
pub proof fn law_instruction_states_the_profile(profile: ProfileView)
    ensures
        occurs_in(
            profile.primary_language
                + ".\nAdditional allowed languages that may remain as spoken: "@
                + (if profile.allowed_languages.len() == 0 {
                "none"@
            } else {
                joined(profile.allowed_languages, ", "@)
            }),
            finalizer_text(profile),
        ),
        occurs_in(
            joined(seq![profile.primary_language] + profile.allowed_languages, ", "@)
                + ".\nKeep disfluencies: "@,
            finalizer_text(profile),
        ),
        occurs_in(
            ".\nKeep disfluencies: "@ + (if profile.keep_disfluencies {
                "true"@
            } else {
                "false"@
            }),
            finalizer_text(profile),
        ),
        occurs_in(
            ".\nCollapse self corrections: "@ + (if profile.collapse_self_corrections {
                "true"@
            } else {
                "false"@
            }),
            finalizer_text(profile),
        ),
        occurs_in(
            ".\nDeduplicate immediate repetition: "@ + (if profile.dedupe_immediate_repetition {
                "true"@
            } else {
                "false"@
            }),
            finalizer_text(profile),
        ),
        occurs_in(
            ".\nNumeral policy: "@ + (match profile.numeral_policy {
                NumeralPolicy::Preserve => "preserve"@,
                NumeralPolicy::Normalize => "normalize"@,
            }),
            finalizer_text(profile),
        ),
{
    let whole = finalizer_text(profile);
    let a =
        "You are a turn-level transcription finalizer.\nYou may only respond by calling finalize_transcript.\nProduce a single final transcript text for the current audio turn.\nPrimary output language: "@;
    let b = ".\nAdditional allowed languages that may remain as spoken: "@;
    let c =
        ".\nIf speech is in any other language, translate that span into the primary output language.\nPrefer to keep text in the primary output language and the additional allowed languages.\nSet output_language as a best-effort hint for the dominant language of the final text.\nPreferred output_language values: "@;
    let d = ".\nKeep disfluencies: "@;
    let e = ".\nCollapse self corrections: "@;
    let f = ".\nDeduplicate immediate repetition: "@;
    let g = ".\nNumeral policy: "@;
    let h =
        ".\nUse prior turns only as context for understanding. Do not revise prior finalized turns.\nDo not output conversational text.\nIf the audio is empty or only noise, set is_empty_or_noise to true and emit empty text."@;
    let p = profile.primary_language;
    let q = allowed_label(profile);
    let r = joined(output_languages(profile), ", "@);
    let s = flag_label(profile.keep_disfluencies);
    let t = flag_label(profile.collapse_self_corrections);
    let u = flag_label(profile.dedupe_immediate_repetition);
    let v = numeral_label(profile.numeral_policy);
    assert(output_languages(profile) == seq![p] + profile.allowed_languages);
    lemma_stated(a, p, b, q, c, r, d, s, e, t, f, u, g, v, h);
    assert(whole == a + p + b + q + c + r + d + s + e + t + f + u + g + v + h);
}

proof fn lemma_longer_texts_hold_more(text: Seq<char>, more: Seq<char>)
    ensures
        forall|part: Seq<char>| #[trigger]
            occurs_in(part, text) ==> occurs_in(part, text + more),
{
    assert forall|part: Seq<char>| #[trigger] occurs_in(part, text) implies occurs_in(
        part,
        text + more,
    ) by {
        let at = choose|at: int| stands_at(text, part, at);
        let whole = text + more;
        assert(whole.subrange(at, at + part.len()) == text.subrange(at, at + part.len()));
        assert(stands_at(whole, part, at));
    }
}

proof fn lemma_ends_are_held(before: Seq<char>, first: Seq<char>, second: Seq<char>)
    ensures
        occurs_in(first + second, before + first + second),
{
    let part = first + second;
    let whole = before + first + second;
    assert(whole == before + part);
    assert(whole.subrange(before.len() as int, before.len() as int + part.len()) == part);
    assert(stands_at(whole, part, before.len() as int));
}

proof fn lemma_stated(
    a: Seq<char>,
    p: Seq<char>,
    b: Seq<char>,
    q: Seq<char>,
    c: Seq<char>,
    r: Seq<char>,
    d: Seq<char>,
    s: Seq<char>,
    e: Seq<char>,
    t: Seq<char>,
    f: Seq<char>,
    u: Seq<char>,
    g: Seq<char>,
    v: Seq<char>,
    h: Seq<char>,
)
    ensures
        ({
            let whole = a + p + b + q + c + r + d + s + e + t + f + u + g + v + h;
            &&& occurs_in(p + b + q, whole)
            &&& occurs_in(r + d, whole)
            &&& occurs_in(d + s, whole)
            &&& occurs_in(e + t, whole)
            &&& occurs_in(f + u, whole)
            &&& occurs_in(g + v, whole)
        }),
{
    let w1 = a + p + b + q;
    lemma_ends_are_held(a, p, b + q);
    assert(p + (b + q) == p + b + q);
    assert(a + p + (b + q) == w1);
    lemma_longer_texts_hold_more(w1, c);
    let w2 = w1 + c;
    lemma_longer_texts_hold_more(w2, r);
    lemma_longer_texts_hold_more(w2 + r, d);
    lemma_ends_are_held(w2, r, d);
    let w3 = w2 + r + d;
    lemma_longer_texts_hold_more(w3, s);
    lemma_ends_are_held(w2 + r, d, s);
    let w4 = w3 + s;
    lemma_longer_texts_hold_more(w4, e);
    lemma_longer_texts_hold_more(w4 + e, t);
    lemma_ends_are_held(w4, e, t);
    let w5 = w4 + e + t;
    lemma_longer_texts_hold_more(w5, f);
    lemma_longer_texts_hold_more(w5 + f, u);
    lemma_ends_are_held(w5, f, u);
    let w6 = w5 + f + u;
    lemma_longer_texts_hold_more(w6, g);
    lemma_longer_texts_hold_more(w6 + g, v);
    lemma_ends_are_held(w6, g, v);
    lemma_longer_texts_hold_more(w6 + g + v, h);
}

proof fn lemma_last_index(s: Seq<char>, wanted: char)
    ensures
        -1 <= last_index(s, wanted) < s.len(),
        last_index(s, wanted) >= 0 ==> s[last_index(s, wanted)] == wanted,
        forall|i: int| last_index(s, wanted) < i < s.len() ==> #[trigger] s[i] != wanted,
    decreases s.len(),
{
    if s.len() > 0 && s.last() != wanted {
        let before = s.drop_last();
        lemma_last_index(before, wanted);
        assert forall|i: int| last_index(s, wanted) < i < s.len() implies #[trigger] s[i]
            != wanted by {
            if i < before.len() {
                assert(before[i] == s[i]);
            }
        }
    }
}

proof fn lemma_last_index_is(s: Seq<char>, wanted: char, at: int)
    requires
        -1 <= at < s.len(),
        at >= 0 ==> s[at] == wanted,
        forall|i: int| at < i < s.len() ==> #[trigger] s[i] != wanted,
    ensures
        last_index(s, wanted) == at,
{
    lemma_last_index(s, wanted);
}

/// The last name of a path is what stands behind its last `/`; a `/` at the end, and a `.` of its
/// own behind one, are passed over, and a path that ends in `..` has none.
pub proof fn law_last_names_stand_behind_the_last_slash(dir: Seq<char>, name: Seq<char>)
    requires
        name.len() > 0,
        !name.contains('/'),
        name != "."@,
        name != ".."@,
    ensures
        file_name(name) == Some(name),
        file_name(dir.push('/') + name) == Some(name),
        file_name(dir.push('/')) == file_name(dir),
        file_name(dir.push('/').push('.')) == file_name(dir),
        file_name(dir.push('/').push('.').push('.')) is None,
{
    reveal_strlit(".");
    reveal_strlit("..");
    assert forall|i: int| 0 <= i < name.len() implies #[trigger] name[i] != '/' by {
        assert(name.contains(name[i]));
    }
    lemma_last_index_is(name, '/', -1);
    assert(name.skip(0) == name);
    let whole = dir.push('/') + name;
    lemma_last_index_is(whole, '/', dir.len() as int);
    assert(whole.skip(dir.len() as int + 1) == name);
    let ended = dir.push('/');
    lemma_last_index_is(ended, '/', dir.len() as int);
    assert(ended.take(dir.len() as int) == dir);
    assert(ended.skip(dir.len() as int + 1).len() == 0);
    let dotted = ended.push('.');
    lemma_last_index_is(dotted, '/', dir.len() as int);
    assert(dotted.take(dir.len() as int) == dir);
    assert(dotted.skip(dir.len() as int + 1) == "."@);
    let up = dotted.push('.');
    lemma_last_index_is(up, '/', dir.len() as int);
    assert(up.skip(dir.len() as int + 1) == ".."@);
}

/// The extension of a name is what stands behind its last `.`, where something stands before it.
pub proof fn law_extensions_stand_behind_the_last_dot(stem: Seq<char>, ending: Seq<char>)
    requires
        !ending.contains('.'),
    ensures
        extension(ending) is None,
        extension(stem.push('.') + ending) == if stem.len() == 0 {
            None
        } else {
            Some(ending)
        },
{
    assert forall|i: int| 0 <= i < ending.len() implies #[trigger] ending[i] != '.' by {
        assert(ending.contains(ending[i]));
    }
    lemma_last_index_is(ending, '.', -1);
    let name = stem.push('.') + ending;
    lemma_last_index_is(name, '.', stem.len() as int);
    assert(name.skip(stem.len() as int + 1) == ending);
}

/// What a store is told of a turn is what it holds of it from then on, and what it held of every
/// other turn stays.
pub proof fn law_stores_hold_what_they_are_told(
    store: &mut TranscriptStore,
    source: SourceKind,
    turn_id: &str,
    text: String,
    payload: FinalizedTurnPayload,
    now: u128,
    other_source: SourceKind,
    other_id: Seq<char>,
)
    requires
        old(store)@.has_turn(source, turn_id@),
        old(store)@.has_turn(other_source, other_id),
    ensures
        ({
            let before = old(store)@.turn(source, turn_id@);
            let after = final(store)@.turn(source, turn_id@);
            let others_stay = other_source != source || other_id != turn_id@ ==> final(
                store)@.turn(other_source, other_id) == old(store)@.turn(other_source, other_id);
            &&& call_ensures(
                TranscriptStore::update_draft,
                (store, source, turn_id, text),
                (),
            ) ==> after == (TurnView { draft_text: text@, ..before }) && others_stay
            &&& call_ensures(TranscriptStore::mark_pending, (store, source, turn_id), ()) ==> after
                == (TurnView { state: TurnState::Pending, ..before }) && others_stay
            &&& call_ensures(
                TranscriptStore::mark_final,
                (store, source, turn_id, payload, now),
                (),
            ) ==> {
                &&& others_stay
                &&& after.state == TurnState::Final
                &&& after.text == payload.text@
                &&& after.output_language == payload.output_language@
                &&& after.draft_text == before.draft_text
                &&& after.finalized_at_unix_ms == Some(now)
                &&& after.error is None
            }
            &&& call_ensures(
                TranscriptStore::mark_failed_at,
                (store, source, turn_id, text, now),
                (),
            ) ==> after == (TurnView {
                state: TurnState::Failed,
                error: Some(text@),
                finalized_at_unix_ms: Some(now),
                ..before
            }) && others_stay
            &&& call_ensures(TranscriptStore::mark_unfinalized, (store, source, turn_id), ()) ==> {
                &&& others_stay
                &&& after.state == TurnState::Unfinalized
                &&& after.text == if before.text.len() == 0 {
                    before.draft_text
                } else {
                    before.text
                }
            }
        }),
{
    let session = old(store)@;
    let before = session.turn(source, turn_id@);
    lemma_turn_index_found(session.turns_of(source), turn_id@);
    law_replacing_changes_one_turn(
        session,
        source,
        with_draft(before, text@),
        other_source,
        other_id,
    );
    law_replacing_changes_one_turn(session, source, as_pending(before), other_source, other_id);
    law_replacing_changes_one_turn(
        session,
        source,
        as_final(before, payload, now),
        other_source,
        other_id,
    );
    law_replacing_changes_one_turn(
        session,
        source,
        as_failed(before, text@, now),
        other_source,
        other_id,
    );
    law_replacing_changes_one_turn(session, source, as_unfinalized(before), other_source, other_id);
}

/// A turn that is registered is there, as one of which nothing is known but that it began, unless
/// it was there before: then it stays as it was. Other turns stay, and a session that ends keeps
/// all of them.
pub proof fn law_registered_turns_are_there(
    store: &mut TranscriptStore,
    source: SourceKind,
    turn_id: &str,
    index: u64,
    now: u128,
    other_source: SourceKind,
    other_id: Seq<char>,
)
    requires
        old(store)@.has_source(source),
    ensures
        call_ensures(TranscriptStore::register_turn, (store, source, turn_id, index, now), ()) ==> {
            let after = final(store)@.turn(source, turn_id@);
            &&& final(store)@.has_turn(source, turn_id@)
            &&& old(store)@.has_turn(source, turn_id@) ==> final(store)@ == old(store)@
            &&& !old(store)@.has_turn(source, turn_id@) ==> {
                &&& after.turn_id == turn_id@
                &&& after.turn_index == index
                &&& after.created_at_unix_ms == now
                &&& after.state == TurnState::Draft
                &&& after.draft_text.len() == 0
                &&& after.text.len() == 0
            }
            &&& old(store)@.has_turn(other_source, other_id) ==> final(store)@.has_turn(
                other_source,
                other_id,
            ) && final(store)@.turn(other_source, other_id) == old(store)@.turn(
                other_source,
                other_id,
            )
        },
        call_ensures(TranscriptStore::finish_session_at, (store, now), ()) ==> final(store)@ == (
        SessionView { ended_at_unix_ms: Some(now), ..old(store)@ }),
{
    if !old(store)@.has_turn(source, turn_id@) {
        law_registering_keeps_turns(
            old(store)@,
            source,
            new_turn(turn_id@, index, now),
            other_source,
            other_id,
        );
    }
}

/// Replacing the turns of a source touches nothing else of the session.
pub proof fn law_turns_change_nothing_else(
    session: SessionView,
    source: SourceKind,
    turns: Seq<TurnView>,
    e: int,
)
    requires
        session.has_source(source),
        0 <= e < session.sources.len(),
    ensures
        ({
            let after = session.with_turns(source, turns);
            &&& after.session_id == session.session_id
            &&& after.created_at_unix_ms == session.created_at_unix_ms
            &&& after.ended_at_unix_ms == session.ended_at_unix_ms
            &&& after.draft_model == session.draft_model
            &&& after.finalizer_model == session.finalizer_model
            &&& after.transcription_profile == session.transcription_profile
            &&& after.sources.len() == session.sources.len()
            &&& after.sources[e].source == session.sources[e].source
            &&& session.sources[e].source != source ==> after.sources[e] == session.sources[e]
        }),
{
    lemma_source_index_found(session.sources, source);
}

/// A path is fit for an export where its last name is something with `.json` behind it, and is not
/// where what stands behind the last `.` of that name is anything else.
pub proof fn law_json_paths_end_in_json(
    dir: Seq<char>,
    stem: Seq<char>,
    ending: Seq<char>,
)
    requires
        stem.len() > 0,
        !stem.contains('/'),
        !ending.contains('/'),
        !ending.contains('.'),
        ending.len() > 0,
    ensures
        is_json_path(dir.push('/') + (stem.push('.') + ending)) <==> ending == "json"@,
        is_json_path(stem.push('.') + ending) <==> ending == "json"@,
{
    let name = stem.push('.') + ending;
    assert(!name.contains('/')) by {
        assert forall|i: int| 0 <= i < name.len() implies name[i] != '/' by {
            if i < stem.len() {
                assert(stem.contains(stem[i]));
            } else if i > stem.len() {
                assert(ending.contains(ending[i - stem.len() - 1]));
            }
        }
    }
    assert(name.last() == ending.last());
    assert(ending.contains(ending[ending.len() - 1]));
    reveal_strlit(".");
    reveal_strlit("..");
    if name == "."@ || name == ".."@ {
        assert(name.last() == '.');
    }
    law_last_names_stand_behind_the_last_slash(dir, name);
    law_extensions_stand_behind_the_last_dot(stem, ending);
}

} // verus!
