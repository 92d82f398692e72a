//! How the application is started: what the command line and the config file say, and what is
//! left to ask for.

use vstd::prelude::*;
use vstd::string::*;

use crate::capture::{
    SourceKind, UnsupportedSource, available_sources, ensure_sources_supported, has_source,
};
use crate::paths::Platform;
use crate::text::{decimal_text, nonblank_text, trim_text};
use crate::transcript::{TranscriptionConfig, TranscriptionProfile};

verus! {

use crate::capture::{
    law_support_is_of_every_source, sources_on, support_error, unsupported_source_text,
};
use crate::text::{decimal, nonblank, trimmed, view_opt, view_opt_str};
use crate::transcript::{configured_profile, finalizer_text, profile_summary};

/// The model that is used where none is configured.
pub const DEFAULT_MODEL: &'static str = "gemini-3.1-flash-live-preview";

/// The instruction to a draft session where none is configured.
pub const DEFAULT_DRAFT_INSTRUCTION: &'static str = "reply with less than 3 words.";

/// How many session logs are kept where nothing is configured.
pub const DEFAULT_LOG_MAX_FILES: usize = 100;

/// What the config file says of logs.
#[derive(Debug, Clone)]
pub struct LogsConfig {
    pub max_files: Option<usize>,
}

impl Default for LogsConfig {
    fn default() -> (config: Self)
        ensures
            config.max_files is None,
    {
        LogsConfig { max_files: None }
    }
}

/// What the config file says.
#[derive(Debug, Clone)]
pub struct HomeConfig {
    pub api_key: Option<String>,
    pub model: Option<String>,
    pub draft_instruction: Option<String>,
    pub finalizer_instruction: Option<String>,
    pub sources: Option<Vec<SourceKind>>,
    pub logs: Option<LogsConfig>,
    pub transcription: Option<TranscriptionConfig>,
}

impl Default for HomeConfig {
    fn default() -> (config: Self)
        ensures
            config.api_key is None,
            config.model is None,
            config.draft_instruction is None,
            config.finalizer_instruction is None,
            config.sources is None,
            config.logs is None,
            config.transcription is None,
    {
        HomeConfig {
            api_key: None,
            model: None,
            draft_instruction: None,
            finalizer_instruction: None,
            sources: None,
            logs: None,
            transcription: None,
        }
    }
}

/// What the command line says.
#[derive(Debug)]
pub struct RunArgs {
    pub token: Option<String>,
    pub model: Option<String>,
    pub draft_instruction: Option<String>,
    pub finalizer_instruction: Option<String>,
    pub debug: bool,
    pub sources: Vec<SourceKind>,
}

/// How a session is run.
#[derive(Debug, Clone)]
pub struct LaunchConfig {
    pub token: String,
    pub model: String,
    pub draft_instruction: Option<String>,
    pub finalizer_instruction: Option<String>,
    pub transcription_profile: TranscriptionProfile,
    pub profile_summary: String,
    pub log_max_files: usize,
    pub debug: bool,
    pub sources: Vec<SourceKind>,
}

/// Why the application does not start.
#[derive(Debug)]
pub enum LaunchError {
    EmptyToken,
    NoSource,
    Unsupported(UnsupportedSource),
    NoLogs,
    Profile(String),
}

impl LaunchError {
    /// The error in words.
    pub fn message(&self) -> (text: String)
        ensures
            text@ == match self {
                LaunchError::EmptyToken => "Gemini API key cannot be empty"@,
                LaunchError::NoSource => "at least one audio source must be selected"@,
                LaunchError::Unsupported(error) => unsupported_source_text(error.source),
                LaunchError::NoLogs => "config logs.max_files must be at least 1"@,
                LaunchError::Profile(error) => error@,
            },
    {
        match self {
            LaunchError::EmptyToken => "Gemini API key cannot be empty".to_owned(),
            LaunchError::NoSource => "at least one audio source must be selected".to_owned(),
            LaunchError::Unsupported(error) => error.message(),
            LaunchError::NoLogs => "config logs.max_files must be at least 1".to_owned(),
            LaunchError::Profile(error) => error.clone(),
        }
    }
}

/// A text that is there, trimmed, and not blank.
pub open spec fn cleaned(text: Option<Seq<char>>) -> Option<Seq<char>> {
    match text {
        Some(text) => nonblank(text),
        None => None,
    }
}

/// The first of two texts that is there and not blank.
pub open spec fn first_of(first: Option<Seq<char>>, second: Option<Seq<char>>) -> Option<
    Seq<char>,
> {
    if cleaned(first) is Some {
        cleaned(first)
    } else {
        cleaned(second)
    }
}

/// A text trimmed, or nothing where it is blank.
pub fn sanitize_text(value: Option<String>) -> (result: Option<String>)
    ensures
        view_opt(result) == cleaned(view_opt(value)),
{
    match value {
        Some(value) => nonblank_text(value.as_str()),
        None => None,
    }
}

/// An instruction trimmed, or nothing where it is blank.
pub fn sanitize_instruction(instruction: Option<String>) -> (result: Option<String>)
    ensures
        view_opt(result) == cleaned(view_opt(instruction)),
{
    sanitize_text(instruction)
}

fn first_text(first: Option<String>, second: Option<String>) -> (result: Option<String>)
    ensures
        view_opt(result) == first_of(view_opt(first), view_opt(second)),
{
    match sanitize_text(first) {
        Some(text) => Some(text),
        None => sanitize_text(second),
    }
}

/// Sources, each where it first stands.
pub open spec fn distinct(sources: Seq<SourceKind>) -> Seq<SourceKind>
    decreases sources.len(),
{
    if sources.len() == 0 {
        Seq::empty()
    } else {
        let before = distinct(sources.drop_last());
        if before.contains(sources.last()) {
            before
        } else {
            before.push(sources.last())
        }
    }
}

/// Sources, each where it first stands.
pub fn normalize_sources(sources: Vec<SourceKind>) -> (result: Vec<SourceKind>)
    ensures
        result@ == distinct(sources@),
{
    let mut result: Vec<SourceKind> = Vec::new();
    let mut i: usize = 0;
    assert(sources@.take(0) == Seq::<SourceKind>::empty());
    while i < sources.len()
        invariant
            i <= sources@.len(),
            result@ == distinct(sources@.take(i as int)),
        decreases sources@.len() - i,
    {
        assert(sources@.take(i + 1).drop_last() == sources@.take(i as int));
        if !has_source(&result, sources[i]) {
            result.push(sources[i]);
        }
        i += 1;
    }
    assert(sources@.take(sources@.len() as int) == sources@);
    result
}

/// Normalizing sources repeats none, and loses and adds none.
pub proof fn law_sources_are_distinct(sources: Seq<SourceKind>)
    ensures
        distinct(sources).no_duplicates(),
        forall|source: SourceKind|
            distinct(sources).contains(source) <==> #[trigger] sources.contains(source),
    decreases sources.len(),
{
    if sources.len() > 0 {
        let rest = sources.drop_last();
        let before = distinct(rest);
        law_sources_are_distinct(rest);
        assert forall|source: SourceKind|
            distinct(sources).contains(source) <==> #[trigger] sources.contains(source) by {
            assert(before.contains(source) <==> rest.contains(source));
            if sources.contains(source) {
                let i = choose|i: int| 0 <= i < sources.len() && sources[i] == source;
                if i < rest.len() {
                    assert(rest[i] == source);
                    let k = choose|k: int| 0 <= k < before.len() && before[k] == source;
                    assert(distinct(sources)[k] == source);
                } else if !before.contains(source) {
                    assert(distinct(sources)[before.len() as int] == source);
                }
            }
            if distinct(sources).contains(source) {
                let k = choose|k: int|
                    0 <= k < distinct(sources).len() && distinct(sources)[k] == source;
                if k < before.len() {
                    assert(before[k] == source);
                    let i = choose|i: int| 0 <= i < rest.len() && rest[i] == source;
                    assert(sources[i] == source);
                } else {
                    assert(sources[sources.len() - 1] == source);
                }
            }
        }
    }
}

/// Sources that are given, normalized; none given counts as not given.
pub open spec fn given_sources(sources: Option<Seq<SourceKind>>) -> Option<Seq<SourceKind>> {
    match sources {
        Some(sources) => if sources.len() == 0 {
            None
        } else {
            Some(distinct(sources))
        },
        None => None,
    }
}

/// What an optional list of sources says.
pub open spec fn view_opt_sources(sources: Option<Vec<SourceKind>>) -> Option<Seq<SourceKind>> {
    match sources {
        Some(sources) => Some(sources@),
        None => None,
    }
}

proof fn lemma_distinct_nonempty(sources: Seq<SourceKind>)
    ensures
        distinct(sources).len() == 0 <==> sources.len() == 0,
    decreases sources.len(),
{
    if sources.len() > 0 {
        lemma_distinct_nonempty(sources.drop_last());
    }
}

/// Sources that are given, normalized; none given counts as not given.
pub fn normalize_sources_opt(sources: Option<Vec<SourceKind>>) -> (result: Option<
    Vec<SourceKind>,
>)
    ensures
        view_opt_sources(result) == given_sources(view_opt_sources(sources)),
{
    let sources = match sources {
        Some(sources) => sources,
        None => return None,
    };
    proof {
        lemma_distinct_nonempty(sources@);
    }
    let normalized = normalize_sources(sources);
    if normalized.len() == 0 {
        None
    } else {
        Some(normalized)
    }
}

/// How many session logs are kept.
pub open spec fn log_limit(logs: Option<LogsConfig>) -> usize {
    match logs {
        Some(logs) => match logs.max_files {
            Some(max_files) => max_files,
            None => DEFAULT_LOG_MAX_FILES,
        },
        None => DEFAULT_LOG_MAX_FILES,
    }
}

/// How many session logs are kept: at least one.
pub fn resolve_log_max_files(logs: Option<LogsConfig>) -> (result: Result<usize, LaunchError>)
    ensures
        match result {
            Ok(max_files) => max_files == log_limit(logs) && max_files > 0,
            Err(error) => error is NoLogs && log_limit(logs) == 0,
        },
{
    let max_files: usize = match logs {
        Some(logs) => match logs.max_files {
            Some(max_files) => max_files,
            None => DEFAULT_LOG_MAX_FILES,
        },
        None => DEFAULT_LOG_MAX_FILES,
    };
    if max_files == 0 {
        return Err(LaunchError::NoLogs);
    }
    Ok(max_files)
}

/// The key that is given: that of the command line, where there is one, and otherwise that of
/// the config file. A blank key is none.
pub open spec fn given_token(token: Option<Seq<char>>, api_key: Option<Seq<char>>) -> Option<
    Seq<char>,
> {
    match token {
        Some(token) => nonblank(token),
        None => cleaned(api_key),
    }
}

/// The key that is given, or nothing where it is to be asked for.
pub fn choose_token(token: Option<String>, api_key: Option<String>) -> (result: Option<String>)
    ensures
        view_opt(result) == given_token(view_opt(token), view_opt(api_key)),
{
    match token {
        Some(token) => nonblank_text(token.as_str()),
        None => sanitize_text(api_key),
    }
}

/// The key that was asked for, trimmed; a blank one is refused.
pub fn accept_token(answer: String) -> (result: Result<String, LaunchError>)
    ensures
        match result {
            Ok(token) => token@ == trimmed(answer@) && token@.len() > 0,
            Err(error) => error is EmptyToken && trimmed(answer@).len() == 0,
        },
{
    let token = trim_text(answer.as_str());
    if token.as_str().is_empty() {
        return Err(LaunchError::EmptyToken);
    }
    Ok(token)
}

/// The sources that are given: those of the command line, where there are any, and otherwise
/// those of the config file.
pub open spec fn chosen_sources(args: Seq<SourceKind>, file: Option<Seq<SourceKind>>) -> Option<
    Seq<SourceKind>,
> {
    if args.len() > 0 {
        Some(distinct(args))
    } else {
        given_sources(file)
    }
}

/// The sources that are given, or nothing where they are to be asked for.
pub fn choose_sources(args: Vec<SourceKind>, file: Option<Vec<SourceKind>>) -> (result: Option<
    Vec<SourceKind>,
>)
    ensures
        view_opt_sources(result) == chosen_sources(args@, view_opt_sources(file)),
{
    if args.len() > 0 {
        Some(normalize_sources(args))
    } else {
        normalize_sources_opt(file)
    }
}

/// The sources that were selected from those of the platform, by their places.
pub fn accept_selections(platform: Platform, selections: &Vec<usize>) -> (result: Result<
    Vec<SourceKind>,
    LaunchError,
>)
    requires
        forall|i: int|
            0 <= i < selections@.len() ==> (#[trigger] selections@[i]) < sources_on(platform).len(),
    ensures
        match result {
            Ok(sources) => selections@.len() > 0 && sources@ == selections@.map_values(
                |at: usize| sources_on(platform)[at as int],
            ),
            Err(error) => error is NoSource && selections@.len() == 0,
        },
{
    if selections.len() == 0 {
        return Err(LaunchError::NoSource);
    }
    let available = available_sources(platform);
    let mut sources: Vec<SourceKind> = Vec::new();
    let mut i: usize = 0;
    while i < selections.len()
        invariant
            i <= selections@.len(),
            available@ == sources_on(platform),
            sources@.len() == i,
            forall|k: int|
                0 <= k < selections@.len() ==> (#[trigger] selections@[k]) < sources_on(
                    platform,
                ).len(),
            forall|k: int|
                0 <= k < i ==> (#[trigger] sources@[k]) == sources_on(
                    platform,
                )[selections@[k] as int],
        decreases selections@.len() - i,
    {
        sources.push(available[selections[i]]);
        i += 1;
    }
    assert(sources@ == selections@.map_values(|at: usize| sources_on(platform)[at as int]));
    Ok(sources)
}

/// The model that is used: that of the command line, else that of the config file, else the
/// default.
pub open spec fn chosen_model(args: Option<Seq<char>>, file: Option<Seq<char>>) -> Seq<char> {
    match first_of(args, file) {
        Some(model) => model,
        None => DEFAULT_MODEL@,
    }
}

/// Puts together how a session is run, with a key and sources that were given or asked for.
pub fn resolve_launch_config(
    platform: Platform,
    token: String,
    sources: Vec<SourceKind>,
    args: RunArgs,
    file: HomeConfig,
) -> (result: Result<LaunchConfig, LaunchError>)
    ensures
        match result {
            Ok(config) => {
                &&& support_error(platform, sources@) is None
                &&& log_limit(file.logs) > 0
                &&& config.token == token
                &&& config.sources == sources
                &&& config.model@ == chosen_model(view_opt(args.model), view_opt(file.model))
                &&& view_opt(config.draft_instruction) == first_of(
                    view_opt(args.draft_instruction),
                    view_opt(file.draft_instruction),
                )
                &&& view_opt(config.finalizer_instruction) == first_of(
                    view_opt(args.finalizer_instruction),
                    view_opt(file.finalizer_instruction),
                )
                &&& config.transcription_profile@ == configured_profile(file.transcription)
                &&& config.profile_summary@ == profile_summary(config.transcription_profile@)
                &&& config.log_max_files == log_limit(file.logs)
                &&& config.debug == args.debug
            },
            Err(LaunchError::Unsupported(error)) => support_error(platform, sources@) == Some(
                error.source,
            ),
            Err(LaunchError::NoLogs) => support_error(platform, sources@) is None && log_limit(
                file.logs,
            ) == 0,
            Err(_) => false,
        },
{
    match ensure_sources_supported(platform, &sources) {
        Ok(()) => {},
        Err(error) => return Err(LaunchError::Unsupported(error)),
    }
    let model: String = match first_text(args.model, file.model) {
        Some(model) => model,
        None => DEFAULT_MODEL.to_owned(),
    };
    let draft_instruction = first_text(args.draft_instruction, file.draft_instruction);
    let finalizer_instruction = first_text(
        args.finalizer_instruction,
        file.finalizer_instruction,
    );
    let log_max_files: usize = match resolve_log_max_files(file.logs) {
        Ok(max_files) => max_files,
        Err(error) => return Err(error),
    };
    let transcription_profile = match TranscriptionProfile::from_config(file.transcription) {
        Ok(profile) => profile,
        Err(error) => return Err(LaunchError::Profile(error)),
    };
    let summary = transcription_profile.summary();
    Ok(
        LaunchConfig {
            token,
            model,
            draft_instruction,
            finalizer_instruction,
            transcription_profile,
            profile_summary: summary,
            log_max_files,
            debug: args.debug,
            sources,
        },
    )
}

/// What the command line says comes before what the config file says, and that before the
/// default; a blank text counts as not said, but for the key: a blank key on the command line
/// is asked for.
pub proof fn law_command_line_comes_first(args: Option<Seq<char>>, file: Option<Seq<char>>)
    ensures
        cleaned(args) matches Some(said) ==> chosen_model(args, file) == said,
        cleaned(args) is None ==> (cleaned(file) matches Some(said) ==> chosen_model(args, file)
            == said),
        cleaned(args) is None && cleaned(file) is None ==> chosen_model(args, file)
            == DEFAULT_MODEL@,
        args is Some ==> given_token(args, file) == cleaned(args),
        args is None ==> given_token(args, file) == cleaned(file),
{
}

/// The instruction to a draft session.
pub open spec fn draft_instruction_text(custom: Option<Seq<char>>) -> Seq<char> {
    match cleaned(custom) {
        Some(text) => text,
        None => DEFAULT_DRAFT_INSTRUCTION@,
    }
}

/// The instruction to a draft session.
pub fn compose_draft_system_instruction(custom: Option<&str>) -> (instruction: Option<String>)
    ensures
        view_opt(instruction) == Some(draft_instruction_text(view_opt_str(custom))),
{
    let given = match custom {
        Some(custom) => nonblank_text(custom),
        None => None,
    };
    match given {
        Some(text) => Some(text),
        None => Some(DEFAULT_DRAFT_INSTRUCTION.to_owned()),
    }
}

/// The instruction to a finalizer session, with what the operator adds to it.
pub fn compose_finalizer_instruction(
    profile: &TranscriptionProfile,
    custom_instruction: Option<&str>,
) -> (instruction: String)
    ensures
        instruction@ == match cleaned(view_opt_str(custom_instruction)) {
            Some(custom) => finalizer_text(profile@) + "\nAdditional operator instruction:\n"@
                + custom,
            None => finalizer_text(profile@),
        },
{
    let given = match custom_instruction {
        Some(custom) => nonblank_text(custom),
        None => None,
    };
    let instruction = profile.finalizer_instruction();
    match given {
        Some(custom) => instruction.concat("\nAdditional operator instruction:\n").concat(
            custom.as_str(),
        ),
        None => instruction,
    }
}

/// The config file that is written where there is none.
pub open spec fn default_config_text() -> Seq<char> {
    "# Auto-generated default config for gemini-live-transcribe.\n# Fill in api_key if you want to avoid the interactive prompt.\n\n# api_key = \"YOUR_GEMINI_API_KEY\"\nmodel = \""@
        + DEFAULT_MODEL@ + "\"\n# draft_instruction = \""@ + DEFAULT_DRAFT_INSTRUCTION@
        + "\"\n# finalizer_instruction = \"prefer speaker labels when obvious.\"\n# sources = [\"microphone\"]\n\n[transcription]\nprimary_language = \"zh-Hant\"\nallowed_languages = [\"en\"]\nkeep_disfluencies = true\ncollapse_self_corrections = false\ndedupe_immediate_repetition = false\nnumeral_policy = \"preserve\"\n\n[logs]\nmax_files = "@
        + decimal(DEFAULT_LOG_MAX_FILES as nat) + "\n"@
}

/// The config file that is written where there is none.
pub fn default_home_config_toml() -> (text: String)
    ensures
        text@ == default_config_text(),
{
    "# Auto-generated default config for gemini-live-transcribe.\n# Fill in api_key if you want to avoid the interactive prompt.\n\n# api_key = \"YOUR_GEMINI_API_KEY\"\nmodel = \"".to_owned().concat(
        DEFAULT_MODEL,
    ).concat("\"\n# draft_instruction = \"").concat(DEFAULT_DRAFT_INSTRUCTION).concat(
        "\"\n# finalizer_instruction = \"prefer speaker labels when obvious.\"\n# sources = [\"microphone\"]\n\n[transcription]\nprimary_language = \"zh-Hant\"\nallowed_languages = [\"en\"]\nkeep_disfluencies = true\ncollapse_self_corrections = false\ndedupe_immediate_repetition = false\nnumeral_policy = \"preserve\"\n\n[logs]\nmax_files = ",
    ).concat(decimal_text(DEFAULT_LOG_MAX_FILES as u128).as_str()).concat("\n")
}

/// Of two texts the first counts that has anything but whitespace in it, and it counts trimmed.
pub proof fn law_first_text_that_says_something_counts(
    first: Option<Seq<char>>,
    second: Option<Seq<char>>,
)
    ensures
        first matches Some(said) ==> trimmed(said).len() > 0 ==> first_of(first, second) == Some(
            trimmed(said),
        ),
        (first is None || trimmed(first->Some_0).len() == 0) ==> (second matches Some(said)
            ==> trimmed(said).len() > 0 ==> first_of(first, second) == Some(trimmed(said))),
        (first is None || trimmed(first->Some_0).len() == 0) && (second is None || trimmed(
            second->Some_0,
        ).len() == 0) ==> first_of(first, second) is None,
        first_of(first, second) matches Some(said) ==> chosen_model(first, second) == said,
        first_of(first, second) is None ==> chosen_model(first, second)
            == "gemini-3.1-flash-live-preview"@,
{
}

/// A key on the command line hides that of the config file, even where it is blank; a blank key
/// is none, and any other counts trimmed.
pub proof fn law_keys_are_trimmed(token: Option<Seq<char>>, api_key: Option<Seq<char>>)
    ensures
        token matches Some(said) ==> given_token(token, api_key) == if trimmed(said).len() > 0 {
            Some(trimmed(said))
        } else {
            None
        },
        token is None ==> (api_key matches Some(said) ==> given_token(token, api_key)
            == if trimmed(said).len() > 0 {
            Some(trimmed(said))
        } else {
            None
        }),
        token is None && api_key is None ==> given_token(token, api_key) is None,
{
}

/// The instruction to a draft session is what the operator says, trimmed, or a short one where
/// that is blank.
pub proof fn law_draft_instruction_is_the_operators(custom: Option<Seq<char>>)
    ensures
        custom matches Some(said) ==> trimmed(said).len() > 0 ==> draft_instruction_text(custom)
            == trimmed(said),
        (custom is None || trimmed(custom->Some_0).len() == 0) ==> draft_instruction_text(custom)
            == "reply with less than 3 words."@,
{
}

/// As many logs are kept as the config file says, or a hundred where it does not.
pub proof fn law_log_limit_is_the_configured_one(logs: LogsConfig)
    ensures
        logs.max_files matches Some(max_files) ==> log_limit(Some(logs)) == max_files,
        logs.max_files is None ==> log_limit(Some(logs)) == 100,
        log_limit(None) == 100,
{
}

proof fn lemma_sources_stay_in_order(sources: Seq<SourceKind>, more: Seq<SourceKind>)
    ensures
        distinct(sources).is_prefix_of(distinct(sources + more)),
    decreases more.len(),
{
    if more.len() == 0 {
        assert(sources + more == sources);
    } else {
        lemma_sources_stay_in_order(sources, more.drop_last());
        assert((sources + more).drop_last() == sources + more.drop_last());
    }
}

/// The sources of the command line are captured, where there are any, and otherwise those of the
/// config file: all of them, each once, in the order in which they first stand. They are asked for
/// exactly when neither has any.
pub proof fn law_given_sources_are_captured(
    args: Seq<SourceKind>,
    file: Option<Seq<SourceKind>>,
    more: Seq<SourceKind>,
    source: SourceKind,
)
    ensures
        chosen_sources(args, file) is None <==> args.len() == 0 && (file is None
            || file->Some_0.len() == 0),
        args.len() > 0 ==> (chosen_sources(args, file) matches Some(chosen) && (chosen.contains(
            source,
        ) <==> args.contains(source)) && chosen.no_duplicates() && (chosen_sources(
            args + more,
            file,
        ) matches Some(longer) && chosen.is_prefix_of(longer))),
        args.len() == 0 ==> (file matches Some(listed) ==> listed.len() > 0 ==> (chosen_sources(
            args,
            file,
        ) matches Some(chosen) && (chosen.contains(source) <==> listed.contains(source))
            && chosen.no_duplicates() && (chosen_sources(args, Some(listed + more)) matches Some(
            longer,
        ) && chosen.is_prefix_of(longer)))),
{
    law_sources_are_distinct(args);
    lemma_sources_stay_in_order(args, more);
    assert(args.contains(source) <==> distinct(args).contains(source));
    if let Some(listed) = file {
        law_sources_are_distinct(listed);
        lemma_sources_stay_in_order(listed, more);
        assert(listed.contains(source) <==> distinct(listed).contains(source));
    }
}

/// The instruction to a finalizer is that of the profile, and what the operator adds to it stands
/// behind it, trimmed, where it is not blank.
pub proof fn law_operators_add_to_the_instruction(
    profile: &TranscriptionProfile,
    custom: Option<&str>,
    instruction: String,
)
    requires
        call_ensures(compose_finalizer_instruction, (profile, custom), instruction),
    ensures
        finalizer_text(profile@).is_prefix_of(instruction@),
        custom matches Some(said) ==> trimmed(said@).len() > 0 ==> trimmed(said@).is_suffix_of(
            instruction@,
        ),
        (custom is None || trimmed(custom->Some_0@).len() == 0) ==> instruction@ == finalizer_text(
            profile@,
        ),
{
    if let Some(said) = custom {
        if trimmed(said@).len() > 0 {
            let tail = trimmed(said@);
            assert(instruction@.subrange(instruction@.len() - tail.len(), instruction@.len() as int)
                == tail);
        }
    }
}

/// A session is run with the key and the sources that were given, exactly where every source can
/// be captured and some log is kept; what the command line says comes before what the config file
/// says.
pub proof fn law_sessions_are_run_as_said(
    platform: Platform,
    token: String,
    sources: Vec<SourceKind>,
    args: RunArgs,
    file: HomeConfig,
    result: Result<LaunchConfig, LaunchError>,
)
    requires
        call_ensures(resolve_launch_config, (platform, token, sources, args, file), result),
    ensures
        result is Ok <==> {
            &&& forall|i: int|
                0 <= i < sources@.len() ==> sources_on(platform).contains(#[trigger] sources@[i])
            &&& !(file.logs matches Some(logs) && logs.max_files == Some(0usize))
        },
        result matches Ok(config) ==> {
            &&& config.token == token
            &&& config.sources == sources
            &&& config.debug == args.debug
            &&& args.model matches Some(said) ==> trimmed(said@).len() > 0 ==> config.model@
                == trimmed(said@)
            &&& args.model is None && file.model is None ==> config.model@
                == "gemini-3.1-flash-live-preview"@
            &&& args.draft_instruction matches Some(said) ==> trimmed(said@).len() > 0
                ==> view_opt(config.draft_instruction) == Some(trimmed(said@))
            &&& args.finalizer_instruction matches Some(said) ==> trimmed(said@).len() > 0
                ==> view_opt(config.finalizer_instruction) == Some(trimmed(said@))
            &&& args.draft_instruction is None ==> (file.draft_instruction matches Some(said)
                ==> trimmed(said@).len() > 0 ==> view_opt(config.draft_instruction) == Some(
                trimmed(said@),
            ))
            &&& args.finalizer_instruction is None ==> (file.finalizer_instruction matches Some(
                said,
            ) ==> trimmed(said@).len() > 0 ==> view_opt(config.finalizer_instruction) == Some(
                trimmed(said@),
            ))
            &&& file.transcription matches Some(said) ==> config.transcription_profile.keep_disfluencies
                == said.keep_disfluencies && config.transcription_profile.numeral_policy
                == said.numeral_policy
        },
{
    law_support_is_of_every_source(platform, sources@);
    law_first_text_that_says_something_counts(view_opt(args.model), view_opt(file.model));
    law_first_text_that_says_something_counts(
        view_opt(args.draft_instruction),
        view_opt(file.draft_instruction),
    );
    law_first_text_that_says_something_counts(
        view_opt(args.finalizer_instruction),
        view_opt(file.finalizer_instruction),
    );
}

/// A key that is asked for is accepted, trimmed, exactly where it is not blank; sources that are
/// selected are those at the places selected, in that order, and there must be one.
pub proof fn law_answers_are_accepted(
    answer: String,
    token: Result<String, LaunchError>,
    platform: Platform,
    selections: &Vec<usize>,
    sources: Result<Vec<SourceKind>, LaunchError>,
)
    ensures
        call_ensures(accept_token, (answer,), token) ==> {
            &&& token is Ok <==> trimmed(answer@).len() > 0
            &&& token matches Ok(key) ==> key@ == trimmed(answer@)
        },
        call_ensures(accept_selections, (platform, selections), sources) ==> {
            &&& sources is Ok <==> selections@.len() > 0
            &&& sources matches Ok(chosen) ==> chosen@.len() == selections@.len() && forall|i: int|
                0 <= i < selections@.len() ==> #[trigger] chosen@[i] == sources_on(
                    platform,
                )[selections@[i] as int]
        },
{
}

} // verus!
