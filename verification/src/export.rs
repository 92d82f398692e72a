//! The export of a transcript: where it goes, and what is done to the transcript for it.

use vstd::prelude::*;
use vstd::string::*;

use crate::paths::{HomeVariables, Platform, RootedPath, home_transcripts_dir};
use crate::transcript::{NotJsonPath, TranscriptStore, validate_export_path};

verus! {

use crate::paths::{TRANSCRIPTS_DIR_NAME, below_opt, data_root};
use crate::transcript::{
    ended_session, extension, file_name, is_json_path, is_portable, last_index,
};

/// Why a transcript was not exported.
#[derive(Debug, Clone, Copy, PartialEq, Eq, Structural)]
pub enum ExportError {
    /// The environment names no directory for it.
    NoDirectory,
    /// The path is not fit for an export.
    Path(NotJsonPath),
}

impl ExportError {
    /// The error in words.
    pub fn message(&self) -> (text: String)
        ensures
            text@ == match self {
                ExportError::NoDirectory => "application transcript directory is unavailable"@,
                ExportError::Path(_) => "transcript export path must end with .json"@,
            },
    {
        match self {
            ExportError::NoDirectory => {
                "application transcript directory is unavailable".to_owned()
            },
            ExportError::Path(error) => error.message(),
        }
    }
}

/// The name of the export of a session.
pub open spec fn export_name(session_id: Seq<char>) -> Seq<char> {
    session_id + ".json"@
}

/// The path of the export of the session `session_id`.
pub fn transcript_export_path<B>(
    session_id: &str,
    platform: Platform,
    vars: HomeVariables<B>,
) -> (result: Result<RootedPath<B>, ExportError>)
    ensures
        match result {
            Ok(path) => Some(path@) == below_opt(
                below_opt(data_root(platform, vars), TRANSCRIPTS_DIR_NAME@),
                export_name(session_id@),
            ),
            Err(error) => error == ExportError::NoDirectory && data_root(platform, vars) is None,
        },
{
    match home_transcripts_dir(platform, vars) {
        Some(dir) => {
            let name = session_id.to_owned().concat(".json");
            Ok(dir.join(name.as_str()))
        },
        None => Err(ExportError::NoDirectory),
    }
}

/// Ends the session of `store` now and gives the path that its transcript goes to. The
/// transcript is left as it is where there is no such path.
pub fn write_transcript_export<B>(
    store: &mut TranscriptStore,
    platform: Platform,
    vars: HomeVariables<B>,
) -> (result: Result<RootedPath<B>, ExportError>)
    ensures
        match result {
            Ok(path) => {
                &&& is_portable(export_name(old(store)@.session_id)) ==> is_json_path(
                    export_name(old(store)@.session_id),
                )
                &&& Some(path@) == below_opt(
                    below_opt(data_root(platform, vars), TRANSCRIPTS_DIR_NAME@),
                    export_name(old(store)@.session_id),
                )
                &&& exists|now: u128| final(store)@ == #[trigger] ended_session(old(store)@, now)
            },
            Err(ExportError::NoDirectory) => data_root(platform, vars) is None && *final(store)
                == *old(store),
            Err(ExportError::Path(_)) => {
                &&& data_root(platform, vars) is Some
                &&& is_portable(export_name(old(store)@.session_id)) ==> !is_json_path(
                    export_name(old(store)@.session_id),
                )
                &&& *final(store) == *old(store)
            },
        },
{
    let path = match transcript_export_path(store.session_id(), platform, vars) {
        Ok(path) => path,
        Err(error) => return Err(error),
    };
    let name = store.session_id().to_owned().concat(".json");
    match validate_export_path(name.as_str()) {
        Ok(()) => {},
        Err(error) => return Err(ExportError::Path(error)),
    }
    store.finish_session();
    Ok(path)
}

proof fn lemma_absent_has_no_index(s: Seq<char>, wanted: char)
    requires
        !s.contains(wanted),
    ensures
        last_index(s, wanted) == -1,
    decreases s.len(),
{
    if s.len() > 0 {
        assert(s[s.len() - 1] == s.last());
        assert forall|i: int| 0 <= i < s.len() - 1 implies s.drop_last()[i] != wanted by {
            assert(s[i] != wanted);
        }
        lemma_absent_has_no_index(s.drop_last(), wanted);
    }
}

proof fn lemma_last_dot(before: Seq<char>, behind: Seq<char>)
    requires
        !behind.contains('.'),
    ensures
        last_index(before.push('.') + behind, '.') == before.len(),
    decreases behind.len(),
{
    let s = before.push('.') + behind;
    if behind.len() == 0 {
        assert(s.last() == '.');
    } else {
        assert(behind.contains(behind.last())) by {
            assert(behind[behind.len() - 1] == behind.last());
        }
        assert(s.last() == behind.last());
        assert(s.drop_last() == before.push('.') + behind.drop_last());
        assert forall|i: int| 0 <= i < behind.len() - 1 implies behind.drop_last()[i] != '.' by {
            assert(behind.contains(behind[i]));
        }
        lemma_last_dot(before, behind.drop_last());
    }
}

/// A session whose id is a plain name, as one of digits is, has an export path that is accepted
/// on every machine.
pub proof fn law_plain_names_are_exported(session_id: Seq<char>)
    requires
        session_id.len() > 0,
        !session_id.contains('/'),
        !session_id.contains('\\'),
        !session_id.contains(':'),
    ensures
        is_portable(export_name(session_id)),
        is_json_path(export_name(session_id)),
{
    reveal_strlit(".json");
    reveal_strlit("json");
    reveal_strlit(".");
    reveal_strlit("..");
    let name = export_name(session_id);
    assert forall|c: char| !session_id.contains(c) && !".json"@.contains(c) implies !#[trigger]
        name.contains(c) by {
        if name.contains(c) {
            let i = choose|i: int| 0 <= i < name.len() && name[i] == c;
            if i < session_id.len() {
                assert(session_id[i] == c);
            } else {
                assert(".json"@[i - session_id.len()] == c);
            }
        }
    }
    assert(!name.contains('/') && !name.contains('\\') && !name.contains(':'));
    lemma_absent_has_no_index(name, '/');
    assert(name.skip(0) == name);
    assert(name.len() >= 6);
    assert(file_name(name) == Some(name));
    assert(name == session_id.push('.') + "json"@);
    lemma_last_dot(session_id, "json"@);
    assert(name.skip(session_id.len() as int + 1) == "json"@);
    assert(extension(name) == Some("json"@));
}

/// A transcript is exported among the transcripts, under the id of its session with `.json` behind
/// it, exactly where the directory of the application's data is known; exporting ends the session
/// and changes nothing else of it.
pub proof fn law_transcripts_are_exported_by_session<B>(
    session_id: &str,
    platform: Platform,
    vars: HomeVariables<B>,
    path: Result<RootedPath<B>, ExportError>,
    store: &mut TranscriptStore,
    written: Result<RootedPath<B>, ExportError>,
)
    ensures
        call_ensures(transcript_export_path::<B>, (session_id, platform, vars), path) ==> {
            &&& path is Ok <==> data_root(platform, vars) is Some
            &&& path matches Ok(place) ==> place@.segments.len() >= 2 && place@.segments.last()
                == session_id@ + ".json"@ && place@.segments[place@.segments.len() - 2]
                == "transcripts"@
        },
        call_ensures(write_transcript_export::<B>, (store, platform, vars), written) ==> {
            &&& written is Ok ==> {
                &&& final(store)@.ended_at_unix_ms is Some
                &&& final(store)@.sources == old(store)@.sources
                &&& final(store)@.session_id == old(store)@.session_id
                &&& final(store)@.transcription_profile == old(store)@.transcription_profile
            }
            &&& written is Err ==> *final(store) == *old(store)
            &&& data_root(platform, vars) is None ==> written is Err
        },
{
}

} // verus!
