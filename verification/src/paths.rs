//! Where the application keeps its files, by platform.

use vstd::prelude::*;
use vstd::string::*;

verus! {

use crate::text::views;

/// The name of the application's own directory.
pub const APP_NAME: &'static str = "gemini-live-transcribe";

/// The name of the config file.
pub const CONFIG_FILE_NAME: &'static str = "config.toml";

/// The directory of the session logs.
pub const LOGS_DIR_NAME: &'static str = "logs";

/// The directory of the transcript exports.
pub const TRANSCRIPTS_DIR_NAME: &'static str = "transcripts";

/// The directory of the debug recordings.
pub const DEBUG_DIR_NAME: &'static str = "debug";

/// A platform that the application runs on.
#[derive(Debug, Clone, Copy, PartialEq, Eq, Structural)]
pub enum Platform {
    MacOs,
    Linux,
    Windows,
}

/// The directories that the environment names, as values of a path type `B`.
#[derive(Debug)]
pub struct HomeVariables<B> {
    /// `HOME`
    pub home: Option<B>,
    /// `XDG_CONFIG_HOME`
    pub xdg_config_home: Option<B>,
    /// `XDG_DATA_HOME`
    pub xdg_data_home: Option<B>,
    /// `APPDATA`
    pub app_data: Option<B>,
    /// `LOCALAPPDATA`
    pub local_app_data: Option<B>,
}

/// A directory of the environment, and the names that lead on from it.
#[derive(Debug)]
pub struct RootedPath<B> {
    pub base: B,
    pub segments: Vec<String>,
}

/// What a rooted path says.
pub struct RootedView<B> {
    pub base: B,
    pub segments: Seq<Seq<char>>,
}

impl<B> RootedPath<B> {
    pub open spec fn view(self) -> RootedView<B> {
        RootedView { base: self.base, segments: views(self.segments@) }
    }

    /// The path of `name` in this directory.
    pub fn join(self, name: &str) -> (path: Self)
        ensures
            path@ == below(self@, name@),
    {
        let mut segments: Vec<String> = self.segments;
        let ghost before = segments@;
        segments.push(name.to_owned());
        assert(views(segments@) == views(before).push(name@));
        RootedPath { base: self.base, segments }
    }
}

/// The path of `name` in the directory `dir`.
pub open spec fn below<B>(dir: RootedView<B>, name: Seq<char>) -> RootedView<B> {
    RootedView { base: dir.base, segments: dir.segments.push(name) }
}

/// The path of `name` in the directory `dir`, where there is one.
pub open spec fn below_opt<B>(dir: Option<RootedView<B>>, name: Seq<char>) -> Option<
    RootedView<B>,
> {
    match dir {
        Some(dir) => Some(below(dir, name)),
        None => None,
    }
}

/// What an optional rooted path says.
pub open spec fn view_opt_path<B>(path: Option<RootedPath<B>>) -> Option<RootedView<B>> {
    match path {
        Some(path) => Some(path@),
        None => None,
    }
}

/// A directory of the environment itself.
pub open spec fn rooted<B>(base: Option<B>) -> Option<RootedView<B>> {
    match base {
        Some(base) => Some(RootedView { base, segments: Seq::empty() }),
        None => None,
    }
}

/// The directory of the config file: `Library/Application Support` of the home on macOS,
/// `XDG_CONFIG_HOME` or else `.config` of the home on Linux, `APPDATA` on Windows.
pub open spec fn config_root<B>(platform: Platform, vars: HomeVariables<B>) -> Option<
    RootedView<B>,
> {
    match platform {
        Platform::MacOs => below_opt(
            below_opt(below_opt(rooted(vars.home), "Library"@), "Application Support"@),
            APP_NAME@,
        ),
        Platform::Linux => below_opt(
            if vars.xdg_config_home is Some {
                rooted(vars.xdg_config_home)
            } else {
                below_opt(rooted(vars.home), ".config"@)
            },
            APP_NAME@,
        ),
        Platform::Windows => below_opt(
            below_opt(rooted(vars.app_data), APP_NAME@),
            "config"@,
        ),
    }
}

/// The directory of the application's data: that of the config file on macOS,
/// `XDG_DATA_HOME` or else `.local/share` of the home on Linux, `LOCALAPPDATA` on Windows.
pub open spec fn data_root<B>(platform: Platform, vars: HomeVariables<B>) -> Option<
    RootedView<B>,
> {
    match platform {
        Platform::MacOs => config_root(platform, vars),
        Platform::Linux => below_opt(
            if vars.xdg_data_home is Some {
                rooted(vars.xdg_data_home)
            } else {
                below_opt(below_opt(rooted(vars.home), ".local"@), "share"@)
            },
            APP_NAME@,
        ),
        Platform::Windows => below_opt(
            below_opt(rooted(vars.local_app_data), APP_NAME@),
            "data"@,
        ),
    }
}

fn root_at<B>(base: Option<B>) -> (path: Option<RootedPath<B>>)
    ensures
        view_opt_path(path) == rooted(base),
{
    match base {
        Some(base) => {
            let path = RootedPath { base, segments: Vec::new() };
            assert(path@.segments == Seq::<Seq<char>>::empty());
            Some(path)
        },
        None => None,
    }
}

fn join_opt<B>(dir: Option<RootedPath<B>>, name: &str) -> (path: Option<RootedPath<B>>)
    ensures
        view_opt_path(path) == below_opt(view_opt_path(dir), name@),
{
    match dir {
        Some(dir) => Some(dir.join(name)),
        None => None,
    }
}

fn config_root_dir<B>(platform: Platform, vars: HomeVariables<B>) -> (path: Option<RootedPath<B>>)
    ensures
        view_opt_path(path) == config_root(platform, vars),
{
    match platform {
        Platform::MacOs => join_opt(
            join_opt(join_opt(root_at(vars.home), "Library"), "Application Support"),
            APP_NAME,
        ),
        Platform::Linux => {
            let dir = if vars.xdg_config_home.is_some() {
                root_at(vars.xdg_config_home)
            } else {
                join_opt(root_at(vars.home), ".config")
            };
            join_opt(dir, APP_NAME)
        },
        Platform::Windows => join_opt(join_opt(root_at(vars.app_data), APP_NAME), "config"),
    }
}

fn data_root_dir<B>(platform: Platform, vars: HomeVariables<B>) -> (path: Option<RootedPath<B>>)
    ensures
        view_opt_path(path) == data_root(platform, vars),
{
    match platform {
        Platform::MacOs => config_root_dir(platform, vars),
        Platform::Linux => {
            let dir = if vars.xdg_data_home.is_some() {
                root_at(vars.xdg_data_home)
            } else {
                join_opt(join_opt(root_at(vars.home), ".local"), "share")
            };
            join_opt(dir, APP_NAME)
        },
        Platform::Windows => join_opt(join_opt(root_at(vars.local_app_data), APP_NAME), "data"),
    }
}

/// The path of the config file.
pub fn home_config_path<B>(platform: Platform, vars: HomeVariables<B>) -> (path: Option<
    RootedPath<B>,
>)
    ensures
        view_opt_path(path) == below_opt(config_root(platform, vars), CONFIG_FILE_NAME@),
{
    join_opt(config_root_dir(platform, vars), CONFIG_FILE_NAME)
}

/// The directory of the session logs.
pub fn home_logs_dir<B>(platform: Platform, vars: HomeVariables<B>) -> (path: Option<
    RootedPath<B>,
>)
    ensures
        view_opt_path(path) == below_opt(data_root(platform, vars), LOGS_DIR_NAME@),
{
    join_opt(data_root_dir(platform, vars), LOGS_DIR_NAME)
}

/// The directory of the transcript exports.
pub fn home_transcripts_dir<B>(platform: Platform, vars: HomeVariables<B>) -> (path: Option<
    RootedPath<B>,
>)
    ensures
        view_opt_path(path) == below_opt(data_root(platform, vars), TRANSCRIPTS_DIR_NAME@),
{
    join_opt(data_root_dir(platform, vars), TRANSCRIPTS_DIR_NAME)
}

/// The directory of the debug recordings.
pub fn home_debug_dir<B>(platform: Platform, vars: HomeVariables<B>) -> (path: Option<
    RootedPath<B>,
>)
    ensures
        view_opt_path(path) == below_opt(data_root(platform, vars), DEBUG_DIR_NAME@),
{
    join_opt(data_root_dir(platform, vars), DEBUG_DIR_NAME)
}

/// The logs, the transcripts and the debug recordings stand side by side in the directory of
/// the application's data, or none of the three is to be had.
pub proof fn law_data_directories_are_siblings<B>(platform: Platform, vars: HomeVariables<B>)
    ensures
        ({
            let logs = below_opt(data_root(platform, vars), LOGS_DIR_NAME@);
            let transcripts = below_opt(data_root(platform, vars), TRANSCRIPTS_DIR_NAME@);
            let debug = below_opt(data_root(platform, vars), DEBUG_DIR_NAME@);
            match (logs, transcripts, debug) {
                (Some(logs), Some(transcripts), Some(debug)) => {
                    &&& logs.base == transcripts.base
                    &&& transcripts.base == debug.base
                    &&& logs.segments.drop_last() == transcripts.segments.drop_last()
                    &&& transcripts.segments.drop_last() == debug.segments.drop_last()
                    &&& logs.segments != transcripts.segments
                    &&& transcripts.segments != debug.segments
                    &&& logs.segments != debug.segments
                },
                (None, None, None) => true,
                _ => false,
            }
        }),
{
    reveal_strlit("logs");
    reveal_strlit("transcripts");
    reveal_strlit("debug");
    match data_root(platform, vars) {
        Some(root) => {
            let logs = root.segments.push(LOGS_DIR_NAME@);
            let transcripts = root.segments.push(TRANSCRIPTS_DIR_NAME@);
            let debug = root.segments.push(DEBUG_DIR_NAME@);
            assert(logs.drop_last() == root.segments);
            assert(transcripts.drop_last() == root.segments);
            assert(debug.drop_last() == root.segments);
            assert(logs.last().len() == 4);
            assert(transcripts.last().len() == 11);
            assert(debug.last().len() == 5);
        },
        None => {},
    }
}

/// Whether a path leads from a directory of the environment down through the names given.
pub open spec fn leads<B>(path: Option<RootedView<B>>, base: Option<B>, names: Seq<Seq<char>>) -> bool {
    match base {
        Some(base) => path matches Some(path) && path.base == base && path.segments == names,
        None => path is None,
    }
}

/// Where the config file stands on each platform; where the directory that it stands in is not
/// known, neither is its place.
pub proof fn law_config_has_its_place<B>(vars: HomeVariables<B>)
    ensures
        leads(
            config_root(Platform::MacOs, vars),
            vars.home,
            seq!["Library"@, "Application Support"@, "gemini-live-transcribe"@],
        ),
        vars.xdg_config_home is Some ==> leads(
            config_root(Platform::Linux, vars),
            vars.xdg_config_home,
            seq!["gemini-live-transcribe"@],
        ),
        vars.xdg_config_home is None ==> leads(
            config_root(Platform::Linux, vars),
            vars.home,
            seq![".config"@, "gemini-live-transcribe"@],
        ),
        leads(
            config_root(Platform::Windows, vars),
            vars.app_data,
            seq!["gemini-live-transcribe"@, "config"@],
        ),
{
    let none = Seq::<Seq<char>>::empty();
    assert(none.push("Library"@).push("Application Support"@).push(APP_NAME@) == seq![
        "Library"@,
        "Application Support"@,
        "gemini-live-transcribe"@,
    ]);
    assert(none.push(APP_NAME@) == seq!["gemini-live-transcribe"@]);
    assert(none.push(".config"@).push(APP_NAME@) == seq![".config"@, "gemini-live-transcribe"@]);
    assert(none.push(APP_NAME@).push("config"@) == seq!["gemini-live-transcribe"@, "config"@]);
}

/// Where the data of the application stand on each platform.
pub proof fn law_data_have_their_place<B>(vars: HomeVariables<B>)
    ensures
        leads(
            data_root(Platform::MacOs, vars),
            vars.home,
            seq!["Library"@, "Application Support"@, "gemini-live-transcribe"@],
        ),
        vars.xdg_data_home is Some ==> leads(
            data_root(Platform::Linux, vars),
            vars.xdg_data_home,
            seq!["gemini-live-transcribe"@],
        ),
        vars.xdg_data_home is None ==> leads(
            data_root(Platform::Linux, vars),
            vars.home,
            seq![".local"@, "share"@, "gemini-live-transcribe"@],
        ),
        leads(
            data_root(Platform::Windows, vars),
            vars.local_app_data,
            seq!["gemini-live-transcribe"@, "data"@],
        ),
{
    let none = Seq::<Seq<char>>::empty();
    assert(none.push("Library"@).push("Application Support"@).push(APP_NAME@) == seq![
        "Library"@,
        "Application Support"@,
        "gemini-live-transcribe"@,
    ]);
    assert(none.push(APP_NAME@) == seq!["gemini-live-transcribe"@]);
    assert(none.push(".local"@).push("share"@).push(APP_NAME@) == seq![
        ".local"@,
        "share"@,
        "gemini-live-transcribe"@,
    ]);
    assert(none.push(APP_NAME@).push("data"@) == seq!["gemini-live-transcribe"@, "data"@]);
}

/// A name in a directory is one step further down than the directory; without a directory there
/// is none.
pub proof fn law_names_stand_in_their_directory<B>(dir: Option<RootedView<B>>, name: Seq<char>)
    ensures
        dir is None <==> below_opt(dir, name) is None,
        dir matches Some(dir) ==> (below_opt(Some(dir), name) matches Some(path) && path.base
            == dir.base && path.segments.drop_last() == dir.segments && path.segments.last()
            == name && path.segments.len() == dir.segments.len() + 1),
{
    if let Some(dir) = dir {
        assert(dir.segments.push(name).drop_last() == dir.segments);
    }
}

} // verus!
