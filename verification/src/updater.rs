//! The self-update: which release fits the host, and the commands that fetch and unpack it.

use vstd::prelude::*;
use vstd::string::*;

use crate::paths::Platform;
use crate::text::{decimal_text, same_text, trim_text};
use crate::transcriber::text_from_bytes;

verus! {

use crate::text::{decimal, trimmed};
use crate::transcriber::lossy_text;

/// Who publishes the releases.
pub const REPO_OWNER: &'static str = "JacobLinCool";

/// Where the releases are published.
pub const REPO_NAME: &'static str = "gemini-live-transcribe";

/// The name of the program.
pub const BINARY_NAME: &'static str = "gemini-live-transcribe";

/// How often a name for a temporary directory is tried.
pub const TEMP_DIR_ATTEMPTS: u32 = 32;

/// How a release is packed.
#[derive(Debug, Clone, Copy, PartialEq, Eq, Structural)]
pub enum ArchiveKind {
    TarGz,
    Zip,
}

/// Why the program cannot update itself.
#[derive(Debug)]
pub enum UpdateError {
    /// There is no release for the host.
    UnsupportedHost(String),
    /// The archive cannot be unpacked on the host.
    ZipOffWindows,
    /// A command has failed.
    Command(String),
    /// No temporary directory could be made.
    NoTempDir,
}

impl UpdateError {
    /// The error in words.
    pub fn message(&self) -> (text: String)
        ensures
            text@ == match self {
                UpdateError::UnsupportedHost(text) => text@,
                UpdateError::ZipOffWindows =>
                    "zip extraction is only supported on Windows hosts"@,
                UpdateError::Command(text) => text@,
                UpdateError::NoTempDir => "unable to create temp dir for self-update"@,
            },
    {
        match self {
            UpdateError::UnsupportedHost(text) => text.clone(),
            UpdateError::ZipOffWindows => {
                "zip extraction is only supported on Windows hosts".to_owned()
            },
            UpdateError::Command(text) => text.clone(),
            UpdateError::NoTempDir => "unable to create temp dir for self-update".to_owned(),
        }
    }
}

/// The target of the release for a host, and how it is packed.
pub open spec fn target_for(os: Seq<char>, arch: Seq<char>) -> Option<(Seq<char>, ArchiveKind)> {
    if os == "macos"@ && arch == "aarch64"@ {
        Some(("aarch64-apple-darwin"@, ArchiveKind::TarGz))
    } else if os == "macos"@ && arch == "x86_64"@ {
        Some(("x86_64-apple-darwin"@, ArchiveKind::TarGz))
    } else if os == "linux"@ && arch == "x86_64"@ {
        Some(("x86_64-unknown-linux-gnu"@, ArchiveKind::TarGz))
    } else if os == "windows"@ && arch == "x86_64"@ {
        Some(("x86_64-pc-windows-msvc"@, ArchiveKind::Zip))
    } else {
        None
    }
}

/// What is said of a host without a release.
pub open spec fn unsupported_host_text(os: Seq<char>, arch: Seq<char>) -> Seq<char> {
    "self-update is unsupported for "@ + os + " "@ + arch
}

/// The target of the release for a host, and how it is packed.
pub fn release_target_for(os: &str, arch: &str) -> (result: Result<
    (&'static str, ArchiveKind),
    UpdateError,
>)
    ensures
        match result {
            Ok(found) => target_for(os@, arch@) == Some((found.0@, found.1)),
            Err(error) => {
                &&& target_for(os@, arch@) is None
                &&& error matches UpdateError::UnsupportedHost(text)
                &&& text@ == unsupported_host_text(os@, arch@)
            },
        },
{
    if same_text(os, "macos") && same_text(arch, "aarch64") {
        Ok(("aarch64-apple-darwin", ArchiveKind::TarGz))
    } else if same_text(os, "macos") && same_text(arch, "x86_64") {
        Ok(("x86_64-apple-darwin", ArchiveKind::TarGz))
    } else if same_text(os, "linux") && same_text(arch, "x86_64") {
        Ok(("x86_64-unknown-linux-gnu", ArchiveKind::TarGz))
    } else if same_text(os, "windows") && same_text(arch, "x86_64") {
        Ok(("x86_64-pc-windows-msvc", ArchiveKind::Zip))
    } else {
        Err(
            UpdateError::UnsupportedHost(
                "self-update is unsupported for ".to_owned().concat(os).concat(" ").concat(arch),
            ),
        )
    }
}

/// The name of a release's archive.
pub open spec fn asset_name_for(target: Seq<char>, kind: ArchiveKind) -> Seq<char> {
    match kind {
        ArchiveKind::TarGz => BINARY_NAME@ + "-"@ + target + ".tar.gz"@,
        ArchiveKind::Zip => BINARY_NAME@ + "-"@ + target + ".zip"@,
    }
}

/// The name of a release's archive.
pub fn release_asset_name(target: &str, archive_kind: ArchiveKind) -> (name: String)
    ensures
        name@ == asset_name_for(target@, archive_kind),
{
    let stem = BINARY_NAME.to_owned().concat("-").concat(target);
    match archive_kind {
        ArchiveKind::TarGz => stem.concat(".tar.gz"),
        ArchiveKind::Zip => stem.concat(".zip"),
    }
}

/// Where the latest release of an archive is found.
pub open spec fn download_url_for(asset_name: Seq<char>) -> Seq<char> {
    "https://github.com/"@ + REPO_OWNER@ + "/"@ + REPO_NAME@ + "/releases/latest/download/"@
        + asset_name
}

/// Where the latest release of an archive is found.
pub fn release_download_url(asset_name: &str) -> (url: String)
    ensures
        url@ == download_url_for(asset_name@),
{
    "https://github.com/".to_owned().concat(REPO_OWNER).concat("/").concat(REPO_NAME).concat(
        "/releases/latest/download/",
    ).concat(asset_name)
}

/// The release for a host.
#[derive(Debug, Clone, PartialEq, Eq)]
pub struct ReleaseSpec {
    pub target: &'static str,
    pub archive_kind: ArchiveKind,
    pub asset_name: String,
    pub download_url: String,
}

impl ReleaseSpec {
    /// The release for a host.
    pub fn new(os: &str, arch: &str) -> (result: Result<Self, UpdateError>)
        ensures
            match result {
                Ok(release) => {
                    &&& target_for(os@, arch@) == Some((release.target@, release.archive_kind))
                    &&& release.asset_name@ == asset_name_for(
                        release.target@,
                        release.archive_kind,
                    )
                    &&& release.download_url@ == download_url_for(release.asset_name@)
                },
                Err(error) => {
                    &&& target_for(os@, arch@) is None
                    &&& error matches UpdateError::UnsupportedHost(text)
                    &&& text@ == unsupported_host_text(os@, arch@)
                },
            },
    {
        let (target, archive_kind) = match release_target_for(os, arch) {
            Ok(found) => found,
            Err(error) => return Err(error),
        };
        let asset_name = release_asset_name(target, archive_kind);
        let download_url = release_download_url(asset_name.as_str());
        Ok(ReleaseSpec { target, archive_kind, asset_name, download_url })
    }

    /// The name of the program in the archive.
    pub fn binary_file_name(&self) -> (name: String)
        ensures
            name@ == match self.archive_kind {
                ArchiveKind::TarGz => BINARY_NAME@,
                ArchiveKind::Zip => BINARY_NAME@ + ".exe"@,
            },
    {
        match self.archive_kind {
            ArchiveKind::TarGz => BINARY_NAME.to_owned(),
            ArchiveKind::Zip => BINARY_NAME.to_owned().concat(".exe"),
        }
    }
}

/// The name of a temporary directory for the update.
pub fn temp_dir_name(process_id: u32, now_nanos: u128, attempt: u32) -> (name: String)
    ensures
        name@ == BINARY_NAME@ + "-update-"@ + decimal(process_id as nat) + "-"@ + decimal(
            now_nanos as nat,
        ) + "-"@ + decimal(attempt as nat),
{
    BINARY_NAME.to_owned().concat("-update-").concat(
        decimal_text(process_id as u128).as_str(),
    ).concat("-").concat(decimal_text(now_nanos).as_str()).concat("-").concat(
        decimal_text(attempt as u128).as_str(),
    )
}

/// What came of trying to make a temporary directory.
#[derive(Debug, Clone, Copy, PartialEq, Eq, Structural)]
pub enum DirOutcome {
    Made,
    /// The name is taken.
    Taken,
    Failed,
}

/// What is done after trying to make a temporary directory.
#[derive(Debug, Clone, Copy, PartialEq, Eq, Structural)]
pub enum DirStep {
    Use,
    TryAgain { attempt: u32 },
    Fail,
    GiveUp,
}

/// What is done after the attempt `attempt`, counted from 0: only a name that is taken is a
/// reason to try another, so long as attempts are left.
pub fn create_temp_dir(attempt: u32, outcome: DirOutcome) -> (step: DirStep)
    ensures
        step == match outcome {
            DirOutcome::Made => DirStep::Use,
            DirOutcome::Failed => DirStep::Fail,
            DirOutcome::Taken => if attempt + 1 < TEMP_DIR_ATTEMPTS {
                DirStep::TryAgain { attempt: (attempt + 1) as u32 }
            } else {
                DirStep::GiveUp
            },
        },
{
    match outcome {
        DirOutcome::Made => DirStep::Use,
        DirOutcome::Failed => DirStep::Fail,
        DirOutcome::Taken => if attempt < TEMP_DIR_ATTEMPTS - 1 {
            DirStep::TryAgain { attempt: attempt + 1 }
        } else {
            DirStep::GiveUp
        },
    }
}

/// A word of a command: text, or a path of the type `P`.
#[derive(Debug)]
pub enum Word<P> {
    Text(String),
    Path(P),
}

/// What a word says.
pub enum WordView<P> {
    Text(Seq<char>),
    Path(P),
}

impl<P> Word<P> {
    pub open spec fn view(self) -> WordView<P> {
        match self {
            Word::Text(text) => WordView::Text(text@),
            Word::Path(path) => WordView::Path(path),
        }
    }
}

/// A command to run: the program, its arguments, and what it finds in its environment.
#[derive(Debug)]
pub struct CommandPlan<P> {
    pub program: &'static str,
    pub args: Vec<Word<P>>,
    pub env: Vec<(&'static str, Word<P>)>,
}

/// What a command says.
#[verifier::ext_equal]
pub struct CommandView<P> {
    pub program: Seq<char>,
    pub args: Seq<WordView<P>>,
    pub env: Seq<(Seq<char>, WordView<P>)>,
}

impl<P> CommandPlan<P> {
    pub open spec fn view(self) -> CommandView<P> {
        CommandView {
            program: self.program@,
            args: self.args@.map_values(|word: Word<P>| word@),
            env: self.env@.map_values(|entry: (&'static str, Word<P>)| (entry.0@, entry.1@)),
        }
    }

    /// A program without arguments.
    pub fn new(program: &'static str) -> (plan: Self)
        ensures
            plan@ == bare_command::<P>(program@),
    {
        let plan = CommandPlan { program, args: Vec::new(), env: Vec::new() };
        assert(plan@ == bare_command::<P>(program@));
        plan
    }

    /// The command with one more argument.
    pub fn arg(self, text: &str) -> (plan: Self)
        ensures
            plan@ == self@.arg(WordView::Text(text@)),
    {
        self.word(Word::Text(text.to_owned()))
    }

    /// The command with one more argument, which is a path.
    pub fn path(self, path: P) -> (plan: Self)
        ensures
            plan@ == self@.arg(WordView::Path(path)),
    {
        self.word(Word::Path(path))
    }

    fn word(self, word: Word<P>) -> (plan: Self)
        ensures
            plan@ == self@.arg(word@),
    {
        let mut args: Vec<Word<P>> = self.args;
        args.push(word);
        let plan = CommandPlan { program: self.program, args, env: self.env };
        assert(plan@ == self@.arg(word@));
        plan
    }

    /// The command with one more entry in its environment.
    pub fn with_env(self, name: &'static str, value: Word<P>) -> (plan: Self)
        ensures
            plan@ == self@.with_env(name@, value@),
    {
        let mut env: Vec<(&'static str, Word<P>)> = self.env;
        env.push((name, value));
        let plan = CommandPlan { program: self.program, args: self.args, env };
        assert(plan@ == self@.with_env(name@, value@));
        plan
    }
}

/// A program without arguments.
pub open spec fn bare_command<P>(program: Seq<char>) -> CommandView<P> {
    CommandView { program, args: Seq::empty(), env: Seq::empty() }
}

impl<P> CommandView<P> {
    /// The command with one more argument.
    pub open spec fn arg(self, word: WordView<P>) -> CommandView<P> {
        CommandView { args: self.args.push(word), ..self }
    }

    /// The command with one more argument, which is text.
    pub open spec fn text(self, text: Seq<char>) -> CommandView<P> {
        self.arg(WordView::Text(text))
    }

    /// The command with one more entry in its environment.
    pub open spec fn with_env(self, name: Seq<char>, value: WordView<P>) -> CommandView<P> {
        CommandView { env: self.env.push((name, value)), ..self }
    }
}

/// PowerShell, told to ask for nothing.
pub open spec fn powershell<P>() -> CommandView<P> {
    bare_command("powershell"@).text("-NoProfile"@).text("-NonInteractive"@).text(
        "-ExecutionPolicy"@,
    ).text("Bypass"@)
}

fn powershell_command<P>() -> (plan: CommandPlan<P>)
    ensures
        plan@ == powershell::<P>(),
{
    CommandPlan::new("powershell").arg("-NoProfile").arg("-NonInteractive").arg(
        "-ExecutionPolicy",
    ).arg("Bypass")
}

/// The command that fetches an archive.
pub open spec fn download_view<P>(platform: Platform, url: Seq<char>, archive: P) -> CommandView<P> {
    match platform {
        Platform::Windows => powershell().text("-Command"@).text(
            "$ProgressPreference='SilentlyContinue'; Invoke-WebRequest -Uri $env:GEMINI_UPDATE_URL -OutFile $env:GEMINI_UPDATE_OUT"@,
        ).with_env("GEMINI_UPDATE_URL"@, WordView::Text(url)).with_env(
            "GEMINI_UPDATE_OUT"@,
            WordView::Path(archive),
        ),
        _ => bare_command("curl"@).text("--fail"@).text("--silent"@).text("--show-error"@).text(
            "--location"@,
        ).text("--proto"@).text("=https"@).text("--tlsv1.2"@).text(url).text("--output"@).arg(
            WordView::Path(archive),
        ),
    }
}

/// The command that fetches an archive.
pub fn download_release_archive<P>(platform: Platform, url: &str, archive_path: P) -> (plan:
    CommandPlan<P>)
    ensures
        plan@ == download_view(platform, url@, archive_path),
{
    match platform {
        Platform::Windows => powershell_command().arg("-Command").arg(
            "$ProgressPreference='SilentlyContinue'; Invoke-WebRequest -Uri $env:GEMINI_UPDATE_URL -OutFile $env:GEMINI_UPDATE_OUT",
        ).with_env("GEMINI_UPDATE_URL", Word::Text(url.to_owned())).with_env(
            "GEMINI_UPDATE_OUT",
            Word::Path(archive_path),
        ),
        _ => CommandPlan::new("curl").arg("--fail").arg("--silent").arg("--show-error").arg(
            "--location",
        ).arg("--proto").arg("=https").arg("--tlsv1.2").arg(url).arg("--output").path(
            archive_path,
        ),
    }
}

/// What fetching an archive is called where it fails.
pub fn download_action(url: &str) -> (text: String)
    ensures
        text@ == "download release archive from "@ + url@,
{
    "download release archive from ".to_owned().concat(url)
}

/// What unpacking an archive is called where it fails.
pub fn extract_action(archive_path: &str) -> (text: String)
    ensures
        text@ == "extract release archive "@ + archive_path@,
{
    "extract release archive ".to_owned().concat(archive_path)
}

/// The command that unpacks an archive; a zip archive is unpacked on Windows only.
pub fn extract_release_archive<P>(
    platform: Platform,
    archive_kind: ArchiveKind,
    archive_path: P,
    temp_dir: P,
) -> (result: Result<CommandPlan<P>, UpdateError>)
    ensures
        match archive_kind {
            ArchiveKind::TarGz => result matches Ok(plan) && plan@ == bare_command("tar"@).text(
                "-xzf"@,
            ).arg(WordView::Path(archive_path)).text("-C"@).arg(WordView::Path(temp_dir)),
            ArchiveKind::Zip => if platform == Platform::Windows {
                result matches Ok(plan) && plan@ == powershell().text("-Command"@).text(
                    "Expand-Archive -LiteralPath $env:GEMINI_UPDATE_ARCHIVE -DestinationPath $env:GEMINI_UPDATE_DEST -Force"@,
                ).with_env("GEMINI_UPDATE_ARCHIVE"@, WordView::Path(archive_path)).with_env(
                    "GEMINI_UPDATE_DEST"@,
                    WordView::Path(temp_dir),
                )
            } else {
                result matches Err(UpdateError::ZipOffWindows)
            },
        },
{
    match archive_kind {
        ArchiveKind::TarGz => Ok(
            CommandPlan::new("tar").arg("-xzf").path(archive_path).arg("-C").path(temp_dir),
        ),
        ArchiveKind::Zip => match platform {
            Platform::Windows => Ok(
                powershell_command().arg("-Command").arg(
                    "Expand-Archive -LiteralPath $env:GEMINI_UPDATE_ARCHIVE -DestinationPath $env:GEMINI_UPDATE_DEST -Force",
                ).with_env("GEMINI_UPDATE_ARCHIVE", Word::Path(archive_path)).with_env(
                    "GEMINI_UPDATE_DEST",
                    Word::Path(temp_dir),
                ),
            ),
            _ => Err(UpdateError::ZipOffWindows),
        },
    }
}

/// What a failed command said: its errors, or else its output.
pub open spec fn failure_detail(stdout: Seq<u8>, stderr: Seq<u8>) -> Seq<char> {
    if trimmed(lossy_text(stderr)).len() > 0 {
        trimmed(lossy_text(stderr))
    } else {
        trimmed(lossy_text(stdout))
    }
}

/// What is said of a command that ended with a status that is no success.
pub fn command_failure(
    action: &str,
    status: &str,
    stdout: &Vec<u8>,
    stderr: &Vec<u8>,
) -> (error: UpdateError)
    ensures
        error matches UpdateError::Command(text) && text@ == if failure_detail(
            stdout@,
            stderr@,
        ).len() == 0 {
            action@ + " failed with status "@ + status@
        } else {
            action@ + " failed: "@ + failure_detail(stdout@, stderr@)
        },
{
    let errors = trim_text(text_from_bytes(stderr).as_str());
    let detail = if !errors.as_str().is_empty() {
        errors
    } else {
        trim_text(text_from_bytes(stdout).as_str())
    };
    if detail.as_str().is_empty() {
        return UpdateError::Command(
            action.to_owned().concat(" failed with status ").concat(status),
        );
    }
    UpdateError::Command(action.to_owned().concat(" failed: ").concat(detail.as_str()))
}

/// There is a release for four hosts and no other; the one for Windows is a zip archive, the
/// others are tar archives. What is said of any other host names it.
pub proof fn law_releases_are_for_four_hosts(os: Seq<char>, arch: Seq<char>)
    ensures
        target_for(os, arch) is Some <==> {
            ||| os == "macos"@ && arch == "aarch64"@
            ||| os == "macos"@ && arch == "x86_64"@
            ||| os == "linux"@ && arch == "x86_64"@
            ||| os == "windows"@ && arch == "x86_64"@
        },
        target_for(os, arch) matches Some(found) ==> (found.1 == ArchiveKind::Zip <==> os
            == "windows"@) && (found.0 == "aarch64-apple-darwin"@ <==> os == "macos"@ && arch
            == "aarch64"@) && (found.0 == "x86_64-apple-darwin"@ <==> os == "macos"@ && arch
            == "x86_64"@) && (found.0 == "x86_64-unknown-linux-gnu"@ <==> os == "linux"@) && (
        found.0 == "x86_64-pc-windows-msvc"@ <==> os == "windows"@),
        unsupported_host_text(os, arch) == "self-update is unsupported for "@ + os + " "@ + arch,
{
    reveal_strlit("macos");
    reveal_strlit("linux");
    reveal_strlit("windows");
    reveal_strlit("aarch64");
    reveal_strlit("x86_64");
    reveal_strlit("aarch64-apple-darwin");
    reveal_strlit("x86_64-apple-darwin");
    reveal_strlit("x86_64-unknown-linux-gnu");
    reveal_strlit("x86_64-pc-windows-msvc");
    assert("macos"@[0] != "linux"@[0]);
    assert("macos"@.len() != "windows"@.len());
    assert("linux"@.len() != "windows"@.len());
    assert("aarch64"@.len() != "x86_64"@.len());
    assert("aarch64-apple-darwin"@.len() == 20);
    assert("x86_64-apple-darwin"@.len() == 19);
    assert("x86_64-unknown-linux-gnu"@.len() == 24);
    assert("x86_64-pc-windows-msvc"@.len() == 22);
}

/// An archive is named by the program, its target and its kind, and is fetched from the latest
/// release by its name.
pub proof fn law_archives_are_named_by_their_target(
    target: Seq<char>,
    kind: ArchiveKind,
    asset_name: Seq<char>,
)
    ensures
        ("gemini-live-transcribe-"@ + target).is_prefix_of(asset_name_for(target, kind)),
        kind == ArchiveKind::TarGz ==> asset_name_for(target, kind) == "gemini-live-transcribe-"@
            + target + ".tar.gz"@,
        kind == ArchiveKind::Zip ==> asset_name_for(target, kind) == "gemini-live-transcribe-"@
            + target + ".zip"@,
        download_url_for(asset_name)
            == "https://github.com/JacobLinCool/gemini-live-transcribe/releases/latest/download/"@
            + asset_name,
{
    reveal_strlit("gemini-live-transcribe-");
    reveal_strlit("gemini-live-transcribe");
    reveal_strlit("-");
    assert(BINARY_NAME@ + "-"@ == "gemini-live-transcribe-"@);
    let short = "gemini-live-transcribe-"@ + target;
    let name = asset_name_for(target, kind);
    assert(name.take(short.len() as int) == short);
    reveal_strlit("https://github.com/");
    reveal_strlit("JacobLinCool");
    reveal_strlit("/");
    reveal_strlit("/releases/latest/download/");
    reveal_strlit(
        "https://github.com/JacobLinCool/gemini-live-transcribe/releases/latest/download/",
    );
    assert("https://github.com/"@ + REPO_OWNER@ + "/"@ + REPO_NAME@ + "/releases/latest/download/"@
        == "https://github.com/JacobLinCool/gemini-live-transcribe/releases/latest/download/"@);
}

/// An archive is fetched from the address given to the path given: on Windows by PowerShell, which
/// is told both by its environment, elsewhere by `curl`, which fails where the service does and
/// uses nothing but `https`.
pub proof fn law_archives_are_fetched_to_their_path<P>(
    platform: Platform,
    url: Seq<char>,
    archive: P,
)
    ensures
        ({
            let command = download_view(platform, url, archive);
            &&& platform == Platform::Windows ==> {
                &&& command.program == "powershell"@
                &&& command.env.contains(("GEMINI_UPDATE_URL"@, WordView::Text(url)))
                &&& command.env.contains(("GEMINI_UPDATE_OUT"@, WordView::Path(archive)))
                &&& command.env.len() == 2
            }
            &&& platform != Platform::Windows ==> {
                &&& command.program == "curl"@
                &&& command.args.len() == 10
                &&& command.args.last() == WordView::<P>::Path(archive)
                &&& command.args[8] == WordView::<P>::Text("--output"@)
                &&& command.args[7] == WordView::<P>::Text(url)
                &&& command.args.contains(WordView::Text("--fail"@))
                &&& command.args[4] == WordView::<P>::Text("--proto"@)
                &&& command.args[5] == WordView::<P>::Text("=https"@)
                &&& command.env.len() == 0
            }
        }),
{
    let command = download_view(platform, url, archive);
    if platform == Platform::Windows {
        assert(command.env[0] == ("GEMINI_UPDATE_URL"@, WordView::<P>::Text(url)));
        assert(command.env[1] == ("GEMINI_UPDATE_OUT"@, WordView::<P>::Path(archive)));
    } else {
        assert(command.args[0] == WordView::<P>::Text("--fail"@));
    }
}

/// What a failed command said is its errors, trimmed, unless they are blank: then it is its
/// output, trimmed.
pub proof fn law_errors_come_before_output(stdout: Seq<u8>, stderr: Seq<u8>)
    ensures
        trimmed(lossy_text(stderr)).len() > 0 ==> failure_detail(stdout, stderr) == trimmed(
            lossy_text(stderr),
        ),
        trimmed(lossy_text(stderr)).len() == 0 ==> failure_detail(stdout, stderr) == trimmed(
            lossy_text(stdout),
        ),
{
}

/// Another name for a temporary directory is tried exactly where one was taken and fewer than
/// thirty-two were tried; what was made is used, and any other failure ends the update.
pub proof fn law_taken_names_are_passed_over(attempt: u32, outcome: DirOutcome, step: DirStep)
    requires
        call_ensures(create_temp_dir, (attempt, outcome), step),
    ensures
        step is Use <==> outcome is Made,
        step is Fail <==> outcome is Failed,
        step is TryAgain <==> outcome is Taken && attempt < 31,
        step is GiveUp <==> outcome is Taken && attempt >= 31,
        step matches DirStep::TryAgain { attempt: next } ==> next == attempt + 1,
{
}

/// An archive is unpacked from its path into the directory: a tar archive by `tar`, a zip archive
/// by PowerShell, and that on Windows alone.
pub proof fn law_archives_are_unpacked_into_their_directory<P>(
    platform: Platform,
    kind: ArchiveKind,
    archive: P,
    dir: P,
    result: Result<CommandPlan<P>, UpdateError>,
)
    requires
        call_ensures(extract_release_archive::<P>, (platform, kind, archive, dir), result),
    ensures
        result is Err <==> kind == ArchiveKind::Zip && platform != Platform::Windows,
        kind == ArchiveKind::TarGz ==> (result matches Ok(plan) && {
            &&& plan@.program == "tar"@
            &&& plan@.args.len() == 4
            &&& plan@.args[1] == WordView::Path(archive)
            &&& plan@.args[2] == WordView::<P>::Text("-C"@)
            &&& plan@.args[3] == WordView::Path(dir)
        }),
        kind == ArchiveKind::Zip ==> (result matches Ok(plan) ==> {
            &&& plan@.program == "powershell"@
            &&& plan@.env.len() == 2
            &&& plan@.env[0].1 == WordView::Path(archive)
            &&& plan@.env[1].1 == WordView::Path(dir)
        }),
{
}

/// The release for a host is found exactly where there is one, and is fetched by its name.
pub proof fn law_releases_are_found(
    os: &str,
    arch: &str,
    result: Result<ReleaseSpec, UpdateError>,
)
    requires
        call_ensures(ReleaseSpec::new, (os, arch), result),
    ensures
        result is Ok <==> {
            ||| os@ == "macos"@ && (arch@ == "aarch64"@ || arch@ == "x86_64"@)
            ||| os@ == "linux"@ && arch@ == "x86_64"@
            ||| os@ == "windows"@ && arch@ == "x86_64"@
        },
        result matches Ok(release) ==> {
            &&& release.archive_kind == ArchiveKind::Zip <==> os@ == "windows"@
            &&& ("gemini-live-transcribe-"@ + release.target@).is_prefix_of(release.asset_name@)
            &&& release.asset_name@.is_suffix_of(release.download_url@)
        },
{
    law_releases_are_for_four_hosts(os@, arch@);
    if let Ok(release) = result {
        law_archives_are_named_by_their_target(
            release.target@,
            release.archive_kind,
            release.asset_name@,
        );
        let url = release.download_url@;
        let name = release.asset_name@;
        assert(url.subrange(url.len() - name.len(), url.len() as int) == name);
    }
}

} // verus!
