use gemini_live_transcribe::paths::Platform;
use gemini_live_transcribe::updater::{
    command_failure, create_temp_dir, download_action, download_release_archive, extract_action,
    extract_release_archive, release_asset_name, release_download_url, release_target_for,
    temp_dir_name, ArchiveKind, CommandPlan, DirOutcome, DirStep, ReleaseSpec, UpdateError, Word,
    TEMP_DIR_ATTEMPTS,
};

#[test]
fn another_name_is_tried_where_one_is_taken() {
    assert_eq!(create_temp_dir(0, DirOutcome::Made), DirStep::Use);
    assert_eq!(create_temp_dir(0, DirOutcome::Failed), DirStep::Fail);
    assert_eq!(create_temp_dir(0, DirOutcome::Taken), DirStep::TryAgain { attempt: 1 });
    assert_eq!(create_temp_dir(30, DirOutcome::Taken), DirStep::TryAgain { attempt: 31 });
    assert_eq!(create_temp_dir(TEMP_DIR_ATTEMPTS - 1, DirOutcome::Taken), DirStep::GiveUp);
    assert_eq!(create_temp_dir(u32::MAX, DirOutcome::Taken), DirStep::GiveUp);
}

#[test]
fn maps_supported_release_targets() {
    assert_eq!(
        release_target_for("macos", "aarch64").expect("arm64 target should be supported"),
        ("aarch64-apple-darwin", ArchiveKind::TarGz)
    );
    assert_eq!(
        release_target_for("macos", "x86_64").expect("x64 target should be supported"),
        ("x86_64-apple-darwin", ArchiveKind::TarGz)
    );
    assert_eq!(
        release_target_for("linux", "x86_64").expect("linux x64 target should be supported"),
        ("x86_64-unknown-linux-gnu", ArchiveKind::TarGz)
    );
    assert_eq!(
        release_target_for("windows", "x86_64").expect("windows x64 target should be supported"),
        ("x86_64-pc-windows-msvc", ArchiveKind::Zip)
    );
}

#[test]
fn rejects_unsupported_release_targets() {
    let error =
        release_target_for("linux", "aarch64").expect_err("linux arm64 should not be supported");
    assert!(error.message().contains("self-update is unsupported"));
}

#[test]
fn builds_consistent_release_asset_names() {
    assert_eq!(
        release_asset_name("aarch64-apple-darwin", ArchiveKind::TarGz),
        "gemini-live-transcribe-aarch64-apple-darwin.tar.gz"
    );
    assert_eq!(
        release_asset_name("x86_64-pc-windows-msvc", ArchiveKind::Zip),
        "gemini-live-transcribe-x86_64-pc-windows-msvc.zip"
    );
}

#[test]
fn builds_consistent_release_download_url() {
    assert_eq!(
        release_download_url("gemini-live-transcribe-x86_64-unknown-linux-gnu.tar.gz"),
        "https://github.com/JacobLinCool/gemini-live-transcribe/releases/latest/download/gemini-live-transcribe-x86_64-unknown-linux-gnu.tar.gz"
    );
}

#[test]
fn release_spec_tracks_binary_name_by_archive_kind() {
    let mac = ReleaseSpec::new("macos", "aarch64").expect("spec should build");
    assert_eq!(mac.binary_file_name(), "gemini-live-transcribe");

    let windows = ReleaseSpec::new("windows", "x86_64").expect("spec should build");
    assert_eq!(windows.binary_file_name(), "gemini-live-transcribe.exe");
}

#[test]
fn release_spec_names_its_download() {
    let linux = ReleaseSpec::new("linux", "x86_64").expect("spec should build");
    assert_eq!(linux.target, "x86_64-unknown-linux-gnu");
    assert_eq!(linux.download_url, release_download_url(&linux.asset_name));
    let error = ReleaseSpec::new("plan9", "mips").expect_err("no release");
    assert!(matches!(error, UpdateError::UnsupportedHost(_)));
    assert_eq!(error.message(), "self-update is unsupported for plan9 mips");
}

fn spelled(plan: &CommandPlan<&'static str>) -> Vec<String> {
    let word = |word: &Word<&'static str>| match word {
        Word::Text(text) => text.clone(),
        Word::Path(path) => format!("<{path}>"),
    };
    let mut words = vec![plan.program.to_string()];
    words.extend(plan.args.iter().map(word));
    words.extend(plan.env.iter().map(|(name, value)| format!("{name}={}", word(value))));
    words
}

#[test]
fn archives_are_fetched_by_curl_or_powershell() {
    assert_eq!(
        spelled(&download_release_archive(Platform::Linux, "https://x/a", "a.tar.gz")),
        vec![
            "curl",
            "--fail",
            "--silent",
            "--show-error",
            "--location",
            "--proto",
            "=https",
            "--tlsv1.2",
            "https://x/a",
            "--output",
            "<a.tar.gz>",
        ]
    );
    let windows = spelled(&download_release_archive(Platform::Windows, "https://x/a", "a.zip"));
    assert_eq!(windows[0], "powershell");
    assert_eq!(windows[windows.len() - 2], "GEMINI_UPDATE_URL=https://x/a");
    assert_eq!(windows[windows.len() - 1], "GEMINI_UPDATE_OUT=<a.zip>");
}

#[test]
fn archives_are_unpacked_by_tar_or_powershell() {
    let tar = extract_release_archive(Platform::MacOs, ArchiveKind::TarGz, "a.tar.gz", "dir")
        .expect("a command");
    assert_eq!(spelled(&tar), vec!["tar", "-xzf", "<a.tar.gz>", "-C", "<dir>"]);
    let zip = extract_release_archive(Platform::Windows, ArchiveKind::Zip, "a.zip", "dir")
        .expect("a command");
    let words = spelled(&zip);
    assert_eq!(words[words.len() - 1], "GEMINI_UPDATE_DEST=<dir>");
    let error = extract_release_archive(Platform::Linux, ArchiveKind::Zip, "a.zip", "dir")
        .expect_err("no zip off Windows");
    assert!(matches!(error, UpdateError::ZipOffWindows));
    assert_eq!(error.message(), "zip extraction is only supported on Windows hosts");
}

#[test]
fn failed_commands_are_explained() {
    let said = command_failure("fetch", "exit status: 1", &b"out".to_vec(), &b" err\n".to_vec());
    assert_eq!(said.message(), "fetch failed: err");
    let out = command_failure("fetch", "exit status: 1", &b" out ".to_vec(), &b"  ".to_vec());
    assert_eq!(out.message(), "fetch failed: out");
    let mute = command_failure("fetch", "exit status: 1", &vec![], &vec![]);
    assert_eq!(mute.message(), "fetch failed with status exit status: 1");
    let broken = command_failure("fetch", "exit status: 1", &vec![], &vec![0x61, 0xff]);
    assert_eq!(broken.message(), "fetch failed: a\u{fffd}");
    assert_eq!(UpdateError::NoTempDir.message(), "unable to create temp dir for self-update");
}

#[test]
fn update_steps_have_names() {
    assert_eq!(temp_dir_name(12, 345, 0), "gemini-live-transcribe-update-12-345-0");
    assert_eq!(download_action("u"), "download release archive from u");
    assert_eq!(extract_action("p"), "extract release archive p");
}
