use gemini_live_transcribe::paths::{
    home_config_path, home_debug_dir, home_logs_dir, home_transcripts_dir, HomeVariables, Platform,
    RootedPath,
};

fn joined(path: Option<RootedPath<String>>) -> String {
    let path = path.expect("a path");
    let mut text = path.base;
    for segment in path.segments {
        text.push('/');
        text.push_str(&segment);
    }
    text
}

fn all() -> HomeVariables<String> {
    HomeVariables {
        home: Some("/home".into()),
        xdg_config_home: Some("/xdg/config".into()),
        xdg_data_home: Some("/xdg/data".into()),
        app_data: Some("/roaming".into()),
        local_app_data: Some("/local".into()),
    }
}

fn home_only() -> HomeVariables<String> {
    HomeVariables {
        home: Some("/home".into()),
        xdg_config_home: None,
        xdg_data_home: None,
        app_data: None,
        local_app_data: None,
    }
}

#[test]
fn mac_paths_stand_in_application_support() {
    let app = "/home/Library/Application Support/gemini-live-transcribe";
    assert_eq!(joined(home_config_path(Platform::MacOs, all())), format!("{app}/config.toml"));
    assert_eq!(joined(home_logs_dir(Platform::MacOs, all())), format!("{app}/logs"));
    assert_eq!(joined(home_transcripts_dir(Platform::MacOs, all())), format!("{app}/transcripts"));
    assert_eq!(joined(home_debug_dir(Platform::MacOs, all())), format!("{app}/debug"));
}

#[test]
fn linux_paths_follow_the_xdg_variables() {
    assert_eq!(
        joined(home_config_path(Platform::Linux, all())),
        "/xdg/config/gemini-live-transcribe/config.toml"
    );
    let data = "/xdg/data/gemini-live-transcribe";
    assert_eq!(joined(home_logs_dir(Platform::Linux, all())), format!("{data}/logs"));
    assert_eq!(joined(home_transcripts_dir(Platform::Linux, all())), format!("{data}/transcripts"));
    assert_eq!(joined(home_debug_dir(Platform::Linux, all())), format!("{data}/debug"));
}

#[test]
fn linux_paths_fall_back_to_the_home() {
    assert_eq!(
        joined(home_config_path(Platform::Linux, home_only())),
        "/home/.config/gemini-live-transcribe/config.toml"
    );
    assert_eq!(
        joined(home_logs_dir(Platform::Linux, home_only())),
        "/home/.local/share/gemini-live-transcribe/logs"
    );
}

#[test]
fn windows_paths_stand_in_app_data() {
    assert_eq!(
        joined(home_config_path(Platform::Windows, all())),
        "/roaming/gemini-live-transcribe/config/config.toml"
    );
    let data = "/local/gemini-live-transcribe/data";
    assert_eq!(joined(home_logs_dir(Platform::Windows, all())), format!("{data}/logs"));
    assert_eq!(
        joined(home_transcripts_dir(Platform::Windows, all())),
        format!("{data}/transcripts")
    );
    assert_eq!(joined(home_debug_dir(Platform::Windows, all())), format!("{data}/debug"));
    assert!(home_config_path(Platform::Windows, home_only()).is_none());
    assert!(home_debug_dir(Platform::Windows, home_only()).is_none());
}
