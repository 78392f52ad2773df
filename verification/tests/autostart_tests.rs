use audio_hub::autostart::{current_command, is_enabled, set_enabled, RunKeyChange};
use audio_hub::settings::{settings_path, AppSettings, CloseBehavior};

#[test]
fn the_command_is_the_quoted_program_path() {
    assert_eq!(
        current_command("C:\\Program Files\\Audio Hub\\audio-hub.exe").unwrap(),
        "\"C:\\Program Files\\Audio Hub\\audio-hub.exe\""
    );
    assert_eq!(
        current_command("C:\\bad\"path.exe").unwrap_err(),
        "程序路径包含不受支持的双引号"
    );
}

#[test]
fn autostart_reads_back_what_was_registered() {
    let path = "C:\\Apps\\audio-hub.exe";
    let command = match set_enabled(true, path).unwrap() {
        RunKeyChange::Register(command) => command,
        RunKeyChange::Unregister => panic!("expected a command"),
    };
    assert_eq!(is_enabled(Some(&command), path), Ok(true));
    assert_eq!(is_enabled(Some(&command.to_uppercase()), path), Ok(true));
    assert_eq!(is_enabled(Some("\"C:\\Other.exe\""), path), Ok(false));
    assert!(matches!(set_enabled(false, path), Ok(RunKeyChange::Unregister)));
    assert_eq!(is_enabled(None, path), Ok(false));
    assert!(is_enabled(Some("x"), "bad\"path").is_err());
}

#[test]
fn settings_defaults_and_close_choice() {
    let mut settings = AppSettings::default();
    assert_eq!(settings.close_behavior, CloseBehavior::Minimize);
    assert!(!settings.close_behavior_state().chosen);
    settings.choose_close_behavior(CloseBehavior::Quit);
    let state = settings.close_behavior_state();
    assert_eq!(state.behavior, CloseBehavior::Quit);
    assert!(state.chosen);
    assert_eq!(CloseBehavior::default(), CloseBehavior::Minimize);
}

#[test]
fn settings_file_lies_in_the_data_folder() {
    let path = settings_path("data");
    assert!(path.starts_with("data"));
    assert!(path.ends_with("settings.json"));
    assert_eq!(path.len(), "data".len() + 1 + "settings.json".len());
    assert_eq!(settings_path(""), "settings.json");
}
