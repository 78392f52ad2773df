use audio_hub::profile::{profile_name_of_file, sort_names};
use audio_hub::device::AudioSession;
use audio_hub::profile::{apply_target, Profile};
use audio_hub::profile::{profile_path, validate_name};

#[test]
fn accepts_normal_profile_names() {
    assert!(validate_name("默认配置").is_ok());
    assert!(validate_name("Game Mode 1").is_ok());
}

#[test]
fn rejects_path_traversal_and_reserved_names() {
    for name in ["../escape", r"..\escape", "C:\\escape", "CON", "LPT1.json"] {
        assert!(validate_name(name).is_err(), "{name} 应被拒绝");
    }
}

#[test]
fn profile_name_errors_come_in_order() {
    assert_eq!(validate_name("").unwrap_err(), "配置名称不能为空，且首尾不能包含空格");
    assert_eq!(validate_name(" 前后空格").unwrap_err(), "配置名称不能为空，且首尾不能包含空格");
    let long = "a".repeat(65);
    assert_eq!(validate_name(&long).unwrap_err(), "配置名称不能超过 64 个字符");
    assert!(validate_name(&"a".repeat(64)).is_ok());
    assert_eq!(validate_name("a*b").unwrap_err(), "配置名称包含 Windows 文件名不允许的字符");
    assert_eq!(validate_name("name.").unwrap_err(), "配置名称包含 Windows 文件名不允许的字符");
    assert_eq!(validate_name("tab\there").unwrap_err(), "配置名称包含 Windows 文件名不允许的字符");
    assert_eq!(validate_name("nul.txt").unwrap_err(), "配置名称不能使用 Windows 保留设备名");
}

#[test]
fn reserved_port_names_follow_u8_parsing() {
    assert!(validate_name("COM1").is_err());
    assert!(validate_name("com9").is_err());
    assert!(validate_name("COM+5").is_err());
    assert!(validate_name("LPT007").is_err());
    assert!(validate_name("COM0").is_ok());
    assert!(validate_name("COM10").is_ok());
    assert!(validate_name("COM").is_ok());
    assert!(validate_name("COM+").is_ok());
    assert!(validate_name("COM-1").is_ok());
    assert!(validate_name("CONSOLE").is_ok());
}

#[test]
fn profile_path_appends_the_json_file() {
    let path = profile_path("profiles", "Game Mode 1").unwrap();
    assert!(path.starts_with("profiles"));
    assert!(path.ends_with("Game Mode 1.json"));
    assert_eq!(path.len(), "profiles".len() + 1 + "Game Mode 1.json".len());
    assert_eq!(profile_path("profiles", "CON").unwrap_err(), "配置名称不能使用 Windows 保留设备名");
}

#[test]
fn profile_files_and_names() {
    assert_eq!(profile_name_of_file("Game.json").as_deref(), Some("Game"));
    assert_eq!(profile_name_of_file("Game.json.json").as_deref(), Some("Game"));
    assert_eq!(profile_name_of_file("Game.txt"), None);
    assert_eq!(profile_name_of_file("CON.json"), None);
    let sorted = sort_names(vec!["b".to_string(), "a".to_string(), "默认".to_string(), "a".to_string()]);
    assert_eq!(sorted, vec!["a", "a", "b", "默认"]);
}

#[test]
fn profiles_apply_by_pid_then_by_name() {
    let sessions = vec![
        AudioSession {
            display_name: "Music".to_string(),
            process_name: None,
            device_id: "d".to_string(),
            pid: 10,
            volume: 0.5f32,
            muted: false,
        },
        AudioSession {
            display_name: "Game".to_string(),
            process_name: None,
            device_id: "d".to_string(),
            pid: 11,
            volume: 0.7f32,
            muted: true,
        },
    ];
    let profile = Profile::from_sessions("快照", &sessions);
    assert_eq!(profile.entries.len(), 2);
    assert_eq!(profile.entries[1].volume, 0.7);
    assert_eq!(apply_target(11, "Whatever", &sessions), Some(11));
    assert_eq!(apply_target(99, "GAME", &sessions), Some(11));
    assert_eq!(apply_target(99, "Chat", &sessions), None);
}
