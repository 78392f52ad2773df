use audio_hub::device::{
    deduplicate_sessions, device_direction, session_display_name, AudioSession, DeviceDirection,
};

#[test]
fn duplicate_sessions_prefer_the_current_default_output() {
    let mut sessions = vec![
        AudioSession {
            display_name: "Player".to_string(),
            process_name: Some("player.exe".to_string()),
            device_id: "other".to_string(),
            pid: 9,
            volume: 0.2,
            muted: false,
        },
        AudioSession {
            display_name: "Player".to_string(),
            process_name: Some("player.exe".to_string()),
            device_id: "default".to_string(),
            pid: 9,
            volume: 0.8,
            muted: false,
        },
    ];
    deduplicate_sessions(&mut sessions, Some("default"));
    assert_eq!(sessions.len(), 1);
    assert_eq!(sessions[0].device_id, "default");
    assert_eq!(sessions[0].volume, 0.8);
}

#[test]
fn distinct_processes_are_all_kept() {
    let mut sessions = vec![
        AudioSession {
            display_name: "A".to_string(),
            process_name: None,
            device_id: "x".to_string(),
            pid: 1,
            volume: 0.5f32,
            muted: false,
        },
        AudioSession {
            display_name: "B".to_string(),
            process_name: None,
            device_id: "x".to_string(),
            pid: 2,
            volume: 0.5f32,
            muted: true,
        },
    ];
    deduplicate_sessions(&mut sessions, None);
    assert_eq!(sessions.len(), 2);
}

#[test]
fn session_names_fall_back_to_process_then_system_sounds() {
    assert_eq!(
        session_display_name(Some("Chrome".to_string()), Some("chrome.exe".to_string()), 5),
        Some("Chrome".to_string())
    );
    assert_eq!(
        session_display_name(Some("@%SystemRoot%\\x.dll,-1".to_string()), Some("app.exe".to_string()), 5),
        Some("app.exe".to_string())
    );
    assert_eq!(session_display_name(None, None, 0), Some("系统音效".to_string()));
    assert_eq!(session_display_name(Some(String::new()), None, 5), None);
}

#[test]
fn capture_endpoints_are_recognised_by_their_identifier() {
    assert_eq!(device_direction("{0.0.1.00000000}.{guid}"), DeviceDirection::Input);
    assert_eq!(device_direction("{0.0.0.00000000}.{guid}"), DeviceDirection::Output);
}
