use audio_hub::device::{AudioDevice, AudioSession};
use audio_hub::str_map::StrMap;
use audio_hub::volume_follow::{
    apply_targets, build_snapshot, merge_snapshot, DeviceVolumeSnapshot, OutputChange,
    SessionVolumeSnapshot, VolumeFollowState,
};

fn session(display: &str, process: &str, device: &str, pid: u32, volume: f32, muted: bool) -> AudioSession<f32> {
    AudioSession {
        display_name: display.to_string(),
        process_name: Some(process.to_string()),
        device_id: device.to_string(),
        pid,
        volume,
        muted,
    }
}

#[test]
fn snapshot_uses_stable_process_name_and_excludes_temporary_mute() {
    let sessions = vec![session("Discord Voice", "Discord.exe", "device-a", 42, 0.65, true)];
    let auto_muted = vec!["discord".to_string()];
    let snapshot = build_snapshot("Speakers", &sessions, &auto_muted, 0);
    let saved = snapshot.sessions.get("discord").unwrap();
    assert_eq!(saved.volume, 0.65);
    assert!(!saved.muted);
}

#[test]
fn merging_active_sessions_keeps_inactive_application_memory() {
    let mut sessions_map = StrMap::new();
    sessions_map.insert(
        "game".to_string(),
        SessionVolumeSnapshot {
            display_name: "Game".to_string(),
            volume: 0.25f32,
            muted: false,
        },
    );
    let mut snapshot = DeviceVolumeSnapshot {
        device_name: "Old Name".to_string(),
        updated_at: 1,
        sessions: sessions_map,
    };
    let sessions = vec![session("Music", "music.exe", "device-b", 7, 0.8, false)];
    merge_snapshot(&mut snapshot, "New Name", &sessions, &Vec::new(), 2);
    assert!(snapshot.sessions.contains_key("game"));
    assert_eq!(snapshot.sessions.get("music").unwrap().volume, 0.8);
    assert_eq!(snapshot.device_name, "New Name");
}

#[test]
fn apply_targets_take_the_first_session_of_each_remembered_process() {
    let snapshot = build_snapshot(
        "Speakers",
        &[session("Game", "game.exe", "d", 1, 0.3, true)],
        &Vec::new(),
        5,
    );
    let sessions = vec![
        session("Game", "game.exe", "d", 10, 0.9, false),
        session("Game", "game.exe", "d", 10, 0.9, false),
        session("Other", "other.exe", "d", 11, 0.9, false),
    ];
    let targets = apply_targets(&sessions, &snapshot);
    assert_eq!(targets.len(), 1);
    assert_eq!(targets[0].pid, 10);
    assert_eq!(targets[0].volume, 0.3);
    assert!(targets[0].muted);
}

fn device(id: &str, name: &str) -> AudioDevice {
    AudioDevice { name: name.to_string(), device_id: id.to_string(), is_default: true }
}

#[test]
fn following_the_default_speaker() {
    let mut state: VolumeFollowState<f32> = VolumeFollowState::new();
    let speakers = device("spk", "Speakers");
    let headphones = device("hp", "Headphones");
    let playing = vec![session("Game", "game.exe", "spk", 1, 0.4, false)];
    assert!(matches!(
        state.default_output_changed(&speakers, &playing, &[], &Vec::new(), 1),
        OutputChange::Recorded
    ));
    state.configure(true, None, &speakers, Some(&playing), &Vec::new(), 2);
    assert!(state.snapshots.contains_key("spk"));
    assert!(matches!(
        state.default_output_changed(&speakers, &playing, &[], &Vec::new(), 3),
        OutputChange::Unchanged
    ));
    match state.default_output_changed(&headphones, &playing, &playing, &Vec::new(), 4) {
        OutputChange::Switched { snapshot_found, targets } => {
            assert!(!snapshot_found);
            assert!(targets.is_empty());
        }
        other => panic!("unexpected {other:?}"),
    }
    match state.default_output_changed(&speakers, &playing, &[], &Vec::new(), 5) {
        OutputChange::Switched { snapshot_found, targets } => {
            assert!(snapshot_found);
            assert_eq!(targets.len(), 1);
            assert_eq!(targets[0].volume, 0.4);
        }
        other => panic!("unexpected {other:?}"),
    }
    let status = state.status();
    assert!(status.enabled);
    assert_eq!(status.current_device_id.as_deref(), Some("spk"));
    let target = state.capture_target(None).unwrap();
    assert_eq!(target.0, "spk");
    assert_eq!(target.1.as_deref(), Some("Speakers"));
    let target = state.capture_target(Some("hp")).unwrap();
    assert_eq!(target.1, None);
    state.record_capture("hp", "Headphones", &playing, &Vec::new(), 6);
    assert_eq!(state.snapshots.get("hp").unwrap().updated_at, 6);
    assert!(state.current_snapshot().is_some());
}

#[test]
fn switching_speakers_saves_the_old_speaker_first() {
    let mut state: VolumeFollowState<f32> = VolumeFollowState::new();
    let speakers = device("spk", "Speakers");
    let headphones = device("hp", "Headphones");
    let before = vec![session("Game", "game.exe", "spk", 1, 0.4, false)];
    state.configure(true, None, &speakers, Some(&before), &Vec::new(), 1);
    let now_on_speakers = vec![session("Game", "game.exe", "spk", 1, 0.9, true)];
    let on_headphones = vec![session("Game", "game.exe", "hp", 1, 0.2, false)];
    state.default_output_changed(&headphones, &on_headphones, &now_on_speakers, &Vec::new(), 7);
    let saved = state.snapshots.get("spk").unwrap();
    assert_eq!(saved.updated_at, 7);
    assert_eq!(saved.device_name, "Speakers");
    assert_eq!(saved.sessions.get("game").unwrap().volume, 0.9);
    assert!(saved.sessions.get("game").unwrap().muted);
    match state.default_output_changed(&speakers, &on_headphones, &on_headphones, &Vec::new(), 8) {
        OutputChange::Switched { snapshot_found, targets } => {
            assert!(snapshot_found);
            assert_eq!(targets[0].volume, 0.9);
            assert!(targets[0].muted);
        }
        other => panic!("unexpected {other:?}"),
    }
    assert_eq!(state.snapshots.get("hp").unwrap().sessions.get("game").unwrap().volume, 0.2);
}
