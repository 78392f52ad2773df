use audio_hub::device::AudioSession;
use audio_hub::mute_round::{reconcile, restore_all, PollState};
use audio_hub::settings::UnfocusedMuteApplication;
use audio_hub::unfocused_mute::{RestoreEntry, RuntimeState};

fn session(process: &str, device: &str, pid: u32, muted: bool) -> AudioSession<f32> {
    AudioSession {
        display_name: "Example Player".to_string(),
        process_name: Some(process.to_string()),
        device_id: device.to_string(),
        pid,
        volume: 0.8,
        muted,
    }
}

fn selected(apps: &[&str]) -> RuntimeState {
    let applications: Vec<UnfocusedMuteApplication> = apps
        .iter()
        .map(|key| UnfocusedMuteApplication { key: key.to_string(), display_name: key.to_string() })
        .collect();
    RuntimeState::from_saved(&applications, Vec::new())
}

#[test]
fn a_round_mutes_an_unfocused_application_and_a_paused_round_puts_it_back() {
    let mut state = selected(&["player"]);
    let sessions = vec![session("player.exe", "speakers", 42, false)];
    let read = |_: &RestoreEntry| Some(Some(false));
    let ok = |_: u32, _: &str, _: bool| true;
    let active = |_: &str, _: u32| Some(Some(false));
    let (changed, calls) = reconcile(&mut state, Some("editor".to_string()), &sessions, &read, &ok, &active);
    assert!(changed);
    assert_eq!(calls.len(), 1);
    assert_eq!((calls[0].pid, calls[0].device_id.as_str(), calls[0].muted), (42, "speakers", true));
    assert_eq!(state.auto_muted.len(), 1);
    assert!(!state.auto_muted[0].was_muted);

    state.toggle_paused();
    let muted_sessions = vec![session("player.exe", "speakers", 42, true)];
    let read_muted = |_: &RestoreEntry| Some(Some(true));
    let (changed, calls) =
        reconcile(&mut state, Some("editor".to_string()), &muted_sessions, &read_muted, &ok, &active);
    assert!(changed);
    assert_eq!(calls.len(), 1);
    assert_eq!((calls[0].pid, calls[0].muted), (42, false));
    assert!(state.auto_muted.is_empty());
    assert!(state.pending_restores.is_empty());
}

#[test]
fn a_failed_mute_records_nothing_and_the_foreground_is_left_alone() {
    let mut state = selected(&["player"]);
    let sessions = vec![session("player.exe", "speakers", 42, false)];
    let read = |_: &RestoreEntry| Some(Some(false));
    let fail = |_: u32, _: &str, _: bool| false;
    let active = |_: &str, _: u32| None;
    let (changed, calls) = reconcile(&mut state, Some("editor".to_string()), &sessions, &read, &fail, &active);
    assert!(!changed);
    assert_eq!(calls.len(), 1);
    assert!(state.auto_muted.is_empty());
    let (changed, calls) = reconcile(&mut state, Some("player".to_string()), &sessions, &read, &fail, &active);
    assert!(!changed);
    assert!(calls.is_empty());
}

#[test]
fn restore_all_puts_back_what_it_can() {
    let mut state = selected(&["player"]);
    let sessions = vec![session("player.exe", "speakers", 42, false), session("game.exe", "speakers", 7, true)];
    let read = |_: &RestoreEntry| Some(Some(false));
    let ok = |_: u32, _: &str, _: bool| true;
    let active = |_: &str, _: u32| None;
    reconcile(&mut state, None, &sessions, &read, &ok, &active);
    assert_eq!(state.auto_muted.len(), 1);
    let read_muted = |_: &RestoreEntry| Some(Some(true));
    let fail = |_: u32, _: &str, _: bool| false;
    let calls = restore_all(&mut state, &read_muted, &fail);
    assert_eq!(calls.len(), 1);
    assert!(!calls[0].muted);
    assert_eq!(state.auto_muted.len(), 1);
    let calls = restore_all(&mut state, &read_muted, &ok);
    assert_eq!(calls.len(), 1);
    assert!(state.auto_muted.is_empty());
}

#[test]
fn polling_runs_a_round_on_a_new_foreground_or_after_the_interval() {
    let mut poll = PollState::new();
    let first = poll.poll(100, 0);
    assert!(first.foreground_changed && first.reconcile);
    let same = poll.poll(100, 1000);
    assert!(!same.foreground_changed && !same.reconcile);
    let due = poll.poll(100, 1500);
    assert!(!due.foreground_changed && due.reconcile);
    let switched = poll.poll(200, 1600);
    assert!(switched.foreground_changed && switched.reconcile);
    assert_eq!(poll.last_refresh_ms, Some(1600));
}
