use audio_hub::device::{find_application_session, session_app_key, AudioSession};
use audio_hub::settings::UnfocusedMuteApplication;
use audio_hub::unfocused_mute::{
    activity_plan, auto_muted_baselines, effective_output_device, entry_session_muted,
    normalize_app_key,
    pending_restore_plan, restore_entry_matches_session, restore_pending_plan, session_for_pid,
    session_needs_mute, status_from_state, tracked_entry_plan, PendingRestoreAction,
    RestoreEntry, RestoreStep, RuntimeState, TrackedPlan, mute_call_needed, restore_step_outcome,
    strip_exe_suffix, tracked_mute_call,
};

fn session(process: &str, device: &str, pid: u32, muted: bool) -> AudioSession<f32> {
    AudioSession {
        display_name: "Example Player".to_string(),
        process_name: Some(process.to_string()),
        device_id: device.to_string(),
        pid,
        volume: 0.8,
        muted,
    }
}

fn entry(pid: u32, key: &str, device: &str, was_muted: bool, pending: bool) -> RestoreEntry {
    RestoreEntry {
        pid,
        key: key.to_string(),
        device_id: device.to_string(),
        was_muted,
        pending_restore: pending,
    }
}

fn state(apps: &[&str], foreground: Option<&str>) -> RuntimeState {
    let applications: Vec<UnfocusedMuteApplication> = apps
        .iter()
        .map(|key| UnfocusedMuteApplication {
            key: key.to_string(),
            display_name: format!(" {key} "),
        })
        .collect();
    let mut state = RuntimeState::from_saved(&applications, Vec::new());
    state.begin_round(foreground.map(str::to_string));
    state
}

#[test]
fn normalizes_process_and_display_names_to_the_same_key() {
    assert_eq!(normalize_app_key(" Discord.EXE "), "discord");
    assert_eq!(normalize_app_key("Discord"), "discord");
    assert_eq!(normalize_app_key("网易云音乐"), "网易云音乐");
}

#[test]
fn session_matching_prefers_the_real_process_name() {
    let session = AudioSession {
        display_name: "Example Player".to_string(),
        process_name: Some("player-core.exe".to_string()),
        device_id: "device".to_string(),
        pid: 42,
        volume: 0.8,
        muted: false,
    };
    assert_eq!(session_app_key(&session), "player-core");
}

#[test]
fn restore_entry_matches_the_original_output_device() {
    let entry = entry(42, "player-core", "headphones", false, false);
    let headphones = session("player-core.exe", "headphones", 42, true);
    let speakers = AudioSession {
        device_id: "speakers".to_string(),
        ..headphones.clone()
    };
    assert!(restore_entry_matches_session(&entry, &headphones));
    assert!(!restore_entry_matches_session(&entry, &speakers));
}

#[test]
fn legacy_restore_entry_matches_without_a_device_id() {
    let entry = entry(42, "player-core", "", false, false);
    let session = session("player-core.exe", "headphones", 42, true);
    assert!(restore_entry_matches_session(&entry, &session));
}

#[test]
fn finds_the_same_application_session_after_output_migration() {
    let sessions = vec![
        AudioSession {
            display_name: "Example Player".to_string(),
            process_name: Some("player-core.exe".to_string()),
            device_id: "new-output".to_string(),
            pid: 42,
            volume: 0.8,
            muted: false,
        },
        AudioSession {
            display_name: "Other Player".to_string(),
            process_name: Some("other.exe".to_string()),
            device_id: "new-output".to_string(),
            pid: 43,
            volume: 0.5,
            muted: false,
        },
    ];

    let migrated = find_application_session(&sessions, 42, "player-core").unwrap();
    assert_eq!(migrated.device_id, "new-output");
    assert!(find_application_session(&sessions, 42, "other").is_none());
}

#[test]
fn loading_normalises_applications_and_splits_restore_records() {
    let applications = vec![
        UnfocusedMuteApplication { key: " Game.EXE ".to_string(), display_name: " Game ".to_string() },
        UnfocusedMuteApplication { key: "   ".to_string(), display_name: "blank".to_string() },
    ];
    let entries = vec![
        entry(7, "game", "speakers", false, false),
        entry(7, "game", "headphones", true, true),
        entry(7, "game", "usb", true, false),
    ];
    let state = RuntimeState::from_saved(&applications, entries);
    assert_eq!(state.applications.len(), 1);
    assert_eq!(state.applications.get("game").unwrap(), "Game");
    assert_eq!(state.auto_muted.len(), 1);
    assert_eq!(state.auto_muted[0].device_id, "usb");
    assert_eq!(state.pending_restores.len(), 1);
    assert!(!state.paused);
}

#[test]
fn foreground_and_paused_applications_are_not_muted() {
    let s = session("game.exe", "speakers", 7, false);
    let st = state(&["game"], None);
    assert!(session_needs_mute(&st, &s));
    let st = state(&["game"], Some("game"));
    assert!(!session_needs_mute(&st, &s));
    let mut st = state(&["game"], None);
    st.toggle_paused();
    assert!(!session_needs_mute(&st, &s));
    let system = session("game.exe", "speakers", 0, false);
    assert!(!session_needs_mute(&state(&["game"], None), &system));
}

#[test]
fn tracked_plans_cover_every_case() {
    let st = state(&["game"], None);
    let e = entry(7, "game", "speakers", false, false);
    let here = session("game.exe", "speakers", 7, false);
    let moved = session("game.exe", "headphones", 7, false);
    assert_eq!(tracked_entry_plan(&st, &e, Some(&here), None), TrackedPlan::Retry);
    assert_eq!(
        tracked_entry_plan(&st, &e, Some(&here), Some(Some(false))),
        TrackedPlan::KeepMuted { mute: true }
    );
    assert_eq!(
        tracked_entry_plan(&st, &e, Some(&here), Some(Some(true))),
        TrackedPlan::KeepMuted { mute: false }
    );
    assert_eq!(
        tracked_entry_plan(&st, &e, Some(&moved), Some(Some(true))),
        TrackedPlan::HandOff { mute_target: true }
    );
    let fg = state(&["game"], Some("game"));
    assert_eq!(
        tracked_entry_plan(&fg, &e, Some(&here), Some(Some(true))),
        TrackedPlan::Release { restore: Some(false) }
    );
    assert_eq!(
        tracked_entry_plan::<f32>(&fg, &e, None, None),
        TrackedPlan::Release { restore: None }
    );
}

#[test]
fn hand_off_queues_the_old_endpoint() {
    let mut st = state(&["game"], None);
    let s = session("game.exe", "speakers", 7, false);
    st.record_muted(&s);
    assert_eq!(st.auto_muted.len(), 1);
    assert!(!st.auto_muted[0].was_muted);
    let moved = session("game.exe", "headphones", 7, false);
    st.hand_off(7, &moved);
    assert_eq!(st.auto_muted[0].device_id, "headphones");
    assert_eq!(st.pending_restores.len(), 1);
    assert_eq!(st.pending_restores[0].device_id, "speakers");
    assert!(st.pending_restores[0].pending_restore);
    assert!(st.pending_covered(0) == false);
    let back = session("game.exe", "speakers", 7, true);
    st.hand_off(7, &back);
    assert_eq!(st.auto_muted[0].device_id, "speakers");
    assert!(!st.auto_muted[0].was_muted);
    assert_eq!(st.pending_restores.len(), 1);
    assert_eq!(st.pending_restores[0].device_id, "headphones");
    st.forget(7);
    assert!(st.auto_muted.is_empty());
    st.drop_pending(0);
    assert!(st.pending_restores.is_empty());
}

#[test]
fn restore_plans_put_back_the_recorded_state() {
    let e = entry(7, "game", "speakers", false, true);
    assert_eq!(
        restore_pending_plan(&e, Some(Some(true))),
        RestoreStep::SetMute {
            muted: false,
            on_success: PendingRestoreAction::RestoredOrGone,
            on_failure: PendingRestoreAction::Keep
        }
    );
    assert_eq!(
        restore_pending_plan(&e, Some(None)),
        RestoreStep::Finish(PendingRestoreAction::RestoredOrGone)
    );
    assert_eq!(restore_pending_plan(&e, None), RestoreStep::Finish(PendingRestoreAction::Keep));
    assert_eq!(
        pending_restore_plan(&e, Some(Some(true))),
        RestoreStep::CheckActivity { muted_now: true }
    );
    assert_eq!(
        activity_plan(true, Some(Some(true))),
        RestoreStep::Finish(PendingRestoreAction::Keep)
    );
    assert_eq!(
        activity_plan(true, Some(Some(false))),
        RestoreStep::SetMute {
            muted: false,
            on_success: PendingRestoreAction::RestoredOrGone,
            on_failure: PendingRestoreAction::Keep
        }
    );
    let muted_before = entry(7, "game", "speakers", true, true);
    assert_eq!(
        pending_restore_plan(&muted_before, Some(Some(true))),
        RestoreStep::Finish(PendingRestoreAction::RestoredOrGone)
    );
}

#[test]
fn status_and_baselines_summarise_the_records() {
    let mut st = state(&["b", "a"], Some("a"));
    st.record_muted(&session("b.exe", "speakers", 1, true));
    st.record_muted(&session("b.exe", "headphones", 2, false));
    st.record_muted(&session("c.exe", "speakers", 3, false));
    let status = status_from_state(&st);
    assert_eq!(status.applications.len(), 2);
    assert_eq!(status.applications[0].key, "a");
    assert_eq!(status.auto_muted_keys, vec!["b".to_string(), "c".to_string()]);
    assert_eq!(status.foreground_key.as_deref(), Some("a"));
    let baselines = auto_muted_baselines(&st);
    assert_eq!(baselines.get("b"), Some(&true));
    assert_eq!(baselines.get("c"), Some(&false));
}

#[test]
fn application_selection_is_validated() {
    let st = state(&["game"], None);
    let next = st.applications_after(" Music.exe ", "  Music  ", true).unwrap();
    assert_eq!(next.get("music").unwrap(), "Music");
    assert!(next.contains_key("game"));
    let next = st.applications_after("GAME", "", false).unwrap();
    assert!(!next.contains_key("game"));
    assert_eq!(
        st.applications_after("System Sounds", "x", true).unwrap_err(),
        "请选择一个有效的应用音频会话"
    );
    assert!(st.applications_after("  ", "x", true).is_err());
}

#[test]
fn session_lookup_helpers() {
    let sessions = vec![
        session("game.exe", "a", 7, false),
        session("game.exe", "b", 7, true),
        session("other.exe", "b", 8, false),
    ];
    assert_eq!(session_for_pid(&sessions, 7).unwrap().device_id, "b");
    assert!(session_for_pid(&sessions, 0).is_none());
    let e = entry(7, "game", "", false, false);
    assert_eq!(entry_session_muted(&e, &sessions), Some(false));
    let e = entry(7, "game", "b", false, false);
    assert_eq!(entry_session_muted(&e, &sessions), Some(true));
    let e = entry(9, "game", "", false, false);
    assert_eq!(entry_session_muted(&e, &sessions), None);
}

#[test]
fn routed_application_is_looked_up_on_its_routed_endpoint() {
    let s = session("player.exe", "speakers", 42, false);
    assert_eq!(
        effective_output_device(&s, true, Ok(Some("headset".to_string())), Some("speakers")),
        Some("headset".to_string())
    );
    assert_eq!(effective_output_device(&s, true, Ok(Some("speakers".to_string())), None), None);
    assert_eq!(
        effective_output_device(&s, true, Ok(Some(String::new())), Some("monitor")),
        Some("monitor".to_string())
    );
    assert_eq!(effective_output_device(&s, true, Ok(None), Some("speakers")), None);
    assert_eq!(effective_output_device(&s, true, Err(()), Some("monitor")), None);
    assert_eq!(effective_output_device(&s, false, Ok(Some("headset".to_string())), None), None);
    let system = session("", "speakers", 0, false);
    assert_eq!(effective_output_device(&system, true, Ok(None), Some("monitor")), None);
}

#[test]
fn strips_one_exe_suffix() {
    assert_eq!(strip_exe_suffix("discord.exe"), "discord");
    assert_eq!(strip_exe_suffix("a.exe.exe"), "a.exe");
    assert_eq!(strip_exe_suffix("player"), "player");
}

#[test]
fn a_session_is_recorded_only_after_it_is_muted() {
    let mut st = state(&["player"], Some("editor"));
    let s = session("player.exe", "speakers", 42, false);
    assert!(mute_call_needed(&st, &s));
    st.after_mute(&s, false);
    assert!(st.auto_muted.is_empty());
    st.after_mute(&s, true);
    assert_eq!(st.auto_muted.len(), 1);
    assert_eq!(st.auto_muted[0].pid, 42);
    assert!(!st.auto_muted[0].was_muted);
    let already = session("player.exe", "speakers", 43, true);
    assert!(!mute_call_needed(&st, &already));
    st.after_mute(&already, false);
    assert_eq!(st.auto_muted.len(), 2);
    assert!(st.auto_muted[1].was_muted);
}

#[test]
fn pausing_releases_every_record_once_put_back() {
    let mut st = state(&["player"], Some("editor"));
    let s = session("player.exe", "speakers", 42, false);
    st.after_mute(&s, true);
    st.toggle_paused();
    let entry = st.auto_muted[0].duplicate();
    let muted_now = session("player.exe", "speakers", 42, true);
    let plan = tracked_entry_plan(&st, &entry, Some(&muted_now), Some(Some(true)));
    assert_eq!(plan, TrackedPlan::Release { restore: Some(false) });
    assert_eq!(tracked_mute_call(plan), Some(false));
    st.after_tracked(42, plan, Some(&muted_now), false);
    assert_eq!(st.auto_muted.len(), 1);
    st.after_tracked(42, plan, Some(&muted_now), true);
    assert!(st.auto_muted.is_empty());
}

#[test]
fn pending_steps_drop_a_record_only_when_done() {
    let step = restore_pending_plan(&entry(5, "player", "old", false, true), Some(Some(true)));
    assert_eq!(restore_step_outcome(step, true), Some(PendingRestoreAction::RestoredOrGone));
    assert_eq!(restore_step_outcome(step, false), Some(PendingRestoreAction::Keep));
    let check = RestoreStep::CheckActivity { muted_now: true };
    assert_eq!(restore_step_outcome(check, true), None);
}
