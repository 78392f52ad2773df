use audio_hub::notifications::{coalesce, idle_refresh, RefreshPlan, WatchSignal};

fn plan(stop: bool, managers: bool, sessions_events: bool, devices: bool, sessions: bool) -> RefreshPlan {
    RefreshPlan {
        stop,
        rebuild_managers: managers,
        rebuild_session_events: sessions_events,
        emit_devices: devices,
        emit_sessions: sessions,
    }
}

#[test]
fn a_device_change_in_the_window_rebuilds_everything() {
    let got = coalesce(
        WatchSignal::SessionValuesChanged,
        &[WatchSignal::DevicesChanged, WatchSignal::SessionTopologyChanged],
    );
    assert_eq!(got, plan(false, true, false, true, true));
}

#[test]
fn session_changes_refresh_only_the_sessions() {
    assert_eq!(
        coalesce(WatchSignal::SessionValuesChanged, &[WatchSignal::SessionValuesChanged]),
        plan(false, false, false, false, true)
    );
    assert_eq!(
        coalesce(WatchSignal::SessionValuesChanged, &[WatchSignal::SessionTopologyChanged]),
        plan(false, false, true, false, true)
    );
}

#[test]
fn shutdown_anywhere_stops_the_watcher() {
    assert_eq!(
        coalesce(WatchSignal::DevicesChanged, &[WatchSignal::Shutdown]),
        plan(true, false, false, false, false)
    );
    assert_eq!(coalesce(WatchSignal::Shutdown, &[]), plan(true, false, false, false, false));
}

#[test]
fn a_quiet_period_refreshes_both_lists() {
    assert_eq!(idle_refresh(), plan(false, true, false, true, true));
}
