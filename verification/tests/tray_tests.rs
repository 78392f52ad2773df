use audio_hub::device::AudioDevice;
use audio_hub::tray::{
    device_menu_entry, menu_action, trim_start_matches, unfocused_mute_menu_entry, TrayAction,
    TRAY_DEVICE_PREFIX, TRAY_INPUT_PREFIX,
};

#[test]
fn fixed_entries_map_to_their_actions() {
    assert_eq!(menu_action("tray-open"), TrayAction::OpenWindow);
    assert_eq!(menu_action("tray-unfocused-mute"), TrayAction::ToggleUnfocusedMute);
    assert_eq!(menu_action("tray-quit"), TrayAction::Quit);
    assert_eq!(menu_action("tray-device:none"), TrayAction::Ignore);
    assert_eq!(menu_action("tray-input:none"), TrayAction::Ignore);
    assert_eq!(menu_action("other"), TrayAction::Ignore);
}

#[test]
fn device_entries_select_their_device() {
    let device = AudioDevice {
        name: "Speakers".to_string(),
        device_id: "{0.0.0.00000000}.{guid}".to_string(),
        is_default: true,
    };
    let (id, label) = device_menu_entry(TRAY_DEVICE_PREFIX, &device);
    assert_eq!(id, "tray-device:{0.0.0.00000000}.{guid}");
    assert_eq!(label, "Speakers ✓");
    assert_eq!(
        menu_action(&id),
        TrayAction::SwitchDefaultDevice("{0.0.0.00000000}.{guid}".to_string())
    );
    let (id, label) = device_menu_entry(TRAY_INPUT_PREFIX, &AudioDevice { is_default: false, ..device });
    assert_eq!(label, "Speakers");
    assert_eq!(
        menu_action(&id),
        TrayAction::SwitchDefaultDevice("{0.0.0.00000000}.{guid}".to_string())
    );
    assert_eq!(trim_start_matches("ab:ab:x", "ab:"), "x");
}

#[test]
fn unfocused_mute_entry_text() {
    assert_eq!(unfocused_mute_menu_entry(0, false), ("未聚焦静音：未配置".to_string(), false));
    assert_eq!(
        unfocused_mute_menu_entry(3, true),
        ("未聚焦静音：已暂停（3 个应用）".to_string(), true)
    );
    assert_eq!(
        unfocused_mute_menu_entry(12, false),
        ("未聚焦静音：运行中（12 个应用）".to_string(), true)
    );
}
