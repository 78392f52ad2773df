use audio_hub::simple_route::{EnablePlan, SimpleRouteApplication};
use audio_hub::simple_route::{monitor_sync_plan, prepared_session, select_route_devices, MonitorSync};
use audio_hub::simple_route::validate_application;
use audio_hub::device::AudioDevice;
use audio_hub::simple_route::{
    find_b1_virtual_microphone, find_default_physical_output, find_main_voicemeeter_input,
    find_physical_microphone,
};

fn device(name: &str, is_default: bool) -> AudioDevice {
    AudioDevice {
        name: name.to_string(),
        device_id: name.to_string(),
        is_default,
    }
}

#[test]
fn discovers_main_input_and_b1_across_common_names() {
    let outputs = vec![
        device(
            "VoiceMeeter AUX Input (VB-Audio VoiceMeeter AUX VAIO)",
            false,
        ),
        device("VoiceMeeter Input (VB-Audio VoiceMeeter VAIO)", false),
    ];
    let inputs = vec![
        device("VoiceMeeter Out B2 (VB-Audio VoiceMeeter AUX VAIO)", false),
        device("VoiceMeeter Out B1 (VB-Audio VoiceMeeter VAIO)", false),
    ];
    assert!(
        find_main_voicemeeter_input(&outputs)
            .unwrap()
            .name
            .contains("Input")
    );
    assert!(
        find_b1_virtual_microphone(&inputs)
            .unwrap()
            .name
            .contains("B1")
    );
}

#[test]
fn prefers_default_physical_microphone() {
    let inputs = vec![
        device("VoiceMeeter Out B1", true),
        device("USB Microphone", false),
        device("Headset Microphone", false),
    ];
    assert_eq!(
        find_physical_microphone(&inputs, Some("Headset Microphone"))
            .unwrap()
            .name,
        "Headset Microphone"
    );
}

#[test]
fn requires_default_output_to_be_physical_for_simple_route() {
    let virtual_default = vec![
        device("VoiceMeeter Input", true),
        device("USB Speakers", false),
    ];
    assert!(find_default_physical_output(&virtual_default).is_none());

    let physical_default = vec![
        device("VoiceMeeter Input", false),
        device("USB Speakers", true),
    ];
    assert_eq!(
        find_default_physical_output(&physical_default)
            .unwrap()
            .name,
        "USB Speakers"
    );
}

#[test]
fn route_devices_are_chosen_in_order() {
    let outputs = vec![
        device("VoiceMeeter Input (VB-Audio VoiceMeeter VAIO)", false),
        device("USB Speakers", true),
    ];
    let inputs = vec![
        device("VoiceMeeter Out B1 (VB-Audio VoiceMeeter VAIO)", false),
        device("USB Microphone", true),
    ];
    let chosen = select_route_devices(&outputs, &inputs, None).unwrap();
    assert_eq!(chosen.voicemeeter_input_id, "VoiceMeeter Input (VB-Audio VoiceMeeter VAIO)");
    assert_eq!(chosen.virtual_microphone_id, "VoiceMeeter Out B1 (VB-Audio VoiceMeeter VAIO)");
    assert_eq!(chosen.original_default_input_id, "USB Microphone");
    assert_eq!(chosen.physical_microphone_name, "USB Microphone");
    assert_eq!(chosen.monitor_device_name, "USB Speakers");
    let no_default_input = vec![device("VoiceMeeter Out B1", false), device("USB Microphone", false)];
    assert_eq!(
        select_route_devices(&outputs, &no_default_input, None).unwrap_err(),
        "未检测到 Windows 默认麦克风。"
    );
    assert_eq!(
        select_route_devices(&[], &inputs, None).unwrap_err(),
        "未检测到 VoiceMeeter Input 播放设备。"
    );
    let session = prepared_session(chosen, ());
    assert_eq!(session.monitor_device_name.as_deref(), Some("USB Speakers"));
    assert!(matches!(monitor_sync_plan(&session, &outputs, None), Ok(MonitorSync::Unchanged)));
    let moved = vec![device("Headphones", true)];
    match monitor_sync_plan(&session, &moved, None).unwrap() {
        MonitorSync::Move { name, previous } => {
            assert_eq!(name, "Headphones");
            assert_eq!(previous.as_deref(), Some("USB Speakers"));
        }
        MonitorSync::Unchanged => panic!("expected a move"),
    }
    let virtual_only = vec![device("VoiceMeeter Input", true)];
    assert!(monitor_sync_plan(&session, &virtual_only, None).is_err());
}

#[test]
fn application_requests_are_validated() {
    assert_eq!(validate_application(0, "a", "b").unwrap_err(), "系统声音不能使用简易流转。");
    assert_eq!(validate_application(5, " ", "b").unwrap_err(), "应用标识无效。");
    assert_eq!(validate_application(5, "a", "").unwrap_err(), "应用名称无效。");
    assert!(validate_application(5, "a", "b").is_ok());
}

fn route_session() -> audio_hub::simple_route::SimpleRouteSession<()> {
    audio_hub::simple_route::SimpleRouteSession {
        original_default_input_id: "mic".to_string(),
        virtual_microphone_id: "b1".to_string(),
        voicemeeter_input_id: "vm-in".to_string(),
        original_voicemeeter_configuration: (),
        physical_microphone_name: "Mic".to_string(),
        monitor_device_name: None,
        applications: Vec::new(),
    }
}

#[test]
fn enabling_routes_once_and_a_failed_save_is_undone() {
    let mut session = route_session();
    match session.enable_plan("game") {
        EnablePlan::Route { target_device_id } => assert_eq!(target_device_id, "vm-in"),
        other => panic!("unexpected {other:?}"),
    }
    session.add_application(SimpleRouteApplication {
        key: "game".to_string(),
        display_name: "Game".to_string(),
        pid: 12,
        original_output_device_id: Some("headset".to_string()),
    });
    assert!(matches!(session.enable_plan("game"), EnablePlan::AlreadyRouted));
    assert_eq!(session.after_save(true), None);
    assert_eq!(session.applications.len(), 1);
    session.add_application(SimpleRouteApplication {
        key: "chat".to_string(),
        display_name: "Chat".to_string(),
        pid: 13,
        original_output_device_id: None,
    });
    assert_eq!(session.after_save(false), Some((13, String::new())));
    assert_eq!(session.applications.len(), 1);
    assert_eq!(session.applications[0].key, "game");
}
