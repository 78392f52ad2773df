use audio_hub::eq_presets::{
    activate_preset, choose_rnnoise_plugin_directory, delete_preset, get_endpoint_eq, get_microphone_config,
    get_preset, list_presets,
    migrate_endpoint_profile, save_preset, set_endpoint_eq, set_microphone_config, ProfileStore,
};
use audio_hub::str_map::StrMap;

#[derive(Debug, Clone, PartialEq, Default)]
struct GlobalEqConfig {
    enabled: bool,
    preamp_db: f32,
}

const DEVICE: &str = "{0.0.0.00000000}.{01234567-89AB-CDEF-0123-456789ABCDEF}";

fn config(preamp_db: f32) -> GlobalEqConfig {
    GlobalEqConfig { enabled: true, preamp_db }
}

#[test]
fn migrates_legacy_endpoint_config_to_named_preset() {
    let profile = migrate_endpoint_profile(
        "Legacy device".to_string(),
        GlobalEqConfig::default(),
        StrMap::new(),
        None,
    );
    assert_eq!(profile.active_preset, "当前音色");
    assert!(profile.presets.contains_key("当前音色"));
}

#[test]
fn migration_keeps_a_valid_active_preset_and_repairs_an_unknown_one() {
    let mut presets = StrMap::new();
    presets.insert("b".to_string(), config(2.0));
    presets.insert("a".to_string(), config(1.0));
    let kept = migrate_endpoint_profile("d".to_string(), config(9.0), presets, Some("b".to_string()));
    assert_eq!(kept.active_preset, "b");
    assert_eq!(*kept.config(), config(2.0));
    let mut presets = StrMap::new();
    presets.insert("b".to_string(), config(2.0));
    presets.insert("a".to_string(), config(1.0));
    let repaired = migrate_endpoint_profile("d".to_string(), config(9.0), presets, Some("x".to_string()));
    assert_eq!(repaired.active_preset, "a");
}

#[test]
fn device_without_profile_lists_and_reads_the_default() {
    let store: ProfileStore<GlobalEqConfig, ()> = ProfileStore::new();
    let catalog = list_presets(&store, DEVICE).unwrap();
    assert_eq!(catalog.active_preset, "默认");
    assert_eq!(catalog.presets, vec!["默认".to_string()]);
    assert_eq!(get_preset(&store, DEVICE, "默认").unwrap(), None);
    assert_eq!(get_preset(&store, DEVICE, "其他").unwrap_err(), "音色预设「其他」不存在");
    assert_eq!(list_presets(&store, " ").unwrap_err(), "输出设备 ID 无效。");
}

#[test]
fn saved_preset_reads_back_and_becomes_active() {
    let mut store: ProfileStore<GlobalEqConfig, ()> = ProfileStore::new();
    save_preset(&mut store, DEVICE, "Headphones", "电影", config(-3.0)).unwrap();
    save_preset(&mut store, DEVICE, "Headphones", "游戏", config(-6.0)).unwrap();
    assert_eq!(get_preset(&store, DEVICE, "电影").unwrap(), Some(&config(-3.0)));
    let catalog = list_presets(&store, DEVICE).unwrap();
    assert_eq!(catalog.active_preset, "游戏");
    assert_eq!(catalog.presets.len(), 2);
    assert!(catalog.presets.contains(&"电影".to_string()));
    assert_eq!(
        save_preset(&mut store, DEVICE, "Headphones", " 空格", config(0.0)).unwrap_err(),
        "音色预设名称不能为空，且首尾不能包含空格"
    );
    assert_eq!(
        save_preset(&mut store, DEVICE, "", "名字", config(0.0)).unwrap_err(),
        "输出设备名称无效。"
    );
}

#[test]
fn device_config_replaces_the_active_preset() {
    let mut store: ProfileStore<GlobalEqConfig, ()> = ProfileStore::new();
    set_endpoint_eq(&mut store, DEVICE, "Headphones", config(1.0)).unwrap();
    assert_eq!(list_presets(&store, DEVICE).unwrap().active_preset, "当前音色");
    save_preset(&mut store, DEVICE, "Headphones", "夜间", config(2.0)).unwrap();
    set_endpoint_eq(&mut store, DEVICE, "Headphones", config(3.0)).unwrap();
    assert_eq!(get_preset(&store, DEVICE, "夜间").unwrap(), Some(&config(3.0)));
    assert_eq!(get_preset(&store, DEVICE, "当前音色").unwrap(), Some(&config(1.0)));
}

#[test]
fn activating_a_preset_puts_it_in_effect() {
    let mut store: ProfileStore<GlobalEqConfig, ()> = ProfileStore::new();
    assert_eq!(
        activate_preset(&mut store, DEVICE, "电影").unwrap_err(),
        "该输出设备还没有保存音色预设"
    );
    save_preset(&mut store, DEVICE, "Headphones", "电影", config(-3.0)).unwrap();
    save_preset(&mut store, DEVICE, "Headphones", "游戏", config(-6.0)).unwrap();
    activate_preset(&mut store, DEVICE, "电影").unwrap();
    assert_eq!(list_presets(&store, DEVICE).unwrap().active_preset, "电影");
    assert_eq!(
        activate_preset(&mut store, DEVICE, "音乐").unwrap_err(),
        "音色预设「音乐」不存在"
    );
}

#[test]
fn deleting_keeps_at_least_one_preset() {
    let mut store: ProfileStore<GlobalEqConfig, ()> = ProfileStore::new();
    assert_eq!(
        delete_preset(&mut store, DEVICE, "电影").unwrap_err(),
        "该输出设备还没有保存音色预设"
    );
    save_preset(&mut store, DEVICE, "Headphones", "电影", config(-3.0)).unwrap();
    assert_eq!(
        delete_preset(&mut store, DEVICE, "电影").unwrap_err(),
        "至少需要保留一个音色预设"
    );
    save_preset(&mut store, DEVICE, "Headphones", "游戏", config(-6.0)).unwrap();
    assert_eq!(
        delete_preset(&mut store, DEVICE, "音乐").unwrap_err(),
        "音色预设「音乐」不存在"
    );
    let catalog = delete_preset(&mut store, DEVICE, "游戏").unwrap();
    assert_eq!(catalog.active_preset, "电影");
    assert_eq!(catalog.presets, vec!["电影".to_string()]);
    assert_eq!(get_preset(&store, DEVICE, "游戏").unwrap_err(), "音色预设「游戏」不存在");
}

#[test]
fn microphones_and_plugin_folder_are_stored() {
    let mut store: ProfileStore<GlobalEqConfig, u8> = ProfileStore::new();
    set_microphone_config(&mut store, "{0.0.1.00000000}.{89ABCDEF-0123-4567-89AB-CDEF01234567}", "Mic", 7).unwrap();
    assert!(store.microphones.contains_key("{0.0.1.00000000}.{89ABCDEF-0123-4567-89AB-CDEF01234567}"));
    assert_eq!(
        choose_rnnoise_plugin_directory(&mut store, "D:\\Plugins", false, false).unwrap_err(),
        "所选文件夹中没有 rnnoise_mono.dll 或 rnnoise_stereo.dll。"
    );
    assert_eq!(store.rnnoise_plugin_directory, None);
    choose_rnnoise_plugin_directory(&mut store, "D:\\Plugins", true, false).unwrap();
    assert_eq!(store.rnnoise_plugin_directory.as_deref(), Some("D:\\Plugins"));
}

#[test]
fn endpoint_eq_reads_the_active_preset_or_the_default() {
    let mut store: ProfileStore<GlobalEqConfig, bool> = ProfileStore::new();
    assert_eq!(get_endpoint_eq(&store, DEVICE).unwrap(), None);
    save_preset(&mut store, DEVICE, "Headphones", "音乐", config(1.5)).unwrap();
    save_preset(&mut store, DEVICE, "Headphones", "电影", config(-3.0)).unwrap();
    assert_eq!(get_endpoint_eq(&store, DEVICE).unwrap(), Some(&config(-3.0)));
    activate_preset(&mut store, DEVICE, "音乐").unwrap();
    assert_eq!(get_endpoint_eq(&store, DEVICE).unwrap(), Some(&config(1.5)));
    assert_eq!(get_endpoint_eq(&store, "").unwrap_err(), "输出设备 ID 无效。");
}

#[test]
fn microphone_config_reads_what_was_stored() {
    let mut store: ProfileStore<GlobalEqConfig, bool> = ProfileStore::new();
    assert_eq!(get_microphone_config(&store, "mic").unwrap(), None);
    set_microphone_config(&mut store, "mic", "USB Mic", false).unwrap();
    assert_eq!(get_microphone_config(&store, "mic").unwrap(), Some(&false));
    assert_eq!(get_microphone_config(&store, "other").unwrap(), None);
    assert_eq!(get_microphone_config(&store, "a\nb").unwrap_err(), "输出设备 ID 无效。");
}
