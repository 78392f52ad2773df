use audio_hub::equalizer_apo::{
    render_managed_config, MicrophoneSection, OutputSection, RnnoiseChannelMode, RnnoisePlugins,
};

const FREQUENCIES: [f32; 10] = [
    31.5, 63.0, 125.0, 250.0, 500.0, 1_000.0, 2_000.0, 4_000.0, 8_000.0, 16_000.0,
];

fn levels(preamp_db: f32, gains: [f32; 10]) -> String {
    let mut text = format!("Preamp: {:.1} dB\n", preamp_db);
    text.push_str("GraphicEQ:");
    for (frequency, gain) in FREQUENCIES.iter().zip(gains) {
        text.push_str(&format!(" {:.1} {:.1};", frequency, gain));
    }
    text.push_str("\n\n");
    text
}

fn sample_outputs() -> Vec<OutputSection> {
    let mut gains = [0.0; 10];
    gains[0] = 6.0;
    vec![OutputSection {
        device_id: "{0.0.0.00000000}.{01234567-89AB-CDEF-0123-456789ABCDEF}".to_string(),
        device_name: "Test Headphones".to_string(),
        enabled: true,
        levels: levels(-6.0, gains),
    }]
}

fn sample_rnnoise_plugins() -> RnnoisePlugins {
    RnnoisePlugins {
        mono: Some(r"D:\EqualizerAPO\VSTPlugins\AudioHub\rnnoise_mono.dll".to_string()),
        stereo: Some(r"D:\EqualizerAPO\VSTPlugins\AudioHub\rnnoise_stereo.dll".to_string()),
    }
}

fn test_microphone() -> MicrophoneSection {
    MicrophoneSection {
        device_id: "{0.0.1.00000000}.{89ABCDEF-0123-4567-89AB-CDEF01234567}".to_string(),
        device_name: "Test Microphone".to_string(),
        enabled: true,
        validation: Ok(()),
        gain: format!("{:.1}", 8.0f32),
        rnnoise: Some(RnnoiseChannelMode::Mono),
    }
}

#[test]
fn renders_device_scoped_equalizer_apo_config() {
    let rendered = render_managed_config(&sample_outputs(), &[], &sample_rnnoise_plugins()).unwrap();
    assert!(rendered.contains("Device: {01234567-89AB-CDEF-0123-456789ABCDEF}"));
    assert!(rendered.contains("Preamp: -6.0 dB"));
    assert!(rendered.contains("GraphicEQ: 31.5 6.0;"));
    assert!(rendered.contains("16000.0 0.0;"));
    assert!(rendered.ends_with("Device: all\n"));
}

#[test]
fn renders_microphone_gain_and_rnnoise_plugin() {
    let rendered = render_managed_config(
        &sample_outputs(),
        &[test_microphone()],
        &sample_rnnoise_plugins(),
    )
    .unwrap();
    assert!(rendered.contains("# Microphone: Test Microphone"));
    assert!(rendered.contains("Device: {89ABCDEF-0123-4567-89AB-CDEF01234567}"));
    assert!(rendered.contains("Channel: all"));
    assert!(rendered.contains("Preamp: 8.0 dB"));
    assert!(rendered.contains(
        r#"VSTPlugin: Library "D:\EqualizerAPO\VSTPlugins\AudioHub\rnnoise_mono.dll""#
    ));
    assert!(!rendered.contains("Filter:"));
}

#[test]
fn rejects_enabled_rnnoise_when_plugin_is_missing() {
    let plugins = RnnoisePlugins { mono: None, stereo: None };
    let error = render_managed_config(&sample_outputs(), &[test_microphone()], &plugins).unwrap_err();
    assert!(error.contains("rnnoise_mono.dll"));
    assert_eq!(error, "麦克风「Test Microphone」启用了 RNNoise，但未找到 rnnoise_mono.dll。");
}

#[test]
fn empty_configuration_says_no_output_is_enabled() {
    let mut outputs = sample_outputs();
    outputs[0].enabled = false;
    let rendered = render_managed_config(&outputs, &[], &sample_rnnoise_plugins()).unwrap();
    assert_eq!(
        rendered,
        "# Audio Hub managed Equalizer APO configuration.\n# Changes in this file may be overwritten by Audio Hub.\n\n# No output endpoint EQ is enabled.\nDevice: all\n"
    );
}

#[test]
fn invalid_sections_fail_rendering() {
    let mut outputs = sample_outputs();
    outputs[0].device_id = "no guid".to_string();
    assert_eq!(
        render_managed_config(&outputs, &[], &sample_rnnoise_plugins()).unwrap_err(),
        "输出设备 ID 中没有可供 Equalizer APO 匹配的 GUID。"
    );
    let mut microphone = test_microphone();
    microphone.validation = Err("麦克风增益必须在 -12 dB 到 18 dB 之间".to_string());
    assert_eq!(
        render_managed_config(&sample_outputs(), &[microphone], &sample_rnnoise_plugins()).unwrap_err(),
        "麦克风增益必须在 -12 dB 到 18 dB 之间"
    );
    let mut disabled = test_microphone();
    disabled.enabled = false;
    disabled.validation = Err("ignored".to_string());
    assert!(render_managed_config(&sample_outputs(), &[disabled], &sample_rnnoise_plugins()).is_ok());
}
