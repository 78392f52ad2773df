use audio_hub::capture::{check_no_active_relay, check_relay_target};
use audio_hub::capture::{
    activation_wait, capture_file_name, capture_format, check_capture_start, finished_data_size,
    loopback_support, sample_wait, wav_header, SampleWait, WaveCounters,
};

#[test]
fn process_loopback_needs_build_20348() {
    assert!(loopback_support(20348).supported);
    assert!(!loopback_support(19045).supported);
    assert_eq!(loopback_support(22631).minimum_build, 20348);
}

#[test]
fn capture_start_checks_come_in_order() {
    let ok = loopback_support(22631);
    let old = loopback_support(19045);
    assert_eq!(
        check_capture_start(0, old, Some(3)).unwrap_err(),
        "系统声音不支持按进程捕获，请选择一个应用会话"
    );
    assert_eq!(
        check_capture_start(5, old, Some(3)).unwrap_err(),
        "当前 Windows Build 19045 不支持进程音频捕获，最低需要 Build 20348"
    );
    assert_eq!(
        check_capture_start(5, ok, Some(3)).unwrap_err(),
        "PID 3 正在录制，请先停止当前录制"
    );
    assert!(check_capture_start(5, ok, None).is_ok());
}

#[test]
fn recording_names_carry_pid_and_time() {
    assert_eq!(capture_file_name(1234, 1700000000), "process-1234-1700000000.wav");
    assert_eq!(capture_file_name(0, 0), "process-0-0.wav");
}

#[test]
fn wav_header_is_44_bytes_of_pcm_description() {
    let format = capture_format();
    assert_eq!(format.block_align, 4);
    assert_eq!(format.avg_bytes_per_sec, 192000);
    let header = wav_header(format, 1000);
    assert_eq!(header.len(), 44);
    assert_eq!(&header[0..4], b"RIFF");
    assert_eq!(u32::from_le_bytes([header[4], header[5], header[6], header[7]]), 1036);
    assert_eq!(&header[8..16], b"WAVEfmt ");
    assert_eq!(u16::from_le_bytes([header[22], header[23]]), 2);
    assert_eq!(u32::from_le_bytes([header[24], header[25], header[26], header[27]]), 48000);
    assert_eq!(&header[36..40], b"data");
    assert_eq!(u32::from_le_bytes([header[40], header[41], header[42], header[43]]), 1000);
}

#[test]
fn counters_saturate_and_sizes_are_checked() {
    let mut counters = WaveCounters::new();
    let bytes = WaveCounters::packet_bytes(480, 4);
    assert_eq!(bytes, 1920);
    counters.record(480, bytes);
    assert_eq!(counters.frames, 480);
    assert_eq!(counters.data_bytes, 1920);
    counters.record(1, u64::MAX);
    assert_eq!(counters.data_bytes, u64::MAX);
    assert_eq!(finished_data_size(1920).unwrap(), 1920);
    assert_eq!(finished_data_size(u64::from(u32::MAX) + 1).unwrap_err(), "WAV 文件超过 4GB 上限");
    assert_eq!(finished_data_size(u64::from(u32::MAX - 36)).unwrap(), u32::MAX - 36);
    assert_eq!(finished_data_size(u64::from(u32::MAX - 35)).unwrap_err(), "WAV 文件超过 4GB 上限");
}

#[test]
fn wait_results_are_classified() {
    assert_eq!(sample_wait(0).unwrap(), SampleWait::Ready);
    assert_eq!(sample_wait(258).unwrap(), SampleWait::Idle);
    assert_eq!(sample_wait(0xFFFF_FFFF).unwrap_err(), "等待音频采样事件失败");
    assert_eq!(sample_wait(128).unwrap_err(), "收到未知的音频等待结果: 128");
    assert!(activation_wait(0).is_ok());
    assert_eq!(activation_wait(258).unwrap_err(), "等待 Windows 音频接口激活超时");
    assert_eq!(activation_wait(1).unwrap_err(), "等待 Windows 音频接口失败: 1");
}

#[test]
fn relay_checks() {
    assert_eq!(check_relay_target(0, "x").unwrap_err(), "系统声音暂不支持按进程实时流转");
    assert_eq!(check_relay_target(4, "  ").unwrap_err(), "请选择流转目标设备");
    assert!(check_relay_target(4, "dev").is_ok());
    assert_eq!(check_no_active_relay(Some(9)).unwrap_err(), "PID 9 正在流转，请先停止当前流转");
    assert!(check_no_active_relay(None).is_ok());
}
