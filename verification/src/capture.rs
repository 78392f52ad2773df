//! Per-process audio capture to a WAV file: whether Windows supports it, the
//! checks before a capture starts, the name of the recording, the PCM format,
//! the WAV header and the byte counts kept while frames arrive. The audio
//! interfaces and file writes stay with the caller.
use vstd::prelude::*;

use crate::text::{append_decimal, append_str, decimal};

verus! {

/// The first Windows build with process loopback capture.
pub const MIN_PROCESS_LOOPBACK_BUILD: u32 = 20348;

/// Whether this Windows supports capturing one process's audio.
#[derive(Debug, Clone, Copy, PartialEq, Eq, Structural)]
pub struct ProcessLoopbackSupport {
    pub supported: bool,
    pub windows_build: u32,
    pub minimum_build: u32,
}

/// The state of the capture feature shown to the interface.
#[derive(Debug)]
pub struct ProcessCaptureStatus {
    pub supported: bool,
    pub windows_build: u32,
    pub active: bool,
    pub pid: Option<u32>,
    pub output_path: Option<String>,
    pub elapsed_ms: u64,
    pub last_error: Option<String>,
}

/// What a finished capture produced.
#[derive(Debug)]
pub struct ProcessCaptureResult {
    pub pid: u32,
    pub output_path: String,
    pub sample_rate: u32,
    pub channels: u16,
    pub frames_written: u64,
    pub bytes_written: u64,
    pub duration_ms: u64,
}

/// Support for a Windows build number (0 when the version could not be read).
pub fn loopback_support(windows_build: u32) -> (res: ProcessLoopbackSupport)
    ensures
        res.supported == (windows_build >= 20348),
        res.windows_build == windows_build,
        res.minimum_build == 20348,
{
    ProcessLoopbackSupport {
        supported: windows_build >= MIN_PROCESS_LOOPBACK_BUILD,
        windows_build,
        minimum_build: MIN_PROCESS_LOOPBACK_BUILD,
    }
}

/// Message for the system sounds, which cannot be captured per process.
pub open spec fn system_sounds_capture_message() -> Seq<char> {
    "系统声音不支持按进程捕获，请选择一个应用会话"@
}

/// Message for a Windows build without process loopback capture.
pub open spec fn unsupported_build_message(build: u32, minimum: u32) -> Seq<char> {
    "当前 Windows Build "@ + decimal(build as nat) + " 不支持进程音频捕获，最低需要 Build "@ + decimal(
        minimum as nat,
    )
}

/// Message when a capture is already running.
pub open spec fn capture_running_message(pid: u32) -> Seq<char> {
    "PID "@ + decimal(pid as nat) + " 正在录制，请先停止当前录制"@
}

/// The checks before a capture starts, in order: a real process, a
/// supporting Windows, and no capture already running.
pub open spec fn start_check(pid: u32, support: ProcessLoopbackSupport, active_pid: Option<u32>) -> Result<
    (),
    Seq<char>,
> {
    if pid == 0 {
        Err(system_sounds_capture_message())
    } else if !support.supported {
        Err(unsupported_build_message(support.windows_build, support.minimum_build))
    } else if active_pid is Some {
        Err(capture_running_message(active_pid->0))
    } else {
        Ok(())
    }
}

/// Checks whether a capture of `pid` may start.
pub fn check_capture_start(pid: u32, support: ProcessLoopbackSupport, active_pid: Option<u32>) -> (res:
    Result<(), String>)
    ensures
        match res {
            Ok(()) => start_check(pid, support, active_pid) is Ok,
            Err(e) => start_check(pid, support, active_pid) == Err::<(), Seq<char>>(e@),
        },
{
    if pid == 0 {
        return Err(String::from_str("系统声音不支持按进程捕获，请选择一个应用会话"));
    }
    if !support.supported {
        let mut message = String::from_str("当前 Windows Build ");
        append_decimal(&mut message, support.windows_build as u64);
        append_str(&mut message, " 不支持进程音频捕获，最低需要 Build ");
        append_decimal(&mut message, support.minimum_build as u64);
        return Err(message);
    }
    match active_pid {
        Some(active) => {
            let mut message = String::from_str("PID ");
            append_decimal(&mut message, active as u64);
            append_str(&mut message, " 正在录制，请先停止当前录制");
            Err(message)
        },
        None => Ok(()),
    }
}

/// Name of the recording of `pid` started at `timestamp` (seconds since
/// the Unix epoch).
pub open spec fn capture_file_name_of(pid: u32, timestamp: u64) -> Seq<char> {
    "process-"@ + decimal(pid as nat) + "-"@ + decimal(timestamp as nat) + ".wav"@
}

/// Builds the name of a recording.
pub fn capture_file_name(pid: u32, timestamp: u64) -> (res: String)
    ensures
        res@ == capture_file_name_of(pid, timestamp),
{
    let mut name = String::from_str("process-");
    append_decimal(&mut name, pid as u64);
    append_str(&mut name, "-");
    append_decimal(&mut name, timestamp);
    append_str(&mut name, ".wav");
    name
}

// ---------------------------------------------------------------------------
// PCM format and WAV header
// ---------------------------------------------------------------------------

/// A PCM wave format (the fields of `WAVEFORMATEX` that a WAV header holds).
#[derive(Debug, Clone, Copy, PartialEq, Eq, Structural)]
pub struct WaveFormat {
    pub format_tag: u16,
    pub channels: u16,
    pub samples_per_sec: u32,
    pub avg_bytes_per_sec: u32,
    pub block_align: u16,
    pub bits_per_sample: u16,
}

/// The capture format: 16-bit PCM, two channels at 48 kHz.
pub fn capture_format() -> (res: WaveFormat)
    ensures
        res.format_tag == 1,
        res.channels == 2,
        res.samples_per_sec == 48000,
        res.bits_per_sample == 16,
        res.block_align == res.channels * res.bits_per_sample / 8,
        res.avg_bytes_per_sec == res.samples_per_sec * res.block_align,
{
    let channels: u16 = 2;
    let bits: u16 = 16;
    let block_align: u16 = channels * bits / 8;
    WaveFormat {
        format_tag: 1,
        channels,
        samples_per_sec: 48000,
        avg_bytes_per_sec: 48000 * block_align as u32,
        block_align,
        bits_per_sample: bits,
    }
}

/// Little-endian bytes of a 16-bit value.
pub open spec fn le16(v: u16) -> Seq<u8> {
    seq![(v % 256) as u8, (v / 256) as u8]
}

/// Little-endian bytes of a 32-bit value.
pub open spec fn le32(v: u32) -> Seq<u8> {
    seq![(v % 256) as u8, ((v / 256) % 256) as u8, ((v / 65536) % 256) as u8, (v / 16777216) as u8]
}

/// The value of four little-endian bytes.
pub open spec fn read_le32(b: Seq<u8>, at: int) -> int {
    b[at] + 256 * b[at + 1] + 65536 * b[at + 2] + 16777216 * b[at + 3]
}

/// The four bytes of an ASCII chunk tag.
pub open spec fn tag(a: u8, b: u8, c: u8, d: u8) -> Seq<u8> {
    seq![a, b, c, d]
}

/// The 44-byte header of a PCM WAV file whose data chunk holds `data_size`
/// bytes: "RIFF", the RIFF size (36 + data size), "WAVE", the 16-byte
/// "fmt " chunk, and the "data" chunk header.
pub open spec fn wav_header_bytes(format: WaveFormat, data_size: u32) -> Seq<u8> {
    tag(82, 73, 70, 70) + le32((36 + data_size) as u32) + tag(87, 65, 86, 69) + tag(102, 109, 116, 32)
        + le32(16) + le16(format.format_tag) + le16(format.channels) + le32(format.samples_per_sec)
        + le32(format.avg_bytes_per_sec) + le16(format.block_align) + le16(format.bits_per_sample)
        + tag(100, 97, 116, 97) + le32(data_size)
}

fn push_le16(out: &mut Vec<u8>, v: u16)
    ensures
        final(out)@ == old(out)@ + le16(v),
{
    out.push((v % 256) as u8);
    out.push((v / 256) as u8);
    assert(out@ =~= old(out)@ + le16(v));
}

fn push_le32(out: &mut Vec<u8>, v: u32)
    ensures
        final(out)@ == old(out)@ + le32(v),
{
    out.push((v % 256) as u8);
    out.push(((v / 256) % 256) as u8);
    out.push(((v / 65536) % 256) as u8);
    out.push((v / 16777216) as u8);
    assert(out@ =~= old(out)@ + le32(v));
}

fn push_tag(out: &mut Vec<u8>, a: u8, b: u8, c: u8, d: u8)
    ensures
        final(out)@ == old(out)@ + tag(a, b, c, d),
{
    out.push(a);
    out.push(b);
    out.push(c);
    out.push(d);
    assert(out@ =~= old(out)@ + tag(a, b, c, d));
}

/// The WAV header for a data chunk of `data_size` bytes.
pub fn wav_header(format: WaveFormat, data_size: u32) -> (res: Vec<u8>)
    requires
        data_size <= u32::MAX - 36,
    ensures
        res@ == wav_header_bytes(format, data_size),
        res@.len() == 44,
{
    let mut out: Vec<u8> = Vec::new();
    push_tag(&mut out, 82, 73, 70, 70);
    push_le32(&mut out, 36 + data_size);
    push_tag(&mut out, 87, 65, 86, 69);
    push_tag(&mut out, 102, 109, 116, 32);
    push_le32(&mut out, 16);
    push_le16(&mut out, format.format_tag);
    push_le16(&mut out, format.channels);
    push_le32(&mut out, format.samples_per_sec);
    push_le32(&mut out, format.avg_bytes_per_sec);
    push_le16(&mut out, format.block_align);
    push_le16(&mut out, format.bits_per_sample);
    push_tag(&mut out, 100, 97, 116, 97);
    push_le32(&mut out, data_size);
    assert(out@ =~= wav_header_bytes(format, data_size));
    out
}

/// The four little-endian bytes of a value read back give the value.
pub proof fn lemma_le32_read_back(v: u32)
    ensures
        read_le32(le32(v), 0) == v,
{
    let b = le32(v);
    assert(b[0] == v % 256);
    assert(b[1] == (v / 256) % 256);
    assert(b[2] == (v / 65536) % 256);
    assert(b[3] == v / 16777216);
}

/// A reader of the header finds the sizes it was written with: the RIFF
/// size at byte 4 and the data size at byte 40.
pub proof fn law_wav_header_sizes_read_back(format: WaveFormat, data_size: u32)
    requires
        data_size <= u32::MAX - 36,
    ensures
        wav_header_bytes(format, data_size).len() == 44,
        read_le32(wav_header_bytes(format, data_size), 4) == 36 + data_size,
        read_le32(wav_header_bytes(format, data_size), 40) == data_size,
        wav_header_bytes(format, data_size).subrange(0, 4) == tag(82, 73, 70, 70),
        wav_header_bytes(format, data_size).subrange(36, 40) == tag(100, 97, 116, 97),
{
    let h = wav_header_bytes(format, data_size);
    lemma_le32_read_back((36 + data_size) as u32);
    lemma_le32_read_back(data_size);
    let r = le32((36 + data_size) as u32);
    let d = le32(data_size);
    assert(h[4] == r[0] && h[5] == r[1] && h[6] == r[2] && h[7] == r[3]);
    assert(h[40] == d[0] && h[41] == d[1] && h[42] == d[2] && h[43] == d[3]);
    assert(h.subrange(0, 4) =~= tag(82, 73, 70, 70));
    assert(h.subrange(36, 40) =~= tag(100, 97, 116, 97));
}

/// The value of two little-endian bytes.
pub open spec fn read_le16(b: Seq<u8>, at: int) -> int {
    b[at] + 256 * b[at + 1]
}

proof fn lemma_le16_read_back(v: u16)
    ensures
        read_le16(le16(v), 0) == v,
{
    let b = le16(v);
    assert(b[0] == v % 256);
    assert(b[1] == v / 256);
}

/// A reader of the header finds every field of the format at its standard
/// offset: "WAVE" at 8, "fmt " at 12 with chunk size 16 at 16, then the
/// format tag (20), channels (22), sample rate (24), average byte rate (28),
/// block alignment (32) and bits per sample (34).
pub proof fn law_wav_header_format_reads_back(format: WaveFormat, data_size: u32)
    ensures
        wav_header_bytes(format, data_size).subrange(8, 12) == tag(87, 65, 86, 69),
        wav_header_bytes(format, data_size).subrange(12, 16) == tag(102, 109, 116, 32),
        read_le32(wav_header_bytes(format, data_size), 16) == 16,
        read_le16(wav_header_bytes(format, data_size), 20) == format.format_tag,
        read_le16(wav_header_bytes(format, data_size), 22) == format.channels,
        read_le32(wav_header_bytes(format, data_size), 24) == format.samples_per_sec,
        read_le32(wav_header_bytes(format, data_size), 28) == format.avg_bytes_per_sec,
        read_le16(wav_header_bytes(format, data_size), 32) == format.block_align,
        read_le16(wav_header_bytes(format, data_size), 34) == format.bits_per_sample,
{
    let h = wav_header_bytes(format, data_size);
    lemma_le32_read_back(16);
    lemma_le16_read_back(format.format_tag);
    lemma_le16_read_back(format.channels);
    lemma_le32_read_back(format.samples_per_sec);
    lemma_le32_read_back(format.avg_bytes_per_sec);
    lemma_le16_read_back(format.block_align);
    lemma_le16_read_back(format.bits_per_sample);
    let c = le32(16);
    let ft = le16(format.format_tag);
    let ch = le16(format.channels);
    let sr = le32(format.samples_per_sec);
    let ab = le32(format.avg_bytes_per_sec);
    let ba = le16(format.block_align);
    let bp = le16(format.bits_per_sample);
    assert(h[16] == c[0] && h[17] == c[1] && h[18] == c[2] && h[19] == c[3]);
    assert(h[20] == ft[0] && h[21] == ft[1]);
    assert(h[22] == ch[0] && h[23] == ch[1]);
    assert(h[24] == sr[0] && h[25] == sr[1] && h[26] == sr[2] && h[27] == sr[3]);
    assert(h[28] == ab[0] && h[29] == ab[1] && h[30] == ab[2] && h[31] == ab[3]);
    assert(h[32] == ba[0] && h[33] == ba[1]);
    assert(h[34] == bp[0] && h[35] == bp[1]);
    assert(h.subrange(8, 12) =~= tag(87, 65, 86, 69));
    assert(h.subrange(12, 16) =~= tag(102, 109, 116, 32));
}

// ---------------------------------------------------------------------------
// Counting what was written
// ---------------------------------------------------------------------------

/// The frames and data bytes written so far.
#[derive(Debug, Clone, Copy, PartialEq, Eq, Structural)]
pub struct WaveCounters {
    pub data_bytes: u64,
    pub frames: u64,
}

/// A sum that stops at the largest `u64`.
pub open spec fn saturating(v: int) -> u64 {
    if v > u64::MAX {
        u64::MAX
    } else {
        v as u64
    }
}

impl WaveCounters {
    /// Nothing written yet.
    pub fn new() -> (res: Self)
        ensures
            res.data_bytes == 0,
            res.frames == 0,
    {
        WaveCounters { data_bytes: 0, frames: 0 }
    }

    /// The bytes of `frames` frames of `block_align` bytes each.
    pub fn packet_bytes(frames: u32, block_align: u16) -> (res: u64)
        ensures
            res == frames * block_align,
    {
        assert(frames * block_align <= u32::MAX * u16::MAX) by (nonlinear_arith);
        frames as u64 * block_align as u64
    }

    /// Counts a packet of `frames` frames written as `bytes` bytes; both
    /// counts stop at the largest `u64`.
    pub fn record(&mut self, frames: u32, bytes: u64)
        ensures
            final(self).data_bytes == saturating(old(self).data_bytes + bytes),
            final(self).frames == saturating(old(self).frames + frames),
    {
        self.data_bytes = self.data_bytes.saturating_add(bytes);
        self.frames = self.frames.saturating_add(frames as u64);
    }
}

/// Message when the data exceeds what a WAV file can hold.
pub open spec fn wav_too_large_message() -> Seq<char> {
    "WAV 文件超过 4GB 上限"@
}

/// The data size written into the finished header: refused when the data
/// does not fit the header's 32-bit size fields (the RIFF size field holds
/// the data size plus 36).
pub fn finished_data_size(data_bytes: u64) -> (res: Result<u32, String>)
    ensures
        match res {
            Ok(size) => data_bytes <= u32::MAX - 36 && size == data_bytes,
            Err(e) => data_bytes > u32::MAX - 36 && e@ == wav_too_large_message(),
        },
{
    if data_bytes > (u32::MAX - 36) as u64 {
        Err(String::from_str("WAV 文件超过 4GB 上限"))
    } else {
        Ok(data_bytes as u32)
    }
}

/// How a wait on the sample event ended.
#[derive(Debug, Clone, Copy, PartialEq, Eq, Structural)]
pub enum SampleWait {
    /// Packets are ready: drain them.
    Ready,
    /// Nothing yet: wait again.
    Idle,
}

/// Message when waiting for samples failed.
pub open spec fn wait_failed_message() -> Seq<char> {
    "等待音频采样事件失败"@
}

/// Message for an unexpected wait result.
pub open spec fn unknown_wait_message(code: u32) -> Seq<char> {
    "收到未知的音频等待结果: "@ + decimal(code as nat)
}

/// Classifies the result of `WaitForSingleObject` on the sample event:
/// `WAIT_OBJECT_0` (0), `WAIT_TIMEOUT` (258), `WAIT_FAILED` (0xFFFFFFFF), or
/// anything else.
pub fn sample_wait(code: u32) -> (res: Result<SampleWait, String>)
    ensures
        match res {
            Ok(SampleWait::Ready) => code == 0,
            Ok(SampleWait::Idle) => code == 258,
            Err(e) => code != 0 && code != 258 && e@ == if code == 0xFFFF_FFFF {
                wait_failed_message()
            } else {
                unknown_wait_message(code)
            },
        },
{
    if code == 0 {
        Ok(SampleWait::Ready)
    } else if code == 258 {
        Ok(SampleWait::Idle)
    } else if code == 0xFFFF_FFFF {
        Err(String::from_str("等待音频采样事件失败"))
    } else {
        let mut message = String::from_str("收到未知的音频等待结果: ");
        append_decimal(&mut message, code as u64);
        Err(message)
    }
}

/// Message when the audio interface did not activate in time.
pub open spec fn activation_timeout_message() -> Seq<char> {
    "等待 Windows 音频接口激活超时"@
}

/// Message when waiting for the audio interface failed.
pub open spec fn activation_wait_message(code: u32) -> Seq<char> {
    "等待 Windows 音频接口失败: "@ + decimal(code as nat)
}

/// Classifies the result of waiting for the activation of the process
/// audio interface: only `WAIT_OBJECT_0` (0) goes on.
pub fn activation_wait(code: u32) -> (res: Result<(), String>)
    ensures
        match res {
            Ok(()) => code == 0,
            Err(e) => code != 0 && e@ == if code == 258 {
                activation_timeout_message()
            } else {
                activation_wait_message(code)
            },
        },
{
    if code == 258 {
        Err(String::from_str("等待 Windows 音频接口激活超时"))
    } else if code != 0 {
        let mut message = String::from_str("等待 Windows 音频接口失败: ");
        append_decimal(&mut message, code as u64);
        Err(message)
    } else {
        Ok(())
    }
}

// ---------------------------------------------------------------------------
// Real-time relay of one process to another endpoint
// ---------------------------------------------------------------------------

/// What a finished relay of one process to another endpoint produced.
#[derive(Debug)]
pub struct ProcessRelayResult {
    pub pid: u32,
    pub target_device_id: String,
    pub target_device_name: String,
    pub frames_captured: u64,
    pub frames_rendered: u64,
    pub underrun_frames: u64,
    pub dropped_frames: u64,
    pub duration_ms: u64,
    pub eq_applied: bool,
}

/// Message for the system sounds, which cannot be relayed per process.
pub open spec fn system_sounds_relay_message() -> Seq<char> {
    "系统声音暂不支持按进程实时流转"@
}

/// Message when no target endpoint was chosen.
pub open spec fn no_relay_target_message() -> Seq<char> {
    "请选择流转目标设备"@
}

/// Checks the process and target of a relay, before its equalizer is
/// checked: a real process, and a target endpoint that is not blank.
pub fn check_relay_target(pid: u32, target_device_id: &str) -> (res: Result<(), String>)
    ensures
        match res {
            Ok(()) => pid != 0 && crate::text::trim(target_device_id@).len() > 0,
            Err(e) => if pid == 0 {
                e@ == system_sounds_relay_message()
            } else {
                crate::text::trim(target_device_id@).len() == 0 && e@ == no_relay_target_message()
            },
        },
{
    if pid == 0 {
        return Err(String::from_str("系统声音暂不支持按进程实时流转"));
    }
    if crate::text::is_blank(target_device_id) {
        return Err(String::from_str("请选择流转目标设备"));
    }
    Ok(())
}

/// Message when a relay is already running.
pub open spec fn relay_running_message(pid: u32) -> Seq<char> {
    "PID "@ + decimal(pid as nat) + " 正在流转，请先停止当前流转"@
}

/// Refuses a relay while another one runs.
pub fn check_no_active_relay(active_pid: Option<u32>) -> (res: Result<(), String>)
    ensures
        match res {
            Ok(()) => active_pid is None,
            Err(e) => active_pid is Some && e@ == relay_running_message(active_pid->0),
        },
{
    match active_pid {
        Some(active) => {
            let mut message = String::from_str("PID ");
            append_decimal(&mut message, active as u64);
            append_str(&mut message, " 正在流转，请先停止当前流转");
            Err(message)
        },
        None => Ok(()),
    }
}

} // verus!
