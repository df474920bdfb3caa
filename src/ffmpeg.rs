use crate::camera::TargetOs;
use crate::error::CameraError;
use crate::event::{CameraBackend, CameraEvent};
use crate::frame::{bytes_content, Frame, PixelFormat};
use crate::config::CameraConfig;
use crate::device::{get_input_device, input_device};
use crate::text::{decimal, digit_char, int_text, int_to_string, trim, trim_of};
use vstd::prelude::*;
use vstd::string::*;

verus! {

/// Frame rate used when the requested one is unusable, in thousandths of a
/// frame per second.
pub const FALLBACK_FPS_MILLI: u32 = 30000;

/// Highest frame rate asked of FFmpeg, in thousandths of a frame per second.
pub const MAX_FPS_MILLI: u32 = 240000;

/// Lowest usable requested frame rate (exclusive), in thousandths.
pub const MIN_FPS_MILLI: u32 = 100;

/// FFmpeg's input format for the target's capture framework.
pub open spec fn ffmpeg_format_of(os: TargetOs) -> Option<Seq<char>> {
    if os == TargetOs::Macos {
        Some("avfoundation"@)
    } else if os == TargetOs::Linux {
        Some("v4l2"@)
    } else if os == TargetOs::Windows {
        Some("dshow"@)
    } else {
        None
    }
}

pub fn ffmpeg_format(os: TargetOs) -> (r: Option<&'static str>)
    ensures
        r matches Some(f) ==> ffmpeg_format_of(os) == Some(f@),
        r is None ==> ffmpeg_format_of(os) is None,
{
    if os == TargetOs::Macos {
        Some("avfoundation")
    } else if os == TargetOs::Linux {
        Some("v4l2")
    } else if os == TargetOs::Windows {
        Some("dshow")
    } else {
        None
    }
}

/// The frame rate asked of FFmpeg: on macOS always the fallback, since many
/// devices there refuse unusual rates; elsewhere the requested rate when it
/// is above the minimum (else the fallback), capped at the maximum.
pub open spec fn input_fps_milli(requested: u32, os: TargetOs) -> u32 {
    if os == TargetOs::Macos {
        FALLBACK_FPS_MILLI
    } else {
        let f = if requested > MIN_FPS_MILLI {
            requested
        } else {
            FALLBACK_FPS_MILLI
        };
        if f > MAX_FPS_MILLI {
            MAX_FPS_MILLI
        } else {
            f
        }
    }
}

pub fn input_fps(requested: u32, os: TargetOs) -> (r: u32)
    ensures
        r == input_fps_milli(requested, os),
{
    if os == TargetOs::Macos {
        FALLBACK_FPS_MILLI
    } else {
        let f = if requested > MIN_FPS_MILLI {
            requested
        } else {
            FALLBACK_FPS_MILLI
        };
        if f > MAX_FPS_MILLI {
            MAX_FPS_MILLI
        } else {
            f
        }
    }
}

/// Decimal fraction of thousandths, without trailing zeros: "" for 0,
/// ".5" for 500, ".05" for 50, ".125" for 125.
pub open spec fn fraction_text(f: nat) -> Seq<char> {
    if f == 0 {
        Seq::empty()
    } else if f % 100 == 0 {
        seq!['.', digit_char(f / 100)]
    } else if f % 10 == 0 {
        seq!['.', digit_char(f / 100), digit_char((f / 10) % 10)]
    } else {
        seq!['.', digit_char(f / 100), digit_char((f / 10) % 10), digit_char(f % 10)]
    }
}

/// A rate in thousandths written as a decimal number: "30" for 30000,
/// "29.97" for 29970.
pub open spec fn milli_text(m: nat) -> Seq<char> {
    decimal(m / 1000) + fraction_text(m % 1000)
}

fn digit_string(d: u32) -> (r: String)
    requires
        d < 10,
    ensures
        r@ == seq![digit_char(d as nat)],
{
    let r = int_to_string(d as i128);
    assert(int_text(d as int) == decimal(d as nat));
    r
}

/// Writes a rate given in thousandths as a decimal number.
pub fn format_milli(m: u32) -> (r: String)
    ensures
        r@ == milli_text(m as nat),
{
    let whole = int_to_string((m / 1000) as i128);
    let f = m % 1000;
    if f == 0 {
        assert(fraction_text(f as nat) =~= Seq::<char>::empty());
        assert(whole@ + Seq::<char>::empty() =~= whole@);
        return whole;
    }
    let mut s = whole.concat(".");
    s = s.concat(digit_string(f / 100).as_str());
    if f % 100 != 0 {
        s = s.concat(digit_string((f / 10) % 10).as_str());
        if f % 10 != 0 {
            s = s.concat(digit_string(f % 10).as_str());
        }
    }
    proof {
        reveal_strlit(".");
        assert(s@ =~= milli_text(m as nat));
    }
    s
}

/// "WxH".
pub open spec fn size_text(width: u32, height: u32) -> Seq<char> {
    decimal(width as nat) + "x"@ + decimal(height as nat)
}

/// The trimmed device selector of a configuration ("" when there is none).
pub open spec fn config_device(config: CameraConfig) -> Seq<char> {
    match config.device {
        Some(d) => trim_of(d@),
        None => Seq::empty(),
    }
}

/// The FFmpeg command line that captures the configured device as raw RGB24
/// frames on standard output; `None` for a target FFmpeg has no capture
/// format for.
pub open spec fn ffmpeg_args_of(config: CameraConfig, os: TargetOs) -> Option<Seq<Seq<char>>> {
    match ffmpeg_format_of(os) {
        None => None,
        Some(fmt) => {
            let head = seq![
                "-hide_banner"@,
                "-nostdin"@,
                "-nostats"@,
                "-f"@,
                fmt,
                "-loglevel"@,
                "error"@,
                "-video_size"@,
                size_text(config.width, config.height),
                "-framerate"@,
                milli_text(input_fps_milli(config.fps_milli, os) as nat),
            ];
            let pixel = if os == TargetOs::Macos {
                seq!["-pixel_format"@, "0rgb"@]
            } else {
                Seq::empty()
            };
            let tail = seq![
                "-i"@,
                input_device(config_device(config), os),
                "-pix_fmt"@,
                "rgb24"@,
                "-f"@,
                "rawvideo"@,
                "pipe:1"@,
            ];
            Some(head + pixel + tail)
        },
    }
}

pub open spec fn views(v: Seq<String>) -> Seq<Seq<char>> {
    v.map_values(|s: String| s@)
}

fn push_str(v: &mut Vec<String>, s: &str)
    ensures
        views(final(v)@) == views(old(v)@).push(s@),
{
    v.push(String::from_str(s));
    assert(views(final(v)@) =~= views(old(v)@).push(s@));
}

fn push_string(v: &mut Vec<String>, s: String)
    ensures
        views(final(v)@) == views(old(v)@).push(s@),
{
    let ghost sv = s@;
    v.push(s);
    assert(views(final(v)@) =~= views(old(v)@).push(sv));
}

/// Builds the FFmpeg command line for a configuration.
pub fn ffmpeg_args(config: &CameraConfig, os: TargetOs) -> (r: Option<Vec<String>>)
    ensures
        r matches Some(v) ==> ffmpeg_args_of(*config, os) == Some(views(v@)),
        r is None ==> ffmpeg_args_of(*config, os) is None,
{
    let fmt = match ffmpeg_format(os) {
        None => return None,
        Some(f) => f,
    };
    let size = int_to_string(config.width as i128).concat("x").concat(
        int_to_string(config.height as i128).as_str(),
    );
    let fps = format_milli(input_fps(config.fps_milli, os));
    let device = match &config.device {
        Some(d) => get_input_device(trim(d.as_str()), os),
        None => get_input_device("", os),
    };
    proof {
        reveal_strlit("");
    }
    let mut v: Vec<String> = Vec::new();
    push_str(&mut v, "-hide_banner");
    push_str(&mut v, "-nostdin");
    push_str(&mut v, "-nostats");
    push_str(&mut v, "-f");
    push_str(&mut v, fmt);
    push_str(&mut v, "-loglevel");
    push_str(&mut v, "error");
    push_str(&mut v, "-video_size");
    push_string(&mut v, size);
    push_str(&mut v, "-framerate");
    push_string(&mut v, fps);
    if os == TargetOs::Macos {
        push_str(&mut v, "-pixel_format");
        push_str(&mut v, "0rgb");
    }
    push_str(&mut v, "-i");
    push_string(&mut v, device);
    push_str(&mut v, "-pix_fmt");
    push_str(&mut v, "rgb24");
    push_str(&mut v, "-f");
    push_str(&mut v, "rawvideo");
    push_str(&mut v, "pipe:1");
    proof {
        assert(int_text(config.width as int) == decimal(config.width as nat));
        assert(int_text(config.height as int) == decimal(config.height as nat));
        let spec = ffmpeg_args_of(*config, os)->Some_0;
        assert(size@ == size_text(config.width, config.height));
        assert(device@ == input_device(config_device(*config), os));
        assert(fmt@ == ffmpeg_format_of(os)->Some_0);
        assert(views(v@) =~= spec);
    }
    Some(v)
}

/// How a finished FFmpeg process is described: its exit code, or that it
/// was terminated (by a signal) without one.
pub open spec fn exit_text(code: Option<i32>) -> Seq<char> {
    match code {
        Some(c) => "code="@ + int_text(c as int),
        None => "terminated"@,
    }
}

pub fn format_exit(code: Option<i32>) -> (r: String)
    ensures
        r@ == exit_text(code),
{
    match code {
        Some(c) => String::from_str("code=").concat(int_to_string(c as i128).as_str()),
        None => String::from_str("terminated"),
    }
}

/// Row length and frame size of packed RGB24 frames, saturating at the
/// integer bounds.
pub open spec fn rgb24_stride(width: u32) -> u32 {
    if width as nat * 3 > u32::MAX {
        u32::MAX
    } else {
        (width * 3) as u32
    }
}

pub open spec fn rgb24_frame_size(width: u32, height: u32) -> usize {
    let n = rgb24_stride(width) as nat * height as nat;
    if n > usize::MAX {
        usize::MAX
    } else {
        n as usize
    }
}

pub fn rgb24_layout(width: u32, height: u32) -> (r: (u32, usize))
    ensures
        r.0 == rgb24_stride(width),
        r.1 == rgb24_frame_size(width, height),
{
    let wide: u64 = width as u64 * 3;
    let stride: u32 = if wide > u32::MAX as u64 {
        u32::MAX
    } else {
        wide as u32
    };
    assert(stride as nat * height as nat <= u64::MAX) by (nonlinear_arith)
        requires
            stride <= u32::MAX,
            height <= u32::MAX,
    ;
    let n: u64 = stride as u64 * height as u64;
    let size: usize = if n as u128 > usize::MAX as u128 {
        usize::MAX
    } else {
        n as usize
    };
    (stride, size)
}

/// Relies on `bytes::Bytes::copy_from_slice`: a new buffer holding a copy of
/// the slice.
pub assume_specification[ bytes::Bytes::copy_from_slice ](data: &[u8]) -> (r: bytes::Bytes)
    ensures
        bytes_content(r) == data@,
;

/// A packed RGB24 frame holding a copy of one frame's worth of bytes read
/// from FFmpeg.
pub fn rgb24_frame(buf: &[u8], width: u32, height: u32, stride: u32, timestamp_ns: u64) -> (r: Frame)
    ensures
        r@.data == buf@,
        r.width == width,
        r.height == height,
        r.stride == stride,
        r.pixel_format == PixelFormat::Rgb8,
        r.timestamp_ns == timestamp_ns,
{
    Frame::new_rgb8(bytes::Bytes::copy_from_slice(buf), width, height, stride).with_timestamp_ns(
        timestamp_ns,
    )
}

/// What one read of a whole frame from FFmpeg's output came to.
#[derive(Clone, Debug)]
pub enum ReadOutcome {
    /// The buffer was filled.
    Filled,
    /// The stream ended before a whole frame.
    EndOfStream,
    /// The read failed; the description of the failure.
    Failed(String),
}

/// What the reader thread does after a read.
#[derive(Debug)]
pub enum ReaderAction {
    /// Submit the frame just read and read again.
    Submit,
    /// Report the error and stop reading.
    Fail(CameraEvent),
}

/// A filled buffer is submitted; the end of the stream or a failed read is
/// reported as an error event and ends the reader.
pub fn reader_action(outcome: ReadOutcome) -> (r: ReaderAction)
    ensures
        outcome is Filled ==> r is Submit,
        outcome is EndOfStream ==> r matches ReaderAction::Fail(CameraEvent::Error {
            backend: CameraBackend::Ffmpeg,
            error: CameraError::Other(_),
        }),
        outcome matches ReadOutcome::Failed(e) ==> (r matches ReaderAction::Fail(CameraEvent::Error {
            backend: CameraBackend::Ffmpeg,
            error: CameraError::DriverError { source: s, .. },
        }) && s@ == e@),
{
    match outcome {
        ReadOutcome::Filled => ReaderAction::Submit,
        ReadOutcome::EndOfStream => ReaderAction::Fail(
            CameraEvent::Error {
                backend: CameraBackend::Ffmpeg,
                error: CameraError::other("ffmpeg stream ended (EOF)"),
            },
        ),
        ReadOutcome::Failed(e) => ReaderAction::Fail(
            CameraEvent::Error {
                backend: CameraBackend::Ffmpeg,
                error: CameraError::driver("ffmpeg read", e.as_str()),
            },
        ),
    }
}

/// What a non-blocking check on the FFmpeg process came to.
#[derive(Clone, Debug)]
pub enum WaitOutcome {
    /// The process has exited, with its exit code if it has one.
    Exited(Option<i32>),
    StillRunning,
    /// The check failed; the description of the failure.
    Failed(String),
}

/// What the monitor thread does after a check.
#[derive(Debug)]
pub enum MonitorAction {
    /// Sleep, then check again.
    Wait,
    /// Stop monitoring without a report.
    Quit,
    /// Report the error and stop monitoring.
    Fail(CameraEvent),
}

/// A running process is checked again later. An exit or a failed check
/// while stopping was asked for ends the monitor silently; otherwise it is
/// reported as an error event.
pub fn monitor_action(outcome: WaitOutcome, stopping: bool) -> (r: MonitorAction)
    ensures
        outcome is StillRunning ==> r is Wait,
        !(outcome is StillRunning) && stopping ==> r is Quit,
        !stopping ==> (outcome matches WaitOutcome::Exited(code) ==> (r matches MonitorAction::Fail(
            CameraEvent::Error { backend: CameraBackend::Ffmpeg, error: CameraError::Other(m) },
        ) && m@ == "ffmpeg exited: "@ + exit_text(code))),
        !stopping ==> (outcome matches WaitOutcome::Failed(e) ==> (r matches MonitorAction::Fail(
            CameraEvent::Error {
                backend: CameraBackend::Ffmpeg,
                error: CameraError::DriverError { source: s, .. },
            },
        ) && s@ == e@)),
{
    match outcome {
        WaitOutcome::StillRunning => MonitorAction::Wait,
        WaitOutcome::Exited(code) => {
            if stopping {
                return MonitorAction::Quit;
            }
            let msg = String::from_str("ffmpeg exited: ").concat(format_exit(code).as_str());
            MonitorAction::Fail(
                CameraEvent::Error { backend: CameraBackend::Ffmpeg, error: CameraError::Other(msg) },
            )
        },
        WaitOutcome::Failed(e) => {
            if stopping {
                return MonitorAction::Quit;
            }
            MonitorAction::Fail(
                CameraEvent::Error {
                    backend: CameraBackend::Ffmpeg,
                    error: CameraError::driver("ffmpeg wait", e.as_str()),
                },
            )
        },
    }
}

} // verus!
