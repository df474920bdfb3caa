//! Driver-agnostic camera capture core: frames and their layout, capture
//! configuration, the error taxonomy, the bounded frame pipeline that fans
//! frames out to sinks, the event channel, and the driver lifecycle.

mod camera;
mod capture_format;
mod cli;
mod config;
mod device;
mod dispatch;
mod error;
mod event;
mod ffmpeg;
mod frame;
mod listing;
mod queue;
mod reader;
mod sink;
mod text;

pub use camera::{
    open_camera, select_backend, selected_backend, BuildTarget, Camera, CameraDriver, CameraView,
    DshowCameraDriver, TargetOs, V4l2CameraDriver,
};
pub use capture_format::{
    choose_format, chosen_format, cm_time_to_ns, format_fits, frame_timescale, frame_timescale_of,
    time_ns, FormatInfo,
};
pub use cli::{
    dimension_parts, dimensions_of, exit_status, exit_status_of, is_separator, parse_dimensions,
    sole_separator, DimensionsError, EX_CONFIG, EX_SOFTWARE, EX_UNAVAILABLE, EX_USAGE, MAX_HEIGHT,
    MAX_WIDTH, MIN_HEIGHT, MIN_WIDTH,
};
pub use config::{
    CameraConfig, DEFAULT_BUFFER_FRAMES, DEFAULT_FPS_MILLI, DEFAULT_HEIGHT, DEFAULT_WIDTH,
};
pub use device::{
    between_quotes, dedup_preserve_order, dedup_seq, default_device_fallback, device_le,
    device_le_exec, device_line, device_line_of, devices_ordered, explicit_device,
    explicit_device_of, extract_between_quotes, extract_dshow_quoted_name, extract_quoted_name,
    extract_quoted_value, fallback_device, first_usb, first_usb_named, get_input_device,
    input_device, insert_sorted, matches_usb_name, normalize_device_id, normalize_trimmed_device_id,
    normalized_device_id, pick_device, picked_device, prefer_usb_by_name, quoted_name, quoted_value,
    sort_devices, sorted_devices, strip_prefix, text_le, text_le_str, DeviceInfo,
};
pub use dispatch::{
    all_frames, frames_delivered, lemma_stop_idempotent, lemma_submitted_frame_reaches_every_sink,
    run_steps, step_post, stop_post, worker_receive, Dispatcher, DispatcherView, Received,
    WorkerState, WorkerStep,
};
pub use error::{status_of, AsimovCameraErrorCode, CameraError};
pub use event::{emitted, report_drop, CameraBackend, CameraEvent, EventQueue, EVENT_CAPACITY};
pub use ffmpeg::{
    config_device, exit_text, ffmpeg_args, ffmpeg_args_of, ffmpeg_format, ffmpeg_format_of,
    format_exit, format_milli, fraction_text, input_fps, input_fps_milli, milli_text,
    monitor_action, reader_action, rgb24_frame, rgb24_frame_size, rgb24_layout, rgb24_stride,
    size_text, views, MonitorAction, ReadOutcome, ReaderAction, WaitOutcome, FALLBACK_FPS_MILLI,
    MAX_FPS_MILLI, MIN_FPS_MILLI,
};
pub use frame::{bytes_content, Frame, FrameView, PixelFormat};
pub use listing::{
    avf_entry, avf_scan, avf_views, device_views, dshow_scan, is_usb_text, lines_of, mentions_usb,
    parse_avfoundation_lines, parse_avfoundation_video_devices, parse_dshow_lines,
    parse_dshow_video_devices, split_lines, strip_cr, usb_like_name, usb_name_of, usb_name_scan, usb_product_names,
    video_node_index, video_node_index_of, AvfVideoDevice,
};
pub use queue::{
    admissible, drop_events, events_after_submit, frame_msgs, lemma_backpressure, min_nat,
    outcome_event, queue_after_submit, submit_all, submit_outcome, try_send_frame, FrameMsg,
    FrameQueue, FrameQueueView, SubmitOutcome, TrySendError,
};
pub use reader::{
    is_repeat, min_interval_ns, min_interval_of, record_id, record_id_of, record_seconds,
    record_seconds_of, should_emit, NANOS_PER_SEC,
};
pub use sink::{called, deliveries, lemma_each_sink_once, Delivery, FrameSink, SinkSet};
pub use text::{
    all_ascii_digits, contains_case_insensitive, int_to_string, contains_str, decimal, digit_char, digits_value,
    find_char, find_str, first_index, first_occurrence, has_prefix, has_substring, int_text,
    is_all_ascii_digits, is_ascii_digit, lower_of, parse_u32, parse_u32_of, starts_with, trim_of,
};
