use crate::frame::PixelFormat;
use vstd::prelude::*;

verus! {

/// Default requested width in pixels.
pub const DEFAULT_WIDTH: u32 = 640;

/// Default requested height in pixels.
pub const DEFAULT_HEIGHT: u32 = 480;

/// Default requested frame rate, in thousandths of a frame per second.
pub const DEFAULT_FPS_MILLI: u32 = 30000;

/// Default capacity of the frame queue.
pub const DEFAULT_BUFFER_FRAMES: usize = 2;

/// Requested capture parameters. The frame rate is best effort: a backend
/// may fall back to another rate.
#[derive(Clone, Debug)]
pub struct CameraConfig {
    /// Backend-interpreted device selector.
    pub device: Option<String>,
    pub width: u32,
    pub height: u32,
    /// Requested frame rate, in thousandths of a frame per second.
    pub fps_milli: u32,
    pub pixel_format: Option<PixelFormat>,
    /// Capacity of the frame queue; at least 1 once set through the builder.
    pub buffer_frames: usize,
    /// Verbose backend logging.
    pub diagnostics: bool,
}

impl Default for CameraConfig {
    /// 640x480 at 30 frames per second, a two-frame queue, no device, no
    /// pixel format hint, no diagnostics.
    fn default() -> (r: Self)
        ensures
            r.device is None,
            r.width == DEFAULT_WIDTH,
            r.height == DEFAULT_HEIGHT,
            r.fps_milli == DEFAULT_FPS_MILLI,
            r.pixel_format is None,
            r.buffer_frames == DEFAULT_BUFFER_FRAMES,
            !r.diagnostics,
    {
        CameraConfig {
            device: None,
            width: DEFAULT_WIDTH,
            height: DEFAULT_HEIGHT,
            fps_milli: DEFAULT_FPS_MILLI,
            pixel_format: None,
            buffer_frames: DEFAULT_BUFFER_FRAMES,
            diagnostics: false,
        }
    }
}

impl CameraConfig {
    /// The defaults, with the given size and frame rate.
    pub fn new(width: u32, height: u32, fps_milli: u32) -> (r: Self)
        ensures
            r.device is None,
            r.width == width,
            r.height == height,
            r.fps_milli == fps_milli,
            r.pixel_format is None,
            r.buffer_frames == DEFAULT_BUFFER_FRAMES,
            !r.diagnostics,
    {
        let mut c = CameraConfig::default();
        c.width = width;
        c.height = height;
        c.fps_milli = fps_milli;
        c
    }

    pub fn with_device(self, device: &str) -> (r: Self)
        ensures
            r.device matches Some(d) && d@ == device@,
            r.width == self.width,
            r.height == self.height,
            r.fps_milli == self.fps_milli,
            r.pixel_format == self.pixel_format,
            r.buffer_frames == self.buffer_frames,
            r.diagnostics == self.diagnostics,
    {
        let mut c = self;
        c.device = Some(String::from_str(device));
        c
    }

    pub fn with_pixel_format(self, fmt: PixelFormat) -> (r: Self)
        ensures
            r.device == self.device,
            r.width == self.width,
            r.height == self.height,
            r.fps_milli == self.fps_milli,
            r.pixel_format == Some(fmt),
            r.buffer_frames == self.buffer_frames,
            r.diagnostics == self.diagnostics,
    {
        let mut c = self;
        c.pixel_format = Some(fmt);
        c
    }

    /// Sets the queue capacity; 0 is raised to 1.
    pub fn with_buffer_frames(self, n: usize) -> (r: Self)
        ensures
            r.device == self.device,
            r.width == self.width,
            r.height == self.height,
            r.fps_milli == self.fps_milli,
            r.pixel_format == self.pixel_format,
            r.buffer_frames == if n == 0 { 1 } else { n },
            r.diagnostics == self.diagnostics,
    {
        let mut c = self;
        c.buffer_frames = if n == 0 { 1 } else { n };
        c
    }

    pub fn with_diagnostics(self, enabled: bool) -> (r: Self)
        ensures
            r.device == self.device,
            r.width == self.width,
            r.height == self.height,
            r.fps_milli == self.fps_milli,
            r.pixel_format == self.pixel_format,
            r.buffer_frames == self.buffer_frames,
            r.diagnostics == enabled,
    {
        let mut c = self;
        c.diagnostics = enabled;
        c
    }
}

} // verus!
