use vstd::prelude::*;

verus! {

#[verifier::external_type_specification]
#[verifier::external_body]
pub struct ExBytes(bytes::Bytes);

/// The bytes held by a shared buffer.
pub uninterp spec fn bytes_content(b: bytes::Bytes) -> Seq<u8>;

/// Relies on `bytes::Bytes::len`: the number of bytes the handle views.
pub assume_specification[ bytes::Bytes::len ](b: &bytes::Bytes) -> (r: usize)
    ensures
        r == bytes_content(*b).len(),
;

/// Relies on `Clone for bytes::Bytes`: a second handle onto the same bytes.
pub assume_specification[ <bytes::Bytes as Clone>::clone ](b: &bytes::Bytes) -> (r: bytes::Bytes)
    ensures
        bytes_content(r) == bytes_content(*b),
;

/// Memory layout of one pixel.
#[derive(Clone, Copy, Debug, PartialEq, Eq, Structural)]
pub enum PixelFormat {
    Rgb8,
    Bgra8,
}

impl PixelFormat {
    pub open spec fn spec_bytes_per_pixel(self) -> nat {
        match self {
            PixelFormat::Rgb8 => 3,
            PixelFormat::Bgra8 => 4,
        }
    }

    /// Bytes that one pixel of this format takes.
    pub fn bytes_per_pixel(self) -> (r: u32)
        ensures
            r as nat == self.spec_bytes_per_pixel(),
    {
        match self {
            PixelFormat::Rgb8 => 3,
            PixelFormat::Bgra8 => 4,
        }
    }
}

/// One captured image: a shared, read-only byte buffer and its layout.
#[derive(Debug)]
pub struct Frame {
    pub data: bytes::Bytes,
    pub width: u32,
    pub height: u32,
    /// Length of one row in bytes, padding included.
    pub stride: u32,
    pub pixel_format: PixelFormat,
    /// Capture time in nanoseconds; 0 when unknown.
    pub timestamp_ns: u64,
}

/// What a frame holds, seen as plain values.
pub struct FrameView {
    pub data: Seq<u8>,
    pub width: nat,
    pub height: nat,
    pub stride: nat,
    pub pixel_format: PixelFormat,
    pub timestamp_ns: nat,
}

impl FrameView {
    /// Non-zero dimensions, rows wide enough for their pixels, and a buffer
    /// that covers every row.
    pub open spec fn valid(self) -> bool {
        &&& self.width > 0
        &&& self.height > 0
        &&& self.stride > 0
        &&& self.stride >= self.width * self.pixel_format.spec_bytes_per_pixel()
        &&& self.data.len() >= self.stride * self.height
    }
}

impl View for Frame {
    type V = FrameView;

    open spec fn view(&self) -> FrameView {
        FrameView {
            data: bytes_content(self.data),
            width: self.width as nat,
            height: self.height as nat,
            stride: self.stride as nat,
            pixel_format: self.pixel_format,
            timestamp_ns: self.timestamp_ns as nat,
        }
    }
}

impl Clone for Frame {
    /// Another handle onto the same buffer, with the same layout.
    fn clone(&self) -> (r: Self)
        ensures
            r@ == self@,
    {
        Frame {
            data: self.data.clone(),
            width: self.width,
            height: self.height,
            stride: self.stride,
            pixel_format: self.pixel_format,
            timestamp_ns: self.timestamp_ns,
        }
    }
}

/// The product of two `u32` values fits in a `u64`.
proof fn lemma_u32_product_fits(a: u32, b: u32)
    ensures
        (a as nat) * (b as nat) <= u64::MAX,
{
    assert((a as nat) * (b as nat) <= (u32::MAX as nat) * (u32::MAX as nat)) by (nonlinear_arith);
}

impl Frame {
    /// A frame with an unknown capture time.
    pub fn new(data: bytes::Bytes, width: u32, height: u32, stride: u32, pixel_format: PixelFormat) -> (r: Self)
        ensures
            r.data == data,
            r.width == width,
            r.height == height,
            r.stride == stride,
            r.pixel_format == pixel_format,
            r.timestamp_ns == 0,
    {
        Frame { data, width, height, stride, pixel_format, timestamp_ns: 0 }
    }

    pub fn new_rgb8(data: bytes::Bytes, width: u32, height: u32, stride: u32) -> (r: Self)
        ensures
            r.data == data,
            r.width == width,
            r.height == height,
            r.stride == stride,
            r.pixel_format == PixelFormat::Rgb8,
            r.timestamp_ns == 0,
    {
        Self::new(data, width, height, stride, PixelFormat::Rgb8)
    }

    pub fn new_bgra8(data: bytes::Bytes, width: u32, height: u32, stride: u32) -> (r: Self)
        ensures
            r.data == data,
            r.width == width,
            r.height == height,
            r.stride == stride,
            r.pixel_format == PixelFormat::Bgra8,
            r.timestamp_ns == 0,
    {
        Self::new(data, width, height, stride, PixelFormat::Bgra8)
    }

    pub fn with_timestamp_ns(self, timestamp_ns: u64) -> (r: Self)
        ensures
            r.data == self.data,
            r.width == self.width,
            r.height == self.height,
            r.stride == self.stride,
            r.pixel_format == self.pixel_format,
            r.timestamp_ns == timestamp_ns,
    {
        let mut f = self;
        f.timestamp_ns = timestamp_ns;
        f
    }

    /// Whether the layout is consistent and the buffer covers every row.
    pub fn validate(&self) -> (r: bool)
        ensures
            r == self@.valid(),
    {
        let bpp = self.pixel_format.bytes_per_pixel();
        if self.width == 0 || self.height == 0 || self.stride == 0 {
            return false;
        }
        proof {
            lemma_u32_product_fits(self.width, bpp);
            lemma_u32_product_fits(self.stride, self.height);
        }
        let row_min: u64 = self.width as u64 * bpp as u64;
        if (self.stride as u64) < row_min {
            return false;
        }
        let min_len: u64 = self.stride as u64 * self.height as u64;
        (self.data.len() as u64) >= min_len
    }
}

} // verus!
