//! Captured frames and their pixel formats.

use bytes::Bytes;
use vstd::prelude::*;

use crate::buffer::bytes_contents;
use crate::capture_error::CaptureError;
use crate::config::ImageFormat;

verus! {

/// The pixel format of a captured frame.
#[derive(Debug, Clone, Copy, PartialEq, Eq, Structural)]
pub enum PixelFormat {
    /// A compressed MJPEG frame.
    Mjpeg,
    /// RGB888, rows of interleaved samples.
    Rgb8,
    /// BGR888, rows of interleaved samples.
    Bgr8,
    /// YUYV / YUY2 (packed 4:2:2), two bytes per pixel.
    Yuyv,
    /// One grey sample per pixel (V4L2 GREY / Y800).
    Gray8,
}

/// The quantization range of YUV samples.
#[derive(Debug, Clone, Copy, PartialEq, Eq, Structural)]
pub enum YuvRange {
    Full,
    Limited,
}

/// The conversion matrix of YUV samples.
#[derive(Debug, Clone, Copy, PartialEq, Eq, Structural)]
pub enum YuvMatrix {
    Bt601,
    Bt709,
}

/// How YUV samples are to be read.
#[derive(Debug, Clone, Copy, PartialEq, Eq, Structural)]
pub struct YuvColorimetry {
    pub range: YuvRange,
    pub matrix: YuvMatrix,
}

/// One frame as the backend delivered it.
#[derive(Debug)]
pub struct CapturedFrame {
    pub width: u32,
    pub height: u32,
    /// Bytes that one row occupies; zero for compressed formats.
    pub stride: usize,
    pub pixel_format: PixelFormat,
    pub yuv_colorimetry: Option<YuvColorimetry>,
    /// Unix epoch nanoseconds at which the backend obtained this physical
    /// frame.
    pub capture_timestamp_ns: Option<i64>,
    pub data: Bytes,
}

impl CapturedFrame {
    /// The bytes of the frame.
    pub open spec fn contents(self) -> Seq<u8> {
        bytes_contents(self.data)
    }

    /// The two frames agree in every field and in every byte.
    pub open spec fn same_as(self, other: CapturedFrame) -> bool {
        &&& self.width == other.width
        &&& self.height == other.height
        &&& self.stride == other.stride
        &&& self.pixel_format == other.pixel_format
        &&& self.yuv_colorimetry == other.yuv_colorimetry
        &&& self.capture_timestamp_ns == other.capture_timestamp_ns
        &&& self.contents() == other.contents()
    }
}

impl Clone for CapturedFrame {
    fn clone(&self) -> (r: Self)
        ensures
            r.same_as(*self),
    {
        CapturedFrame {
            width: self.width,
            height: self.height,
            stride: self.stride,
            pixel_format: self.pixel_format,
            yuv_colorimetry: self.yuv_colorimetry,
            capture_timestamp_ns: self.capture_timestamp_ns,
            data: self.data.clone(),
        }
    }
}

/// A source of frames.
pub trait CaptureBackend {
    /// The frame came to the source after that was in the state `before`, and by
    /// the time that it was in this one. Each source says what that means for
    /// it.
    spec fn came_since(&self, before: &Self, frame: CapturedFrame) -> bool;

    /// The newest frame, which may be one that was returned before.
    fn capture_frame(&mut self) -> Result<CapturedFrame, CaptureError>;

    /// Waits for the next frame; one that came before is never returned.
    fn capture_fresh_frame(&mut self) -> (r: Result<CapturedFrame, CaptureError>)
        ensures
            r matches Ok(frame) ==> final(self).came_since(old(self), frame),
    ;
}

/// Waiting for the next frame of a source can end so: it is an outcome of its
/// `capture_fresh_frame`.
pub open spec fn may_yield_fresh<B: CaptureBackend>(
    source: &mut B,
    got: Result<CapturedFrame, CaptureError>,
) -> bool {
    call_ensures(B::capture_fresh_frame, (source,), got)
}

/// Whether a frame can be sent as it is: the device delivers MJPEG and JPEG is
/// what is asked for.
pub fn can_direct_use_mjpeg(pixel_format: PixelFormat, image_format: ImageFormat) -> (r: bool)
    ensures
        r == (pixel_format == PixelFormat::Mjpeg && image_format == ImageFormat::Jpeg),
{
    matches!(pixel_format, PixelFormat::Mjpeg) && matches!(image_format, ImageFormat::Jpeg)
}

/// Frames are the same if all is the same that can be seen of them.
pub proof fn law_same_frames(a: CapturedFrame, b: CapturedFrame)
    ensures
        a.contents() == bytes_contents(a.data),
        a.same_as(b) <==> {
            &&& a.width == b.width && a.height == b.height && a.stride == b.stride
            &&& a.pixel_format == b.pixel_format && a.yuv_colorimetry == b.yuv_colorimetry
            &&& a.capture_timestamp_ns == b.capture_timestamp_ns
            &&& bytes_contents(a.data) == bytes_contents(b.data)
        },
{
}

/// Only MJPEG frames go out untouched, and only as JPEG.
pub proof fn law_only_mjpeg_goes_out_untouched(
    pixel_format: PixelFormat,
    image_format: ImageFormat,
    r: bool,
)
    requires
        call_ensures(can_direct_use_mjpeg, (pixel_format, image_format), r),
    ensures
        r ==> pixel_format == PixelFormat::Mjpeg && image_format == ImageFormat::Jpeg,
        pixel_format == PixelFormat::Mjpeg && image_format == ImageFormat::Jpeg ==> r,
{
}

} // verus!
