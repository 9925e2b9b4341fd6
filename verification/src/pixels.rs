//! Conversion of captured frames to packed RGB.

use vstd::prelude::*;
use vstd::slice::slice_subrange;

use crate::backend::{CapturedFrame, PixelFormat, YuvColorimetry, YuvMatrix, YuvRange};
use crate::buffer::as_slice;
use crate::codec::{counted_axis, decode_rgb8, decoded_rgb8, shape_fits, shaped};
use crate::text::{decimal, push_decimal};

verus! {

/// The buffer that an image array was to be built from.
#[derive(Debug, Clone, Copy, PartialEq, Eq, Structural)]
pub enum BufferKind {
    Decoded,
    Rgb8,
    Bgr8,
    YuyvRgb,
    Gray8,
}

/// Why a frame could not be converted to RGB.
#[derive(Debug, Clone, Copy, PartialEq, Eq, Structural)]
pub enum FrameError {
    DecodeFailed,
    ShapeMismatch(BufferKind),
    RowSizeOverflow,
    StrideTooSmall { stride: usize, packed: usize },
    BufferSizeOverflow,
    FrameTooShort { len: usize, required: usize, width: u32, height: u32, stride: usize },
    OddYuyvWidth { width: u32 },
    RgbSizeOverflow,
}

/// The text that reports a frame error.
pub open spec fn frame_error_text(e: FrameError) -> Seq<char> {
    match e {
        FrameError::DecodeFailed => "failed to decode mjpeg frame"@,
        FrameError::ShapeMismatch(BufferKind::Decoded) =>
            "failed to build ndarray from rgb buffer"@,
        FrameError::ShapeMismatch(BufferKind::Rgb8) => "failed to build ndarray from rgb8 buffer"@,
        FrameError::ShapeMismatch(BufferKind::Bgr8) => "failed to build ndarray from bgr8 buffer"@,
        FrameError::ShapeMismatch(BufferKind::YuyvRgb) =>
            "failed to build ndarray from yuyv rgb buffer"@,
        FrameError::ShapeMismatch(BufferKind::Gray8) =>
            "failed to build ndarray from gray8 buffer"@,
        FrameError::RowSizeOverflow => "frame row size overflow"@,
        FrameError::StrideTooSmall { stride, packed } => "frame stride "@ + decimal(stride as nat)
            + " is smaller than packed row size "@ + decimal(packed as nat),
        FrameError::BufferSizeOverflow => "frame buffer size overflow"@,
        FrameError::FrameTooShort { len, required, width, height, stride } =>
            "unexpected frame buffer size: "@ + decimal(len as nat) + " < "@ + decimal(
                required as nat,
            ) + " ("@ + decimal(width as nat) + "x"@ + decimal(height as nat) + ", stride="@
                + decimal(stride as nat) + ")"@,
        FrameError::OddYuyvWidth { width } => "YUYV width must be even, got "@ + decimal(
            width as nat,
        ),
        FrameError::RgbSizeOverflow => "RGB frame size overflow"@,
    }
}

impl FrameError {
    /// The text that reports this error.
    pub fn message(&self) -> (r: String)
        ensures
            r@ == frame_error_text(*self),
    {
        match self {
            FrameError::DecodeFailed => "failed to decode mjpeg frame".to_owned(),
            FrameError::ShapeMismatch(BufferKind::Decoded) =>
                "failed to build ndarray from rgb buffer".to_owned(),
            FrameError::ShapeMismatch(BufferKind::Rgb8) =>
                "failed to build ndarray from rgb8 buffer".to_owned(),
            FrameError::ShapeMismatch(BufferKind::Bgr8) =>
                "failed to build ndarray from bgr8 buffer".to_owned(),
            FrameError::ShapeMismatch(BufferKind::YuyvRgb) =>
                "failed to build ndarray from yuyv rgb buffer".to_owned(),
            FrameError::ShapeMismatch(BufferKind::Gray8) =>
                "failed to build ndarray from gray8 buffer".to_owned(),
            FrameError::RowSizeOverflow => "frame row size overflow".to_owned(),
            FrameError::StrideTooSmall { stride, packed } => {
                let mut out: String = "frame stride ".to_owned();
                push_decimal(&mut out, *stride as u128);
                out.append(" is smaller than packed row size ");
                push_decimal(&mut out, *packed as u128);
                out
            },
            FrameError::BufferSizeOverflow => "frame buffer size overflow".to_owned(),
            FrameError::FrameTooShort { len, required, width, height, stride } => {
                let mut out: String = "unexpected frame buffer size: ".to_owned();
                push_decimal(&mut out, *len as u128);
                out.append(" < ");
                push_decimal(&mut out, *required as u128);
                out.append(" (");
                push_decimal(&mut out, *width as u128);
                out.append("x");
                push_decimal(&mut out, *height as u128);
                out.append(", stride=");
                push_decimal(&mut out, *stride as u128);
                out.append(")");
                out
            },
            FrameError::OddYuyvWidth { width } => {
                let mut out: String = "YUYV width must be even, got ".to_owned();
                push_decimal(&mut out, *width as u128);
                out
            },
            FrameError::RgbSizeOverflow => "RGB frame size overflow".to_owned(),
        }
    }
}

/// An RGB image: rows from top to bottom, three interleaved samples per pixel.
#[derive(Debug, Clone, PartialEq, Eq)]
pub struct RgbArray {
    pub height: usize,
    pub width: usize,
    pub data: Vec<u8>,
}

impl RgbArray {
    /// The data are the samples of `height` by `width` pixels, and the size is
    /// one that an image array can have.
    pub open spec fn wf(self) -> bool {
        &&& self.height <= u32::MAX
        &&& self.width <= u32::MAX
        &&& shape_fits(self.height as nat, self.width as nat, 3)
        &&& self.data@.len() == self.height * self.width * 3
    }

    /// Rows, columns and channels.
    pub fn dim(&self) -> (r: (usize, usize, usize))
        ensures
            r == (self.height, self.width, 3usize),
    {
        (self.height, self.width, 3)
    }

    /// The sample of `channel` (red, green, blue) at row `y`, column `x`.
    pub fn sample(&self, y: usize, x: usize, channel: usize) -> (r: u8)
        requires
            self.wf(),
            y < self.height,
            x < self.width,
            channel < 3,
        ensures
            r == self.data@[(y * self.width + x) * 3 + channel],
    {
        proof {
            lemma_sample_in_bounds(
                self.height as int,
                self.width as int,
                y as int,
                x as int,
                channel as int,
            );
        }
        let len: usize = self.data.len();
        assert(len == self.data@.len());
        self.data[(y * self.width + x) * 3 + channel]
    }
}

proof fn lemma_sample_in_bounds(h: int, w: int, y: int, x: int, c: int)
    requires
        0 <= y < h,
        0 <= x < w,
        0 <= c < 3,
    ensures
        0 <= y * w,
        0 <= y * w + x < h * w,
        0 <= (y * w + x) * 3 + c < h * w * 3,
{
    assert(y * w + w <= h * w) by (nonlinear_arith)
        requires
            0 <= y < h,
            0 <= w,
    ;
    assert(0 <= y * w) by (nonlinear_arith)
        requires
            0 <= y,
            0 <= w,
    ;
}

// ---------------------------------------------------------------------------
// Row packing
// ---------------------------------------------------------------------------
/// Bytes from one row to the next: a stride of zero means packed rows.
pub open spec fn row_stride(stride: nat, packed: nat) -> nat {
    if stride == 0 {
        packed
    } else {
        stride
    }
}

/// The first `packed` bytes of each of `height` rows that are `stride` bytes
/// apart.
pub open spec fn packed_rows(data: Seq<u8>, packed: nat, stride: nat, height: nat) -> Seq<u8> {
    Seq::new(packed * height, |i: int| data[i / (packed as int) * stride + i % (packed as int)])
}

/// What is wrong with the buffer of a frame of `bytes_per_pixel`, if anything.
pub open spec fn packing_error(frame: CapturedFrame, bytes_per_pixel: nat) -> Option<FrameError> {
    let packed = frame.width as nat * bytes_per_pixel;
    let stride = row_stride(frame.stride as nat, packed);
    let required = stride * frame.height as nat;
    if packed > usize::MAX {
        Some(FrameError::RowSizeOverflow)
    } else if stride < packed {
        Some(FrameError::StrideTooSmall { stride: stride as usize, packed: packed as usize })
    } else if required > usize::MAX {
        Some(FrameError::BufferSizeOverflow)
    } else if frame.contents().len() < required {
        Some(
            FrameError::FrameTooShort {
                len: frame.contents().len() as usize,
                required: required as usize,
                width: frame.width,
                height: frame.height,
                stride: stride as usize,
            },
        )
    } else {
        None
    }
}

/// The bytes of a frame without row padding.
pub open spec fn packed_frame(frame: CapturedFrame, bytes_per_pixel: nat) -> Seq<u8> {
    let packed = frame.width as nat * bytes_per_pixel;
    packed_rows(
        frame.contents(),
        packed,
        row_stride(frame.stride as nat, packed),
        frame.height as nat,
    )
}

proof fn lemma_next_row(data: Seq<u8>, packed: nat, stride: nat, row: nat)
    requires
        packed <= stride,
        row * stride + packed <= data.len(),
    ensures
        packed_rows(data, packed, stride, row) + data.subrange(
            (row * stride) as int,
            (row * stride + packed) as int,
        ) == packed_rows(data, packed, stride, row + 1),
{
    let a = packed_rows(data, packed, stride, row);
    let b = packed_rows(data, packed, stride, row + 1);
    let line = data.subrange((row * stride) as int, (row * stride + packed) as int);
    assert(packed * (row + 1) == packed * row + packed) by (nonlinear_arith);
    assert(0 <= row * stride) by (nonlinear_arith);
    assert forall|i: int| 0 <= i < b.len() implies (a + line)[i] == b[i] by {
        if i >= a.len() {
            let c = i - packed * row;
            assert(row as int * packed as int == packed * row) by (nonlinear_arith);
            vstd::arithmetic::div_mod::lemma_fundamental_div_mod_converse(
                i,
                packed as int,
                row as int,
                c,
            );
        }
    }
    assert(a + line =~= b);
}

/// The length of a row without padding and with it, of a frame whose buffer
/// holds all its rows.
fn packing(frame: &CapturedFrame, bytes_per_pixel: usize) -> (r: Result<(usize, usize), FrameError>)
    ensures
        match r {
            Ok((packed, stride)) => {
                &&& packing_error(*frame, bytes_per_pixel as nat) is None
                &&& packed == frame.width as nat * bytes_per_pixel as nat
                &&& stride == row_stride(frame.stride as nat, packed as nat)
            },
            Err(e) => packing_error(*frame, bytes_per_pixel as nat) == Some(e),
        },
{
    let len: usize = as_slice(&frame.data).len();
    let width: usize = frame.width as usize;
    let height: usize = frame.height as usize;
    let packed: usize = match width.checked_mul(bytes_per_pixel) {
        Some(n) => n,
        None => return Err(FrameError::RowSizeOverflow),
    };
    let stride: usize = if frame.stride == 0 {
        packed
    } else {
        frame.stride
    };
    if stride < packed {
        return Err(FrameError::StrideTooSmall { stride, packed });
    }
    let required: usize = match stride.checked_mul(height) {
        Some(n) => n,
        None => return Err(FrameError::BufferSizeOverflow),
    };
    if len < required {
        return Err(
            FrameError::FrameTooShort {
                len,
                required,
                width: frame.width,
                height: frame.height,
                stride,
            },
        );
    }
    Ok((packed, stride))
}

/// Copies the pixels of a frame without the padding of its rows.
pub fn packed_frame_data(frame: &CapturedFrame, bytes_per_pixel: usize) -> (r: Result<
    Vec<u8>,
    FrameError,
>)
    requires
        frame.stride > 0 || (frame.width > 0 && bytes_per_pixel > 0),
    ensures
        match r {
            Ok(data) => {
                &&& packing_error(*frame, bytes_per_pixel as nat) is None
                &&& data@ == packed_frame(*frame, bytes_per_pixel as nat)
            },
            Err(e) => packing_error(*frame, bytes_per_pixel as nat) == Some(e),
        },
{
    let (packed, stride): (usize, usize) = match packing(frame, bytes_per_pixel) {
        Ok(lengths) => lengths,
        Err(e) => return Err(e),
    };
    let data: &[u8] = as_slice(&frame.data);
    let height: usize = frame.height as usize;
    assert(data.len() <= usize::MAX);
    let mut out: Vec<u8> = Vec::new();
    let mut row: usize = 0;
    let mut start: usize = 0;
    assert(out@ =~= packed_rows(data@, packed as nat, stride as nat, 0));
    assert(start == row * stride) by (nonlinear_arith)
        requires
            start == 0,
            row == 0,
    ;
    while row < height
        invariant
            row <= height,
            packed <= stride,
            stride * height <= data@.len() <= usize::MAX,
            start == row * stride,
            out@ == packed_rows(data@, packed as nat, stride as nat, row as nat),
        decreases height - row,
    {
        proof {
            assert(row * stride + stride <= stride * height) by (nonlinear_arith)
                requires
                    row < height,
            ;
            assert((row + 1) * stride == row * stride + stride) by (nonlinear_arith);
            lemma_next_row(data@, packed as nat, stride as nat, row as nat);
        }
        let line: &[u8] = slice_subrange(data, start, start + packed);
        let ghost before = out@;
        out.extend_from_slice(line);
        assert(out@ =~= before + line@);
        start = start + stride;
        row = row + 1;
    }
    Ok(out)
}

/// Packing reads only the pixels: frames that differ in nothing but row
/// padding and in what follows the last row pack to the same bytes.
pub proof fn law_row_padding_is_ignored(a: CapturedFrame, b: CapturedFrame, bytes_per_pixel: nat)
    requires
        a.width == b.width,
        a.height == b.height,
        a.stride == b.stride,
        packing_error(a, bytes_per_pixel) is None,
        packing_error(b, bytes_per_pixel) is None,
        forall|row: int, col: int|
            0 <= row < a.height && 0 <= col < a.width * bytes_per_pixel ==> #[trigger] a.contents()[row
                * row_stride(a.stride as nat, a.width as nat * bytes_per_pixel) + col]
                == b.contents()[row * row_stride(a.stride as nat, a.width as nat * bytes_per_pixel)
                + col],
    ensures
        packed_frame(a, bytes_per_pixel) == packed_frame(b, bytes_per_pixel),
{
    let packed = a.width as nat * bytes_per_pixel;
    let stride = row_stride(a.stride as nat, packed);
    let p = packed_frame(a, bytes_per_pixel);
    let q = packed_frame(b, bytes_per_pixel);
    assert forall|i: int| 0 <= i < p.len() implies p[i] == q[i] by {
        lemma_row_and_column(i, packed as int, a.height as int);
        let row = i / (packed as int);
        let col = i % (packed as int);
        assert(a.contents()[row * stride + col] == b.contents()[row * stride + col]);
    }
    assert(p =~= q);
}

proof fn lemma_row_and_column(i: int, packed: int, height: int)
    requires
        0 <= i < packed * height,
        0 <= packed,
        0 <= height,
    ensures
        packed > 0,
        0 <= i / packed < height,
        0 <= i % packed < packed,
{
    assert(packed > 0) by (nonlinear_arith)
        requires
            0 <= i < packed * height,
            0 <= packed,
            0 <= height,
    ;
    vstd::arithmetic::div_mod::lemma_fundamental_div_mod(i, packed);
    vstd::arithmetic::div_mod::lemma_mod_bound(i, packed);
    let q = i / packed;
    assert(q < height) by (nonlinear_arith)
        requires
            packed > 0,
            i == packed * q + i % packed,
            i % packed >= 0,
            i < packed * height,
    ;
    assert(q >= 0) by (nonlinear_arith)
        requires
            packed > 0,
            i == packed * q + i % packed,
            i % packed < packed,
            i >= 0,
    ;
}

// ---------------------------------------------------------------------------
// YUV samples
// ---------------------------------------------------------------------------
/// A value limited to the range of a sample.
pub open spec fn clamp_sample(x: int) -> u8 {
    if x < 0 {
        0
    } else if x > 255 {
        255
    } else {
        x as u8
    }
}

/// The luma above black of the limited range.
pub open spec fn limited_luma(y: int) -> int {
    if y > 16 {
        y - 16
    } else {
        0
    }
}

/// The RGB pixel of a YUV sample triple, in 8-bit fixed point.
pub open spec fn yuv_pixel(y: int, u: int, v: int, colorimetry: YuvColorimetry) -> (u8, u8, u8) {
    let c = limited_luma(y);
    let d = u - 128;
    let e = v - 128;
    match (colorimetry.range, colorimetry.matrix) {
        (YuvRange::Limited, YuvMatrix::Bt601) => (
            clamp_sample((298 * c + 409 * e + 128) / 256),
            clamp_sample((298 * c - 100 * d - 208 * e + 128) / 256),
            clamp_sample((298 * c + 516 * d + 128) / 256),
        ),
        (YuvRange::Limited, YuvMatrix::Bt709) => (
            clamp_sample((298 * c + 459 * e + 128) / 256),
            clamp_sample((298 * c - 55 * d - 136 * e + 128) / 256),
            clamp_sample((298 * c + 541 * d + 128) / 256),
        ),
        (YuvRange::Full, YuvMatrix::Bt601) => (
            clamp_sample(y + (359 * e) / 256),
            clamp_sample(y - (88 * d + 183 * e) / 256),
            clamp_sample(y + (454 * d) / 256),
        ),
        (YuvRange::Full, YuvMatrix::Bt709) => (
            clamp_sample(y + (403 * e) / 256),
            clamp_sample(y - (48 * d + 120 * e) / 256),
            clamp_sample(y + (475 * d) / 256),
        ),
    }
}

fn floor_256(x: i32) -> (r: i32)
    ensures
        r == x as int / 256,
{
    assert(x >> 8 == x / 256) by (bit_vector);
    x >> 8
}

fn clamp_to_sample(x: i32) -> (r: u8)
    ensures
        r == clamp_sample(x as int),
{
    if x < 0 {
        0
    } else if x > 255 {
        255
    } else {
        x as u8
    }
}

/// A number is within `i32`.
pub open spec fn fits_i32(n: int) -> bool {
    i32::MIN <= n <= i32::MAX
}

/// Every product and sum of the conversion from YUV to RGB is within `i32`.
pub open spec fn yuv_fits(y: int, u: int, v: int, colorimetry: YuvColorimetry) -> bool {
    let c = limited_luma(y);
    let d = u - 128;
    let e = v - 128;
    &&& fits_i32(d)
    &&& fits_i32(e)
    &&& match (colorimetry.range, colorimetry.matrix) {
        (YuvRange::Limited, YuvMatrix::Bt601) => {
            &&& fits_i32(y - 16)
            &&& fits_i32(298 * c)
            &&& fits_i32(409 * e) && fits_i32(298 * c + 409 * e)
            &&& fits_i32(298 * c + 409 * e + 128)
            &&& fits_i32(100 * d) && fits_i32(298 * c - 100 * d)
            &&& fits_i32(208 * e) && fits_i32(298 * c - 100 * d - 208 * e)
            &&& fits_i32(298 * c - 100 * d - 208 * e + 128)
            &&& fits_i32(516 * d) && fits_i32(298 * c + 516 * d)
            &&& fits_i32(298 * c + 516 * d + 128)
        },
        (YuvRange::Limited, YuvMatrix::Bt709) => {
            &&& fits_i32(y - 16)
            &&& fits_i32(298 * c)
            &&& fits_i32(459 * e) && fits_i32(298 * c + 459 * e)
            &&& fits_i32(298 * c + 459 * e + 128)
            &&& fits_i32(55 * d) && fits_i32(298 * c - 55 * d)
            &&& fits_i32(136 * e) && fits_i32(298 * c - 55 * d - 136 * e)
            &&& fits_i32(298 * c - 55 * d - 136 * e + 128)
            &&& fits_i32(541 * d) && fits_i32(298 * c + 541 * d)
            &&& fits_i32(298 * c + 541 * d + 128)
        },
        (YuvRange::Full, YuvMatrix::Bt601) => {
            &&& fits_i32(359 * e) && fits_i32(y + (359 * e) / 256)
            &&& fits_i32(88 * d) && fits_i32(183 * e) && fits_i32(88 * d + 183 * e)
            &&& fits_i32(y - (88 * d + 183 * e) / 256)
            &&& fits_i32(454 * d) && fits_i32(y + (454 * d) / 256)
        },
        (YuvRange::Full, YuvMatrix::Bt709) => {
            &&& fits_i32(403 * e) && fits_i32(y + (403 * e) / 256)
            &&& fits_i32(48 * d) && fits_i32(120 * e) && fits_i32(48 * d + 120 * e)
            &&& fits_i32(y - (48 * d + 120 * e) / 256)
            &&& fits_i32(475 * d) && fits_i32(y + (475 * d) / 256)
        },
    }
}

/// Samples of eight bits are converted within `i32`, and so are all of up to a
/// million.
pub proof fn law_samples_fit(y: int, u: int, v: int, colorimetry: YuvColorimetry)
    requires
        -1_000_000 <= y <= 1_000_000,
        -1_000_000 <= u <= 1_000_000,
        -1_000_000 <= v <= 1_000_000,
    ensures
        yuv_fits(y, u, v, colorimetry),
{
}

/// Converts a YUV sample triple to RGB, with the negotiated range and matrix.
pub fn yuyv422_to_rgb(y: i32, u: i32, v: i32, colorimetry: YuvColorimetry) -> (r: (u8, u8, u8))
    requires
        yuv_fits(y as int, u as int, v as int, colorimetry),
    ensures
        r == yuv_pixel(y as int, u as int, v as int, colorimetry),
{
    let c: i32 = if y > 16 {
        y - 16
    } else {
        0
    };
    let d: i32 = u - 128;
    let e: i32 = v - 128;
    let (r, g, b): (i32, i32, i32) = match (colorimetry.range, colorimetry.matrix) {
        (YuvRange::Limited, YuvMatrix::Bt601) => (
            floor_256(298 * c + 409 * e + 128),
            floor_256(298 * c - 100 * d - 208 * e + 128),
            floor_256(298 * c + 516 * d + 128),
        ),
        (YuvRange::Limited, YuvMatrix::Bt709) => (
            floor_256(298 * c + 459 * e + 128),
            floor_256(298 * c - 55 * d - 136 * e + 128),
            floor_256(298 * c + 541 * d + 128),
        ),
        (YuvRange::Full, YuvMatrix::Bt601) => (
            y + floor_256(359 * e),
            y - floor_256(88 * d + 183 * e),
            y + floor_256(454 * d),
        ),
        (YuvRange::Full, YuvMatrix::Bt709) => (
            y + floor_256(403 * e),
            y - floor_256(48 * d + 120 * e),
            y + floor_256(475 * d),
        ),
    };
    (clamp_to_sample(r), clamp_to_sample(g), clamp_to_sample(b))
}

/// Neutral chroma is grey whatever the colorimetry; in the full range the grey
/// is the luma itself, in the limited range black (16) and white (235) span
/// the whole range.
pub proof fn law_neutral_chroma_is_grey(y: int, colorimetry: YuvColorimetry)
    requires
        0 <= y <= 255,
    ensures
        ({
            let (r, g, b) = yuv_pixel(y, 128, 128, colorimetry);
            &&& r == g == b
            &&& colorimetry.range == YuvRange::Full ==> r == y
            &&& colorimetry.range == YuvRange::Limited && y <= 16 ==> r == 0
            &&& colorimetry.range == YuvRange::Limited && y >= 235 ==> r == 255
        }),
{
}

/// A sample is an ideal value, limited to what a sample can be, but for an error
/// of less than `error`. The ideal value and the error are counted in
/// ten-thousandths.
pub open spec fn is_near(sample: u8, ideal: int, error: int) -> bool {
    let limited = if ideal < 0 {
        0
    } else if ideal > 2_550_000 {
        2_550_000
    } else {
        ideal
    };
    -error < sample * 10_000 - limited < error
}

/// The pixel is what the equations of its color standard give for samples of
/// eight bits, but for rounding. With `Y` for luma and `U` and `V` for chroma
/// above or below 128:
///
/// - BT.601, limited range: red `1.1644 Y + 1.5960 V`, green
///   `1.1644 Y - 0.3918 U - 0.8130 V`, blue `1.1644 Y + 2.0172 U`;
/// - BT.709, limited range: red `1.1644 Y + 1.7927 V`, green
///   `1.1644 Y - 0.2132 U - 0.5329 V`, blue `1.1644 Y + 2.1124 U`;
/// - BT.601, full range: red `Y + 1.4020 V`, green `Y - 0.3441 U - 0.7141 V`,
///   blue `Y + 1.7720 U`;
/// - BT.709, full range: red `Y + 1.5748 V`, green `Y - 0.1873 U - 0.4681 V`,
///   blue `Y + 1.8556 U`.
///
/// In the limited range, luma is counted from 16, and what is below is black.
pub open spec fn is_standard_pixel(
    pixel: (u8, u8, u8),
    y: int,
    u: int,
    v: int,
    colorimetry: YuvColorimetry,
) -> bool {
    let (r, g, b) = pixel;
    let above = if y < 16 {
        0
    } else {
        y - 16
    };
    match (colorimetry.range, colorimetry.matrix) {
        (YuvRange::Limited, YuvMatrix::Bt601) => {
            &&& is_near(r, 11644 * above + 15960 * (v - 128), 10_000)
            &&& is_near(g, 11644 * above - 3918 * (u - 128) - 8130 * (v - 128), 10_000)
            &&& is_near(b, 11644 * above + 20172 * (u - 128), 10_000)
        },
        (YuvRange::Limited, YuvMatrix::Bt709) => {
            &&& is_near(r, 11644 * above + 17927 * (v - 128), 10_000)
            &&& is_near(g, 11644 * above - 2132 * (u - 128) - 5329 * (v - 128), 10_000)
            &&& is_near(b, 11644 * above + 21124 * (u - 128), 10_000)
        },
        (YuvRange::Full, YuvMatrix::Bt601) => {
            &&& is_near(r, 10_000 * y + 14020 * (v - 128), 12_000)
            &&& is_near(g, 10_000 * y - 3441 * (u - 128) - 7141 * (v - 128), 12_000)
            &&& is_near(b, 10_000 * y + 17720 * (u - 128), 12_000)
        },
        (YuvRange::Full, YuvMatrix::Bt709) => {
            &&& is_near(r, 10_000 * y + 15748 * (v - 128), 12_000)
            &&& is_near(g, 10_000 * y - 1873 * (u - 128) - 4681 * (v - 128), 12_000)
            &&& is_near(b, 10_000 * y + 18556 * (u - 128), 12_000)
        },
    }
}

/// Pixels follow the color standard of their samples.
pub proof fn law_pixels_follow_the_standards(y: int, u: int, v: int, colorimetry: YuvColorimetry)
    requires
        0 <= y <= 255,
        0 <= u <= 255,
        0 <= v <= 255,
    ensures
        is_standard_pixel(yuv_pixel(y, u, v, colorimetry), y, u, v, colorimetry),
{
}

/// What `yuyv422_to_rgb` returns for samples of eight bits follows their color
/// standard.
pub proof fn law_conversion_follows_the_standards(
    y: i32,
    u: i32,
    v: i32,
    colorimetry: YuvColorimetry,
    pixel: (u8, u8, u8),
)
    requires
        0 <= y <= 255,
        0 <= u <= 255,
        0 <= v <= 255,
        call_ensures(yuyv422_to_rgb, (y, u, v, colorimetry), pixel),
    ensures
        call_requires(yuyv422_to_rgb, (y, u, v, colorimetry)),
        is_standard_pixel(pixel, y as int, u as int, v as int, colorimetry),
{
    law_pixels_follow_the_standards(y as int, u as int, v as int, colorimetry);
    law_samples_fit(y as int, u as int, v as int, colorimetry);
}

/// The sample is the number of whole 256ths in `n`, limited to what a sample can
/// be.
pub open spec fn is_floor(sample: u8, n: int) -> bool {
    &&& sample > 0 ==> 256 * sample <= n
    &&& sample < 255 ==> n < 256 * (sample + 1)
}

/// Pixels are exact but for the rounding of the coefficients to 256ths: in the
/// limited range samples are rounded to the nearest number; in the full range what
/// chroma adds to red and blue and takes from green is rounded down. So each sample
/// is the only one that it can be, whatever the samples it is made of.
pub proof fn law_pixels_are_rounded_once(y: int, u: int, v: int, colorimetry: YuvColorimetry)
    ensures
        ({
            let (r, g, b) = yuv_pixel(y, u, v, colorimetry);
            let above = if y < 16 {
                0
            } else {
                y - 16
            };
            let (d, e) = (u - 128, v - 128);
            match (colorimetry.range, colorimetry.matrix) {
                (YuvRange::Limited, YuvMatrix::Bt601) => {
                    &&& is_floor(r, 298 * above + 409 * e + 128)
                    &&& is_floor(g, 298 * above - 100 * d - 208 * e + 128)
                    &&& is_floor(b, 298 * above + 516 * d + 128)
                },
                (YuvRange::Limited, YuvMatrix::Bt709) => {
                    &&& is_floor(r, 298 * above + 459 * e + 128)
                    &&& is_floor(g, 298 * above - 55 * d - 136 * e + 128)
                    &&& is_floor(b, 298 * above + 541 * d + 128)
                },
                (YuvRange::Full, YuvMatrix::Bt601) => {
                    &&& is_floor(r, 256 * y + 359 * e)
                    &&& is_floor(g, 256 * y - 88 * d - 183 * e + 255)
                    &&& is_floor(b, 256 * y + 454 * d)
                },
                (YuvRange::Full, YuvMatrix::Bt709) => {
                    &&& is_floor(r, 256 * y + 403 * e)
                    &&& is_floor(g, 256 * y - 48 * d - 120 * e + 255)
                    &&& is_floor(b, 256 * y + 475 * d)
                },
            }
        }),
{
}

/// More chroma never turns its color down: blue grows with `u`, red with `v`, and
/// green falls with both, on both sides of neutral.
pub proof fn law_chroma_is_monotone(
    y: int,
    u: int,
    more_u: int,
    v: int,
    more_v: int,
    colorimetry: YuvColorimetry,
)
    requires
        u <= more_u,
        v <= more_v,
    ensures
        yuv_pixel(y, u, v, colorimetry).2 <= yuv_pixel(y, more_u, v, colorimetry).2,
        yuv_pixel(y, u, v, colorimetry).0 <= yuv_pixel(y, u, more_v, colorimetry).0,
        yuv_pixel(y, u, v, colorimetry).1 >= yuv_pixel(y, more_u, more_v, colorimetry).1,
        yuv_pixel(y, u, v, colorimetry).0 == yuv_pixel(y, more_u, v, colorimetry).0,
        yuv_pixel(y, u, v, colorimetry).2 == yuv_pixel(y, u, more_v, colorimetry).2,
{
}

/// More luma never darkens a pixel.
pub proof fn law_luma_is_monotone(
    low: int,
    high: int,
    u: int,
    v: int,
    colorimetry: YuvColorimetry,
)
    requires
        low <= high,
    ensures
        yuv_pixel(low, u, v, colorimetry).0 <= yuv_pixel(high, u, v, colorimetry).0,
        yuv_pixel(low, u, v, colorimetry).1 <= yuv_pixel(high, u, v, colorimetry).1,
        yuv_pixel(low, u, v, colorimetry).2 <= yuv_pixel(high, u, v, colorimetry).2,
{
}

// ---------------------------------------------------------------------------
// Whole frames
// ---------------------------------------------------------------------------
/// Blue and red exchanged in every pixel.
pub open spec fn swap_red_blue(s: Seq<u8>) -> Seq<u8> {
    Seq::new(
        s.len(),
        |i: int|
            if i % 3 == 0 {
                s[i + 2]
            } else if i % 3 == 2 {
                s[i - 2]
            } else {
                s[i]
            },
    )
}

/// Every grey sample three times.
pub open spec fn spread_grey(s: Seq<u8>) -> Seq<u8> {
    Seq::new(3 * s.len(), |i: int| s[i / 3])
}

/// The sample of channel `k` of a pixel.
pub open spec fn channel(pixel: (u8, u8, u8), k: int) -> u8 {
    if k == 0 {
        pixel.0
    } else if k == 1 {
        pixel.1
    } else {
        pixel.2
    }
}

/// Two RGB pixels for every YUYV group of four bytes: both share the chroma
/// of the group.
pub open spec fn yuyv_to_rgb(s: Seq<u8>, colorimetry: YuvColorimetry) -> Seq<u8> {
    Seq::new(
        s.len() / 4 * 6,
        |i: int|
            {
                let group = i / 6 * 4;
                let luma = if i % 6 < 3 {
                    s[group]
                } else {
                    s[group + 2]
                };
                channel(
                    yuv_pixel(luma as int, s[group + 1] as int, s[group + 3] as int, colorimetry),
                    i % 3,
                )
            },
    )
}

/// The colorimetry of a frame; unless stated it is limited-range BT.601.
pub open spec fn frame_colorimetry(frame: CapturedFrame) -> YuvColorimetry {
    match frame.yuv_colorimetry {
        Some(c) => c,
        None => YuvColorimetry { range: YuvRange::Limited, matrix: YuvMatrix::Bt601 },
    }
}

/// Rows, columns and samples, if they make an RGB image array.
pub open spec fn rgb_image(
    height: nat,
    width: nat,
    data: Seq<u8>,
    kind: BufferKind,
) -> Result<(nat, nat, Seq<u8>), FrameError> {
    if shape_fits(height, width, 3) && data.len() == height * width * 3 {
        Ok((height, width, data))
    } else {
        Err(FrameError::ShapeMismatch(kind))
    }
}

/// The RGB image of a frame whose bytes are YUYV samples, or why there is none.
pub open spec fn rgb_of_yuyv(frame: CapturedFrame) -> Result<(nat, nat, Seq<u8>), FrameError> {
    let (w, h) = (frame.width as nat, frame.height as nat);
    if frame.width % 2 != 0 {
        Err(FrameError::OddYuyvWidth { width: frame.width })
    } else {
        match packing_error(frame, 2) {
            Some(e) => Err(e),
            None => if w * h * 3 > usize::MAX {
                Err(FrameError::RgbSizeOverflow)
            } else {
                rgb_image(
                    h,
                    w,
                    yuyv_to_rgb(packed_frame(frame, 2), frame_colorimetry(frame)),
                    BufferKind::YuyvRgb,
                )
            },
        }
    }
}

/// The RGB image of a frame: rows, columns and interleaved samples.
pub open spec fn rgb_of_frame(frame: CapturedFrame) -> Result<(nat, nat, Seq<u8>), FrameError> {
    let h = frame.height as nat;
    let w = frame.width as nat;
    match frame.pixel_format {
        PixelFormat::Mjpeg => match decoded_rgb8(frame.contents()) {
            Ok((width, height, pixels)) => rgb_image(
                height as nat,
                width as nat,
                pixels,
                BufferKind::Decoded,
            ),
            Err(_) => Err(FrameError::DecodeFailed),
        },
        PixelFormat::Rgb8 => match packing_error(frame, 3) {
            Some(e) => Err(e),
            None => rgb_image(h, w, packed_frame(frame, 3), BufferKind::Rgb8),
        },
        PixelFormat::Bgr8 => match packing_error(frame, 3) {
            Some(e) => Err(e),
            None => rgb_image(h, w, swap_red_blue(packed_frame(frame, 3)), BufferKind::Bgr8),
        },
        PixelFormat::Yuyv => rgb_of_yuyv(frame),
        PixelFormat::Gray8 => match packing_error(frame, 1) {
            Some(e) => Err(e),
            None => if !shape_fits(h, w, 1) {
                Err(FrameError::ShapeMismatch(BufferKind::Gray8))
            } else {
                Ok((h, w, spread_grey(packed_frame(frame, 1))))
            },
        },
    }
}

/// The samples of the RGB image of a YUYV frame fit in memory, unless there is
/// another reason that there is no such image.
pub open spec fn yuyv_has_room(frame: CapturedFrame) -> bool {
    let samples = frame.width as nat * frame.height as nat * 3;
    ||| frame.width % 2 != 0
    ||| packing_error(frame, 2) is Some
    ||| samples > usize::MAX
    ||| samples <= isize::MAX
}

/// Frames that can be converted without exceeding what memory can hold: an
/// uncompressed frame has rows, and a grey or YUYV one that is complete has room
/// for three channels.
pub open spec fn is_convertible(frame: CapturedFrame) -> bool {
    let (h, w) = (frame.height as nat, frame.width as nat);
    &&& frame.pixel_format != PixelFormat::Mjpeg ==> frame.stride > 0 || frame.width > 0
    &&& frame.pixel_format == PixelFormat::Gray8 ==> packing_error(frame, 1) is Some || !shape_fits(
        h,
        w,
        1,
    ) || shape_fits(h, w, 3)
    &&& frame.pixel_format == PixelFormat::Yuyv ==> yuyv_has_room(frame)
}

/// Whether a frame can be converted, see `is_convertible`.
pub fn frame_is_convertible(frame: &CapturedFrame) -> (r: bool)
    ensures
        r == is_convertible(*frame),
{
    if matches!(frame.pixel_format, PixelFormat::Mjpeg) {
        return true;
    }
    if frame.stride == 0 && frame.width == 0 {
        return false;
    }
    if matches!(frame.pixel_format, PixelFormat::Yuyv) {
        if frame.width % 2 != 0 || packing(frame, 2).is_err() {
            return true;
        }
        assert(0 <= frame.width * frame.height <= 0xffff_ffff * 0xffff_ffff) by (nonlinear_arith);
        let pixels: u128 = frame.width as u128 * frame.height as u128;
        return pixels * 3 > usize::MAX as u128 || pixels * 3 <= isize::MAX as u128;
    }
    if !matches!(frame.pixel_format, PixelFormat::Gray8) || packing(frame, 1).is_err() {
        return true;
    }
    let height: u128 = if frame.height == 0 {
        1
    } else {
        frame.height as u128
    };
    let width: u128 = if frame.width == 0 {
        1
    } else {
        frame.width as u128
    };
    assert(1 <= height * width <= 0x1_0000_0000_0000_0000) by (nonlinear_arith)
        requires
            1 <= height <= 0x1_0000_0000,
            1 <= width <= 0x1_0000_0000,
    ;
    let samples: u128 = height * width;
    proof {
        let (h, w) = (frame.height as nat, frame.width as nat);
        assert(counted_axis(h) * counted_axis(w) == samples);
        assert(counted_axis(1) == 1 && counted_axis(3) == 3);
    }
    samples > isize::MAX as u128 || samples * 3 <= isize::MAX as u128
}

fn rgb_array(height: usize, width: usize, data: Vec<u8>, kind: BufferKind) -> (r: Result<
    RgbArray,
    FrameError,
>)
    requires
        height <= u32::MAX,
        width <= u32::MAX,
    ensures
        match r {
            Ok(array) => {
                &&& array.wf()
                &&& rgb_image(height as nat, width as nat, data@, kind) == Ok::<
                    (nat, nat, Seq<u8>),
                    FrameError,
                >((array.height as nat, array.width as nat, array.data@))
            },
            Err(e) => rgb_image(height as nat, width as nat, data@, kind) == Err::<
                (nat, nat, Seq<u8>),
                FrameError,
            >(e),
        },
{
    match shaped(height, width, 3, data) {
        Ok(data) => Ok(RgbArray { height, width, data }),
        Err(_) => Err(FrameError::ShapeMismatch(kind)),
    }
}

fn exchange_red_blue(pixels: Vec<u8>) -> (r: Vec<u8>)
    requires
        pixels@.len() % 3 == 0,
    ensures
        r@ == swap_red_blue(pixels@),
{
    let mut out: Vec<u8> = Vec::new();
    let mut i: usize = 0;
    while i < pixels.len()
        invariant
            i <= pixels@.len(),
            i % 3 == 0,
            pixels@.len() % 3 == 0,
            out@.len() == i,
            forall|j: int| 0 <= j < i ==> out@[j] == swap_red_blue(pixels@)[j],
        decreases pixels@.len() - i,
    {
        out.push(pixels[i + 2]);
        out.push(pixels[i + 1]);
        out.push(pixels[i]);
        i = i + 3;
    }
    assert(out@ =~= swap_red_blue(pixels@));
    out
}

fn spread_grey_samples(grey: &Vec<u8>) -> (r: Vec<u8>)
    ensures
        r@ == spread_grey(grey@),
{
    let mut out: Vec<u8> = Vec::new();
    let mut i: usize = 0;
    while i < grey.len()
        invariant
            i <= grey@.len(),
            out@.len() == 3 * i,
            forall|j: int| 0 <= j < 3 * i ==> out@[j] == grey@[j / 3],
        decreases grey@.len() - i,
    {
        let g: u8 = grey[i];
        out.push(g);
        out.push(g);
        out.push(g);
        i = i + 1;
    }
    assert(out@ =~= spread_grey(grey@));
    out
}

fn push_pixel(out: &mut Vec<u8>, pixel: (u8, u8, u8))
    ensures
        final(out)@ == old(out)@ + seq![pixel.0, pixel.1, pixel.2],
{
    out.push(pixel.0);
    out.push(pixel.1);
    out.push(pixel.2);
    assert(out@ =~= old(out)@ + seq![pixel.0, pixel.1, pixel.2]);
}

/// `yuv_pixel`, with its arithmetic out of the solver's sight.
#[verifier::opaque]
spec fn sealed_pixel(y: u8, u: u8, v: u8, colorimetry: YuvColorimetry) -> (u8, u8, u8) {
    yuv_pixel(y as int, u as int, v as int, colorimetry)
}

/// `yuyv_to_rgb`, with its arithmetic out of the solver's sight.
#[verifier::opaque]
spec fn sealed_rgb(s: Seq<u8>, colorimetry: YuvColorimetry) -> Seq<u8> {
    yuyv_to_rgb(s, colorimetry)
}

fn convert_pixel(y: u8, u: u8, v: u8, colorimetry: YuvColorimetry) -> (r: (u8, u8, u8))
    ensures
        r == sealed_pixel(y, u, v, colorimetry),
{
    proof {
        reveal(sealed_pixel);
        law_samples_fit(y as int, u as int, v as int, colorimetry);
    }
    yuyv422_to_rgb(y as i32, u as i32, v as i32, colorimetry)
}

proof fn lemma_group_sample(s: Seq<u8>, colorimetry: YuvColorimetry, group: int, k: int)
    requires
        0 <= group,
        4 * group + 4 <= s.len(),
        0 <= k < 6,
    ensures
        6 * group + 6 <= sealed_rgb(s, colorimetry).len(),
        sealed_rgb(s, colorimetry)[6 * group + k] == channel(
            sealed_pixel(
                if k < 3 {
                    s[4 * group]
                } else {
                    s[4 * group + 2]
                },
                s[4 * group + 1],
                s[4 * group + 3],
                colorimetry,
            ),
            k % 3,
        ),
{
    reveal(sealed_pixel);
    reveal(sealed_rgb);
    let i = 6 * group + k;
    assert(i / 6 == group);
    assert(i % 6 == k);
    assert(i % 3 == k % 3);
}

proof fn lemma_append_pair(
    all: Seq<u8>,
    before: Seq<u8>,
    n: int,
    p0: (u8, u8, u8),
    p1: (u8, u8, u8),
)
    requires
        0 <= n,
        n + 6 <= all.len(),
        before == all.take(n),
        all[n] == p0.0,
        all[n + 1] == p0.1,
        all[n + 2] == p0.2,
        all[n + 3] == p1.0,
        all[n + 4] == p1.1,
        all[n + 5] == p1.2,
    ensures
        before + seq![p0.0, p0.1, p0.2] + seq![p1.0, p1.1, p1.2] == all.take(n + 6),
{
    assert(before + seq![p0.0, p0.1, p0.2] + seq![p1.0, p1.1, p1.2] =~= all.take(n + 6));
}

fn yuyv_samples_to_rgb(yuyv: &Vec<u8>, colorimetry: YuvColorimetry) -> (r: Vec<u8>)
    requires
        yuyv@.len() % 4 == 0,
    ensures
        r@ == yuyv_to_rgb(yuyv@, colorimetry),
{
    let mut out: Vec<u8> = Vec::new();
    let mut i: usize = 0;
    let ghost mut group: int = 0;
    assert(out@ =~= sealed_rgb(yuyv@, colorimetry).take(0));
    while i < yuyv.len()
        invariant
            yuyv@.len() % 4 == 0,
            i == 4 * group,
            group >= 0,
            4 * group <= yuyv@.len(),
            out@ == sealed_rgb(yuyv@, colorimetry).take(6 * group),
        decreases yuyv@.len() - i,
    {
        let u: u8 = yuyv[i + 1];
        let v: u8 = yuyv[i + 3];
        let first: (u8, u8, u8) = convert_pixel(yuyv[i], u, v, colorimetry);
        let second: (u8, u8, u8) = convert_pixel(yuyv[i + 2], u, v, colorimetry);
        proof {
            lemma_group_sample(yuyv@, colorimetry, group, 0);
            lemma_group_sample(yuyv@, colorimetry, group, 1);
            lemma_group_sample(yuyv@, colorimetry, group, 2);
            lemma_group_sample(yuyv@, colorimetry, group, 3);
            lemma_group_sample(yuyv@, colorimetry, group, 4);
            lemma_group_sample(yuyv@, colorimetry, group, 5);
            lemma_append_pair(sealed_rgb(yuyv@, colorimetry), out@, 6 * group, first, second);
            group = group + 1;
        }
        push_pixel(&mut out, first);
        push_pixel(&mut out, second);
        i = i + 4;
    }
    proof {
        reveal(sealed_rgb);
        assert(out@ =~= yuyv_to_rgb(yuyv@, colorimetry));
    }
    out
}

proof fn lemma_packed_len(width: nat, bytes_per_pixel: nat, height: nat)
    ensures
        width * bytes_per_pixel * height == height * width * bytes_per_pixel,
{
    assert(width * bytes_per_pixel * height == height * width * bytes_per_pixel)
        by (nonlinear_arith);
}

/// Converts a frame whose bytes are YUYV samples to RGB; each pair of pixels
/// shares its chroma.
pub fn yuyv_frame_to_rgb_array(frame: &CapturedFrame) -> (r: Result<RgbArray, FrameError>)
    requires
        frame.stride > 0 || frame.width > 0,
        yuyv_has_room(*frame),
    ensures
        match r {
            Ok(array) => {
                &&& array.wf()
                &&& rgb_of_yuyv(*frame) == Ok::<(nat, nat, Seq<u8>), FrameError>(
                    (array.height as nat, array.width as nat, array.data@),
                )
            },
            Err(e) => rgb_of_yuyv(*frame) == Err::<(nat, nat, Seq<u8>), FrameError>(e),
        },
{
    let w: usize = frame.width as usize;
    let h: usize = frame.height as usize;
    if frame.width % 2 != 0 {
        return Err(FrameError::OddYuyvWidth { width: frame.width });
    }
    let yuyv: Vec<u8> = match packed_frame_data(frame, 2) {
        Ok(data) => data,
        Err(e) => return Err(e),
    };
    let colorimetry: YuvColorimetry = match frame.yuv_colorimetry {
        Some(c) => c,
        None => YuvColorimetry { range: YuvRange::Limited, matrix: YuvMatrix::Bt601 },
    };
    proof {
        assert(0 <= w * h <= 0xffff_ffff * 0xffff_ffff) by (nonlinear_arith)
            requires
                0 <= w <= 0xffff_ffff,
                0 <= h <= 0xffff_ffff,
        ;
    }
    let samples: u128 = w as u128 * h as u128;
    if samples * 3 > usize::MAX as u128 {
        return Err(FrameError::RgbSizeOverflow);
    }
    proof {
        let half = w as int / 2;
        assert(yuyv@.len() == 4 * (half * h)) by (nonlinear_arith)
            requires
                yuyv@.len() == w * 2 * h,
                w == 2 * half,
        ;
    }
    let rgb: Vec<u8> = yuyv_samples_to_rgb(&yuyv, colorimetry);
    rgb_array(h, w, rgb, BufferKind::YuyvRgb)
}

/// Converts a captured frame to RGB.
pub fn frame_to_rgb_array(frame: &CapturedFrame) -> (r: Result<RgbArray, FrameError>)
    requires
        is_convertible(*frame),
    ensures
        match r {
            Ok(array) => {
                &&& array.wf()
                &&& rgb_of_frame(*frame) == Ok::<(nat, nat, Seq<u8>), FrameError>(
                    (array.height as nat, array.width as nat, array.data@),
                )
            },
            Err(e) => rgb_of_frame(*frame) == Err::<(nat, nat, Seq<u8>), FrameError>(e),
        },
{
    let w: usize = frame.width as usize;
    let h: usize = frame.height as usize;
    match frame.pixel_format {
        PixelFormat::Mjpeg => match decode_rgb8(as_slice(&frame.data)) {
            Ok((width, height, pixels)) => rgb_array(
                height as usize,
                width as usize,
                pixels,
                BufferKind::Decoded,
            ),
            Err(_) => Err(FrameError::DecodeFailed),
        },
        PixelFormat::Rgb8 => match packed_frame_data(frame, 3) {
            Ok(data) => rgb_array(h, w, data, BufferKind::Rgb8),
            Err(e) => Err(e),
        },
        PixelFormat::Bgr8 => match packed_frame_data(frame, 3) {
            Ok(data) => {
                proof {
                    lemma_packed_len(w as nat, 3, h as nat);
                    assert((h * w * 3) % 3 == 0) by (nonlinear_arith);
                }
                rgb_array(h, w, exchange_red_blue(data), BufferKind::Bgr8)
            },
            Err(e) => Err(e),
        },
        PixelFormat::Yuyv => yuyv_frame_to_rgb_array(frame),
        PixelFormat::Gray8 => match packed_frame_data(frame, 1) {
            Ok(data) => {
                proof {
                    lemma_packed_len(w as nat, 1, h as nat);
                }
                match shaped(h, w, 1, data) {
                    Ok(grey) => Ok(
                        RgbArray { height: h, width: w, data: spread_grey_samples(&grey) },
                    ),
                    Err(_) => Err(FrameError::ShapeMismatch(BufferKind::Gray8)),
                }
            },
            Err(e) => Err(e),
        },
    }
}

/// Whatever the pixel format, a converted image has three samples for each of
/// its pixels, and an uncompressed one has the size of its frame.
pub proof fn law_converted_size(frame: CapturedFrame)
    requires
        rgb_of_frame(frame) is Ok,
    ensures
        ({
            let (h, w, data) = rgb_of_frame(frame)->Ok_0;
            &&& data.len() == h * w * 3
            &&& frame.pixel_format != PixelFormat::Mjpeg ==> h == frame.height && w == frame.width
        }),
{
    lemma_packed_len(frame.width as nat, 1, frame.height as nat);
}

/// A byte of a row, once the padding of the rows is gone.
proof fn lemma_packed_byte(data: Seq<u8>, packed: nat, stride: nat, height: nat, row: int, c: int)
    requires
        0 <= row < height,
        0 <= c < packed,
    ensures
        0 <= row * packed + c < packed * height,
        packed_rows(data, packed, stride, height)[row * packed + c] == data[row * stride + c],
{
    assert(0 <= row * packed && row * packed + packed <= packed * height) by (nonlinear_arith)
        requires
            0 <= row < height,
    ;
    vstd::arithmetic::div_mod::lemma_fundamental_div_mod_converse(
        row * packed + c,
        packed as int,
        row,
        c,
    );
}

/// Where the pixels of a converted YUYV frame come from: each has a luma sample
/// of its own and shares the chroma samples of its pair, all of its own row.
pub proof fn law_yuyv_pixels(frame: CapturedFrame, row: int, x: int, k: int)
    requires
        rgb_of_yuyv(frame) is Ok,
        0 <= row < frame.height,
        0 <= x < frame.width,
        0 <= k < 3,
    ensures
        ({
            let (h, w, rgb) = rgb_of_yuyv(frame)->Ok_0;
            let data = frame.contents();
            let start = row * row_stride(frame.stride as nat, frame.width as nat * 2);
            &&& h == frame.height && w == frame.width
            &&& rgb[(row * w + x) * 3 + k] == channel(
                yuv_pixel(
                    data[start + 2 * x] as int,
                    data[start + 4 * (x / 2) + 1] as int,
                    data[start + 4 * (x / 2) + 3] as int,
                    frame_colorimetry(frame),
                ),
                k,
            )
        }),
{
    let w = frame.width as int;
    let half = w / 2;
    let pair = row * half + x / 2;
    let packed = (w * 2) as nat;
    let stride = row_stride(frame.stride as nat, packed);
    let data = frame.contents();
    let s = packed_frame(frame, 2);
    let i = (row * w + x) * 3 + k;
    assert(row * w == 2 * (row * half)) by (nonlinear_arith)
        requires
            w == 2 * half,
    ;
    assert(row * packed == 4 * (row * half)) by (nonlinear_arith)
        requires
            packed == 4 * half,
    ;
    assert(0 <= row * half) by (nonlinear_arith)
        requires
            0 <= row,
            0 <= half,
    ;
    assert(i == 6 * pair + 3 * (x % 2) + k);
    assert(i / 6 == pair && i % 6 == 3 * (x % 2) + k && i % 3 == k);
    lemma_packed_byte(data, packed, stride, frame.height as nat, row, 2 * x);
    lemma_packed_byte(data, packed, stride, frame.height as nat, row, 4 * (x / 2) + 1);
    lemma_packed_byte(data, packed, stride, frame.height as nat, row, 4 * (x / 2) + 3);
    assert(s.len() == packed * frame.height);
    assert(4 * pair + 3 < s.len());
    assert(i < s.len() / 4 * 6);
}

/// A buffer holds a frame of `n` bytes per pixel exactly if a row has room for
/// its pixels and there are as many rows as the frame is high; rows are as far
/// apart as the stride says, or follow each other where that is zero. Else the
/// error says what is missing.
pub proof fn law_complete_buffers(frame: CapturedFrame, n: nat)
    requires
        frame.contents().len() <= usize::MAX,
    ensures
        ({
            let row = frame.width as nat * n;
            let apart = if frame.stride == 0 {
                row
            } else {
                frame.stride as nat
            };
            let size = apart * frame.height as nat;
            let len = frame.contents().len();
            &&& packing_error(frame, n) is None <==> row <= usize::MAX && row <= apart && size <= len
            &&& row <= usize::MAX && apart < row ==> packing_error(frame, n) == Some(
                FrameError::StrideTooSmall { stride: frame.stride, packed: row as usize },
            )
            &&& row <= usize::MAX && row <= apart && len < size <= usize::MAX ==> packing_error(
                frame,
                n,
            ) == Some(
                FrameError::FrameTooShort {
                    len: len as usize,
                    required: size as usize,
                    width: frame.width,
                    height: frame.height,
                    stride: apart as usize,
                },
            )
            &&& row > usize::MAX ==> packing_error(frame, n) == Some(FrameError::RowSizeOverflow)
            &&& row <= usize::MAX && row <= apart && size > usize::MAX ==> packing_error(frame, n)
                == Some(FrameError::BufferSizeOverflow)
        }),
{
}

/// Packing takes the bytes of each row from where the row begins.
pub proof fn law_packed_bytes(frame: CapturedFrame, n: nat, row: int, c: int)
    requires
        packing_error(frame, n) is None,
        0 <= row < frame.height,
        0 <= c < frame.width * n,
    ensures
        packed_frame(frame, n).len() == frame.width * n * frame.height,
        0 <= row * (frame.width * n) + c < packed_frame(frame, n).len(),
        packed_frame(frame, n)[row * (frame.width * n) + c] == frame.contents()[row * (
        if frame.stride == 0 {
            frame.width as nat * n
        } else {
            frame.stride as nat
        }) + c],
{
    let packed = frame.width as nat * n;
    lemma_packed_byte(
        frame.contents(),
        packed,
        row_stride(frame.stride as nat, packed),
        frame.height as nat,
        row,
        c,
    );
}

/// The samples of row `row`, column `x` of a converted frame that is not
/// compressed. They are those of the same row and column of the frame: as they
/// are, in reverse, three times, or by the color standard that the frame names,
/// which is limited-range BT.601 if it names none.
pub proof fn law_converted_pixels(frame: CapturedFrame, row: int, x: int)
    requires
        rgb_of_frame(frame) is Ok,
        frame.pixel_format != PixelFormat::Mjpeg,
        0 <= row < frame.height,
        0 <= x < frame.width,
    ensures
        ({
            let (h, w, rgb) = rgb_of_frame(frame)->Ok_0;
            let data = frame.contents();
            let at = (row * frame.width + x) * 3;
            let n: nat = match frame.pixel_format {
                PixelFormat::Yuyv => 2,
                PixelFormat::Gray8 => 1,
                _ => 3,
            };
            let start = row * (if frame.stride == 0 {
                frame.width as nat * n
            } else {
                frame.stride as nat
            });
            &&& h == frame.height && w == frame.width && rgb.len() == h * w * 3
            &&& 0 <= at && at + 2 < rgb.len()
            &&& match frame.pixel_format {
                PixelFormat::Rgb8 => {
                    &&& rgb[at] == data[start + 3 * x]
                    &&& rgb[at + 1] == data[start + 3 * x + 1]
                    &&& rgb[at + 2] == data[start + 3 * x + 2]
                },
                PixelFormat::Bgr8 => {
                    &&& rgb[at] == data[start + 3 * x + 2]
                    &&& rgb[at + 1] == data[start + 3 * x + 1]
                    &&& rgb[at + 2] == data[start + 3 * x]
                },
                PixelFormat::Gray8 => {
                    &&& rgb[at] == data[start + x]
                    &&& rgb[at + 1] == data[start + x]
                    &&& rgb[at + 2] == data[start + x]
                },
                _ => {
                    let pair = start + 4 * (x / 2);
                    let colorimetry = match frame.yuv_colorimetry {
                        Some(c) => c,
                        None => YuvColorimetry {
                            range: YuvRange::Limited,
                            matrix: YuvMatrix::Bt601,
                        },
                    };
                    &&& (rgb[at], rgb[at + 1], rgb[at + 2]) == yuv_pixel(
                        data[start + 2 * x] as int,
                        data[pair + 1] as int,
                        data[pair + 3] as int,
                        colorimetry,
                    )
                    &&& is_standard_pixel(
                        (rgb[at], rgb[at + 1], rgb[at + 2]),
                        data[start + 2 * x] as int,
                        data[pair + 1] as int,
                        data[pair + 3] as int,
                        colorimetry,
                    )
                },
            }
        }),
{
    let data = frame.contents();
    let w = frame.width as int;
    let at = (row * w + x) * 3;
    lemma_sample_in_bounds(frame.height as int, w, row, x, 0);
    lemma_sample_in_bounds(frame.height as int, w, row, x, 2);
    law_converted_size(frame);
    match frame.pixel_format {
        PixelFormat::Yuyv => {
            law_yuyv_pixels(frame, row, x, 0);
            law_yuyv_pixels(frame, row, x, 1);
            law_yuyv_pixels(frame, row, x, 2);
            let start = row * row_stride(frame.stride as nat, frame.width as nat * 2);
            let pair = start + 4 * (x / 2);
            law_pixels_follow_the_standards(
                data[start + 2 * x] as int,
                data[pair + 1] as int,
                data[pair + 3] as int,
                frame_colorimetry(frame),
            );
        },
        PixelFormat::Gray8 => {
            law_packed_bytes(frame, 1, row, x);
            assert(row * (w * 1) == row * w);
        },
        _ => {
            assert(row * (w * 3) == 3 * (row * w)) by (nonlinear_arith);
            law_packed_bytes(frame, 3, row, 3 * x);
            law_packed_bytes(frame, 3, row, 3 * x + 1);
            law_packed_bytes(frame, 3, row, 3 * x + 2);
        },
    }
}

/// Every frame that is complete is converted, and no other is: an uncompressed
/// one whose buffer holds all its rows and whose image memory can hold, and a
/// compressed one that can be decoded. YUYV frames have to be of even width.
pub proof fn law_complete_frames_are_converted(frame: CapturedFrame)
    requires
        frame.width > 0,
        frame.height > 0,
        frame.width * frame.height * 3 <= isize::MAX,
        frame.contents().len() <= usize::MAX,
    ensures
        ({
            let n: nat = match frame.pixel_format {
                PixelFormat::Yuyv => 2,
                PixelFormat::Gray8 => 1,
                _ => 3,
            };
            let row = frame.width as nat * n;
            let apart = if frame.stride == 0 {
                row
            } else {
                frame.stride as nat
            };
            match frame.pixel_format {
                PixelFormat::Mjpeg => match decoded_rgb8(frame.contents()) {
                    Ok((width, height, pixels)) => width > 0 && height > 0 && pixels.len() == height
                        * width * 3 && pixels.len() <= isize::MAX ==> rgb_of_frame(frame) == Ok::<
                        (nat, nat, Seq<u8>),
                        FrameError,
                    >((height as nat, width as nat, pixels)),
                    Err(_) => rgb_of_frame(frame) == Err::<(nat, nat, Seq<u8>), FrameError>(
                        FrameError::DecodeFailed,
                    ),
                },
                _ => rgb_of_frame(frame) is Ok <==> {
                    &&& row <= apart
                    &&& apart * frame.height <= frame.contents().len()
                    &&& frame.pixel_format == PixelFormat::Yuyv ==> frame.width % 2 == 0
                },
            }
        }),
{
    let (w, h) = (frame.width as nat, frame.height as nat);
    law_complete_buffers(frame, 1);
    law_complete_buffers(frame, 2);
    law_complete_buffers(frame, 3);
    lemma_packed_len(w, 1, h);
    lemma_packed_len(w, 2, h);
    lemma_packed_len(w, 3, h);
    assert(w * h * 3 == h * w * 3) by (nonlinear_arith);
    assert(w <= w * h) by (nonlinear_arith)
        requires
            h >= 1,
            w >= 0,
    ;
    if frame.width % 2 == 0 {
        let half = w as int / 2;
        assert(w * 2 * h == 4 * (half * h)) by (nonlinear_arith)
            requires
                w == 2 * half,
        ;
        assert(h * w * 3 == 6 * (half * h)) by (nonlinear_arith)
            requires
                w == 2 * half,
        ;
    }
}

/// Every frame with pixels whose image memory can hold may be converted,
/// whatever its buffer.
pub proof fn law_ordinary_frames_are_convertible(frame: CapturedFrame)
    requires
        frame.width > 0,
        frame.height > 0,
        frame.width * frame.height * 3 <= isize::MAX,
    ensures
        is_convertible(frame),
{
    let (w, h) = (frame.width as nat, frame.height as nat);
    assert(w * h * 3 == h * w * 3) by (nonlinear_arith);
}

/// Exchanging red and blue twice gives the pixels back.
pub proof fn law_red_blue_swap_is_involutive(s: Seq<u8>)
    requires
        s.len() % 3 == 0,
    ensures
        swap_red_blue(swap_red_blue(s)) == s,
{
    assert(swap_red_blue(swap_red_blue(s)) =~= s);
}

/// A BGR frame and the RGB frame that holds the same pixels convert to the
/// same image.
pub proof fn law_bgr_equals_swapped_rgb(bgr: CapturedFrame, rgb: CapturedFrame)
    requires
        bgr.pixel_format == PixelFormat::Bgr8,
        rgb.pixel_format == PixelFormat::Rgb8,
        bgr.width == rgb.width,
        bgr.height == rgb.height,
        packed_frame(rgb, 3) == swap_red_blue(packed_frame(bgr, 3)),
        rgb_of_frame(bgr) is Ok,
        rgb_of_frame(rgb) is Ok,
    ensures
        rgb_of_frame(bgr) == rgb_of_frame(rgb),
{
}

/// Why a frame is not converted: a YUYV frame because its width is odd, and any
/// uncompressed frame because of what its buffer lacks.
pub proof fn law_frames_that_are_not_converted(frame: CapturedFrame)
    ensures
        frame.pixel_format == PixelFormat::Yuyv && frame.width % 2 == 1 ==> rgb_of_frame(frame)
            == Err::<(nat, nat, Seq<u8>), FrameError>(
            FrameError::OddYuyvWidth { width: frame.width },
        ),
        frame.pixel_format == PixelFormat::Yuyv && frame.width % 2 == 0 ==> (packing_error(frame, 2)
            matches Some(e) ==> rgb_of_frame(frame) == Err::<(nat, nat, Seq<u8>), FrameError>(e)),
        frame.pixel_format == PixelFormat::Gray8 ==> (packing_error(frame, 1) matches Some(e)
            ==> rgb_of_frame(frame) == Err::<(nat, nat, Seq<u8>), FrameError>(e)),
        frame.pixel_format == PixelFormat::Rgb8 || frame.pixel_format == PixelFormat::Bgr8 ==> (
        packing_error(frame, 3) matches Some(e) ==> rgb_of_frame(frame) == Err::<
            (nat, nat, Seq<u8>),
            FrameError,
        >(e)),
{
}

/// What `frame_to_rgb_array` returns is the RGB image of the frame, with its
/// height, width and samples, or the reason that there is none; and
/// `yuyv_frame_to_rgb_array` returns the same of a YUYV frame.
pub proof fn law_conversion_yields_the_image(
    frame: &CapturedFrame,
    r: Result<RgbArray, FrameError>,
    q: Result<RgbArray, FrameError>,
)
    requires
        call_ensures(frame_to_rgb_array, (frame,), r),
        call_ensures(yuyv_frame_to_rgb_array, (frame,), q),
    ensures
        rgb_of_frame(*frame) matches Ok((h, w, rgb)) ==> (r matches Ok(a) && a.height == h
            && a.width == w && a.data@ == rgb),
        rgb_of_frame(*frame) matches Err(e) ==> r == Err::<RgbArray, FrameError>(e),
        frame.pixel_format == PixelFormat::Yuyv ==> match (r, q) {
            (Ok(a), Ok(b)) => a.height == b.height && a.width == b.width && a.data@ == b.data@,
            (Err(e), Err(f)) => e == f,
            _ => false,
        },
{
}

/// What `packed_frame_data` returns, byte by byte: the bytes of row after row
/// without what pads them.
pub proof fn law_packing_yields_the_rows(
    frame: &CapturedFrame,
    n: usize,
    r: Result<Vec<u8>, FrameError>,
    row: int,
    c: int,
)
    requires
        call_ensures(packed_frame_data, (frame, n), r),
        0 <= row < frame.height,
        0 <= c < frame.width * n,
    ensures
        packing_error(*frame, n as nat) is None <==> r is Ok,
        packing_error(*frame, n as nat) matches Some(e) ==> r == Err::<Vec<u8>, FrameError>(e),
        r matches Ok(data) ==> {
            &&& data@.len() == frame.width * n * frame.height
            &&& data@[row * (frame.width * n) + c] == frame.contents()[row * (if frame.stride
                == 0 {
                frame.width as nat * n as nat
            } else {
                frame.stride as nat
            }) + c]
        },
{
    if packing_error(*frame, n as nat) is None {
        law_packed_bytes(*frame, n as nat, row, c);
    }
}

/// The texts of errors name the numbers that they are about.
pub proof fn law_numbers_in_frame_errors(
    stride: usize,
    packed: usize,
    len: usize,
    required: usize,
    width: u32,
    height: u32,
)
    ensures
        frame_error_text(FrameError::StrideTooSmall { stride, packed }) == "frame stride "@
            + decimal(stride as nat) + " is smaller than packed row size "@ + decimal(
            packed as nat,
        ),
        frame_error_text(FrameError::FrameTooShort { len, required, width, height, stride })
            == "unexpected frame buffer size: "@ + decimal(len as nat) + " < "@ + decimal(
            required as nat,
        ) + " ("@ + decimal(width as nat) + "x"@ + decimal(height as nat) + ", stride="@ + decimal(
            stride as nat,
        ) + ")"@,
        frame_error_text(FrameError::OddYuyvWidth { width }) == "YUYV width must be even, got "@
            + decimal(width as nat),
{
}

/// The samples of an image are found by row, column and channel, row after row and
/// three to a pixel; its size is that of its rows, columns and three channels.
pub proof fn law_samples_are_found_by_place(
    image: &RgbArray,
    y: usize,
    x: usize,
    channel: usize,
    sample: u8,
    size: (usize, usize, usize),
)
    requires
        call_ensures(RgbArray::sample, (image, y, x, channel), sample),
        call_ensures(RgbArray::dim, (image,), size),
    ensures
        sample == image.data@[(y * image.width + x) * 3 + channel],
        size == (image.height, image.width, 3usize),
{
}

} // verus!
