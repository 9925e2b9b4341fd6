//! The messages that frames are sent as.

use bytes::Bytes;
use vstd::prelude::*;

use crate::backend::{can_direct_use_mjpeg, CapturedFrame, PixelFormat};
use crate::batch::{
    batch_rows, compressed_batch, compressed_in, image_batch, image_in,
    law_compressed_row_round_trip, law_image_row_round_trip, reveal_column_names, rgb8_image,
    ColumnValue, CompressedImageFields, CompressedImageMessage, ImageFields, ImageMessage,
    MessageBatch,
};
use crate::buffer::{as_slice, bytes_contents, from_vec, prefix};
use crate::codec::{counted_axis, encode_jpeg, encode_png, jpeg_file, png_file};
use crate::config::{CameraConfig, ImageFormat};
use crate::pixels::{
    frame_error_text, frame_to_rgb_array, is_convertible, rgb_of_frame, FrameError, RgbArray,
};
use crate::text::decimal;

verus! {

/// Why a frame could not be turned into a message.
#[derive(Debug, Clone, PartialEq, Eq)]
pub enum BuildError {
    /// The frame could not be converted to RGB.
    Frame(FrameError),
    /// A frame that should be a JPEG does not start like one.
    MissingSoi,
    /// The JPEG encoder refused the image, with its reason.
    Jpeg(String),
    /// The PNG encoder refused the image, with its reason.
    Png(String),
    /// The message could not be built, with the reason.
    Message(String),
}

/// The text that reports a missing SOI marker.
pub open spec fn missing_soi_text() -> Seq<char> {
    "MJPEG 直通校验失败：缺少 JPEG SOI；请确认选择的是 RGB/彩色节点，而非深度、红外或元数据节点"@
}

/// The text that reports a build error.
pub open spec fn build_error_text(e: BuildError) -> Seq<char> {
    match e {
        BuildError::Frame(error) => frame_error_text(error),
        BuildError::MissingSoi => missing_soi_text(),
        BuildError::Jpeg(reason) => "failed to encode jpeg: "@ + reason@,
        BuildError::Png(reason) => "failed to encode png: "@ + reason@,
        BuildError::Message(reason) => reason@,
    }
}

impl BuildError {
    /// The text that reports this error.
    pub fn message(&self) -> (r: String)
        ensures
            r@ == build_error_text(*self),
    {
        match self {
            BuildError::Frame(error) => error.message(),
            BuildError::MissingSoi =>
                "MJPEG 直通校验失败：缺少 JPEG SOI；请确认选择的是 RGB/彩色节点，而非深度、红外或元数据节点".to_owned(),
            BuildError::Jpeg(reason) => {
                let mut out: String = "failed to encode jpeg: ".to_owned();
                out.append(reason.as_str());
                out
            },
            BuildError::Png(reason) => {
                let mut out: String = "failed to encode png: ".to_owned();
                out.append(reason.as_str());
                out
            },
            BuildError::Message(reason) => reason.clone(),
        }
    }
}

// ---------------------------------------------------------------------------
// JPEG boundaries
// ---------------------------------------------------------------------------
/// The data start with the SOI marker of a JPEG file.
pub open spec fn has_soi(s: Seq<u8>) -> bool {
    s.len() >= 2 && s[0] == 0xff && s[1] == 0xd8
}

/// The EOI marker of a JPEG file stands at position `i`.
pub open spec fn is_eoi_at(s: Seq<u8>, i: int) -> bool {
    0 <= i && i + 1 < s.len() && s[i] == 0xff && s[i + 1] == 0xd9
}

/// Position `i` is that of the last EOI marker.
pub open spec fn is_last_eoi(s: Seq<u8>, i: int) -> bool {
    is_eoi_at(s, i) && forall|j: int| #[trigger] is_eoi_at(s, j) ==> j <= i
}

/// The data end with the EOI marker.
pub open spec fn ends_with_eoi(s: Seq<u8>) -> bool {
    is_eoi_at(s, s.len() - 2)
}

/// The data are delimited as a JPEG file is.
pub open spec fn is_delimited_jpeg(s: Seq<u8>) -> bool {
    has_soi(s) && ends_with_eoi(s)
}

/// The data up to the last EOI marker; without one, the data with an EOI marker
/// behind them.
pub open spec fn with_eoi(s: Seq<u8>) -> Seq<u8> {
    if exists|i: int| is_eoi_at(s, i) {
        s.take((choose|i: int| is_last_eoi(s, i)) + 2)
    } else {
        s + seq![0xffu8, 0xd9u8]
    }
}

/// Brings an MJPEG frame into the boundaries of a JPEG file: padding behind the
/// EOI marker is cut off, and a missing EOI marker is added, since some devices
/// mark the end of a frame by the end of the buffer only. Data that do not
/// start with the SOI marker are refused.
pub fn normalize_mjpeg_payload(data: Bytes) -> (r: Result<Bytes, BuildError>)
    ensures
        match r {
            Ok(payload) => {
                &&& has_soi(bytes_contents(data))
                &&& bytes_contents(payload) == with_eoi(bytes_contents(data))
            },
            Err(e) => !has_soi(bytes_contents(data)) && e == BuildError::MissingSoi,
        },
{
    let ghost s: Seq<u8> = bytes_contents(data);
    let bytes: &[u8] = as_slice(&data);
    let len: usize = bytes.len();
    if len < 2 || bytes[0] != 0xff || bytes[1] != 0xd8 {
        return Err(BuildError::MissingSoi);
    }
    let mut i: usize = len - 1;
    while i > 0
        invariant
            i < len,
            len == bytes@.len(),
            bytes@ == s,
            s == bytes_contents(data),
            has_soi(s),
            forall|j: int| i <= j ==> !#[trigger] is_eoi_at(s, j),
        decreases i,
    {
        i = i - 1;
        if bytes[i] == 0xff && bytes[i + 1] == 0xd9 {
            proof {
                assert(is_eoi_at(s, i as int));
                assert(is_last_eoi(s, i as int));
                let k: int = choose|k: int| is_last_eoi(s, k);
                assert(is_last_eoi(s, k));
                assert(k == i);
            }
            return Ok(prefix(&data, i + 2));
        }
    }
    let mut payload: Vec<u8> = Vec::with_capacity(len);
    let mut k: usize = 0;
    while k < len
        invariant
            k <= len,
            len == bytes@.len(),
            payload@ == bytes@.take(k as int),
        decreases len - k,
    {
        payload.push(bytes[k]);
        k = k + 1;
    }
    payload.push(0xff);
    payload.push(0xd9);
    proof {
        assert forall|j: int| !is_eoi_at(s, j) by {}
        assert(payload@ =~= s + seq![0xffu8, 0xd9u8]);
    }
    Ok(from_vec(payload))
}

/// A frame that was brought into the boundaries of a JPEG file starts with SOI
/// and ends with EOI.
pub proof fn law_payload_is_delimited(s: Seq<u8>)
    requires
        has_soi(s),
    ensures
        is_delimited_jpeg(with_eoi(s)),
{
    if exists|i: int| is_eoi_at(s, i) {
        lemma_last_eoi_exists(s, s.len() as int);
        let k: int = choose|i: int| is_last_eoi(s, i);
        assert(is_last_eoi(s, k));
        assert(is_eoi_at(s.take(k + 2), k));
    } else {
        assert(is_eoi_at(s + seq![0xffu8, 0xd9u8], s.len() as int));
    }
}

/// Among positions below `n` there is a last EOI marker if there is any.
proof fn lemma_last_eoi_exists(s: Seq<u8>, n: int)
    requires
        exists|i: int| is_eoi_at(s, i),
        n >= 0,
        forall|i: int| #[trigger] is_eoi_at(s, i) ==> i < n,
    ensures
        exists|i: int| is_last_eoi(s, i),
    decreases n,
{
    if is_eoi_at(s, n - 1) {
        assert(is_last_eoi(s, n - 1));
    } else {
        assert(n > 0);
        lemma_last_eoi_exists(s, n - 1);
    }
}

/// Bringing a frame into the boundaries of a JPEG file a second time changes
/// nothing.
pub proof fn law_normalizing_is_idempotent(s: Seq<u8>)
    requires
        has_soi(s),
    ensures
        with_eoi(with_eoi(s)) == with_eoi(s),
{
    law_payload_is_delimited(s);
    law_delimited_payload_is_kept(with_eoi(s));
}

/// A frame that ends with an EOI marker is sent as it is.
pub proof fn law_delimited_payload_is_kept(s: Seq<u8>)
    requires
        ends_with_eoi(s),
    ensures
        with_eoi(s) == s,
{
    assert(is_last_eoi(s, s.len() - 2));
    let k: int = choose|i: int| is_last_eoi(s, i);
    assert(is_last_eoi(s, k));
    assert(k == s.len() - 2);
    assert(s.take(k + 2) =~= s);
}

/// The payload of data with an EOI marker is all of the data up to their last
/// EOI marker and with it: the beginning of the data, with an EOI marker at its
/// end and none in the data behind that. The payload of data without an EOI
/// marker is the data and the marker behind them. Nothing else is added, left
/// out or changed, however long the data are.
pub proof fn law_payload_reaches_to_the_last_eoi(s: Seq<u8>)
    ensures
        ({
            let payload = with_eoi(s);
            let n = payload.len() as int;
            if exists|j: int| 0 <= j < s.len() - 1 && s[j] == 0xff && #[trigger] s[j + 1] == 0xd9 {
                &&& 2 <= n <= s.len()
                &&& payload == s.take(n)
                &&& s[n - 2] == 0xff && s[n - 1] == 0xd9
                &&& forall|j: int|
                    n - 1 <= j < s.len() - 1 ==> !(s[j] == 0xff && #[trigger] s[j + 1] == 0xd9)
            } else {
                payload == s + seq![0xffu8, 0xd9u8]
            }
        }),
{
    if exists|j: int| 0 <= j < s.len() - 1 && s[j] == 0xff && #[trigger] s[j + 1] == 0xd9 {
        let j: int = choose|j: int|
            0 <= j < s.len() - 1 && s[j] == 0xff && #[trigger] s[j + 1] == 0xd9;
        assert(is_eoi_at(s, j));
        lemma_last_eoi_exists(s, s.len() as int);
        let k: int = choose|i: int| is_last_eoi(s, i);
        assert(is_last_eoi(s, k));
        assert forall|m: int| k + 1 <= m < s.len() - 1 implies !(s[m] == 0xff && #[trigger] s[m + 1]
            == 0xd9) by {
            if s[m] == 0xff && s[m + 1] == 0xd9 {
                assert(is_eoi_at(s, m));
            }
        }
    } else {
        assert forall|i: int| !is_eoi_at(s, i) by {
            if is_eoi_at(s, i) {
                assert(s[i + 1] == 0xd9);
            }
        }
    }
}

/// `law_payload_reaches_to_the_last_eoi` of what `normalize_mjpeg_payload`
/// returns; it refuses exactly the data that do not start with the SOI marker.
pub proof fn law_normalized_payload(data: Bytes, r: Result<Bytes, BuildError>)
    requires
        call_ensures(normalize_mjpeg_payload, (data,), r),
    ensures
        ({
            let s = bytes_contents(data);
            match r {
                Ok(sent) => {
                    let payload = bytes_contents(sent);
                    let n = payload.len() as int;
                    &&& s.len() >= 2 && s[0] == 0xff && s[1] == 0xd8
                    &&& if exists|j: int|
                        0 <= j < s.len() - 1 && s[j] == 0xff && #[trigger] s[j + 1] == 0xd9 {
                        &&& 2 <= n <= s.len()
                        &&& payload == s.take(n)
                        &&& s[n - 2] == 0xff && s[n - 1] == 0xd9
                        &&& forall|j: int|
                            n - 1 <= j < s.len() - 1 ==> !(s[j] == 0xff && #[trigger] s[j + 1]
                                == 0xd9)
                    } else {
                        payload == s + seq![0xffu8, 0xd9u8]
                    }
                },
                Err(e) => {
                    &&& !(s.len() >= 2 && s[0] == 0xff && s[1] == 0xd8)
                    &&& e == BuildError::MissingSoi
                },
            }
        }),
{
    law_payload_reaches_to_the_last_eoi(bytes_contents(data));
}

// ---------------------------------------------------------------------------
// Encoding
// ---------------------------------------------------------------------------
/// The JPEG file of an RGB image, or the text of the error.
pub open spec fn jpeg_of(rgb: RgbArray, quality: u8) -> Result<Seq<u8>, Seq<char>> {
    jpeg_file(rgb.data@, rgb.width as u32, rgb.height as u32, quality)
}

/// The PNG file of an RGB image, or the text of the error.
pub open spec fn png_of(rgb: RgbArray) -> Result<Seq<u8>, Seq<char>> {
    png_file(rgb.data@, rgb.width as u32, rgb.height as u32)
}

proof fn lemma_sample_count(rgb: RgbArray)
    requires
        rgb.wf(),
    ensures
        rgb.data@.len() == (rgb.width as u32) * (rgb.height as u32) * 3,
{
    assert(rgb.height * rgb.width == rgb.width * rgb.height) by (nonlinear_arith);
}

proof fn lemma_rgb_size_fits(rgb: RgbArray)
    requires
        rgb.wf(),
    ensures
        rgb.width * 4 <= usize::MAX,
        rgb.height * rgb.width * 3 <= usize::MAX,
{
    let h: nat = counted_axis(rgb.height as nat);
    let w: nat = counted_axis(rgb.width as nat);
    let product: int = rgb.height * rgb.width;
    assert(w <= h * w) by (nonlinear_arith)
        requires
            h >= 1,
            w >= 0,
    ;
    assert(0 <= product <= h * w) by (nonlinear_arith)
        requires
            product == rgb.height * rgb.width,
            0 <= rgb.height <= h,
            0 <= rgb.width <= w,
    ;
}

/// Encodes an RGB image as JPEG.
pub fn encode_rgb_jpeg(rgb: &RgbArray, quality: u8) -> (r: Result<Vec<u8>, BuildError>)
    requires
        rgb.wf(),
    ensures
        match r {
            Ok(file) => {
                &&& jpeg_of(*rgb, quality) == Ok::<Seq<u8>, Seq<char>>(file@)
                &&& is_delimited_jpeg(file@)
                &&& 1 <= rgb.width <= 65535 && 1 <= rgb.height <= 65535
            },
            Err(e) => {
                &&& e matches BuildError::Jpeg(reason) && jpeg_of(*rgb, quality) == Err::<
                    Seq<u8>,
                    Seq<char>,
                >(reason@)
                &&& !(1 <= rgb.width <= 65535 && 1 <= rgb.height <= 65535)
            },
        },
{
    proof {
        lemma_sample_count(*rgb);
    }
    match encode_jpeg(rgb.data.as_slice(), rgb.width as u32, rgb.height as u32, quality) {
        Ok(file) => Ok(file),
        Err(reason) => Err(BuildError::Jpeg(reason)),
    }
}

/// Encodes an RGB image as PNG, for speed rather than for size.
pub fn encode_rgb_png(rgb: &RgbArray) -> (r: Result<Vec<u8>, BuildError>)
    requires
        rgb.wf(),
    ensures
        match r {
            Ok(file) => {
                &&& png_of(*rgb) == Ok::<Seq<u8>, Seq<char>>(file@)
                &&& rgb.width > 0 && rgb.height > 0
            },
            Err(e) => e matches BuildError::Png(reason) && png_of(*rgb) == Err::<
                Seq<u8>,
                Seq<char>,
            >(reason@),
        },
{
    proof {
        lemma_sample_count(*rgb);
    }
    match encode_png(rgb.data.as_slice(), rgb.width as u32, rgb.height as u32) {
        Ok(file) => Ok(file),
        Err(reason) => Err(BuildError::Png(reason)),
    }
}

// ---------------------------------------------------------------------------
// Messages
// ---------------------------------------------------------------------------
/// A message that carries a frame.
#[derive(Debug, Clone)]
pub enum OutputMessage {
    Image(ImageMessage),
    Compressed(CompressedImageMessage),
}

/// What a message that carries a frame says.
pub enum OutputFields {
    Image(ImageFields),
    Compressed(CompressedImageFields),
}

impl View for OutputMessage {
    type V = OutputFields;

    open spec fn view(&self) -> OutputFields {
        match self {
            OutputMessage::Image(m) => OutputFields::Image(m@),
            OutputMessage::Compressed(m) => OutputFields::Compressed(m@),
        }
    }
}

impl OutputMessage {
    /// The sizes of the message are within what memory and a batch can hold.
    pub open spec fn fits_memory(self) -> bool {
        match self {
            OutputMessage::Image(m) => m@.sizes_fit(),
            OutputMessage::Compressed(m) => m.format@.len() * 4 <= i32::MAX,
        }
    }
}

impl OutputFields {
    /// The row that holds the message.
    pub open spec fn row(self) -> Map<Seq<char>, ColumnValue> {
        match self {
            OutputFields::Image(m) => m.row(),
            OutputFields::Compressed(m) => m.row(),
        }
    }
}

/// The message of an RGB image of `height` rows in the format asked for, or the
/// text of the error.
pub open spec fn message_of_rgb(
    height: nat,
    width: nat,
    data: Seq<u8>,
    image_format: ImageFormat,
    quality: u8,
) -> Result<OutputFields, Seq<char>> {
    match image_format {
        ImageFormat::Raw => if width * 3 <= u32::MAX {
            Ok(
                OutputFields::Image(
                    ImageFields {
                        height: height as u32,
                        width: width as u32,
                        encoding: "rgb8"@,
                        step: (width * 3) as u32,
                        data,
                    },
                ),
            )
        } else {
            Err(
                "invalid image message: step "@ + decimal((width * 3) % 0x1_0000_0000)
                    + " is smaller than width * bytes_per_pixel "@ + decimal(width * 3),
            )
        },
        ImageFormat::Jpeg => match jpeg_file(data, width as u32, height as u32, quality) {
            Ok(file) => Ok(
                OutputFields::Compressed(CompressedImageFields { format: "jpeg"@, data: file }),
            ),
            Err(reason) => Err("failed to encode jpeg: "@ + reason),
        },
        ImageFormat::Png => match png_file(data, width as u32, height as u32) {
            Ok(file) => Ok(
                OutputFields::Compressed(CompressedImageFields { format: "png"@, data: file }),
            ),
            Err(reason) => Err("failed to encode png: "@ + reason),
        },
    }
}

/// A frame is sent without being decoded.
pub open spec fn is_passed_through(frame: CapturedFrame, image_format: ImageFormat) -> bool {
    frame.pixel_format == PixelFormat::Mjpeg && image_format == ImageFormat::Jpeg
}

/// The message of a frame in the format asked for, or the text of the error.
pub open spec fn message_of_frame(
    frame: CapturedFrame,
    image_format: ImageFormat,
    quality: u8,
) -> Result<OutputFields, Seq<char>> {
    if is_passed_through(frame, image_format) {
        if has_soi(frame.contents()) {
            Ok(
                OutputFields::Compressed(
                    CompressedImageFields {
                        format: "jpeg"@,
                        data: with_eoi(frame.contents()),
                    },
                ),
            )
        } else {
            Err(missing_soi_text())
        }
    } else {
        match rgb_of_frame(frame) {
            Ok((height, width, data)) => message_of_rgb(height, width, data, image_format, quality),
            Err(e) => Err(frame_error_text(e)),
        }
    }
}

/// The message is of the kind that the format stands for: `rgb8` images with
/// rows that follow each other without gaps, or files of that format.
pub open spec fn is_of_format(m: OutputFields, image_format: ImageFormat) -> bool {
    match (m, image_format) {
        (OutputFields::Image(image), ImageFormat::Raw) => {
            &&& image.encoding == "rgb8"@
            &&& image.step == image.width * 3
            &&& image.is_valid()
        },
        (OutputFields::Compressed(file), ImageFormat::Jpeg) => {
            &&& file.format == "jpeg"@
            &&& is_delimited_jpeg(file.data)
        },
        (OutputFields::Compressed(file), ImageFormat::Png) => file.format == "png"@,
        _ => false,
    }
}

/// The message of an RGB image in the format asked for.
pub fn message_from_rgb(rgb: &RgbArray, image_format: ImageFormat, quality: u8) -> (r: Result<
    OutputMessage,
    BuildError,
>)
    requires
        rgb.wf(),
    ensures
        match r {
            Ok(m) => {
                &&& message_of_rgb(
                    rgb.height as nat,
                    rgb.width as nat,
                    rgb.data@,
                    image_format,
                    quality,
                ) == Ok::<OutputFields, Seq<char>>(m@)
                &&& is_of_format(m@, image_format)
                &&& m.fits_memory()
            },
            Err(e) => message_of_rgb(
                rgb.height as nat,
                rgb.width as nat,
                rgb.data@,
                image_format,
                quality,
            ) == Err::<OutputFields, Seq<char>>(build_error_text(e)),
        },
{
    proof {
        reveal_strlit("jpeg");
        reveal_strlit("png");
    }
    match image_format {
        ImageFormat::Raw => match rgb8_image(rgb) {
            Ok(image) => {
                proof {
                    assert(rgb.height * rgb.width * 3 == (rgb.width * 3) * rgb.height)
                        by (nonlinear_arith);
                    lemma_rgb_size_fits(*rgb);
                }
                Ok(OutputMessage::Image(image))
            },
            Err(reason) => Err(BuildError::Message(reason)),
        },
        ImageFormat::Jpeg => match encode_rgb_jpeg(rgb, quality) {
            Ok(file) => Ok(
                OutputMessage::Compressed(
                    CompressedImageMessage { format: "jpeg".to_owned(), data: from_vec(file) },
                ),
            ),
            Err(e) => Err(e),
        },
        ImageFormat::Png => match encode_rgb_png(rgb) {
            Ok(file) => Ok(
                OutputMessage::Compressed(
                    CompressedImageMessage { format: "png".to_owned(), data: from_vec(file) },
                ),
            ),
            Err(e) => Err(e),
        },
    }
}

/// The message of a captured frame in the format asked for. An MJPEG frame is
/// passed through as a JPEG file; any other conversion goes through RGB.
pub fn message_from_captured_frame(
    frame: CapturedFrame,
    image_format: ImageFormat,
    quality: u8,
) -> (r: Result<OutputMessage, BuildError>)
    requires
        is_passed_through(frame, image_format) || is_convertible(frame),
    ensures
        match r {
            Ok(m) => {
                &&& message_of_frame(frame, image_format, quality) == Ok::<OutputFields, Seq<char>>(
                    m@,
                )
                &&& is_of_format(m@, image_format)
                &&& m.fits_memory()
            },
            Err(e) => message_of_frame(frame, image_format, quality) == Err::<
                OutputFields,
                Seq<char>,
            >(build_error_text(e)),
        },
{
    if can_direct_use_mjpeg(frame.pixel_format, image_format) {
        proof {
            reveal_strlit("jpeg");
            if has_soi(frame.contents()) {
                law_payload_is_delimited(frame.contents());
            }
        }
        return match normalize_mjpeg_payload(frame.data) {
            Ok(payload) => Ok(
                OutputMessage::Compressed(
                    CompressedImageMessage { format: "jpeg".to_owned(), data: payload },
                ),
            ),
            Err(e) => Err(e),
        };
    }
    match frame_to_rgb_array(&frame) {
        Ok(rgb) => message_from_rgb(&rgb, image_format, quality),
        Err(e) => Err(BuildError::Frame(e)),
    }
}

/// The batch that carries a message.
pub fn batch_of_message(message: OutputMessage) -> (r: Result<MessageBatch, BuildError>)
    requires
        message.fits_memory(),
    ensures
        match r {
            Ok(b) => {
                &&& batch_rows(b) == seq![message@.row()]
                &&& message matches OutputMessage::Image(m) ==> m@.is_valid()
                &&& message matches OutputMessage::Compressed(m) ==> m.format@.len() > 0
            },
            Err(e) => e matches BuildError::Message(text) && match message {
                OutputMessage::Image(m) => m@.problem() == Some(text@),
                OutputMessage::Compressed(m) => {
                    &&& m.format@.len() == 0
                    &&& text@ == "invalid image message: format must be non-empty"@
                },
            },
        },
{
    match message {
        OutputMessage::Image(m) => match image_batch(m) {
            Ok(b) => Ok(b),
            Err(reason) => Err(BuildError::Message(reason)),
        },
        OutputMessage::Compressed(m) => match compressed_batch(m) {
            Ok(b) => Ok(b),
            Err(reason) => Err(BuildError::Message(reason)),
        },
    }
}

/// The batch that carries the message of a captured frame in the format that
/// the configuration asks for.
pub fn image_from_captured_frame(frame: CapturedFrame, config: &CameraConfig) -> (r: Result<
    MessageBatch,
    BuildError,
>)
    requires
        is_passed_through(frame, config.image_format) || is_convertible(frame),
    ensures
        match r {
            Ok(b) => {
                &&& message_of_frame(frame, config.image_format, config.image_jpeg_quality) is Ok
                &&& batch_rows(b) == seq![
                    message_of_frame(
                        frame,
                        config.image_format,
                        config.image_jpeg_quality,
                    )->Ok_0.row(),
                ]
                &&& is_of_format(
                    message_of_frame(
                        frame,
                        config.image_format,
                        config.image_jpeg_quality,
                    )->Ok_0,
                    config.image_format,
                )
            },
            Err(e) => message_of_frame(frame, config.image_format, config.image_jpeg_quality)
                == Err::<OutputFields, Seq<char>>(build_error_text(e)),
        },
{
    match message_from_captured_frame(frame, config.image_format, config.image_jpeg_quality) {
        Ok(message) => {
            proof {
                reveal_strlit("jpeg");
                reveal_strlit("png");
            }
            batch_of_message(message)
        },
        Err(e) => Err(e),
    }
}

/// What is sent is what is read: the row of a message gives the message back,
/// and only a message of its own kind.
pub proof fn law_sent_message_is_read_back(m: OutputFields, image_format: ImageFormat)
    requires
        is_of_format(m, image_format),
    ensures
        match m {
            OutputFields::Image(image) => image_in(seq![m.row()]) == Some(image),
            OutputFields::Compressed(file) => {
                &&& image_in(seq![m.row()]) is None
                &&& compressed_in(seq![m.row()]) == Ok::<CompressedImageFields, Seq<char>>(file)
            },
        },
{
    reveal_strlit("jpeg");
    reveal_strlit("png");
    match m {
        OutputFields::Image(image) => {
            law_image_row_round_trip(image);
        },
        OutputFields::Compressed(file) => {
            law_compressed_row_round_trip(file);
        },
    }
}

/// What is sent of a frame that is not passed through is its RGB image: as it
/// is, with its size and without gaps between the rows; or what the JPEG encoder
/// makes of it at the quality asked for; or what the PNG encoder makes of it. The
/// format that the message names is the one asked for.
pub proof fn law_message_holds_the_image(
    frame: CapturedFrame,
    image_format: ImageFormat,
    quality: u8,
    height: nat,
    width: nat,
    rgb: Seq<u8>,
)
    requires
        rgb_of_frame(frame) == Ok::<(nat, nat, Seq<u8>), FrameError>((height, width, rgb)),
        !(frame.pixel_format == PixelFormat::Mjpeg && image_format == ImageFormat::Jpeg),
    ensures
        ({
            let message = message_of_frame(frame, image_format, quality);
            match image_format {
                ImageFormat::Raw => {
                    &&& message is Ok <==> width * 3 <= u32::MAX
                    &&& message matches Ok(m) ==> m matches OutputFields::Image(image) && {
                        &&& image.height == height as u32
                        &&& image.width == width
                        &&& image.encoding == "rgb8"@
                        &&& image.step == width * 3
                        &&& image.data == rgb
                    }
                },
                ImageFormat::Jpeg => match jpeg_file(rgb, width as u32, height as u32, quality) {
                    Ok(file) => message matches Ok(OutputFields::Compressed(m)) && m.format
                        == "jpeg"@ && m.data == file,
                    Err(reason) => message == Err::<OutputFields, Seq<char>>(
                        "failed to encode jpeg: "@ + reason,
                    ),
                },
                ImageFormat::Png => match png_file(rgb, width as u32, height as u32) {
                    Ok(file) => message matches Ok(OutputFields::Compressed(m)) && m.format
                        == "png"@ && m.data == file,
                    Err(reason) => message == Err::<OutputFields, Seq<char>>(
                        "failed to encode png: "@ + reason,
                    ),
                },
            }
        }),
{
}

/// A frame that the device has compressed is sent as a JPEG file without being
/// decoded if JPEG is asked for: its data up to the last EOI marker, or with one
/// behind them. Data that do not start with the SOI marker are not sent. A frame
/// without an RGB image is not sent in any other way.
pub proof fn law_compressed_frames_pass_through(
    frame: CapturedFrame,
    image_format: ImageFormat,
    quality: u8,
)
    ensures
        ({
            let s = frame.contents();
            let message = message_of_frame(frame, image_format, quality);
            if frame.pixel_format == PixelFormat::Mjpeg && image_format == ImageFormat::Jpeg {
                if s.len() >= 2 && s[0] == 0xff && s[1] == 0xd8 {
                    &&& message matches Ok(OutputFields::Compressed(m)) && m.format == "jpeg"@ && {
                        ||| m.data == s + seq![0xffu8, 0xd9u8]
                        ||| m.data == s.take(m.data.len() as int)
                    }
                    &&& message->Ok_0->Compressed_0.data.len() >= 2
                    &&& message->Ok_0->Compressed_0.data.last() == 0xd9
                    &&& s.last() == 0xd9 && s[s.len() - 2] == 0xff
                        ==> message->Ok_0->Compressed_0.data == s
                } else {
                    message is Err
                }
            } else {
                rgb_of_frame(frame) is Err ==> message is Err
            }
        }),
{
    let s = frame.contents();
    law_payload_reaches_to_the_last_eoi(s);
    if s.len() >= 2 && s.last() == 0xd9 && s[s.len() - 2] == 0xff {
        assert(ends_with_eoi(s));
        law_delimited_payload_is_kept(s);
    }
    let payload = with_eoi(s);
    if payload == s.take(payload.len() as int) && payload.len() <= s.len() && payload.len() > 0 {
        assert(payload.last() == s[payload.len() - 1]);
    }
}

/// What `message_from_rgb` returns for an image: with JPEG, the file that the
/// encoder makes of it at the quality given, and no other; with PNG, that of the
/// PNG encoder; raw, the image itself.
pub proof fn law_images_are_encoded_as_asked(
    rgb: &RgbArray,
    image_format: ImageFormat,
    quality: u8,
    r: Result<OutputMessage, BuildError>,
)
    requires
        rgb.wf(),
        call_ensures(message_from_rgb, (rgb, image_format, quality), r),
    ensures
        ({
            let (w, h) = (rgb.width as u32, rgb.height as u32);
            r matches Ok(m) ==> match image_format {
                ImageFormat::Raw => m matches OutputMessage::Image(image) && {
                    &&& image.height == h && image.width == w && image.step == w * 3
                    &&& image.encoding@ == "rgb8"@
                    &&& bytes_contents(image.data) == rgb.data@
                },
                ImageFormat::Jpeg => m matches OutputMessage::Compressed(file) && {
                    &&& file.format@ == "jpeg"@
                    &&& jpeg_file(rgb.data@, w, h, quality) == Ok::<Seq<u8>, Seq<char>>(
                        bytes_contents(file.data),
                    )
                },
                ImageFormat::Png => m matches OutputMessage::Compressed(file) && {
                    &&& file.format@ == "png"@
                    &&& png_file(rgb.data@, w, h) == Ok::<Seq<u8>, Seq<char>>(
                        bytes_contents(file.data),
                    )
                },
            }
        }),
        r is Err ==> match image_format {
            ImageFormat::Raw => rgb.width * 3 > u32::MAX,
            ImageFormat::Jpeg => jpeg_file(
                rgb.data@,
                rgb.width as u32,
                rgb.height as u32,
                quality,
            ) is Err,
            ImageFormat::Png => png_file(rgb.data@, rgb.width as u32, rgb.height as u32) is Err,
        },
{
}

/// What `image_from_captured_frame` returns: one row that holds the frame's
/// message in the format and at the quality of the configuration.
pub proof fn law_batch_holds_the_configured_message(
    frame: CapturedFrame,
    config: &CameraConfig,
    r: Result<MessageBatch, BuildError>,
    height: nat,
    width: nat,
    rgb: Seq<u8>,
)
    requires
        call_ensures(image_from_captured_frame, (frame, config), r),
        rgb_of_frame(frame) == Ok::<(nat, nat, Seq<u8>), FrameError>((height, width, rgb)),
        !(frame.pixel_format == PixelFormat::Mjpeg && config.image_format == ImageFormat::Jpeg),
    ensures
        r matches Ok(batch) ==> batch_rows(batch).len() == 1 && match config.image_format {
            ImageFormat::Raw => {
                let row = batch_rows(batch)[0];
                &&& row["height"@] == ColumnValue::UInt32(height as u32)
                &&& row["width"@] == ColumnValue::UInt32(width as u32)
                &&& row["encoding"@] == ColumnValue::Utf8("rgb8"@)
                &&& row["step"@] == ColumnValue::UInt32((width * 3) as u32)
                &&& row["data"@] == ColumnValue::LargeBinary(rgb)
            },
            ImageFormat::Jpeg => {
                let row = batch_rows(batch)[0];
                &&& row["format"@] == ColumnValue::Utf8("jpeg"@)
                &&& row["data"@] matches ColumnValue::LargeBinary(file) && jpeg_file(
                    rgb,
                    width as u32,
                    height as u32,
                    config.image_jpeg_quality,
                ) == Ok::<Seq<u8>, Seq<char>>(file)
            },
            ImageFormat::Png => {
                let row = batch_rows(batch)[0];
                &&& row["format"@] == ColumnValue::Utf8("png"@)
                &&& row["data"@] matches ColumnValue::LargeBinary(file) && png_file(
                    rgb,
                    width as u32,
                    height as u32,
                ) == Ok::<Seq<u8>, Seq<char>>(file)
            },
        },
{
    reveal_column_names();
    law_message_holds_the_image(
        frame,
        config.image_format,
        config.image_jpeg_quality,
        height,
        width,
        rgb,
    );
}

/// The text of an error is its reason, under what failed.
pub proof fn law_reasons_in_build_errors(reason: String, error: FrameError)
    ensures
        build_error_text(BuildError::Jpeg(reason)) == "failed to encode jpeg: "@ + reason@,
        build_error_text(BuildError::Png(reason)) == "failed to encode png: "@ + reason@,
        build_error_text(BuildError::Message(reason)) == reason@,
        build_error_text(BuildError::Frame(error)) == frame_error_text(error),
        build_error_text(BuildError::MissingSoi)
            == "MJPEG 直通校验失败：缺少 JPEG SOI；请确认选择的是 RGB/彩色节点，而非深度、红外或元数据节点"@,
{
}

/// What `image_from_captured_frame` returns for a frame that the device has
/// compressed if JPEG is asked for: one row with the frame's own data up to their
/// last EOI marker and with it, or with a marker behind them if they have none.
pub proof fn law_batch_holds_the_compressed_frame(
    frame: CapturedFrame,
    config: &CameraConfig,
    r: Result<MessageBatch, BuildError>,
)
    requires
        call_ensures(image_from_captured_frame, (frame, config), r),
        frame.pixel_format == PixelFormat::Mjpeg,
        config.image_format == ImageFormat::Jpeg,
    ensures
        ({
            let s = frame.contents();
            &&& r is Ok <==> s.len() >= 2 && s[0] == 0xff && s[1] == 0xd8
            &&& r matches Ok(batch) ==> {
                &&& batch_rows(batch).len() == 1
                &&& batch_rows(batch)[0]["format"@] == ColumnValue::Utf8("jpeg"@)
                &&& batch_rows(batch)[0]["data"@] matches ColumnValue::LargeBinary(payload) && {
                    let n = payload.len() as int;
                    if exists|j: int|
                        0 <= j < s.len() - 1 && s[j] == 0xff && #[trigger] s[j + 1] == 0xd9 {
                        &&& 2 <= n <= s.len()
                        &&& payload == s.take(n)
                        &&& s[n - 2] == 0xff && s[n - 1] == 0xd9
                        &&& forall|j: int|
                            n - 1 <= j < s.len() - 1 ==> !(s[j] == 0xff && #[trigger] s[j + 1]
                                == 0xd9)
                    } else {
                        payload == s + seq![0xffu8, 0xd9u8]
                    }
                }
            }
        }),
{
    reveal_column_names();
    law_payload_reaches_to_the_last_eoi(frame.contents());
}

/// What `batch_of_message` returns holds the fields of the message, column by
/// column; it refuses exactly the images that are not valid and the files without
/// a format.
pub proof fn law_batch_holds_the_message(
    message: OutputMessage,
    r: Result<MessageBatch, BuildError>,
)
    requires
        call_ensures(batch_of_message, (message,), r),
    ensures
        r is Ok <==> match message {
            OutputMessage::Image(m) => m@.is_valid(),
            OutputMessage::Compressed(m) => m.format@.len() > 0,
        },
        r matches Ok(batch) ==> batch_rows(batch).len() == 1 && match message {
            OutputMessage::Image(m) => {
                let row = batch_rows(batch)[0];
                &&& row["height"@] == ColumnValue::UInt32(m.height)
                &&& row["width"@] == ColumnValue::UInt32(m.width)
                &&& row["encoding"@] == ColumnValue::Utf8(m.encoding@)
                &&& row["step"@] == ColumnValue::UInt32(m.step)
                &&& row["data"@] == ColumnValue::LargeBinary(bytes_contents(m.data))
            },
            OutputMessage::Compressed(m) => {
                let row = batch_rows(batch)[0];
                &&& row["format"@] == ColumnValue::Utf8(m.format@)
                &&& row["data"@] == ColumnValue::LargeBinary(bytes_contents(m.data))
            },
        },
{
    reveal_column_names();
}

} // verus!
