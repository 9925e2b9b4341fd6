//! Opening a device: which device, which format is asked for, how the answer
//! is read, and how a busy device is waited for.

use rand::RngExt;
use vstd::prelude::*;

use crate::backend::{PixelFormat, YuvColorimetry, YuvMatrix, YuvRange};
use crate::capture_error::CaptureError;
use crate::config::{CameraConfig, ImageFormat};
use crate::fourcc::{code_is, is_bytes, is_code};
use crate::list_devices::{is_color_code, is_non_rgb_code};
use crate::text::{
    char_vec, contains, decimal, has_substring, has_word, law_decimal_notation,
    law_words_are_found,
};

verus! {

/// Attempts at creating the buffer stream of a busy device.
pub const EBUSY_RETRY_ATTEMPTS: u32 = 12;

/// The wait after the first failed attempt; each further one waits as much
/// longer.
pub const EBUSY_RETRY_BASE_MS: u64 = 150;

/// The largest random addition to a wait, which keeps processes from trying in
/// step.
pub const EBUSY_JITTER_MAX_MS: u64 = 500;

// ---------------------------------------------------------------------------
// Which device
// ---------------------------------------------------------------------------
/// How a device is addressed.
#[derive(Debug, Clone, PartialEq, Eq)]
pub enum DeviceSelector {
    Index(usize),
    Path(String),
}

/// A decimal digit.
pub open spec fn is_digit(c: char) -> bool {
    '0' as int <= c as int <= '9' as int
}

/// Every character is a decimal digit.
pub open spec fn all_digits(s: Seq<char>) -> bool {
    forall|i: int| 0 <= i < s.len() ==> is_digit(#[trigger] s[i])
}

/// The number that a sequence of decimal digits denotes.
pub open spec fn digits_value(s: Seq<char>) -> int
    decreases s.len(),
{
    if s.len() == 0 {
        0
    } else {
        digits_value(s.drop_last()) * 10 + (s.last() as int - '0' as int)
    }
}

/// The characters after an optional plus sign.
pub open spec fn unsigned_digits(s: Seq<char>) -> Seq<char> {
    if s.len() > 0 && s[0] == '+' {
        s.drop_first()
    } else {
        s
    }
}

/// The index that a device text denotes: decimal digits, after an optional
/// plus sign, with a value that fits.
pub open spec fn device_index(s: Seq<char>) -> Option<usize> {
    let digits = unsigned_digits(s);
    if digits.len() > 0 && all_digits(digits) && digits_value(digits) <= usize::MAX {
        Some(digits_value(digits) as usize)
    } else {
        None
    }
}

proof fn lemma_value_grows(s: Seq<char>, n: int)
    requires
        all_digits(s),
        0 <= n <= s.len(),
    ensures
        0 <= digits_value(s.take(n)) <= digits_value(s),
    decreases s.len(),
{
    if n == s.len() {
        assert(s.take(n) =~= s);
        if n > 0 {
            assert forall|i: int| 0 <= i < s.drop_last().len() implies is_digit(
                #[trigger] s.drop_last()[i],
            ) by {
                assert(s.drop_last()[i] == s[i]);
            }
            lemma_value_grows(s.drop_last(), n - 1);
            assert(s.drop_last().take(n - 1) =~= s.drop_last());
            assert(is_digit(s[n - 1]));
        }
    } else {
        assert forall|i: int| 0 <= i < s.drop_last().len() implies is_digit(
            #[trigger] s.drop_last()[i],
        ) by {
            assert(s.drop_last()[i] == s[i]);
        }
        lemma_value_grows(s.drop_last(), n);
        assert(s.drop_last().take(n) =~= s.take(n));
        assert(is_digit(s[s.len() - 1]));
    }
}

fn digit_value(c: char) -> (r: Option<usize>)
    ensures
        match r {
            Some(d) => is_digit(c) && d == c as int - '0' as int,
            None => !is_digit(c),
        },
{
    let n: u32 = c as u32;
    if 48 <= n && n <= 57 {
        Some((n - 48) as usize)
    } else {
        None
    }
}

/// The index that a device text denotes, if it denotes one.
pub fn parse_device_index(device: &str) -> (r: Option<usize>)
    ensures
        r == device_index(device@),
{
    let text: Vec<char> = char_vec(device);
    let start: usize = if text.len() > 0 && text[0] == '+' {
        1
    } else {
        0
    };
    let ghost digits = unsigned_digits(device@);
    assert(digits =~= text@.skip(start as int));
    if start == text.len() {
        return None;
    }
    let mut value: usize = 0;
    let mut i: usize = start;
    assert(digits.take(0) =~= Seq::<char>::empty());
    while i < text.len()
        invariant
            start <= i <= text@.len(),
            start < text@.len(),
            digits == text@.skip(start as int),
            digits == unsigned_digits(device@),
            all_digits(digits.take(i - start)),
            value == digits_value(digits.take(i - start)),
        decreases text@.len() - i,
    {
        let ghost k = i - start;
        assert(digits[k] == text@[i as int]);
        assert(digits.take(k + 1).drop_last() =~= digits.take(k));
        assert(digits.take(k + 1).last() == digits[k]);
        let d: usize = match digit_value(text[i]) {
            Some(d) => d,
            None => {
                assert(!is_digit(digits[k]));
                return None;
            },
        };
        let scaled: Option<usize> = match value.checked_mul(10) {
            Some(n) => n.checked_add(d),
            None => None,
        };
        assert forall|j: int| 0 <= j < digits.take(k + 1).len() implies is_digit(
            #[trigger] digits.take(k + 1)[j],
        ) by {
            if j < k {
                assert(digits.take(k)[j] == digits[j]);
                assert(is_digit(digits.take(k)[j]));
            }
        }
        value = match scaled {
            Some(n) => n,
            None => {
                proof {
                    if all_digits(digits) {
                        lemma_value_grows(digits, k + 1);
                    }
                }
                return None;
            },
        };
        i = i + 1;
    }
    assert(digits.take(i - start) =~= digits);
    Some(value)
}

/// How the configured device is addressed: by index if it is a number, else
/// by path.
pub fn device_selector(device: &str) -> (r: DeviceSelector)
    ensures
        match r {
            DeviceSelector::Index(index) => device_index(device@) == Some(index),
            DeviceSelector::Path(path) => device_index(device@) is None && path@ == device@,
        },
{
    match parse_device_index(device) {
        Some(index) => DeviceSelector::Index(index),
        None => DeviceSelector::Path(device.to_owned()),
    }
}

// ---------------------------------------------------------------------------
// Which format
// ---------------------------------------------------------------------------
/// The part of a capture format that is asked for.
#[derive(Debug, Clone, Copy, PartialEq, Eq)]
pub struct FormatRequest {
    pub width: u32,
    pub height: u32,
    pub fourcc: [u8; 4],
}

/// The code asked for: MJPG goes out as JPEG untouched, while raw and PNG
/// start from YUYV, which spares a JPEG decoder.
pub open spec fn is_wanted_code(image_format: ImageFormat, repr: [u8; 4]) -> bool {
    match image_format {
        ImageFormat::Jpeg => is_code(repr, 'M', 'J', 'P', 'G'),
        ImageFormat::Raw | ImageFormat::Png => is_code(repr, 'Y', 'U', 'Y', 'V'),
    }
}

/// The code asked for, see `is_wanted_code`.
pub fn requested_fourcc(image_format: ImageFormat) -> (r: [u8; 4])
    ensures
        is_wanted_code(image_format, r),
{
    match image_format {
        ImageFormat::Jpeg => [77, 74, 80, 71],
        ImageFormat::Raw | ImageFormat::Png => [89, 85, 89, 86],
    }
}

/// The format asked for: the configured size, where there is one, in place of
/// the current size of the device.
pub fn requested_format(
    current_width: u32,
    current_height: u32,
    config: &CameraConfig,
) -> (r: FormatRequest)
    ensures
        r.width == (match config.width {
            Some(w) => w,
            None => current_width,
        }),
        r.height == (match config.height {
            Some(h) => h,
            None => current_height,
        }),
        is_wanted_code(config.image_format, r.fourcc),
{
    FormatRequest {
        width: match config.width {
            Some(w) => w,
            None => current_width,
        },
        height: match config.height {
            Some(h) => h,
            None => current_height,
        },
        fourcc: requested_fourcc(config.image_format),
    }
}

/// The pixel format that a code stands for, if it can be handled.
pub open spec fn pixel_format_of(repr: [u8; 4]) -> Option<PixelFormat> {
    if is_code(repr, 'M', 'J', 'P', 'G') {
        Some(PixelFormat::Mjpeg)
    } else if is_code(repr, 'R', 'G', 'B', '3') {
        Some(PixelFormat::Rgb8)
    } else if is_code(repr, 'B', 'G', 'R', '3') {
        Some(PixelFormat::Bgr8)
    } else if is_code(repr, 'Y', 'U', 'Y', 'V') || is_code(repr, 'Y', 'U', 'Y', '2') {
        Some(PixelFormat::Yuyv)
    } else if is_code(repr, 'G', 'R', 'E', 'Y') || is_code(repr, 'Y', '8', '0', '0') {
        Some(PixelFormat::Gray8)
    } else {
        None
    }
}

/// The pixel format that a negotiated code stands for.
pub fn pixel_format_from_fourcc(repr: [u8; 4]) -> (r: Result<PixelFormat, CaptureError>)
    ensures
        match r {
            Ok(format) => pixel_format_of(repr) == Some(format),
            Err(e) => pixel_format_of(repr) is None && e == CaptureError::UnsupportedFourcc(repr),
        },
{
    if code_is(&repr, 'M', 'J', 'P', 'G') {
        Ok(PixelFormat::Mjpeg)
    } else if code_is(&repr, 'R', 'G', 'B', '3') {
        Ok(PixelFormat::Rgb8)
    } else if code_is(&repr, 'B', 'G', 'R', '3') {
        Ok(PixelFormat::Bgr8)
    } else if code_is(&repr, 'Y', 'U', 'Y', 'V') || code_is(&repr, 'Y', 'U', 'Y', '2') {
        Ok(PixelFormat::Yuyv)
    } else if code_is(&repr, 'G', 'R', 'E', 'Y') || code_is(&repr, 'Y', '8', '0', '0') {
        Ok(PixelFormat::Gray8)
    } else {
        Err(CaptureError::UnsupportedFourcc(repr))
    }
}

/// Every format that device discovery accepts as color can be captured, and
/// is captured in color.
pub proof fn law_discovered_formats_can_be_captured(repr: [u8; 4])
    requires
        is_color_code(repr),
    ensures
        pixel_format_of(repr) is Some,
        pixel_format_of(repr) != Some(PixelFormat::Gray8),
        !is_non_rgb_code(repr),
{
}

/// A device that grants the requested code delivers MJPEG for JPEG output and
/// YUYV for raw and PNG output.
pub proof fn law_granted_request(image_format: ImageFormat, repr: [u8; 4])
    requires
        is_wanted_code(image_format, repr),
    ensures
        pixel_format_of(repr) == Some(
            if image_format == ImageFormat::Jpeg {
                PixelFormat::Mjpeg
            } else {
                PixelFormat::Yuyv
            },
        ),
{
}

/// The color space that the driver reports.
#[derive(Debug, Clone, Copy, PartialEq, Eq, Structural)]
pub enum Colorspace {
    Default,
    Smpte170M,
    Smpte240M,
    Rec709,
    Ntsc,
    EbuTech3213,
    Jpeg,
    Srgb,
    OpRgb,
    Rec2020,
    Raw,
    DciP3,
}

/// The quantization that the driver reports.
#[derive(Debug, Clone, Copy, PartialEq, Eq, Structural)]
pub enum Quantization {
    Default,
    FullRange,
    LimitedRange,
}

/// How YUV samples are to be read: by default limited range and BT.601, but
/// JPEG color is full range unless stated otherwise, and Rec. 709 has a
/// matrix of its own.
pub fn yuv_colorimetry(colorspace: Colorspace, quantization: Quantization) -> (r: YuvColorimetry)
    ensures
        r.range == YuvRange::Full <==> {
            ||| quantization == Quantization::FullRange
            ||| quantization == Quantization::Default && colorspace == Colorspace::Jpeg
        },
        r.matrix == YuvMatrix::Bt709 <==> colorspace == Colorspace::Rec709,
{
    let range: YuvRange = match quantization {
        Quantization::FullRange => YuvRange::Full,
        Quantization::LimitedRange => YuvRange::Limited,
        Quantization::Default => if matches!(colorspace, Colorspace::Jpeg) {
            YuvRange::Full
        } else {
            YuvRange::Limited
        },
    };
    let matrix: YuvMatrix = if matches!(colorspace, Colorspace::Rec709) {
        YuvMatrix::Bt709
    } else {
        YuvMatrix::Bt601
    };
    YuvColorimetry { range, matrix }
}

/// The colorimetry that the frames of a format carry: only YUYV has one.
pub fn frame_colorimetry(
    pixel_format: PixelFormat,
    colorspace: Colorspace,
    quantization: Quantization,
) -> (r: Option<YuvColorimetry>)
    ensures
        r is Some <==> pixel_format == PixelFormat::Yuyv,
        r matches Some(c) ==> {
            &&& c.range == YuvRange::Full <==> {
                ||| quantization == Quantization::FullRange
                ||| quantization == Quantization::Default && colorspace == Colorspace::Jpeg
            }
            &&& c.matrix == YuvMatrix::Bt709 <==> colorspace == Colorspace::Rec709
        },
{
    if matches!(pixel_format, PixelFormat::Yuyv) {
        Some(yuv_colorimetry(colorspace, quantization))
    } else {
        None
    }
}

// ---------------------------------------------------------------------------
// A busy device
// ---------------------------------------------------------------------------
/// The error says that the device is busy.
pub open spec fn is_busy_error(message: Seq<char>) -> bool {
    ||| has_substring(message, "resource busy"@)
    ||| has_substring(message, "os error 16"@)
    ||| has_substring(message, "error 16"@)
}

/// What to do after the buffer stream could not be created.
#[derive(Debug, Clone, PartialEq, Eq)]
pub enum StreamRetry {
    /// Try again after this wait and a random addition to it.
    Wait { backoff_ms: u64 },
    GiveUp(CaptureError),
}

/// Decides what follows failed attempt number `attempt`, counted from zero.
pub fn after_stream_error(attempt: u32, message: &str) -> (r: StreamRetry)
    ensures
        r == (if !is_busy_error(message@) {
            StreamRetry::GiveUp(CaptureError::StreamFailed)
        } else if attempt + 1 < EBUSY_RETRY_ATTEMPTS {
            StreamRetry::Wait { backoff_ms: (EBUSY_RETRY_BASE_MS * (attempt + 1)) as u64 }
        } else {
            StreamRetry::GiveUp(CaptureError::DeviceBusy)
        }),
{
    let busy: bool = contains(message, "resource busy") || contains(message, "os error 16")
        || contains(message, "error 16");
    if !busy {
        return StreamRetry::GiveUp(CaptureError::StreamFailed);
    }
    if attempt < EBUSY_RETRY_ATTEMPTS - 1 {
        StreamRetry::Wait { backoff_ms: EBUSY_RETRY_BASE_MS * (attempt as u64 + 1) }
    } else {
        StreamRetry::GiveUp(CaptureError::DeviceBusy)
    }
}

/// `rand::rng` and `RngExt::random_range` over `0..=max`: some number up to
/// `max`; which one is left to chance.
#[verifier::external_body]
fn random_up_to(max: u64) -> (r: u64)
    ensures
        r <= max,
{
    rand::rng().random_range(0..=max)
}

/// The number is one that drawing a number up to `max` can yield: an outcome of
/// `random_up_to`.
pub closed spec fn may_draw(max: u64, n: u64) -> bool {
    call_ensures(random_up_to, (max,), n)
}

/// The wait is `base_ms` and a number of milliseconds that was drawn.
pub open spec fn is_jittered_wait(base_ms: u64, wait_ms: u64) -> bool {
    exists|jitter_ms: u64| #[trigger]
        may_draw(EBUSY_JITTER_MAX_MS, jitter_ms) && jitter_ms <= EBUSY_JITTER_MAX_MS && wait_ms
            == base_ms + jitter_ms
}

/// A wait of `base_ms` with a random addition of up to half a second.
pub fn jittered_wait_ms(base_ms: u64) -> (r: u64)
    requires
        base_ms + EBUSY_JITTER_MAX_MS <= u64::MAX,
    ensures
        is_jittered_wait(base_ms, r),
        base_ms <= r <= base_ms + EBUSY_JITTER_MAX_MS,
{
    let jitter_ms: u64 = random_up_to(EBUSY_JITTER_MAX_MS);
    assert(may_draw(EBUSY_JITTER_MAX_MS, jitter_ms));
    base_ms + jitter_ms
}

/// A device that is given as a number is addressed by it: the decimal notation
/// of a number, with a plus sign before it or not, denotes that number.
pub proof fn law_numbers_are_indices(n: usize)
    ensures
        device_index(decimal(n as nat)) == Some(n),
        device_index(seq!['+'] + decimal(n as nat)) == Some(n),
{
    let s = decimal(n as nat);
    lemma_decimal_value(n as nat);
    law_decimal_notation(n as nat);
    assert((seq!['+'] + s).drop_first() =~= s);
}

proof fn lemma_decimal_value(n: nat)
    ensures
        all_digits(decimal(n)),
        digits_value(decimal(n)) == n,
    decreases n,
{
    reveal_with_fuel(digits_value, 2);
    law_decimal_notation(n);
    if n >= 10 {
        lemma_decimal_value(n / 10);
        assert(decimal(n).drop_last() =~= decimal(n / 10));
    } else {
        assert(decimal(n).drop_last() =~= Seq::empty());
    }
}

/// A number that is too large for an index is no index, and neither zeros nor one
/// plus sign before a number matter.
pub proof fn law_large_numbers_and_zeros(n: nat, s: Seq<char>)
    requires
        s.len() > 0,
        s[0] != '+',
    ensures
        n > usize::MAX ==> device_index(decimal(n)) is None,
        device_index(seq!['0'] + s) == device_index(s),
        device_index(seq!['+'] + s) == device_index(s),
{
    assert((seq!['+'] + s).drop_first() =~= s);
    lemma_decimal_value(n);
    law_decimal_notation(n);
    let zeroed = seq!['0'] + s;
    if all_digits(s) {
        assert forall|i: int| 0 <= i < zeroed.len() implies is_digit(#[trigger] zeroed[i]) by {
            if i > 0 {
                assert(zeroed[i] == s[i - 1]);
            }
        }
        lemma_leading_zero(s);
    } else {
        let i = choose|i: int| 0 <= i < s.len() && !is_digit(#[trigger] s[i]);
        assert(zeroed[i + 1] == s[i]);
    }
}

proof fn lemma_leading_zero(s: Seq<char>)
    ensures
        digits_value(seq!['0'] + s) == digits_value(s),
    decreases s.len(),
{
    reveal_with_fuel(digits_value, 2);
    if s.len() == 0 {
        assert((seq!['0'] + s).drop_last() =~= Seq::empty());
    } else {
        lemma_leading_zero(s.drop_last());
        assert((seq!['0'] + s).drop_last() =~= seq!['0'] + s.drop_last());
    }
}

/// A text with a character that is no digit, but for a plus sign at its
/// beginning, is a path; so is a text without a digit.
pub proof fn law_other_texts_are_paths(s: Seq<char>, i: int)
    requires
        s.len() == 0 || s == seq!['+'] || (0 <= i < s.len() && !('0' <= s[i] <= '9') && !(i == 0
            && s[0] == '+')),
    ensures
        device_index(s) is None,
{
    if s.len() > 0 && s[0] == '+' {
        if i > 0 && i < s.len() {
            assert(s.drop_first()[i - 1] == s[i]);
        }
    }
}

/// What `device_selector` returns: the number that a text denotes, or else the
/// text itself.
pub proof fn law_devices_are_addressed(device: &str, r: DeviceSelector)
    requires
        call_ensures(device_selector, (device,), r),
    ensures
        forall|n: usize| device@ == #[trigger] decimal(n as nat) ==> r == DeviceSelector::Index(n),
        (exists|i: int|
            0 <= i < device@.len() && !('0' <= #[trigger] device@[i] <= '9') && !(i == 0
                && device@[0] == '+')) ==> (r matches DeviceSelector::Path(path) && path@
            == device@),
{
    assert forall|n: usize| device@ == #[trigger] decimal(n as nat) implies r
        == DeviceSelector::Index(n) by {
        law_numbers_are_indices(n);
    }
    if exists|i: int|
        0 <= i < device@.len() && !('0' <= #[trigger] device@[i] <= '9') && !(i == 0 && device@[0]
            == '+') {
        let i = choose|i: int|
            0 <= i < device@.len() && !('0' <= #[trigger] device@[i] <= '9') && !(i == 0
                && device@[0] == '+');
        law_other_texts_are_paths(device@, i);
    }
}

/// The codes `MJPG`, `RGB3`, `BGR3`, `YUYV` and `YUY2`, `GREY` and `Y800` stand for
/// pixel formats, and no others do.
pub proof fn law_codes_of_pixel_formats(repr: [u8; 4])
    ensures
        pixel_format_of(repr) == Some(PixelFormat::Mjpeg) <==> is_bytes(repr, 77, 74, 80, 71),
        pixel_format_of(repr) == Some(PixelFormat::Rgb8) <==> is_bytes(repr, 82, 71, 66, 51),
        pixel_format_of(repr) == Some(PixelFormat::Bgr8) <==> is_bytes(repr, 66, 71, 82, 51),
        pixel_format_of(repr) == Some(PixelFormat::Yuyv) <==> is_bytes(repr, 89, 85, 89, 86)
            || is_bytes(repr, 89, 85, 89, 50),
        pixel_format_of(repr) == Some(PixelFormat::Gray8) <==> is_bytes(repr, 71, 82, 69, 89)
            || is_bytes(repr, 89, 56, 48, 48),
{
}

/// What `pixel_format_from_fourcc` returns: the pixel format of a code that
/// stands for one, and else an error with the code.
pub proof fn law_unknown_codes_are_refused(repr: [u8; 4], r: Result<PixelFormat, CaptureError>)
    requires
        call_ensures(pixel_format_from_fourcc, (repr,), r),
    ensures
        pixel_format_of(repr) matches Some(format) ==> r == Ok::<PixelFormat, CaptureError>(format),
        pixel_format_of(repr) is None ==> r == Err::<PixelFormat, CaptureError>(
            CaptureError::UnsupportedFourcc(repr),
        ),
{
}

/// The size asked for is the one that is configured, each side for itself, and
/// else the current one; the format is `MJPG` for JPEG and `YUYV` for all else.
pub proof fn law_configured_format_is_asked_for(
    current_width: u32,
    current_height: u32,
    config: &CameraConfig,
    r: FormatRequest,
)
    requires
        call_ensures(requested_format, (current_width, current_height, config), r),
    ensures
        config.width is None ==> r.width == current_width,
        config.width matches Some(w) ==> r.width == w,
        config.height is None ==> r.height == current_height,
        config.height matches Some(h) ==> r.height == h,
        config.image_format == ImageFormat::Jpeg ==> is_bytes(r.fourcc, 77, 74, 80, 71),
        config.image_format != ImageFormat::Jpeg ==> is_bytes(r.fourcc, 89, 85, 89, 86),
{
}

/// The range is what the driver says; where it says nothing, it is full for JPEG
/// color and limited for all else. The matrix is that of BT.709 for Rec. 709 and
/// that of BT.601 for all else.
pub proof fn law_range_and_matrix(
    colorspace: Colorspace,
    quantization: Quantization,
    r: YuvColorimetry,
)
    requires
        call_ensures(yuv_colorimetry, (colorspace, quantization), r),
    ensures
        quantization == Quantization::FullRange ==> r.range == YuvRange::Full,
        quantization == Quantization::LimitedRange ==> r.range == YuvRange::Limited,
        quantization == Quantization::Default ==> (r.range == YuvRange::Full <==> colorspace
            == Colorspace::Jpeg),
        colorspace == Colorspace::Rec709 ==> r.matrix == YuvMatrix::Bt709,
        colorspace != Colorspace::Rec709 ==> r.matrix == YuvMatrix::Bt601,
{
}

/// YUYV frames carry the colorimetry that the driver reports, and no others carry
/// one.
pub proof fn law_yuyv_frames_carry_colorimetry(
    pixel_format: PixelFormat,
    colorspace: Colorspace,
    quantization: Quantization,
    r: Option<YuvColorimetry>,
    c: YuvColorimetry,
)
    requires
        call_ensures(frame_colorimetry, (pixel_format, colorspace, quantization), r),
        call_ensures(yuv_colorimetry, (colorspace, quantization), c),
    ensures
        pixel_format == PixelFormat::Yuyv ==> r == Some(c),
        pixel_format != PixelFormat::Yuyv ==> r is None,
{
}

/// A device is waited for while it is busy, up to the twelfth attempt, for 150
/// milliseconds more each time. Any other error is final, and the errors differ.
pub proof fn law_busy_devices_are_waited_for(attempt: u32, message: &str, r: StreamRetry)
    requires
        call_ensures(after_stream_error, (attempt, message), r),
    ensures
        ({
            let busy = has_word(message@, "resource busy"@) || has_word(message@, "error 16"@);
            &&& !busy ==> r == StreamRetry::GiveUp(CaptureError::StreamFailed)
            &&& busy && attempt >= 11 ==> r == StreamRetry::GiveUp(CaptureError::DeviceBusy)
            &&& busy && attempt < 11 ==> (r matches StreamRetry::Wait { backoff_ms } && backoff_ms
                == 150 * (attempt + 1))
        }),
{
    law_words_are_found(message@, "resource busy"@);
    law_words_are_found(message@, "os error 16"@);
    law_words_are_found(message@, "error 16"@);
    if has_word(message@, "os error 16"@) {
        reveal_strlit("os error 16");
        reveal_strlit("error 16");
        let (before, after) = choose|before: Seq<char>, after: Seq<char>|
            message@ == #[trigger] (before + "os error 16"@ + after);
        let start = before + seq!['o', 's', ' '];
        assert(message@ =~= start + "error 16"@ + after);
    }
}

/// The wait before a busy device is tried again is the one asked for and what was
/// drawn of up to half a second.
pub proof fn law_random_part_is_bounded(base_ms: u64, wait_ms: u64)
    requires
        is_jittered_wait(base_ms, wait_ms),
    ensures
        base_ms <= wait_ms <= base_ms + 500,
        exists|drawn_ms: u64| #[trigger] may_draw(500, drawn_ms) && wait_ms == base_ms + drawn_ms,
{
}

} // verus!
