//! Taking one still picture: which frames are skipped, and how often a failed
//! attempt is repeated.

use vstd::prelude::*;

use crate::backend::{may_yield_fresh, CaptureBackend, CapturedFrame, PixelFormat};
use crate::buffer::as_slice;
use crate::capture_error::{capture_error_text, CaptureError};
use crate::codec::{decode_rgb8, decoded_rgb8, jpeg_file};
use crate::message::{build_error_text, encode_rgb_jpeg, is_delimited_jpeg, BuildError};
use crate::pixels::{
    frame_error_text, frame_is_convertible, frame_to_rgb_array, is_convertible, rgb_of_frame,
};
use crate::text::{contains, decimal, has_substring, push_decimal, texts};

verus! {

/// Frames thrown away before the first candidate, while exposure settles.
pub const SNAPSHOT_DISCARD_FRAMES: u32 = 2;

/// Candidates that may turn out black before the attempt is given up.
pub const SNAPSHOT_MAX_BLACK_SKIPS: u32 = 24;

/// Attempts in all, the first one counted.
pub const SNAPSHOT_MAX_ATTEMPTS: u32 = 5;

/// The wait before the first repetition; each further one waits as much longer.
pub const SNAPSHOT_RETRY_BASE_MS: u64 = 200;

/// A picture is visible if the mean of the sampled bytes exceeds this.
pub const MIN_MEAN: u64 = 10;

// ---------------------------------------------------------------------------
// Visible content
// ---------------------------------------------------------------------------
/// How far `from` is below `len`.
pub open spec fn distance(len: int, from: int) -> nat {
    if from < len {
        (len - from) as nat
    } else {
        0
    }
}

/// The sum of every `step`-th byte of `s`, starting at `from`.
pub open spec fn strided_sum(s: Seq<u8>, from: int, step: int) -> nat
    decreases distance(s.len() as int, from),
{
    if from < 0 || from >= s.len() || step <= 0 {
        0
    } else {
        s[from] as nat + strided_sum(s, from + step, step)
    }
}

/// How many of the positions below `len` are reached from `from` in steps of
/// `step`.
pub open spec fn strided_count(len: int, from: int, step: int) -> nat
    decreases distance(len, from),
{
    if from < 0 || from >= len || step <= 0 {
        0
    } else {
        1 + strided_count(len, from + step, step)
    }
}

/// There are samples, and their mean (rounded down) exceeds the threshold.
pub open spec fn is_bright(sum: nat, count: nat) -> bool {
    count > 0 && sum / count > MIN_MEAN
}

/// The step that takes about `samples` samples out of `len`.
pub open spec fn sampling_step(len: nat, samples: nat) -> nat {
    if len / samples > 1 {
        len / samples
    } else {
        1
    }
}

/// The three samples of the pixel at row `y`, column `x`, summed.
pub open spec fn pixel_sum(pixels: Seq<u8>, width: int, y: int, x: int) -> nat {
    let at = (y * width + x) * 3;
    pixels[at] as nat + pixels[at + 1] as nat + pixels[at + 2] as nat
}

/// The sums of the pixels of row `y` at every `step`-th column from `x` on.
pub open spec fn row_sum(pixels: Seq<u8>, width: int, y: int, x: int, step: int) -> nat
    decreases distance(width, x),
{
    if x < 0 || x >= width || step <= 0 {
        0
    } else {
        pixel_sum(pixels, width, y, x) + row_sum(pixels, width, y, x + step, step)
    }
}

/// The row sums of every `step_y`-th row from `y` on.
pub open spec fn grid_sum(
    pixels: Seq<u8>,
    width: int,
    height: int,
    y: int,
    step_x: int,
    step_y: int,
) -> nat
    decreases distance(height, y),
{
    if y < 0 || y >= height || step_y <= 0 {
        0
    } else {
        row_sum(pixels, width, y, 0, step_x) + grid_sum(
            pixels,
            width,
            height,
            y + step_y,
            step_x,
            step_y,
        )
    }
}

/// How many samples `grid_sum` adds up.
pub open spec fn grid_count(width: int, height: int, y: int, step_x: int, step_y: int) -> nat
    decreases distance(height, y),
{
    if y < 0 || y >= height || step_y <= 0 {
        0
    } else {
        3 * strided_count(width, 0, step_x) + grid_count(width, height, y + step_y, step_x, step_y)
    }
}

/// A decoded picture shows something: it has pixels, and a grid of them is
/// bright.
pub open spec fn picture_is_visible(width: u32, height: u32, pixels: Seq<u8>) -> bool {
    let w = width as int;
    let h = height as int;
    let step_x = sampling_step(width as nat, 24) as int;
    let step_y = sampling_step(height as nat, 24) as int;
    &&& w > 0
    &&& h > 0
    &&& is_bright(
        grid_sum(pixels, w, h, 0, step_x, step_y),
        grid_count(w, h, 0, step_x, step_y),
    )
}

/// Every `step`-th byte is bright on average.
pub open spec fn bytes_are_visible(data: Seq<u8>, step: nat) -> bool {
    is_bright(
        strided_sum(data, 0, step as int),
        strided_count(data.len() as int, 0, step as int),
    )
}

/// The frame shows something, and is not a black or empty buffer.
pub open spec fn has_visible_content(frame: CapturedFrame) -> bool {
    let data = frame.contents();
    match frame.pixel_format {
        PixelFormat::Mjpeg => {
            &&& data.len() >= 512
            &&& match decoded_rgb8(data) {
                Ok((width, height, pixels)) => picture_is_visible(width, height, pixels),
                Err(_) => false,
            }
        },
        PixelFormat::Yuyv => data.len() >= 64 && bytes_are_visible(data, 8),
        _ => data.len() > 0 && bytes_are_visible(data, sampling_step(data.len(), 2000)),
    }
}

/// Whether every `step`-th byte is bright on average.
pub fn sampled_bytes_are_visible(data: &[u8], step: usize) -> (r: bool)
    requires
        step > 0,
    ensures
        r == bytes_are_visible(data@, step as nat),
{
    let len: usize = data.len();
    let mut i: usize = 0;
    let mut sum: u128 = 0;
    let mut n: u128 = 0;
    while i < len
        invariant
            len == data@.len(),
            step > 0,
            i <= len,
            n <= i,
            sum <= 255 * n,
            sum + strided_sum(data@, i as int, step as int) == strided_sum(
                data@,
                0,
                step as int,
            ),
            n + strided_count(len as int, i as int, step as int) == strided_count(
                len as int,
                0,
                step as int,
            ),
        decreases len - i,
    {
        proof {
            reveal_with_fuel(strided_sum, 2);
            reveal_with_fuel(strided_count, 2);
        }
        sum = sum + data[i] as u128;
        n = n + 1;
        if len - i <= step {
            i = len;
        } else {
            i = i + step;
        }
    }
    n > 0 && sum / n > MIN_MEAN as u128
}

fn step_of(len: usize, samples: usize) -> (r: usize)
    requires
        samples > 0,
    ensures
        r == sampling_step(len as nat, samples as nat),
        r >= 1,
{
    if len / samples > 1 {
        len / samples
    } else {
        1
    }
}

/// Whether a decoded picture shows something.
pub fn decoded_picture_is_visible(width: u32, height: u32, pixels: &Vec<u8>) -> (r: bool)
    requires
        pixels@.len() == width * height * 3,
    ensures
        r == picture_is_visible(width, height, pixels@),
{
    let w: usize = width as usize;
    let h: usize = height as usize;
    if w == 0 || h == 0 {
        return false;
    }
    let step_y: usize = step_of(h, 24);
    let step_x: usize = step_of(w, 24);
    let mut sum: u128 = 0;
    let mut n: u128 = 0;
    let mut y: usize = 0;
    let total: usize = pixels.len();
    while y < h
        invariant
            0 < w == width as usize,
            h == height as usize,
            w <= 0xffff_ffff,
            h <= 0xffff_ffff,
            step_x >= 1,
            step_y >= 1,
            total == pixels@.len() == w * h * 3,
            y <= h,
            n <= 0x3_0000_0000 * y,
            sum <= 255 * n,
            sum + grid_sum(
                pixels@,
                w as int,
                h as int,
                y as int,
                step_x as int,
                step_y as int,
            ) == grid_sum(pixels@, w as int, h as int, 0, step_x as int, step_y as int),
            n + grid_count(w as int, h as int, y as int, step_x as int, step_y as int)
                == grid_count(w as int, h as int, 0, step_x as int, step_y as int),
        decreases h - y,
    {
        let ghost sum_before = sum;
        let ghost n_before = n;
        let mut x: usize = 0;
        while x < w
            invariant
                0 < w,
                y < h,
                w <= 0xffff_ffff,
                h <= 0xffff_ffff,
                step_x >= 1,
                total == pixels@.len() == w * h * 3,
                x <= w,
                n_before <= 0x3_0000_0000 * y,
                n <= n_before + 3 * x,
                sum <= 255 * n,
                sum + row_sum(pixels@, w as int, y as int, x as int, step_x as int) == sum_before
                    + row_sum(pixels@, w as int, y as int, 0, step_x as int),
                n + 3 * strided_count(w as int, x as int, step_x as int) == n_before + 3
                    * strided_count(w as int, 0, step_x as int),
            decreases w - x,
        {
            proof {
                reveal_with_fuel(row_sum, 2);
                reveal_with_fuel(strided_count, 2);
                lemma_pixel_in_bounds(h as int, w as int, y as int, x as int);
            }
            let at: usize = (y * w + x) * 3;
            sum = sum + pixels[at] as u128 + pixels[at + 1] as u128 + pixels[at + 2] as u128;
            n = n + 3;
            if w - x <= step_x {
                x = w;
            } else {
                x = x + step_x;
            }
        }
        proof {
            reveal_with_fuel(grid_sum, 2);
            reveal_with_fuel(grid_count, 2);
        }
        if h - y <= step_y {
            y = h;
        } else {
            y = y + step_y;
        }
    }
    n > 0 && sum / n > MIN_MEAN as u128
}

proof fn lemma_pixel_in_bounds(h: int, w: int, y: int, x: int)
    requires
        0 <= y < h,
        0 <= x < w,
    ensures
        0 <= y * w,
        0 <= y * w + x,
        0 <= (y * w + x) * 3,
        (y * w + x) * 3 + 2 < w * h * 3,
{
    assert(y * w + w <= w * h) by (nonlinear_arith)
        requires
            0 <= y < h,
            0 <= w,
    ;
    assert(0 <= y * w) by (nonlinear_arith)
        requires
            0 <= y,
            0 <= w,
    ;
}

/// Whether a frame shows something; black and empty buffers, common after a
/// device was opened again, are not worth keeping.
pub fn snapshot_frame_has_visible_content(frame: &CapturedFrame) -> (r: bool)
    ensures
        r == has_visible_content(*frame),
{
    let data: &[u8] = as_slice(&frame.data);
    match frame.pixel_format {
        PixelFormat::Mjpeg => {
            if data.len() < 512 {
                return false;
            }
            match decode_rgb8(data) {
                Ok((width, height, pixels)) => decoded_picture_is_visible(width, height, &pixels),
                Err(_) => false,
            }
        },
        PixelFormat::Yuyv => data.len() >= 64 && sampled_bytes_are_visible(data, 8),
        PixelFormat::Rgb8 | PixelFormat::Bgr8 | PixelFormat::Gray8 => data.len() > 0
            && sampled_bytes_are_visible(data, step_of(data.len(), 2000)),
    }
}

/// Of the bytes, those at the multiples of `step` count for the sum, and no
/// others: another value `b` at position `at` changes it by the difference, or
/// not at all. Without light there is nothing to add up.
pub proof fn law_multiples_are_added_up(s: Seq<u8>, step: int, at: int, b: u8)
    requires
        0 < step,
        0 <= at < s.len(),
    ensures
        strided_sum(s.update(at, b), 0, step) - strided_sum(s, 0, step) == if at % step == 0 {
            b - s[at]
        } else {
            0
        },
        strided_sum(Seq::new(s.len(), |i: int| 0u8), 0, step) == 0,
{
    lemma_strided_update(s, 0, step, at, b);
    lemma_strided_bounds(Seq::new(s.len(), |i: int| 0u8), 0, step, 0, 0);
}

proof fn lemma_strided_update(s: Seq<u8>, from: int, step: int, at: int, b: u8)
    requires
        0 < step,
        0 <= from,
        0 <= at < s.len(),
    ensures
        strided_sum(s.update(at, b), from, step) - strided_sum(s, from, step) == if at >= from && (
        at - from) % step == 0 {
            b - s[at]
        } else {
            0
        },
    decreases distance(s.len() as int, from),
{
    if from < s.len() {
        lemma_strided_update(s, from + step, step, at, b);
        if at >= from + step {
            vstd::arithmetic::div_mod::lemma_mod_sub_multiples_vanish(at - from, step);
            assert((at - from - step) % step == (at - from) % step);
        } else if at >= from {
            vstd::arithmetic::div_mod::lemma_small_mod((at - from) as nat, step as nat);
        }
    }
}

/// Bytes between two bounds add up to something between as many times the
/// bounds.
proof fn lemma_strided_bounds(s: Seq<u8>, from: int, step: int, low: int, high: int)
    requires
        0 < step,
        0 <= from,
        forall|i: int| 0 <= i < s.len() ==> low <= #[trigger] s[i] <= high,
    ensures
        low * strided_count(s.len() as int, from, step) <= strided_sum(s, from, step) <= high
            * strided_count(s.len() as int, from, step),
    decreases distance(s.len() as int, from),
{
    let n = strided_count(s.len() as int, from, step);
    if from < s.len() {
        let m = strided_count(s.len() as int, from + step, step);
        lemma_strided_bounds(s, from + step, step, low, high);
        assert(low * n == low + low * m && high * n == high + high * m) by (nonlinear_arith)
            requires
                n == 1 + m,
        ;
    } else {
        assert(low * n == 0 && high * n == 0) by (nonlinear_arith)
            requires
                n == 0,
        ;
    }
}

/// As many positions below `len` are multiples of `step` as fit.
proof fn lemma_strided_count(len: int, from: int, step: int)
    requires
        0 < step,
        0 <= from,
    ensures
        strided_count(len, from, step) == if from < len {
            (len - from + step - 1) / step
        } else {
            0
        },
    decreases distance(len, from),
{
    if from < len {
        lemma_strided_count(len, from + step, step);
        if from + step < len {
            vstd::arithmetic::div_mod::lemma_div_plus_one(len - from - 1, step);
        } else {
            vstd::arithmetic::div_mod::lemma_fundamental_div_mod_converse(
                len - from + step - 1,
                step,
                1,
                len - from - 1,
            );
        }
    }
}

/// A mean, rounded down, is above ten exactly if the sum is eleven times the
/// count.
proof fn lemma_mean(sum: nat, count: nat)
    ensures
        is_bright(sum, count) <==> count > 0 && sum >= 11 * count,
{
    if count > 0 {
        vstd::arithmetic::div_mod::lemma_fundamental_div_mod(sum as int, count as int);
        vstd::arithmetic::div_mod::lemma_mod_bound(sum as int, count as int);
        let q = sum as int / count as int;
        if q >= 11 {
            assert(count * q >= 11 * count) by (nonlinear_arith)
                requires
                    q >= 11,
                    count > 0,
            ;
        } else {
            assert(count * q <= 10 * count) by (nonlinear_arith)
                requires
                    q <= 10,
                    count > 0,
            ;
        }
    }
}

/// A frame that is not compressed is visible exactly if it is long enough and
/// its sampled bytes are above ten on average: every eighth of a YUYV frame of
/// at least 64 bytes; of any other, every byte up to 4000 of them, and some two
/// thousand of more.
pub proof fn law_visible_bytes(frame: CapturedFrame)
    requires
        frame.pixel_format != PixelFormat::Mjpeg,
    ensures
        ({
            let data = frame.contents();
            let len = data.len() as int;
            let step = if frame.pixel_format == PixelFormat::Yuyv {
                8
            } else if len < 4000 {
                1
            } else {
                len / 2000
            };
            has_visible_content(frame) <==> {
                &&& len >= if frame.pixel_format == PixelFormat::Yuyv {
                    64int
                } else {
                    1int
                }
                &&& strided_sum(data, 0, step) >= 11 * ((len + step - 1) / step)
            }
        }),
{
    let data = frame.contents();
    let len = data.len() as int;
    let step = if frame.pixel_format == PixelFormat::Yuyv {
        8
    } else {
        sampling_step(data.len(), 2000) as int
    };
    lemma_strided_count(len, 0, step);
    lemma_mean(strided_sum(data, 0, step), strided_count(len, 0, step));
}

/// A frame that is not compressed and not too short is visible if all its bytes
/// are above ten, and is not if none is.
pub proof fn law_bright_bytes_are_visible(frame: CapturedFrame)
    requires
        frame.pixel_format != PixelFormat::Mjpeg,
        frame.contents().len() >= 64,
    ensures
        (forall|i: int| 0 <= i < frame.contents().len() ==> #[trigger] frame.contents()[i] > 10)
            ==> has_visible_content(frame),
        (forall|i: int| 0 <= i < frame.contents().len() ==> #[trigger] frame.contents()[i] <= 10)
            ==> !has_visible_content(frame),
{
    let data = frame.contents();
    let len = data.len() as int;
    let step = if frame.pixel_format == PixelFormat::Yuyv {
        8
    } else {
        sampling_step(data.len(), 2000) as int
    };
    lemma_mean(strided_sum(data, 0, step), strided_count(len, 0, step));
    assert(strided_count(len, 0, step) > 0);
    if forall|i: int| 0 <= i < data.len() ==> #[trigger] data[i] > 10 {
        lemma_strided_bounds(data, 0, step, 11, 255);
    }
    if forall|i: int| 0 <= i < data.len() ==> #[trigger] data[i] <= 10 {
        lemma_strided_bounds(data, 0, step, 0, 10);
    }
}

proof fn lemma_row_update(
    pixels: Seq<u8>,
    width: int,
    height: int,
    row: int,
    from: int,
    step: int,
    y: int,
    x: int,
    k: int,
    b: u8,
)
    requires
        0 < step,
        0 <= from,
        0 <= row < height,
        0 <= y < height,
        0 <= x < width,
        0 <= k < 3,
        pixels.len() == width * height * 3,
    ensures
        row_sum(pixels.update((y * width + x) * 3 + k, b), width, row, from, step) - row_sum(
            pixels,
            width,
            row,
            from,
            step,
        ) == if row == y && x >= from && (x - from) % step == 0 {
            b - pixels[(y * width + x) * 3 + k]
        } else {
            0
        },
    decreases distance(width, from),
{
    if from < width {
        lemma_row_update(pixels, width, height, row, from + step, step, y, x, k, b);
        lemma_pixel_in_bounds(height, width, row, from);
        lemma_pixel_in_bounds(height, width, y, x);
        if row < y {
            assert(row * width + width <= y * width) by (nonlinear_arith)
                requires
                    row < y,
                    width > 0,
            ;
        } else if row > y {
            assert(y * width + width <= row * width) by (nonlinear_arith)
                requires
                    row > y,
                    width > 0,
            ;
        }
        assert(0 <= row * width) by (nonlinear_arith)
            requires
                row >= 0,
                width > 0,
        ;
        if x >= from + step {
            vstd::arithmetic::div_mod::lemma_mod_sub_multiples_vanish(x - from, step);
            assert((x - from - step) % step == (x - from) % step);
        } else if x >= from {
            vstd::arithmetic::div_mod::lemma_small_mod((x - from) as nat, step as nat);
        }
    }
}

proof fn lemma_grid_update(
    pixels: Seq<u8>,
    width: int,
    height: int,
    from: int,
    step_x: int,
    step_y: int,
    y: int,
    x: int,
    k: int,
    b: u8,
)
    requires
        0 < step_x,
        0 < step_y,
        0 <= from,
        0 <= y < height,
        0 <= x < width,
        0 <= k < 3,
        pixels.len() == width * height * 3,
    ensures
        grid_sum(
            pixels.update((y * width + x) * 3 + k, b),
            width,
            height,
            from,
            step_x,
            step_y,
        ) - grid_sum(pixels, width, height, from, step_x, step_y) == if y >= from && (y - from)
            % step_y == 0 && x % step_x == 0 {
            b - pixels[(y * width + x) * 3 + k]
        } else {
            0
        },
    decreases distance(height, from),
{
    if from < height {
        lemma_row_update(pixels, width, height, from, 0, step_x, y, x, k, b);
        lemma_grid_update(pixels, width, height, from + step_y, step_x, step_y, y, x, k, b);
        if y >= from + step_y {
            vstd::arithmetic::div_mod::lemma_mod_sub_multiples_vanish(y - from, step_y);
            assert((y - from - step_y) % step_y == (y - from) % step_y);
        } else if y >= from {
            vstd::arithmetic::div_mod::lemma_small_mod((y - from) as nat, step_y as nat);
        }
    }
}

proof fn lemma_row_bounds(
    pixels: Seq<u8>,
    width: int,
    height: int,
    y: int,
    from: int,
    step: int,
    low: int,
    high: int,
)
    requires
        0 < step,
        0 <= from,
        0 <= y < height,
        pixels.len() == width * height * 3,
        forall|i: int| 0 <= i < pixels.len() ==> low <= #[trigger] pixels[i] <= high,
    ensures
        low * (3 * strided_count(width, from, step)) <= row_sum(pixels, width, y, from, step)
            <= high * (3 * strided_count(width, from, step)),
    decreases distance(width, from),
{
    let n = strided_count(width, from, step);
    if from < width {
        let m = strided_count(width, from + step, step);
        lemma_row_bounds(pixels, width, height, y, from + step, step, low, high);
        lemma_pixel_in_bounds(height, width, y, from);
        assert(low * (3 * n) == 3 * low + low * (3 * m) && high * (3 * n) == 3 * high + high * (3
            * m)) by (nonlinear_arith)
            requires
                n == 1 + m,
        ;
    } else {
        assert(low * (3 * n) == 0 && high * (3 * n) == 0) by (nonlinear_arith)
            requires
                n == 0,
        ;
    }
}

proof fn lemma_grid_bounds(
    pixels: Seq<u8>,
    width: int,
    height: int,
    from: int,
    step_x: int,
    step_y: int,
    low: int,
    high: int,
)
    requires
        0 < step_x,
        0 < step_y,
        0 <= from,
        pixels.len() == width * height * 3,
        forall|i: int| 0 <= i < pixels.len() ==> low <= #[trigger] pixels[i] <= high,
    ensures
        low * grid_count(width, height, from, step_x, step_y) <= grid_sum(
            pixels,
            width,
            height,
            from,
            step_x,
            step_y,
        ) <= high * grid_count(width, height, from, step_x, step_y),
    decreases distance(height, from),
{
    let n = grid_count(width, height, from, step_x, step_y);
    if from < height {
        let m = grid_count(width, height, from + step_y, step_x, step_y);
        let c = 3 * strided_count(width, 0, step_x);
        lemma_row_bounds(pixels, width, height, from, 0, step_x, low, high);
        lemma_grid_bounds(pixels, width, height, from + step_y, step_x, step_y, low, high);
        assert(low * n == low * c + low * m && high * n == high * c + high * m)
            by (nonlinear_arith)
            requires
                n == c + m,
        ;
    } else {
        assert(low * n == 0 && high * n == 0) by (nonlinear_arith)
            requires
                n == 0,
        ;
    }
}

proof fn lemma_grid_count(width: int, height: int, from: int, step_x: int, step_y: int)
    requires
        0 < step_x,
        0 < step_y,
        0 <= from,
    ensures
        grid_count(width, height, from, step_x, step_y) == 3 * strided_count(width, 0, step_x)
            * strided_count(height, from, step_y),
    decreases distance(height, from),
{
    let c = 3 * strided_count(width, 0, step_x);
    let n = strided_count(height, from, step_y);
    if from < height {
        let m = strided_count(height, from + step_y, step_y);
        lemma_grid_count(width, height, from + step_y, step_x, step_y);
        assert(c * n == c + c * m) by (nonlinear_arith)
            requires
                n == 1 + m,
        ;
    } else {
        assert(c * n == 0) by (nonlinear_arith)
            requires
                n == 0,
        ;
    }
}

/// Of a picture, the pixels in the rows that are multiples of `step_y` and the
/// columns that are multiples of `step_x` count for the sum, with all their
/// samples, and no others: another value `b` of sample `k` in row `y`, column
/// `x` changes it by the difference, or not at all. Without light there is
/// nothing to add up.
pub proof fn law_grid_is_added_up(
    pixels: Seq<u8>,
    width: int,
    height: int,
    step_x: int,
    step_y: int,
    y: int,
    x: int,
    k: int,
    b: u8,
)
    requires
        0 < step_x,
        0 < step_y,
        0 <= y < height,
        0 <= x < width,
        0 <= k < 3,
        pixels.len() == width * height * 3,
    ensures
        0 <= (y * width + x) * 3 + k < pixels.len(),
        grid_sum(
            pixels.update((y * width + x) * 3 + k, b),
            width,
            height,
            0,
            step_x,
            step_y,
        ) - grid_sum(pixels, width, height, 0, step_x, step_y) == if y % step_y == 0 && x % step_x
            == 0 {
            b - pixels[(y * width + x) * 3 + k]
        } else {
            0
        },
        grid_sum(Seq::new(pixels.len(), |i: int| 0u8), width, height, 0, step_x, step_y) == 0,
{
    lemma_pixel_in_bounds(height, width, y, x);
    lemma_grid_update(pixels, width, height, 0, step_x, step_y, y, x, k, b);
    lemma_grid_bounds(
        Seq::new(pixels.len(), |i: int| 0u8),
        width,
        height,
        0,
        step_x,
        step_y,
        0,
        0,
    );
}

/// A compressed frame is visible exactly if it is of at least 512 bytes, can be
/// decoded to a picture with pixels, and the samples of the picture are above
/// ten on average, taken from all rows and columns up to 47 of them and some
/// twenty-four of more. How long the compressed data are beyond that does not
/// matter.
pub proof fn law_visible_pictures(frame: CapturedFrame)
    requires
        frame.pixel_format == PixelFormat::Mjpeg,
    ensures
        has_visible_content(frame) <==> {
            &&& frame.contents().len() >= 512
            &&& decoded_rgb8(frame.contents()) matches Ok((width, height, pixels)) && {
                let step_x: int = if width < 48 {
                    1
                } else {
                    width as int / 24
                };
                let step_y: int = if height < 48 {
                    1
                } else {
                    height as int / 24
                };
                let columns = (width + step_x - 1) / step_x;
                let rows = (height + step_y - 1) / step_y;
                &&& width > 0 && height > 0
                &&& grid_sum(pixels, width as int, height as int, 0, step_x, step_y) >= 11 * (3
                    * columns * rows)
            }
        },
{
    if let Ok((width, height, pixels)) = decoded_rgb8(frame.contents()) {
        let (w, h) = (width as int, height as int);
        let step_x = sampling_step(width as nat, 24) as int;
        let step_y = sampling_step(height as nat, 24) as int;
        lemma_strided_count(w, 0, step_x);
        lemma_strided_count(h, 0, step_y);
        lemma_grid_count(w, h, 0, step_x, step_y);
        let columns = (w + step_x - 1) / step_x;
        let rows = (h + step_y - 1) / step_y;
        if w > 0 && h > 0 {
            assert(columns >= 1) by (nonlinear_arith)
                requires
                    columns == (w + step_x - 1) / step_x,
                    w >= 1,
                    step_x >= 1,
            ;
            assert(rows >= 1) by (nonlinear_arith)
                requires
                    rows == (h + step_y - 1) / step_y,
                    h >= 1,
                    step_y >= 1,
            ;
            assert(3 * columns * rows > 0) by (nonlinear_arith)
                requires
                    columns >= 1,
                    rows >= 1,
            ;
        }
        lemma_mean(
            grid_sum(pixels, w, h, 0, step_x, step_y),
            grid_count(w, h, 0, step_x, step_y),
        );
    }
}

/// A compressed frame of at least 512 bytes that holds a picture with pixels is
/// visible if every sample of the picture is above ten, and is not if none is,
/// however long the compressed data are.
pub proof fn law_bright_pictures_are_visible(
    frame: CapturedFrame,
    width: u32,
    height: u32,
    pixels: Seq<u8>,
)
    requires
        frame.pixel_format == PixelFormat::Mjpeg,
        frame.contents().len() >= 512,
        decoded_rgb8(frame.contents()) == Ok::<(u32, u32, Seq<u8>), Seq<char>>(
            (width, height, pixels),
        ),
        width > 0,
        height > 0,
        pixels.len() == width * height * 3,
    ensures
        (forall|i: int| 0 <= i < pixels.len() ==> #[trigger] pixels[i] > 10)
            ==> has_visible_content(frame),
        (forall|i: int| 0 <= i < pixels.len() ==> #[trigger] pixels[i] <= 10)
            ==> !has_visible_content(frame),
{
    let (w, h) = (width as int, height as int);
    let step_x = sampling_step(width as nat, 24) as int;
    let step_y = sampling_step(height as nat, 24) as int;
    lemma_mean(grid_sum(pixels, w, h, 0, step_x, step_y), grid_count(w, h, 0, step_x, step_y));
    lemma_grid_count(w, h, 0, step_x, step_y);
    assert(strided_count(w, 0, step_x) > 0 && strided_count(h, 0, step_y) > 0);
    assert(grid_count(w, h, 0, step_x, step_y) > 0) by {
        reveal_with_fuel(grid_count, 2);
    }
    if forall|i: int| 0 <= i < pixels.len() ==> #[trigger] pixels[i] > 10 {
        lemma_grid_bounds(pixels, w, h, 0, step_x, step_y, 11, 255);
    }
    if forall|i: int| 0 <= i < pixels.len() ==> #[trigger] pixels[i] <= 10 {
        lemma_grid_bounds(pixels, w, h, 0, step_x, step_y, 0, 10);
    }
}

// ---------------------------------------------------------------------------
// Choosing a frame
// ---------------------------------------------------------------------------
/// How far an attempt at a snapshot has come.
#[derive(Debug, Clone, Copy, PartialEq, Eq, Structural)]
pub struct SnapshotProgress {
    /// Frames thrown away so far.
    pub discarded: u32,
    /// Candidates found black so far.
    pub examined: u32,
}

/// What to do after a frame.
#[derive(Debug, Clone, Copy, PartialEq, Eq, Structural)]
pub enum SnapshotStep {
    /// Capture another frame; `warn` says that black frames pile up.
    CaptureNext { warn: bool },
    /// This frame is the snapshot.
    Keep,
    /// All candidates were black.
    GiveUp,
}

impl SnapshotProgress {
    /// Candidates come after the frames that are thrown away, and none of the
    /// limits is passed.
    pub open spec fn wf(self) -> bool {
        &&& self.discarded <= SNAPSHOT_DISCARD_FRAMES
        &&& self.examined <= SNAPSHOT_MAX_BLACK_SKIPS
        &&& self.examined > 0 ==> self.discarded == SNAPSHOT_DISCARD_FRAMES
    }

    /// Frames that may still be captured.
    pub open spec fn remaining(self) -> int {
        SNAPSHOT_DISCARD_FRAMES - self.discarded + SNAPSHOT_MAX_BLACK_SKIPS - self.examined
    }

    /// No frame was captured yet.
    pub open spec fn initial() -> SnapshotProgress {
        SnapshotProgress { discarded: 0, examined: 0 }
    }

    /// The state after one more frame, and what to do.
    pub open spec fn step(self, visible: bool) -> (SnapshotProgress, SnapshotStep) {
        if self.discarded < SNAPSHOT_DISCARD_FRAMES {
            (
                SnapshotProgress { discarded: (self.discarded + 1) as u32, ..self },
                SnapshotStep::CaptureNext { warn: false },
            )
        } else if visible {
            (self, SnapshotStep::Keep)
        } else {
            let next = SnapshotProgress { examined: (self.examined + 1) as u32, ..self };
            if next.examined >= SNAPSHOT_MAX_BLACK_SKIPS {
                (next, SnapshotStep::GiveUp)
            } else {
                (
                    next,
                    SnapshotStep::CaptureNext {
                        warn: self.examined > 0 && self.examined % 8 == 0,
                    },
                )
            }
        }
    }

    /// The start of an attempt.
    pub fn new() -> (r: SnapshotProgress)
        ensures
            r == SnapshotProgress::initial(),
            r.wf(),
    {
        SnapshotProgress { discarded: 0, examined: 0 }
    }

    /// Takes note of a captured frame.
    pub fn on_frame(&mut self, frame: &CapturedFrame) -> (r: SnapshotStep)
        requires
            old(self).wf(),
            old(self).remaining() > 0,
        ensures
            (*final(self), r) == old(self).step(has_visible_content(*frame)),
            final(self).wf(),
            r is CaptureNext ==> final(self).remaining() == old(self).remaining() - 1
                && final(self).remaining() > 0,
    {
        if self.discarded < SNAPSHOT_DISCARD_FRAMES {
            self.discarded = self.discarded + 1;
            return SnapshotStep::CaptureNext { warn: false };
        }
        if snapshot_frame_has_visible_content(frame) {
            return SnapshotStep::Keep;
        }
        let attempt: u32 = self.examined;
        self.examined = attempt + 1;
        if self.examined >= SNAPSHOT_MAX_BLACK_SKIPS {
            SnapshotStep::GiveUp
        } else {
            SnapshotStep::CaptureNext { warn: attempt > 0 && attempt % 8 == 0 }
        }
    }
}

/// Which of the frames from `i` on is kept, by how visible they are.
pub open spec fn kept_frame(progress: SnapshotProgress, visible: Seq<bool>, i: int) -> Option<int>
    decreases visible.len() - i,
{
    if i < 0 || i >= visible.len() {
        None
    } else {
        let (next, step) = progress.step(visible[i]);
        match step {
            SnapshotStep::Keep => Some(i),
            SnapshotStep::GiveUp => None,
            SnapshotStep::CaptureNext { .. } => kept_frame(next, visible, i + 1),
        }
    }
}

/// The snapshot is the first visible frame after the two that are thrown away,
/// if it is among the twenty-four that follow them; else there is none.
pub proof fn law_first_visible_frame_is_kept(visible: Seq<bool>)
    ensures
        match kept_frame(SnapshotProgress::initial(), visible, 0) {
            Some(k) => {
                &&& 2 <= k < 26
                &&& k < visible.len()
                &&& visible[k]
                &&& forall|j: int| 2 <= j < k ==> !visible[j]
            },
            None => forall|j: int| 2 <= j < 26 && j < visible.len() ==> !visible[j],
        },
{
    reveal_with_fuel(kept_frame, 3);
    if visible.len() > 2 {
        lemma_kept_from(SnapshotProgress { discarded: 2, examined: 0 }, visible, 2);
    }
}

proof fn lemma_kept_from(p: SnapshotProgress, visible: Seq<bool>, i: int)
    requires
        p.discarded == SNAPSHOT_DISCARD_FRAMES,
        p.examined < SNAPSHOT_MAX_BLACK_SKIPS,
        i == SNAPSHOT_DISCARD_FRAMES + p.examined,
    ensures
        match kept_frame(p, visible, i) {
            Some(k) => {
                &&& i <= k < SNAPSHOT_DISCARD_FRAMES + SNAPSHOT_MAX_BLACK_SKIPS
                &&& k < visible.len()
                &&& visible[k]
                &&& forall|j: int| i <= j < k ==> !visible[j]
            },
            None => forall|j: int|
                i <= j < SNAPSHOT_DISCARD_FRAMES + SNAPSHOT_MAX_BLACK_SKIPS && j < visible.len()
                    ==> !visible[j],
        },
    decreases visible.len() - i,
{
    if i < visible.len() && !visible[i] && p.examined + 1 < SNAPSHOT_MAX_BLACK_SKIPS {
        lemma_kept_from(p.step(false).0, visible, i + 1);
    }
}

/// The text that reports an attempt without a visible frame.
pub open spec fn black_frames_text() -> Seq<char> {
    "snapshot: 连续 "@ + decimal(SNAPSHOT_MAX_BLACK_SKIPS as nat)
        + " 帧画面仍接近全黑（可稍等再试，或检查摄像头曝光/光照）"@
}

/// The text that reports an attempt without a visible frame.
pub fn black_frames_message() -> (r: String)
    ensures
        r@ == black_frames_text(),
{
    let mut out: String = "snapshot: 连续 ".to_owned();
    push_decimal(&mut out, SNAPSHOT_MAX_BLACK_SKIPS as u128);
    out.append(" 帧画面仍接近全黑（可稍等再试，或检查摄像头曝光/光照）");
    out
}

/// Why an attempt at a snapshot failed.
#[derive(Debug, Clone, PartialEq, Eq)]
pub enum SnapshotError {
    /// No frame could be captured.
    Capture(CaptureError),
    /// All candidates were black.
    TooDark,
    /// The frame could not be turned into a JPEG file.
    Build(BuildError),
    /// The frame is not one that can be converted: it is not compressed and has
    /// neither a width nor a stride, or it is grey or YUYV and complete, and its
    /// image would not fit in memory.
    Unconvertible,
}

/// The text that reports a failed attempt.
pub open spec fn snapshot_error_text(e: SnapshotError) -> Seq<char> {
    match e {
        SnapshotError::Capture(error) => capture_error_text(error),
        SnapshotError::TooDark => black_frames_text(),
        SnapshotError::Build(error) => build_error_text(error),
        SnapshotError::Unconvertible => "frame cannot be converted"@,
    }
}

impl SnapshotError {
    /// The text that reports this failure.
    pub fn message(&self) -> (r: String)
        ensures
            r@ == snapshot_error_text(*self),
    {
        match self {
            SnapshotError::Capture(error) => error.message(),
            SnapshotError::TooDark => black_frames_message(),
            SnapshotError::Build(error) => error.message(),
            SnapshotError::Unconvertible => "frame cannot be converted".to_owned(),
        }
    }
}

/// The JPEG file of a frame, or the text of the error.
pub open spec fn snapshot_file(frame: CapturedFrame, quality: u8) -> Result<Seq<u8>, Seq<char>> {
    match rgb_of_frame(frame) {
        Ok((height, width, data)) => match jpeg_file(data, width as u32, height as u32, quality) {
            Ok(file) => Ok(file),
            Err(reason) => Err("failed to encode jpeg: "@ + reason),
        },
        Err(e) => Err(frame_error_text(e)),
    }
}

/// Encodes the frame that was chosen as a JPEG file.
pub fn snapshot_jpeg(frame: &CapturedFrame, quality: u8) -> (r: Result<Vec<u8>, SnapshotError>)
    ensures
        match r {
            Ok(file) => {
                &&& is_convertible(*frame)
                &&& snapshot_file(*frame, quality) == Ok::<Seq<u8>, Seq<char>>(file@)
                &&& is_delimited_jpeg(file@)
            },
            Err(SnapshotError::Build(e)) => {
                &&& is_convertible(*frame)
                &&& snapshot_file(*frame, quality) == Err::<Seq<u8>, Seq<char>>(
                    build_error_text(e),
                )
            },
            Err(SnapshotError::Unconvertible) => !is_convertible(*frame),
            Err(_) => false,
        },
{
    if !frame_is_convertible(frame) {
        return Err(SnapshotError::Unconvertible);
    }
    match frame_to_rgb_array(frame) {
        Ok(rgb) => match encode_rgb_jpeg(&rgb, quality) {
            Ok(file) => Ok(file),
            Err(e) => Err(SnapshotError::Build(e)),
        },
        Err(e) => Err(SnapshotError::Build(BuildError::Frame(e))),
    }
}

/// Of the captured frames that may be a snapshot, none is visible.
pub open spec fn all_black(frames: Seq<CapturedFrame>) -> bool {
    forall|j: int|
        SNAPSHOT_DISCARD_FRAMES <= j < frames.len() ==> !has_visible_content(#[trigger] frames[j])
}

/// The last of the captured frames is the first visible one that may be a
/// snapshot.
pub open spec fn ends_with_snapshot(frames: Seq<CapturedFrame>) -> bool {
    &&& SNAPSHOT_DISCARD_FRAMES < frames.len() <= SNAPSHOT_DISCARD_FRAMES + SNAPSHOT_MAX_BLACK_SKIPS
    &&& all_black(frames.drop_last())
    &&& has_visible_content(frames.last())
}

/// The result of an attempt in which these frames were captured and nothing
/// after them.
pub open spec fn is_snapshot_of(
    frames: Seq<CapturedFrame>,
    quality: u8,
    r: Result<Vec<u8>, SnapshotError>,
) -> bool {
    match r {
        Ok(file) => {
            &&& ends_with_snapshot(frames)
            &&& is_convertible(frames.last())
            &&& snapshot_file(frames.last(), quality) == Ok::<Seq<u8>, Seq<char>>(file@)
            &&& is_delimited_jpeg(file@)
        },
        Err(SnapshotError::Build(e)) => {
            &&& ends_with_snapshot(frames)
            &&& is_convertible(frames.last())
            &&& snapshot_file(frames.last(), quality) == Err::<Seq<u8>, Seq<char>>(
                build_error_text(e),
            )
        },
        Err(SnapshotError::Unconvertible) => {
            &&& ends_with_snapshot(frames)
            &&& !is_convertible(frames.last())
        },
        Err(SnapshotError::TooDark) => {
            &&& all_black(frames)
            &&& frames.len() == SNAPSHOT_DISCARD_FRAMES + SNAPSHOT_MAX_BLACK_SKIPS
        },
        Err(SnapshotError::Capture(_)) => false,
    }
}

/// The `i`-th of the frames is there.
pub open spec fn has_frame(frames: Seq<CapturedFrame>, i: int) -> bool {
    0 <= i < frames.len()
}

/// The line that warns while black frames are skipped.
pub open spec fn skip_text() -> Seq<char> {
    "snapshot: 跳过疑似全黑帧，继续抓取..."@
}

fn skip_warning() -> (r: String)
    ensures
        r@ == skip_text(),
{
    "snapshot: 跳过疑似全黑帧，继续抓取...".to_owned()
}

/// How many of the captured frames that may be a snapshot are black, where none
/// but the last of them is visible.
pub open spec fn black_candidates(frames: Seq<CapturedFrame>) -> int {
    if frames.len() <= SNAPSHOT_DISCARD_FRAMES {
        0
    } else if has_visible_content(frames.last()) {
        frames.len() - SNAPSHOT_DISCARD_FRAMES - 1
    } else {
        frames.len() - SNAPSHOT_DISCARD_FRAMES
    }
}

/// The lines that warn of so many black frames: one for every eight that follow
/// the first.
pub open spec fn skip_warnings(black: int) -> Seq<Seq<char>> {
    Seq::new(
        if black > 0 {
            ((black - 1) / 8) as nat
        } else {
            0
        },
        |i: int| skip_text(),
    )
}

/// One attempt at a snapshot: captures frames until one may be kept, and
/// encodes it as a JPEG file. A frame that does not come ends the attempt. Which
/// frames come, the backend decides; each is waited for in the state that the
/// one before has left, and came since then. The lines warn of black frames.
pub fn take_snapshot<B: CaptureBackend>(backend: &mut B, quality: u8) -> (r: (
    Result<Vec<u8>, SnapshotError>,
    Vec<String>,
))
    ensures
        exists|states: Seq<B>, frames: Seq<CapturedFrame>|
            #![trigger frames.len(), states.len()]
            {
                &&& states.len() == frames.len() + 1
                &&& states[0] == *old(backend)
                &&& forall|i: int|
                    #![trigger has_frame(frames, i)]
                    has_frame(frames, i) ==> states[i + 1].came_since(&states[i], frames[i])
                        && exists|source: &mut B|
                        *source == states[i] && *final(source) == states[i + 1] && #[trigger] may_yield_fresh(
                            source,
                            Ok::<CapturedFrame, CaptureError>(frames[i]),
                        )
                &&& texts(r.1@) == skip_warnings(black_candidates(frames))
                &&& match r.0 {
                    Err(SnapshotError::Capture(e)) => {
                        &&& frames.len() < SNAPSHOT_DISCARD_FRAMES + SNAPSHOT_MAX_BLACK_SKIPS
                        &&& all_black(frames)
                        &&& exists|source: &mut B|
                            *source == states.last() && *final(source) == *final(backend) && #[trigger] may_yield_fresh(
                                source,
                                Err::<CapturedFrame, CaptureError>(e),
                            )
                    },
                    _ => is_snapshot_of(frames, quality, r.0) && states.last() == *final(backend),
                }
            },
{
    let mut progress: SnapshotProgress = SnapshotProgress::new();
    let mut lines: Vec<String> = Vec::new();
    assert(texts(lines@) =~= skip_warnings(0));
    let ghost mut frames: Seq<CapturedFrame> = Seq::empty();
    let ghost mut states: Seq<B> = seq![*backend];
    loop
        invariant
            progress.wf(),
            progress.remaining() > 0,
            frames.len() == progress.discarded + progress.examined,
            all_black(frames),
            texts(lines@) == skip_warnings(progress.examined as int),
            states.len() == frames.len() + 1,
            states[0] == *old(backend),
            states.last() == *backend,
            forall|i: int|
                #![trigger has_frame(frames, i)]
                has_frame(frames, i) ==> states[i + 1].came_since(&states[i], frames[i])
                    && exists|source: &mut B|
                    *source == states[i] && *final(source) == states[i + 1] && #[trigger] may_yield_fresh(
                        source,
                        Ok::<CapturedFrame, CaptureError>(frames[i]),
                    ),
        decreases progress.remaining(),
    {
        let ghost state: B = *backend;
        let got: Result<CapturedFrame, CaptureError> = backend.capture_fresh_frame();
        proof {
            let source: &mut B = choose|source: &mut B|
                *source == state && *final(source) == *backend && #[trigger] call_ensures(
                    B::capture_fresh_frame,
                    (source,),
                    got,
                );
            assert(may_yield_fresh(source, got));
        }
        let frame: CapturedFrame = match got {
            Ok(frame) => frame,
            Err(e) => {
                assert(got == Err::<CapturedFrame, CaptureError>(e));
                return (Err(SnapshotError::Capture(e)), lines);
            },
        };
        assert(got == Ok::<CapturedFrame, CaptureError>(frame));
        let ghost before: Seq<CapturedFrame> = frames;
        proof {
            let earlier: Seq<B> = states;
            frames = frames.push(frame);
            states = states.push(*backend);
            assert(frames.drop_last() =~= before);
            assert forall|j: int|
                SNAPSHOT_DISCARD_FRAMES <= j < before.len() implies !has_visible_content(
                #[trigger] frames[j],
            ) by {
                assert(frames[j] == before[j]);
            }
            assert forall|i: int|
                #![trigger has_frame(frames, i)]
                has_frame(frames, i) implies states[i + 1].came_since(&states[i], frames[i])
                    && exists|source: &mut B|
                    *source == states[i] && *final(source) == states[i + 1] && #[trigger] may_yield_fresh(
                        source,
                        Ok::<CapturedFrame, CaptureError>(frames[i]),
                    ) by {
                if i < before.len() {
                    assert(has_frame(before, i));
                    assert(frames[i] == before[i]);
                    assert(states[i] == earlier[i] && states[i + 1] == earlier[i + 1]);
                } else {
                    assert(states[i] == earlier.last());
                    assert(frames[i] == frame && states[i + 1] == *backend);
                }
            }
        }
        match progress.on_frame(&frame) {
            SnapshotStep::CaptureNext { warn } => {
                if warn {
                    let ghost told: Seq<String> = lines@;
                    lines.push(skip_warning());
                    assert(texts(lines@) =~= texts(told).push(skip_text()));
                }
                assert(texts(lines@) =~= skip_warnings(progress.examined as int));
            },
            SnapshotStep::Keep => {
                assert(ends_with_snapshot(frames));
                assert(states.len() == frames.len() + 1);
                return (snapshot_jpeg(&frame, quality), lines);
            },
            SnapshotStep::GiveUp => {
                assert(all_black(frames));
                assert(states.len() == frames.len() + 1);
                return (Err(SnapshotError::TooDark), lines);
            },
        }
    }
}

/// A snapshot is the JPEG file, at the quality asked for, of the first visible
/// frame after the first two, and of no later one than the twenty-sixth; nothing
/// is captured after it. There is no snapshot of frames that are all black, and
/// so many of them are waited for.
pub proof fn law_snapshot_is_the_first_visible_frame(
    frames: Seq<CapturedFrame>,
    quality: u8,
    r: Result<Vec<u8>, SnapshotError>,
)
    requires
        is_snapshot_of(frames, quality, r),
    ensures
        3 <= frames.len() <= 26,
        forall|j: int| 2 <= j < frames.len() - 1 ==> !has_visible_content(#[trigger] frames[j]),
        !has_visible_content(frames.last()) <==> r == Err::<Vec<u8>, SnapshotError>(
            SnapshotError::TooDark,
        ),
        !has_visible_content(frames.last()) ==> frames.len() == 26,
        r matches Ok(file) ==> rgb_of_frame(frames.last()) matches Ok((height, width, rgb))
            && jpeg_file(rgb, width as u32, height as u32, quality) == Ok::<Seq<u8>, Seq<char>>(
            file@,
        ),
        has_visible_content(frames.last()) && is_convertible(frames.last()) && (rgb_of_frame(
            frames.last(),
        ) matches Ok((height, width, rgb)) && jpeg_file(
            rgb,
            width as u32,
            height as u32,
            quality,
        ) is Ok) ==> r is Ok,
{
    assert forall|j: int| 2 <= j < frames.len() - 1 implies !has_visible_content(
        #[trigger] frames[j],
    ) by {
        assert(frames.drop_last()[j] == frames[j]);
    }
}

/// While black frames are skipped, a warning comes with the ninth and with the
/// seventeenth of them.
pub proof fn law_black_frames_are_warned_of(black: int)
    requires
        0 <= black <= 24,
    ensures
        skip_warnings(black).len() == if black < 9 {
            0int
        } else if black < 17 {
            1int
        } else {
            2int
        },
        forall|i: int|
            0 <= i < skip_warnings(black).len() ==> #[trigger] skip_warnings(black)[i]
                == "snapshot: 跳过疑似全黑帧，继续抓取..."@,
{
}

/// A frame is kept, skipped or the last one by itself and by how many came
/// before it: the first two are thrown away, a visible one after them is kept,
/// and the twenty-fourth black one is the last.
pub proof fn law_frames_are_skipped(progress: SnapshotProgress, visible: bool)
    requires
        progress.wf(),
        progress.remaining() > 0,
    ensures
        ({
            let (next, step) = progress.step(visible);
            if progress.discarded < 2 {
                &&& step == SnapshotStep::CaptureNext { warn: false }
                &&& next.discarded == progress.discarded + 1
                &&& next.examined == progress.examined
            } else if visible {
                step == SnapshotStep::Keep && next == progress
            } else {
                &&& next.discarded == progress.discarded
                &&& next.examined == progress.examined + 1
                &&& step == (if progress.examined == 23 {
                    SnapshotStep::GiveUp
                } else {
                    SnapshotStep::CaptureNext {
                        warn: progress.examined == 8 || progress.examined == 16,
                    }
                })
            }
        }),
{
}

// ---------------------------------------------------------------------------
// Repeating a failed attempt
// ---------------------------------------------------------------------------
/// The failure does not say that the camera is gone.
pub open spec fn is_retryable(message: Seq<char>) -> bool {
    !has_substring(message, "摄像头已断开连接"@) && !has_substring(
        message,
        "设备可能已被拔出"@,
    )
}

/// Whether an attempt that failed with this message is worth repeating.
pub fn should_retry_snapshot(message: &str) -> (r: bool)
    ensures
        r == is_retryable(message@),
{
    !contains(message, "摄像头已断开连接") && !contains(message, "设备可能已被拔出")
}

/// What to do after a failed attempt.
#[derive(Debug, Clone, Copy, PartialEq, Eq, Structural)]
pub enum RetryDecision {
    GiveUp,
    RetryAfter { delay_ms: u64 },
}

/// The decision after attempt number `attempt`, counted from zero.
pub open spec fn retry_decision(attempt: int, retryable: bool) -> RetryDecision {
    if retryable && attempt + 1 < SNAPSHOT_MAX_ATTEMPTS {
        RetryDecision::RetryAfter { delay_ms: (SNAPSHOT_RETRY_BASE_MS * (attempt + 1)) as u64 }
    } else {
        RetryDecision::GiveUp
    }
}

/// Decides whether attempt number `attempt`, counted from zero, is followed by
/// another one.
pub fn after_failed_attempt(attempt: u32, message: &str) -> (r: RetryDecision)
    ensures
        r == retry_decision(attempt as int, is_retryable(message@)),
{
    if !should_retry_snapshot(message) {
        return RetryDecision::GiveUp;
    }
    if attempt >= SNAPSHOT_MAX_ATTEMPTS - 1 {
        return RetryDecision::GiveUp;
    }
    RetryDecision::RetryAfter { delay_ms: SNAPSHOT_RETRY_BASE_MS * (attempt as u64 + 1) }
}

/// Milliseconds spent waiting when attempts from `attempt` on all fail with
/// messages that allow a repetition.
pub open spec fn total_wait(attempt: int) -> int
    decreases SNAPSHOT_MAX_ATTEMPTS - attempt,
{
    if attempt < 0 {
        0
    } else {
        match retry_decision(attempt, true) {
            RetryDecision::GiveUp => 0,
            RetryDecision::RetryAfter { delay_ms } => delay_ms + total_wait(attempt + 1),
        }
    }
}

/// Repetition is bounded: no attempt follows the fifth one, a disconnected
/// camera is not tried again, and all waits together take two seconds.
pub proof fn law_retries_are_bounded(attempt: int)
    requires
        0 <= attempt,
    ensures
        retry_decision(attempt, false) == RetryDecision::GiveUp,
        retry_decision(attempt, true) is RetryAfter <==> attempt < SNAPSHOT_MAX_ATTEMPTS - 1,
        total_wait(0) == 2000,
{
    reveal_with_fuel(total_wait, 6);
}

/// A failed attempt is followed by another one, up to the fifth, unless its
/// message says that the camera is gone or was pulled out. The waits grow by a
/// fifth of a second.
pub proof fn law_attempts_are_repeated(attempt: u32, message: &str, r: RetryDecision)
    requires
        call_ensures(after_failed_attempt, (attempt, message), r),
    ensures
        ({
            let gone = has_substring(message@, "摄像头已断开连接"@) || has_substring(
                message@,
                "设备可能已被拔出"@,
            );
            if gone || attempt >= 4 {
                r == RetryDecision::GiveUp
            } else {
                r matches RetryDecision::RetryAfter { delay_ms } && delay_ms == 200 * (attempt + 1)
            }
        }),
{
}

/// `snapshot_frame_has_visible_content` tells whether a frame is visible, and
/// `snapshot_jpeg` returns the JPEG file of a frame at the quality asked for.
pub proof fn law_frames_are_seen_and_encoded(
    frame: &CapturedFrame,
    quality: u8,
    visible: bool,
    r: Result<Vec<u8>, SnapshotError>,
)
    requires
        call_ensures(snapshot_frame_has_visible_content, (frame,), visible),
        call_ensures(snapshot_jpeg, (frame, quality), r),
    ensures
        visible == has_visible_content(*frame),
        r matches Ok(file) ==> rgb_of_frame(*frame) matches Ok((height, width, rgb)) && jpeg_file(
            rgb,
            width as u32,
            height as u32,
            quality,
        ) == Ok::<Seq<u8>, Seq<char>>(file@),
        is_convertible(*frame) && (rgb_of_frame(*frame) matches Ok((height, width, rgb))
            && jpeg_file(rgb, width as u32, height as u32, quality) is Ok) ==> r is Ok,
{
}

/// What an attempt at a snapshot yields is the JPEG file of a visible frame at the
/// quality asked for. At most two lines warn of black frames.
pub proof fn law_snapshots_show_something<B: CaptureBackend>(
    quality: u8,
    r: (Result<Vec<u8>, SnapshotError>, Vec<String>),
)
    ensures
        forall|backend: &mut B| #[trigger]
            call_ensures(take_snapshot::<B>, (backend, quality), r) ==> {
                &&& r.0 matches Ok(file) ==> exists|frame: CapturedFrame| #[trigger]
                    has_visible_content(frame) && (rgb_of_frame(frame) matches Ok(
                        (height, width, rgb),
                    ) && jpeg_file(rgb, width as u32, height as u32, quality) == Ok::<
                        Seq<u8>,
                        Seq<char>,
                    >(file@))
                &&& r.1@.len() <= 2
                &&& forall|i: int|
                    0 <= i < r.1@.len() ==> (#[trigger] r.1@[i])@
                        == "snapshot: 跳过疑似全黑帧，继续抓取..."@
            },
{
    assert forall|backend: &mut B| #[trigger]
        call_ensures(take_snapshot::<B>, (backend, quality), r) implies {
        &&& r.0 matches Ok(file) ==> exists|frame: CapturedFrame| #[trigger]
            has_visible_content(frame) && (rgb_of_frame(frame) matches Ok((height, width, rgb))
                && jpeg_file(rgb, width as u32, height as u32, quality) == Ok::<
                Seq<u8>,
                Seq<char>,
            >(file@))
        &&& r.1@.len() <= 2
        &&& forall|i: int|
            0 <= i < r.1@.len() ==> (#[trigger] r.1@[i])@
                == "snapshot: 跳过疑似全黑帧，继续抓取..."@
    } by {
        let (states, frames): (Seq<B>, Seq<CapturedFrame>) = choose|
            states: Seq<B>,
            frames: Seq<CapturedFrame>,
        |
            #![trigger frames.len(), states.len()]
            {
                &&& texts(r.1@) == skip_warnings(black_candidates(frames))
                &&& r.0 matches Err(SnapshotError::Capture(_)) ==> frames.len() < 26
                &&& !(r.0 matches Err(SnapshotError::Capture(_))) ==> is_snapshot_of(
                    frames,
                    quality,
                    r.0,
                )
            };
        assert(texts(r.1@).len() == r.1@.len());
        assert forall|i: int| 0 <= i < r.1@.len() implies (#[trigger] r.1@[i])@
            == "snapshot: 跳过疑似全黑帧，继续抓取..."@ by {
            assert(texts(r.1@)[i] == r.1@[i]@);
        }
        if r.0 is Ok {
            law_snapshot_is_the_first_visible_frame(frames, quality, r.0);
            assert(has_visible_content(frames.last()));
        }
    }
}

/// `on_frame` counts a frame, and decides by whether it is visible.
pub proof fn law_frames_are_counted(frame: &CapturedFrame, r: SnapshotStep)
    ensures
        forall|progress: &mut SnapshotProgress| #[trigger]
            call_ensures(SnapshotProgress::on_frame, (progress, frame), r) ==> (
            *final(progress),
            r,
        ) == progress.step(has_visible_content(*frame)),
{
}

/// An attempt starts with no frame captured.
pub proof fn law_attempts_start_from_nothing(r: SnapshotProgress)
    requires
        call_ensures(SnapshotProgress::new, (), r),
    ensures
        r.discarded == 0 && r.examined == 0,
{
}

/// The text of a failed attempt is that of what failed, by which it is decided
/// whether another follows: none does after a device is gone.
pub proof fn law_texts_of_failed_attempts(e: CaptureError, b: BuildError)
    ensures
        snapshot_error_text(SnapshotError::Capture(e)) == capture_error_text(e),
        snapshot_error_text(SnapshotError::Build(b)) == build_error_text(b),
        snapshot_error_text(SnapshotError::TooDark) == "snapshot: 连续 "@ + decimal(24)
            + " 帧画面仍接近全黑（可稍等再试，或检查摄像头曝光/光照）"@,
{
}

} // verus!
