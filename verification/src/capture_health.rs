//! The capture loop: what becomes of every buffer, timeout and error that the
//! stream yields, and which irregularities are reported how often.
//!
//! Instants are nanoseconds on one monotonic clock.

use bytes::Bytes;
use vstd::prelude::*;
use vstd::slice::slice_subrange;

use crate::backend::{CapturedFrame, PixelFormat, YuvColorimetry};
use crate::buffer::copy_of;
use crate::text::{contains, has_substring, has_word, law_words_are_found, lowercase};

verus! {

/// The longest wait for one buffer; short enough to notice a stop request.
pub const CAPTURE_POLL_TIMEOUT_NS: u128 = 2_000_000_000;

/// Warnings of one kind are at least this far apart.
pub const HEALTH_WARNING_INTERVAL_NS: u128 = 5_000_000_000;

/// The largest believable number of frames missing at once; a larger jump is
/// a driver that restarted its count.
pub const MAX_PLAUSIBLE_SEQUENCE_GAP: u32 = 1_000_000;

/// `V4L2_BUF_FLAG_ERROR`: the buffer's content is damaged.
pub const BUFFER_FLAG_ERROR: u32 = 0x40;

/// A damaged frame is reported when it is the first, and then every so often.
pub const CORRUPTED_LOG_EVERY: u64 = 100;

// ---------------------------------------------------------------------------
// Instants, sequence numbers, flags
// ---------------------------------------------------------------------------
/// The time stamp of a frame: nanoseconds since the Unix epoch, if the clock
/// stands after the epoch and the number fits.
pub fn capture_timestamp_ns(elapsed_ns: Option<u128>) -> (r: Option<i64>)
    ensures
        match r {
            Some(t) => elapsed_ns is Some && t == elapsed_ns->0,
            None => elapsed_ns is None || elapsed_ns->0 > i64::MAX,
        },
{
    match elapsed_ns {
        Some(ns) => if ns <= i64::MAX as u128 {
            Some(ns as i64)
        } else {
            None
        },
        None => None,
    }
}

/// The time from `earlier` to `now`; zero if `now` comes first.
pub open spec fn elapsed(earlier: u128, now: u128) -> int {
    if now >= earlier {
        now - earlier
    } else {
        0
    }
}

fn elapsed_ns(earlier: u128, now: u128) -> (r: u128)
    ensures
        r == elapsed(earlier, now),
{
    if now >= earlier {
        now - earlier
    } else {
        0
    }
}

/// Whether a buffer carries the error flag.
pub fn buffer_is_corrupted(flags: u32) -> (r: bool)
    ensures
        r == (flags & BUFFER_FLAG_ERROR == BUFFER_FLAG_ERROR),
{
    flags & BUFFER_FLAG_ERROR == BUFFER_FLAG_ERROR
}

/// How far a 32-bit counter moved from `previous` to `current`, wrap-around
/// included.
pub open spec fn advance(previous: u32, current: u32) -> int {
    if current >= previous {
        current - previous
    } else {
        current - previous + 0x1_0000_0000
    }
}

/// The number of frames missing between two sequence numbers.
pub open spec fn missing_frames(previous: u32, current: u32) -> u32 {
    let n = advance(previous, current);
    if 1 < n <= MAX_PLAUSIBLE_SEQUENCE_GAP + 1 {
        (n - 1) as u32
    } else {
        0
    }
}

/// The number of frames missing between two sequence numbers: neither a count
/// that wraps around nor one that starts over is a gap.
pub fn sequence_gap(previous: u32, current: u32) -> (r: u32)
    ensures
        r == missing_frames(previous, current),
{
    let n: u32 = current.wrapping_sub(previous);
    if n > 1 && n <= MAX_PLAUSIBLE_SEQUENCE_GAP + 1 {
        n - 1
    } else {
        0
    }
}

/// Skipping `k` frames is seen as a gap of `k`, wherever the counter stands
/// and even if it wraps around; consecutive numbers and repeated ones are no
/// gap, and a jump beyond what is believable is none either.
pub proof fn law_gap_counts_skipped_frames(previous: u32, current: u32, k: int)
    requires
        0 <= k,
        current == (previous + k + 1) % 0x1_0000_0000,
        k < 0xffff_ffff,
    ensures
        missing_frames(previous, current) == if k <= MAX_PLAUSIBLE_SEQUENCE_GAP {
            k
        } else {
            0
        },
        missing_frames(previous, previous) == 0,
{
}

// ---------------------------------------------------------------------------
// Warnings
// ---------------------------------------------------------------------------
/// A warning is due: none was given yet, or the last one is long enough ago.
pub open spec fn warning_due(last: Option<u128>, now: u128) -> bool {
    match last {
        Some(at) => elapsed(at, now) >= HEALTH_WARNING_INTERVAL_NS,
        None => true,
    }
}

/// Whether a warning is due; takes note of the instant if it is.
pub fn should_log_health_warning(last_warning_at: &mut Option<u128>, now: u128) -> (r: bool)
    ensures
        r == warning_due(*old(last_warning_at), now),
        *final(last_warning_at) == (if r {
            Some(now)
        } else {
            *old(last_warning_at)
        }),
{
    if let Some(last) = *last_warning_at {
        if elapsed_ns(last, now) < HEALTH_WARNING_INTERVAL_NS {
            return false;
        }
    }
    *last_warning_at = Some(now);
    true
}

/// After a warning no other is due until the interval has passed, and then one
/// is.
pub proof fn law_warnings_are_spaced(at: u128, now: u128)
    requires
        at <= now,
    ensures
        warning_due(Some(at), now) <==> now - at >= HEALTH_WARNING_INTERVAL_NS,
{
}

// ---------------------------------------------------------------------------
// The loop's state
// ---------------------------------------------------------------------------
/// The format that capturing settled on.
#[derive(Debug, Clone, Copy, PartialEq, Eq, Structural)]
pub struct NegotiatedFormat {
    pub width: u32,
    pub height: u32,
    pub stride: usize,
    pub pixel_format: PixelFormat,
    pub yuv_colorimetry: Option<YuvColorimetry>,
    /// Frames further apart than this are reported as a stall.
    pub stall_warning_threshold_ns: u128,
}

/// What the driver says of a buffer.
#[derive(Debug, Clone, Copy, PartialEq, Eq, Structural)]
pub struct BufferMeta {
    pub sequence: u32,
    pub bytesused: u32,
    pub flags: u32,
}

/// Counters of a running capture.
#[derive(Debug, Clone, Copy, PartialEq, Eq, Structural)]
pub struct CaptureHealth {
    pub corrupted_frames: u64,
    pub last_sequence: Option<u32>,
    pub sequence_gap_events: u64,
    pub sequence_gap_frames: u64,
    pub last_sequence_warning_at: Option<u128>,
    pub capture_timeouts: u64,
    pub consecutive_capture_timeouts: u64,
    pub last_timeout_warning_at: Option<u128>,
    pub last_frame_received_at: Option<u128>,
    pub capture_stalls: u64,
    pub last_stall_warning_at: Option<u128>,
}

/// A wait that ended without a buffer.
#[derive(Debug, Clone, Copy, PartialEq, Eq, Structural)]
pub struct TimeoutWarning {
    pub consecutive: u64,
    pub total: u64,
}

/// What to do after a wait that ended without a buffer.
#[derive(Debug, Clone, Copy, PartialEq, Eq, Structural)]
pub enum TimeoutAction {
    /// Leave the loop.
    Exit,
    /// Stop streaming, so that the next wait does not queue a buffer twice.
    ResetStream { warning: Option<TimeoutWarning> },
}

/// Frames that came late.
#[derive(Debug, Clone, Copy, PartialEq, Eq, Structural)]
pub struct StallWarning {
    pub sequence: u32,
    pub interval_ns: u128,
    pub total: u64,
}

/// Frames that never came.
#[derive(Debug, Clone, Copy, PartialEq, Eq, Structural)]
pub struct GapWarning {
    pub previous_sequence: u32,
    pub sequence: u32,
    pub missing: u32,
    pub total_events: u64,
    pub total_frames: u64,
}

/// What becomes of a buffer.
#[derive(Debug, Clone, Copy, PartialEq, Eq, Structural)]
pub enum BufferOutcome {
    /// Dropped: the driver marked it as damaged.
    Corrupted { log: bool, total: u64 },
    /// Dropped: its length is not that of any content.
    InvalidSize { bytes_used: usize },
    /// Its first `len` bytes are the next frame.
    Deliver { len: usize },
}

/// What a buffer gave rise to.
#[derive(Debug, Clone, Copy, PartialEq, Eq, Structural)]
pub struct BufferReport {
    pub stall: Option<StallWarning>,
    pub gap: Option<GapWarning>,
    pub outcome: BufferOutcome,
}

/// One more, up to the largest number.
pub open spec fn plus(n: u64, k: int) -> u64 {
    if n + k > u64::MAX {
        u64::MAX
    } else {
        (n + k) as u64
    }
}

impl CaptureHealth {
    /// The longest run of timeouts is among all timeouts, and every gap misses
    /// at least one frame.
    pub open spec fn wf(self) -> bool {
        &&& self.consecutive_capture_timeouts <= self.capture_timeouts
        &&& self.sequence_gap_events <= self.sequence_gap_frames
    }

    /// Nothing was captured yet.
    pub open spec fn initial() -> CaptureHealth {
        CaptureHealth {
            corrupted_frames: 0,
            last_sequence: None,
            sequence_gap_events: 0,
            sequence_gap_frames: 0,
            last_sequence_warning_at: None,
            capture_timeouts: 0,
            consecutive_capture_timeouts: 0,
            last_timeout_warning_at: None,
            last_frame_received_at: None,
            capture_stalls: 0,
            last_stall_warning_at: None,
        }
    }

    /// Whether a timeout at this instant is reported.
    pub open spec fn timeout_is_reported(self, now: u128) -> bool {
        warning_due(self.last_timeout_warning_at, now)
    }

    /// The state after a timeout.
    pub open spec fn after_timeout(self, now: u128) -> CaptureHealth {
        CaptureHealth {
            capture_timeouts: plus(self.capture_timeouts, 1),
            consecutive_capture_timeouts: plus(self.consecutive_capture_timeouts, 1),
            last_timeout_warning_at: if self.timeout_is_reported(now) {
                Some(now)
            } else {
                self.last_timeout_warning_at
            },
            last_frame_received_at: None,
            last_sequence: None,
            ..self
        }
    }

    /// The time since the previous frame exceeds the threshold.
    pub open spec fn stalled(self, threshold_ns: u128, now: u128) -> bool {
        match self.last_frame_received_at {
            Some(at) => elapsed(at, now) > threshold_ns,
            None => false,
        }
    }

    /// The frames missing before a sequence number.
    pub open spec fn missing_before(self, sequence: u32) -> u32 {
        match self.last_sequence {
            Some(previous) => missing_frames(previous, sequence),
            None => 0,
        }
    }

    /// The state after a buffer.
    pub open spec fn after_buffer(
        self,
        threshold_ns: u128,
        meta: BufferMeta,
        now: u128,
    ) -> CaptureHealth {
        let stalled = self.stalled(threshold_ns, now);
        let missing = self.missing_before(meta.sequence);
        CaptureHealth {
            consecutive_capture_timeouts: 0,
            capture_stalls: if stalled {
                plus(self.capture_stalls, 1)
            } else {
                self.capture_stalls
            },
            last_stall_warning_at: if stalled && warning_due(self.last_stall_warning_at, now) {
                Some(now)
            } else {
                self.last_stall_warning_at
            },
            last_frame_received_at: Some(now),
            sequence_gap_events: if missing > 0 {
                plus(self.sequence_gap_events, 1)
            } else {
                self.sequence_gap_events
            },
            sequence_gap_frames: if missing > 0 {
                plus(self.sequence_gap_frames, missing as int)
            } else {
                self.sequence_gap_frames
            },
            last_sequence_warning_at: if missing > 0 && warning_due(
                self.last_sequence_warning_at,
                now,
            ) {
                Some(now)
            } else {
                self.last_sequence_warning_at
            },
            last_sequence: Some(meta.sequence),
            corrupted_frames: if meta.flags & BUFFER_FLAG_ERROR == BUFFER_FLAG_ERROR {
                plus(self.corrupted_frames, 1)
            } else {
                self.corrupted_frames
            },
            ..self
        }
    }

    /// What a buffer gives rise to.
    pub open spec fn buffer_report(
        self,
        threshold_ns: u128,
        meta: BufferMeta,
        buffer_len: usize,
        now: u128,
    ) -> BufferReport {
        let next = self.after_buffer(threshold_ns, meta, now);
        BufferReport {
            stall: if self.stalled(threshold_ns, now) && warning_due(
                self.last_stall_warning_at,
                now,
            ) {
                Some(
                    StallWarning {
                        sequence: meta.sequence,
                        interval_ns: elapsed(self.last_frame_received_at->0, now) as u128,
                        total: next.capture_stalls,
                    },
                )
            } else {
                None
            },
            gap: if self.missing_before(meta.sequence) > 0 && warning_due(
                self.last_sequence_warning_at,
                now,
            ) {
                Some(
                    GapWarning {
                        previous_sequence: self.last_sequence->0,
                        sequence: meta.sequence,
                        missing: self.missing_before(meta.sequence),
                        total_events: next.sequence_gap_events,
                        total_frames: next.sequence_gap_frames,
                    },
                )
            } else {
                None
            },
            outcome: if meta.flags & BUFFER_FLAG_ERROR == BUFFER_FLAG_ERROR {
                BufferOutcome::Corrupted {
                    log: next.corrupted_frames == 1 || next.corrupted_frames % CORRUPTED_LOG_EVERY
                        == 0,
                    total: next.corrupted_frames,
                }
            } else if meta.bytesused == 0 || meta.bytesused > buffer_len {
                BufferOutcome::InvalidSize { bytes_used: meta.bytesused as usize }
            } else {
                BufferOutcome::Deliver { len: meta.bytesused as usize }
            },
        }
    }

    /// The state before anything was captured.
    pub fn new() -> (r: CaptureHealth)
        ensures
            r == CaptureHealth::initial(),
            r.wf(),
    {
        CaptureHealth {
            corrupted_frames: 0,
            last_sequence: None,
            sequence_gap_events: 0,
            sequence_gap_frames: 0,
            last_sequence_warning_at: None,
            capture_timeouts: 0,
            consecutive_capture_timeouts: 0,
            last_timeout_warning_at: None,
            last_frame_received_at: None,
            capture_stalls: 0,
            last_stall_warning_at: None,
        }
    }

    /// Takes note of a wait that ended without a buffer; a stop request, seen
    /// meanwhile, ends the loop.
    pub fn on_timeout(&mut self, stop_requested: bool, now: u128) -> (r: TimeoutAction)
        requires
            old(self).wf(),
        ensures
            final(self).wf(),
            *final(self) == (if stop_requested {
                *old(self)
            } else {
                old(self).after_timeout(now)
            }),
            r == (if stop_requested {
                TimeoutAction::Exit
            } else {
                TimeoutAction::ResetStream {
                    warning: if old(self).timeout_is_reported(now) {
                        Some(
                            TimeoutWarning {
                                consecutive: final(self).consecutive_capture_timeouts,
                                total: final(self).capture_timeouts,
                            },
                        )
                    } else {
                        None
                    },
                }
            }),
    {
        if stop_requested {
            return TimeoutAction::Exit;
        }
        self.capture_timeouts = self.capture_timeouts.saturating_add(1);
        self.consecutive_capture_timeouts = self.consecutive_capture_timeouts.saturating_add(1);
        let mut last: Option<u128> = self.last_timeout_warning_at;
        let report: bool = should_log_health_warning(&mut last, now);
        self.last_timeout_warning_at = last;
        self.last_frame_received_at = None;
        self.last_sequence = None;
        TimeoutAction::ResetStream {
            warning: if report {
                Some(
                    TimeoutWarning {
                        consecutive: self.consecutive_capture_timeouts,
                        total: self.capture_timeouts,
                    },
                )
            } else {
                None
            },
        }
    }

    fn note_interval(&mut self, threshold_ns: u128, sequence: u32, now: u128) -> (r: Option<
        StallWarning,
    >)
        requires
            old(self).wf(),
        ensures
            final(self).wf(),
            *final(self) == (CaptureHealth {
                consecutive_capture_timeouts: 0,
                capture_stalls: if old(self).stalled(threshold_ns, now) {
                    plus(old(self).capture_stalls, 1)
                } else {
                    old(self).capture_stalls
                },
                last_stall_warning_at: if old(self).stalled(threshold_ns, now) && warning_due(
                    old(self).last_stall_warning_at,
                    now,
                ) {
                    Some(now)
                } else {
                    old(self).last_stall_warning_at
                },
                last_frame_received_at: Some(now),
                ..*old(self)
            }),
            r == (if old(self).stalled(threshold_ns, now) && warning_due(
                old(self).last_stall_warning_at,
                now,
            ) {
                Some(
                    StallWarning {
                        sequence,
                        interval_ns: elapsed(old(self).last_frame_received_at->0, now) as u128,
                        total: final(self).capture_stalls,
                    },
                )
            } else {
                None
            }),
    {
        self.consecutive_capture_timeouts = 0;
        let mut warning: Option<StallWarning> = None;
        if let Some(previous) = self.last_frame_received_at {
            let interval_ns: u128 = elapsed_ns(previous, now);
            if interval_ns > threshold_ns {
                self.capture_stalls = self.capture_stalls.saturating_add(1);
                let mut last: Option<u128> = self.last_stall_warning_at;
                if should_log_health_warning(&mut last, now) {
                    warning = Some(
                        StallWarning { sequence, interval_ns, total: self.capture_stalls },
                    );
                }
                self.last_stall_warning_at = last;
            }
        }
        self.last_frame_received_at = Some(now);
        warning
    }

    fn note_sequence(&mut self, sequence: u32, now: u128) -> (r: Option<GapWarning>)
        requires
            old(self).wf(),
        ensures
            final(self).wf(),
            *final(self) == (CaptureHealth {
                sequence_gap_events: if old(self).missing_before(sequence) > 0 {
                    plus(old(self).sequence_gap_events, 1)
                } else {
                    old(self).sequence_gap_events
                },
                sequence_gap_frames: if old(self).missing_before(sequence) > 0 {
                    plus(
                        old(self).sequence_gap_frames,
                        old(self).missing_before(sequence) as int,
                    )
                } else {
                    old(self).sequence_gap_frames
                },
                last_sequence_warning_at: if old(self).missing_before(sequence) > 0 && warning_due(
                    old(self).last_sequence_warning_at,
                    now,
                ) {
                    Some(now)
                } else {
                    old(self).last_sequence_warning_at
                },
                last_sequence: Some(sequence),
                ..*old(self)
            }),
            r == (if old(self).missing_before(sequence) > 0 && warning_due(
                old(self).last_sequence_warning_at,
                now,
            ) {
                Some(
                    GapWarning {
                        previous_sequence: old(self).last_sequence->0,
                        sequence,
                        missing: old(self).missing_before(sequence),
                        total_events: final(self).sequence_gap_events,
                        total_frames: final(self).sequence_gap_frames,
                    },
                )
            } else {
                None
            }),
    {
        let mut warning: Option<GapWarning> = None;
        if let Some(previous_sequence) = self.last_sequence {
            let missing: u32 = sequence_gap(previous_sequence, sequence);
            if missing > 0 {
                self.sequence_gap_events = self.sequence_gap_events.saturating_add(1);
                self.sequence_gap_frames = self.sequence_gap_frames.saturating_add(missing as u64);
                let mut last: Option<u128> = self.last_sequence_warning_at;
                if should_log_health_warning(&mut last, now) {
                    warning = Some(
                        GapWarning {
                            previous_sequence,
                            sequence,
                            missing,
                            total_events: self.sequence_gap_events,
                            total_frames: self.sequence_gap_frames,
                        },
                    );
                }
                self.last_sequence_warning_at = last;
            }
        }
        self.last_sequence = Some(sequence);
        warning
    }

    /// Takes note of a buffer and decides what becomes of it.
    pub fn on_buffer(
        &mut self,
        format: &NegotiatedFormat,
        meta: BufferMeta,
        buffer_len: usize,
        received_at: u128,
    ) -> (r: BufferReport)
        requires
            old(self).wf(),
        ensures
            final(self).wf(),
            *final(self) == old(self).after_buffer(
                format.stall_warning_threshold_ns,
                meta,
                received_at,
            ),
            r == old(self).buffer_report(
                format.stall_warning_threshold_ns,
                meta,
                buffer_len,
                received_at,
            ),
    {
        let stall: Option<StallWarning> = self.note_interval(
            format.stall_warning_threshold_ns,
            meta.sequence,
            received_at,
        );
        let gap: Option<GapWarning> = self.note_sequence(meta.sequence, received_at);
        let outcome: BufferOutcome = if buffer_is_corrupted(meta.flags) {
            self.corrupted_frames = self.corrupted_frames.saturating_add(1);
            BufferOutcome::Corrupted {
                log: self.corrupted_frames == 1 || self.corrupted_frames % CORRUPTED_LOG_EVERY == 0,
                total: self.corrupted_frames,
            }
        } else if meta.bytesused == 0 || meta.bytesused as usize > buffer_len {
            BufferOutcome::InvalidSize { bytes_used: meta.bytesused as usize }
        } else {
            BufferOutcome::Deliver { len: meta.bytesused as usize }
        };
        BufferReport { stall, gap, outcome }
    }
}

/// The frame made of the first `len` bytes of a buffer.
pub fn captured_frame(
    format: &NegotiatedFormat,
    capture_timestamp_ns: Option<i64>,
    buffer: &[u8],
    len: usize,
) -> (r: CapturedFrame)
    requires
        len <= buffer@.len(),
    ensures
        r.width == format.width,
        r.height == format.height,
        r.stride == format.stride,
        r.pixel_format == format.pixel_format,
        r.yuv_colorimetry == format.yuv_colorimetry,
        r.capture_timestamp_ns == capture_timestamp_ns,
        r.contents() == buffer@.subrange(0, len as int),
{
    let data: Bytes = copy_of(slice_subrange(buffer, 0, len));
    CapturedFrame {
        width: format.width,
        height: format.height,
        stride: format.stride,
        pixel_format: format.pixel_format,
        yuv_colorimetry: format.yuv_colorimetry,
        capture_timestamp_ns,
        data,
    }
}

/// A damaged buffer is never delivered, and what is delivered is a non-empty
/// part of the buffer.
pub proof fn law_only_sound_buffers_are_delivered(
    health: CaptureHealth,
    threshold_ns: u128,
    meta: BufferMeta,
    buffer_len: usize,
    now: u128,
)
    ensures
        match health.buffer_report(threshold_ns, meta, buffer_len, now).outcome {
            BufferOutcome::Deliver { len } => {
                &&& meta.flags & BUFFER_FLAG_ERROR != BUFFER_FLAG_ERROR
                &&& 1 <= len <= buffer_len
                &&& len == meta.bytesused
            },
            BufferOutcome::Corrupted { .. } => meta.flags & BUFFER_FLAG_ERROR == BUFFER_FLAG_ERROR,
            BufferOutcome::InvalidSize { .. } => meta.bytesused == 0 || meta.bytesused > buffer_len,
        },
{
}

/// Totals never decrease, whatever the stream yields.
pub proof fn law_totals_never_decrease(
    health: CaptureHealth,
    threshold_ns: u128,
    meta: BufferMeta,
    now: u128,
)
    ensures
        ({
            let a = health.after_timeout(now);
            let b = health.after_buffer(threshold_ns, meta, now);
            &&& health.capture_timeouts <= a.capture_timeouts
            &&& health.capture_timeouts == b.capture_timeouts
            &&& health.corrupted_frames == a.corrupted_frames
            &&& health.corrupted_frames <= b.corrupted_frames
            &&& health.sequence_gap_events == a.sequence_gap_events
            &&& health.sequence_gap_events <= b.sequence_gap_events
            &&& health.sequence_gap_frames == a.sequence_gap_frames
            &&& health.sequence_gap_frames <= b.sequence_gap_frames
            &&& health.capture_stalls == a.capture_stalls
            &&& health.capture_stalls <= b.capture_stalls
        }),
{
}

/// After a timeout the stream starts over: the next buffer counts neither as
/// late nor as following a gap.
pub proof fn law_timeout_starts_over(
    health: CaptureHealth,
    at: u128,
    threshold_ns: u128,
    meta: BufferMeta,
    buffer_len: usize,
    now: u128,
)
    ensures
        ({
            let report = health.after_timeout(at).buffer_report(
                threshold_ns,
                meta,
                buffer_len,
                now,
            );
            report.stall is None && report.gap is None
        }),
{
}

// ---------------------------------------------------------------------------
// Stream errors
// ---------------------------------------------------------------------------
/// The error text, given in lower case too, says that the device is gone.
pub open spec fn says_disconnected(message: Seq<char>, lower: Seq<char>) -> bool {
    ||| has_substring(lower, "no such device"@)
    ||| has_substring(lower, "no such file"@)
    ||| has_substring(lower, "disconnected"@)
    ||| has_substring(lower, "input/output error"@)
    ||| has_substring(lower, "i/o error"@)
    ||| has_substring(message, "os error 5"@)
    ||| has_substring(message, "os error 19"@)
    ||| has_substring(message, "error 5"@)
    ||| has_substring(message, "error 19"@)
}

/// Whether an error text, given in lower case too, says that the device is
/// gone.
pub fn text_says_disconnected(message: &str, lower: &str) -> (r: bool)
    ensures
        r == says_disconnected(message@, lower@),
{
    contains(lower, "no such device") || contains(lower, "no such file") || contains(
        lower,
        "disconnected",
    ) || contains(lower, "input/output error") || contains(lower, "i/o error") || contains(
        message,
        "os error 5",
    ) || contains(message, "os error 19") || contains(message, "error 5") || contains(
        message,
        "error 19",
    )
}

/// Whether a stream error says that the device is gone (unplugged, or lost by
/// the USB bus), so that capturing has to end.
pub fn is_device_disconnected_error(message: &str) -> (r: bool)
    ensures
        r == says_disconnected(message@, lowercase(message@)),
{
    let lower: String = message.to_lowercase();
    text_says_disconnected(message, lower.as_str())
}

/// The reason that the capture thread gives when the device is gone.
pub open spec fn disconnected_reason_text() -> Seq<char> {
    "摄像头已断开连接 (设备可能已被拔出或 USB 断开)"@
}

/// The reason that the capture thread gives when the device is gone.
pub fn disconnected_reason() -> (r: String)
    ensures
        r@ == disconnected_reason_text(),
{
    "摄像头已断开连接 (设备可能已被拔出或 USB 断开)".to_owned()
}

/// What a clock shows is the time stamp of a frame, if the clock shows anything
/// and the number fits.
pub proof fn law_time_stamps(elapsed_ns: Option<u128>, r: Option<i64>)
    requires
        call_ensures(capture_timestamp_ns, (elapsed_ns,), r),
    ensures
        elapsed_ns is None ==> r is None,
        elapsed_ns matches Some(t) ==> (t <= 0x7fff_ffff_ffff_ffff ==> (r matches Some(stamp)
            && stamp == t)) && (t > 0x7fff_ffff_ffff_ffff ==> r is None),
{
}

/// Counting never loses anything below the largest number, and stays there.
pub proof fn law_counters_saturate(n: u64, k: int)
    requires
        0 <= k,
    ensures
        n + k <= 0xffff_ffff_ffff_ffff ==> plus(n, k) == n + k,
        n + k > 0xffff_ffff_ffff_ffff ==> plus(n, k) == 0xffff_ffff_ffff_ffff,
{
}

/// Up to a million frames may be missing between two sequence numbers, counted
/// over the wrap of the counter; all other steps are no gap.
pub proof fn law_missing_frames(previous: u32, current: u32)
    ensures
        current > previous && current - previous - 1 <= 1_000_000 ==> missing_frames(
            previous,
            current,
        ) == current - previous - 1,
        current > previous && current - previous - 1 > 1_000_000 ==> missing_frames(
            previous,
            current,
        ) == 0,
        current == previous ==> missing_frames(previous, current) == 0,
        current < previous && current - previous + 0xffff_ffff <= 1_000_000 ==> missing_frames(
            previous,
            current,
        ) == current - previous + 0xffff_ffff,
        current < previous && current - previous + 0xffff_ffff > 1_000_000 ==> missing_frames(
            previous,
            current,
        ) == 0,
{
}

/// A warning is due if there was none of its kind, or five seconds ago or
/// earlier.
pub proof fn law_warnings_every_five_seconds(last: Option<u128>, now: u128)
    ensures
        last is None ==> warning_due(last, now),
        last matches Some(at) ==> (warning_due(last, now) <==> now >= at + 5_000_000_000),
{
}

/// What a timeout changes: it is counted, in all and in its run, and the stream
/// starts over. Nothing else changes, but for the instant of the warning if one is
/// given.
pub proof fn law_timeouts_are_counted(health: CaptureHealth, now: u128)
    requires
        health.capture_timeouts < u64::MAX,
        health.consecutive_capture_timeouts < u64::MAX,
    ensures
        ({
            let after = health.after_timeout(now);
            let due = match health.last_timeout_warning_at {
                None => true,
                Some(at) => now >= at + 5_000_000_000,
            };
            &&& after.capture_timeouts == health.capture_timeouts + 1
            &&& after.consecutive_capture_timeouts == health.consecutive_capture_timeouts + 1
            &&& after.last_frame_received_at is None
            &&& after.last_sequence is None
            &&& health.timeout_is_reported(now) <==> due
            &&& after.last_timeout_warning_at == (if due {
                Some(now)
            } else {
                health.last_timeout_warning_at
            })
            &&& after.corrupted_frames == health.corrupted_frames
            &&& after.sequence_gap_events == health.sequence_gap_events
            &&& after.sequence_gap_frames == health.sequence_gap_frames
            &&& after.last_sequence_warning_at == health.last_sequence_warning_at
            &&& after.capture_stalls == health.capture_stalls
            &&& after.last_stall_warning_at == health.last_stall_warning_at
        }),
{
}

/// What a buffer changes: it ends a run of timeouts and is the one that the next
/// is compared with. It is late if more time than allowed has passed since the
/// one before, and then counted as a stall; it follows a gap if numbers are
/// missing before it, and then the gap and the missing frames are counted; it is
/// counted if it is damaged. Timeouts keep their count.
pub proof fn law_buffers_are_counted(
    health: CaptureHealth,
    threshold_ns: u128,
    meta: BufferMeta,
    now: u128,
)
    requires
        health.corrupted_frames < u64::MAX,
        health.capture_stalls < u64::MAX,
        health.sequence_gap_events < u64::MAX,
        health.sequence_gap_frames < u64::MAX - 1_000_000,
    ensures
        ({
            let after = health.after_buffer(threshold_ns, meta, now);
            let late = health.last_frame_received_at matches Some(at) && now > at + threshold_ns;
            let missing = match health.last_sequence {
                Some(previous) => missing_frames(previous, meta.sequence),
                None => 0,
            };
            &&& after.consecutive_capture_timeouts == 0
            &&& after.last_frame_received_at == Some(now)
            &&& after.last_sequence == Some(meta.sequence)
            &&& after.capture_timeouts == health.capture_timeouts
            &&& after.last_timeout_warning_at == health.last_timeout_warning_at
            &&& after.capture_stalls == health.capture_stalls + (if late {
                1int
            } else {
                0int
            })
            &&& after.sequence_gap_events == health.sequence_gap_events + (if missing > 0 {
                1int
            } else {
                0int
            })
            &&& after.sequence_gap_frames == health.sequence_gap_frames + missing
            &&& after.corrupted_frames == health.corrupted_frames + (if meta.flags / 0x40 % 2 == 1 {
                1int
            } else {
                0int
            })
        }),
{
    let flags = meta.flags;
    assert(flags & 0x40 == 0x40 <==> flags / 0x40 % 2 == 1) by (bit_vector);
}

/// What a buffer gives rise to. A late one is reported, with its number, the time
/// that has passed and how often that has happened; a gap, with both numbers, how
/// many frames are missing and the counts; either only if five seconds have
/// passed since the last report of its kind. A damaged buffer is dropped, and
/// that is said of the first and of every hundredth; one without content, or with
/// more than fits, is dropped too; of any other all that is used is delivered.
pub proof fn law_buffers_are_judged(
    health: CaptureHealth,
    threshold_ns: u128,
    meta: BufferMeta,
    buffer_len: usize,
    now: u128,
)
    ensures
        ({
            let report = health.buffer_report(threshold_ns, meta, buffer_len, now);
            let after = health.after_buffer(threshold_ns, meta, now);
            let late = health.last_frame_received_at matches Some(at) && now > at + threshold_ns;
            let stall_due = match health.last_stall_warning_at {
                None => true,
                Some(at) => now >= at + 5_000_000_000,
            };
            let missing = match health.last_sequence {
                Some(previous) => missing_frames(previous, meta.sequence),
                None => 0,
            };
            let gap_due = match health.last_sequence_warning_at {
                None => true,
                Some(at) => now >= at + 5_000_000_000,
            };
            &&& report.stall is Some <==> late && stall_due
            &&& report.stall matches Some(w) ==> {
                &&& w.sequence == meta.sequence
                &&& w.interval_ns == now - health.last_frame_received_at->0
                &&& w.total == after.capture_stalls
            }
            &&& after.last_stall_warning_at == (if late && stall_due {
                Some(now)
            } else {
                health.last_stall_warning_at
            })
            &&& report.gap is Some <==> missing > 0 && gap_due
            &&& report.gap matches Some(w) ==> {
                &&& Some(w.previous_sequence) == health.last_sequence
                &&& w.sequence == meta.sequence
                &&& w.missing == missing
                &&& w.total_events == after.sequence_gap_events
                &&& w.total_frames == after.sequence_gap_frames
            }
            &&& after.last_sequence_warning_at == (if missing > 0 && gap_due {
                Some(now)
            } else {
                health.last_sequence_warning_at
            })
            &&& if meta.flags / 0x40 % 2 == 1 {
                report.outcome matches BufferOutcome::Corrupted { log, total } && {
                    &&& total == after.corrupted_frames
                    &&& log <==> total == 1 || total % 100 == 0
                }
            } else if meta.bytesused == 0 || meta.bytesused > buffer_len {
                report.outcome matches BufferOutcome::InvalidSize { bytes_used } && bytes_used
                    == meta.bytesused
            } else {
                report.outcome matches BufferOutcome::Deliver { len } && len == meta.bytesused
            }
        }),
{
    let flags = meta.flags;
    assert(flags & 0x40 == 0x40 <==> flags / 0x40 % 2 == 1) by (bit_vector);
}

/// A frame is made of the used part of its buffer, with the format that was
/// settled on and the time at which it was captured.
pub proof fn law_frames_hold_what_was_captured(
    format: &NegotiatedFormat,
    capture_timestamp_ns: Option<i64>,
    buffer: &[u8],
    len: usize,
    r: CapturedFrame,
)
    requires
        len <= buffer@.len(),
        call_ensures(captured_frame, (format, capture_timestamp_ns, buffer, len), r),
    ensures
        r.contents().len() == len,
        forall|i: int| 0 <= i < len ==> #[trigger] r.contents()[i] == buffer@[i],
        r.width == format.width && r.height == format.height && r.stride == format.stride,
        r.pixel_format == format.pixel_format,
        r.yuv_colorimetry == format.yuv_colorimetry,
        r.capture_timestamp_ns == capture_timestamp_ns,
{
}

/// A device is taken for gone exactly if the error says so: in lower case, that
/// there is no such device or file, that it is disconnected or that input and
/// output failed; or, as it is written, error 5 or error 19.
pub proof fn law_words_for_a_lost_device(message: Seq<char>, lower: Seq<char>)
    ensures
        says_disconnected(message, lower) <==> {
            ||| has_word(lower, "no such device"@)
            ||| has_word(lower, "no such file"@)
            ||| has_word(lower, "disconnected"@)
            ||| has_word(lower, "input/output error"@)
            ||| has_word(lower, "i/o error"@)
            ||| has_word(message, "error 5"@)
            ||| has_word(message, "error 19"@)
        },
{
    law_words_are_found(lower, "no such device"@);
    law_words_are_found(lower, "no such file"@);
    law_words_are_found(lower, "disconnected"@);
    law_words_are_found(lower, "input/output error"@);
    law_words_are_found(lower, "i/o error"@);
    law_words_are_found(message, "error 5"@);
    law_words_are_found(message, "error 19"@);
    law_words_are_found(message, "os error 5"@);
    law_words_are_found(message, "os error 19"@);
    reveal_strlit("os error 5");
    reveal_strlit("error 5");
    reveal_strlit("os error 19");
    reveal_strlit("error 19");
    if has_word(message, "os error 5"@) {
        let (before, after) = choose|before: Seq<char>, after: Seq<char>|
            message == #[trigger] (before + "os error 5"@ + after);
        let start = before + seq!['o', 's', ' '];
        assert(message =~= start + "error 5"@ + after);
    }
    if has_word(message, "os error 19"@) {
        let (before, after) = choose|before: Seq<char>, after: Seq<char>|
            message == #[trigger] (before + "os error 19"@ + after);
        let start = before + seq!['o', 's', ' '];
        assert(message =~= start + "error 19"@ + after);
    }
}

/// `should_log_health_warning` says that a warning is due if there was none, or
/// five seconds ago or earlier, and takes note of it only then.
pub proof fn law_due_warnings_are_noted(now: u128, r: bool)
    ensures
        forall|last: &mut Option<u128>| #[trigger]
            call_ensures(should_log_health_warning, (last, now), r) ==> {
                &&& r <==> (*last matches Some(at) ==> now >= at + 5_000_000_000)
                &&& *final(last) == (if r {
                    Some(now)
                } else {
                    *last
                })
            },
{
}

/// `on_timeout` ends the loop if a stop was asked for, and leaves everything as it
/// is; else it has the stream start over, takes note of the timeout, and warns with
/// both counts if it is time for that.
pub proof fn law_timeouts_are_noted(stop_requested: bool, now: u128, r: TimeoutAction)
    ensures
        forall|health: &mut CaptureHealth| #[trigger]
            call_ensures(CaptureHealth::on_timeout, (health, stop_requested, now), r) ==> {
                &&& stop_requested ==> r == TimeoutAction::Exit && *final(health) == *health
                &&& !stop_requested ==> {
                    &&& *final(health) == health.after_timeout(now)
                    &&& r matches TimeoutAction::ResetStream { warning } && {
                        &&& warning is Some <==> (
                        health.last_timeout_warning_at matches Some(at) ==> now >= at
                            + 5_000_000_000)
                        &&& warning matches Some(w) ==> {
                            &&& w.consecutive == health.after_timeout(
                                now,
                            ).consecutive_capture_timeouts
                            &&& w.total == health.after_timeout(now).capture_timeouts
                        }
                    }
                }
            },
{
}

/// `on_buffer` takes note of a buffer and reports on it.
pub proof fn law_buffers_are_noted(
    format: &NegotiatedFormat,
    meta: BufferMeta,
    buffer_len: usize,
    now: u128,
    r: BufferReport,
)
    ensures
        forall|health: &mut CaptureHealth| #[trigger]
            call_ensures(CaptureHealth::on_buffer, (health, format, meta, buffer_len, now), r)
                ==> {
                &&& *final(health) == health.after_buffer(
                    format.stall_warning_threshold_ns,
                    meta,
                    now,
                )
                &&& r == health.buffer_report(
                    format.stall_warning_threshold_ns,
                    meta,
                    buffer_len,
                    now,
                )
            },
{
}

/// Capturing starts with nothing counted, nothing to compare with and no warning
/// given.
pub proof fn law_capturing_starts_from_nothing(r: CaptureHealth)
    requires
        call_ensures(CaptureHealth::new, (), r),
    ensures
        r.corrupted_frames == 0 && r.sequence_gap_events == 0 && r.sequence_gap_frames == 0,
        r.capture_timeouts == 0 && r.consecutive_capture_timeouts == 0 && r.capture_stalls == 0,
        r.last_sequence is None && r.last_frame_received_at is None,
        r.last_sequence_warning_at is None && r.last_timeout_warning_at is None,
        r.last_stall_warning_at is None,
{
}

} // verus!
