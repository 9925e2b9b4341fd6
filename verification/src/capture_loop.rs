//! One round of the capture loop: what follows from what the stream yields.

use vstd::prelude::*;

use crate::backend::CapturedFrame;
use crate::backend_v4l::{after_stream_failure, CaptureMessage};
use crate::capture_health::{
    captured_frame, disconnected_reason_text, law_buffers_are_judged, says_disconnected,
    BufferMeta, BufferOutcome, BufferReport, CaptureHealth, GapWarning, NegotiatedFormat,
    StallWarning, TimeoutAction, TimeoutWarning, BUFFER_FLAG_ERROR, CAPTURE_POLL_TIMEOUT_NS,
};
use crate::text::{decimal, lowercase, push_decimal, texts};

verus! {

/// What the stream yields.
#[derive(Debug)]
pub enum StreamEvent<'a> {
    /// A buffer, received at a time of the monotonic clock, with the time stamp
    /// that its frame is to have.
    Buffer {
        data: &'a [u8],
        meta: BufferMeta,
        received_at: u128,
        capture_timestamp_ns: Option<i64>,
    },
    /// Nothing came in time; meanwhile a stop may have been asked for.
    TimedOut { stop_requested: bool, now: u128 },
    /// Another error, with its text.
    Failed { message: &'a str },
}

/// What the capture loop does next.
#[derive(Debug)]
pub enum StreamAction {
    /// End.
    Exit,
    /// Go on with the next buffer.
    Continue,
    /// Stop the stream, which starts anew with the next buffer.
    ResetStream,
    /// Send the frame, and end if nobody receives it.
    Send(CapturedFrame),
    /// Send the report that the device is gone, and end.
    ReportAndExit(CaptureMessage),
}

/// Milliseconds, rounded down.
pub open spec fn millis(ns: nat) -> nat {
    ns / 1_000_000
}

/// The line that reports timeouts.
pub open spec fn timeout_text(w: TimeoutWarning) -> Seq<char> {
    "V4L2 capture warning: frame timeout timeout_ms="@ + decimal(
        millis(CAPTURE_POLL_TIMEOUT_NS as nat),
    ) + " consecutive_timeouts="@ + decimal(w.consecutive as nat) + " total_timeouts="@ + decimal(
        w.total as nat,
    )
}

/// The line that reports a frame that came late.
pub open spec fn stall_text(w: StallWarning, threshold_ns: u128) -> Seq<char> {
    "V4L2 capture warning: long frame interval sequence="@ + decimal(w.sequence as nat)
        + " interval_ms="@ + decimal(millis(w.interval_ns as nat)) + " threshold_ms="@ + decimal(
        millis(threshold_ns as nat),
    ) + " total_stalls="@ + decimal(w.total as nat)
}

/// The line that reports missing frames.
pub open spec fn gap_text(w: GapWarning) -> Seq<char> {
    "V4L2 capture warning: sequence gap previous_sequence="@ + decimal(w.previous_sequence as nat)
        + " sequence="@ + decimal(w.sequence as nat) + " missing_frames="@ + decimal(
        w.missing as nat,
    ) + " total_gap_events="@ + decimal(w.total_events as nat) + " total_missing_frames="@
        + decimal(w.total_frames as nat)
}

/// The line that reports a damaged frame.
pub open spec fn corrupted_text(meta: BufferMeta, total: u64) -> Seq<char> {
    "V4L2 capture warning: dropping corrupted frame sequence="@ + decimal(meta.sequence as nat)
        + " bytesused="@ + decimal(meta.bytesused as nat) + " total_dropped="@ + decimal(
        total as nat,
    )
}

/// The line that reports a buffer of an impossible length.
pub open spec fn invalid_size_text(bytes_used: usize, buffer_len: nat) -> Seq<char> {
    "V4L2 capture warning: invalid bytesused="@ + decimal(bytes_used as nat)
        + " for mmap buffer size="@ + decimal(buffer_len)
}

/// The line that reports another error.
pub open spec fn failure_text(message: Seq<char>, gone: bool) -> Seq<char> {
    if gone {
        "V4L2 device disconnected: "@ + message
    } else {
        "V4L2 capture warning: "@ + message
    }
}

/// Lines, of which each may be absent.
pub open spec fn present(lines: Seq<Option<Seq<char>>>) -> Seq<Seq<char>>
    decreases lines.len(),
{
    if lines.len() == 0 {
        Seq::empty()
    } else {
        let rest = present(lines.drop_last());
        match lines.last() {
            Some(line) => rest.push(line),
            None => rest,
        }
    }
}

/// The line about what becomes of a buffer, if there is one.
pub open spec fn outcome_line(outcome: BufferOutcome, meta: BufferMeta, buffer_len: nat) -> Option<
    Seq<char>,
> {
    match outcome {
        BufferOutcome::Corrupted { log, total } => if log {
            Some(corrupted_text(meta, total))
        } else {
            None
        },
        BufferOutcome::InvalidSize { bytes_used } => Some(
            invalid_size_text(bytes_used, buffer_len),
        ),
        BufferOutcome::Deliver { .. } => None,
    }
}

/// The lines that report on a buffer.
pub open spec fn buffer_lines(
    report: BufferReport,
    threshold_ns: u128,
    meta: BufferMeta,
    buffer_len: nat,
) -> Seq<Seq<char>> {
    present(
        seq![
            match report.stall {
                Some(w) => Some(stall_text(w, threshold_ns)),
                None => None,
            },
            match report.gap {
                Some(w) => Some(gap_text(w)),
                None => None,
            },
            outcome_line(report.outcome, meta, buffer_len),
        ],
    )
}

/// The state of the loop after what the stream yielded.
pub open spec fn health_after(
    health: CaptureHealth,
    format: NegotiatedFormat,
    event: StreamEvent<'_>,
) -> CaptureHealth {
    match event {
        StreamEvent::Buffer { meta, received_at, .. } => health.after_buffer(
            format.stall_warning_threshold_ns,
            meta,
            received_at,
        ),
        StreamEvent::TimedOut { stop_requested, now } => if stop_requested {
            health
        } else {
            health.after_timeout(now)
        },
        StreamEvent::Failed { .. } => health,
    }
}

/// The report on a buffer that the stream yielded.
pub open spec fn report_on(
    health: CaptureHealth,
    format: NegotiatedFormat,
    data: Seq<u8>,
    meta: BufferMeta,
    received_at: u128,
) -> BufferReport {
    health.buffer_report(
        format.stall_warning_threshold_ns,
        meta,
        data.len() as usize,
        received_at,
    )
}

/// The frame is the one that a buffer of the stream holds.
pub open spec fn is_frame_of(
    frame: CapturedFrame,
    format: NegotiatedFormat,
    data: Seq<u8>,
    len: int,
    capture_timestamp_ns: Option<i64>,
) -> bool {
    &&& frame.width == format.width
    &&& frame.height == format.height
    &&& frame.stride == format.stride
    &&& frame.pixel_format == format.pixel_format
    &&& frame.yuv_colorimetry == format.yuv_colorimetry
    &&& frame.capture_timestamp_ns == capture_timestamp_ns
    &&& 0 < len <= data.len()
    &&& frame.contents() == data.take(len)
}

/// The loop does the right thing next.
pub open spec fn is_action_for(
    health: CaptureHealth,
    format: NegotiatedFormat,
    event: StreamEvent<'_>,
    action: StreamAction,
) -> bool {
    match event {
        StreamEvent::Buffer { data, meta, received_at, capture_timestamp_ns } => match report_on(
            health,
            format,
            data@,
            meta,
            received_at,
        ).outcome {
            BufferOutcome::Deliver { len } => action matches StreamAction::Send(frame)
                && is_frame_of(frame, format, data@, len as int, capture_timestamp_ns),
            _ => action is Continue,
        },
        StreamEvent::TimedOut { stop_requested, .. } => if stop_requested {
            action is Exit
        } else {
            action is ResetStream
        },
        StreamEvent::Failed { message } => if says_disconnected(message@, lowercase(message@)) {
            action matches StreamAction::ReportAndExit(CaptureMessage::Disconnected(reason))
                && reason@ == disconnected_reason_text()
        } else {
            action is Continue
        },
    }
}

/// The lines that report on what the stream yielded.
pub open spec fn lines_for(
    health: CaptureHealth,
    format: NegotiatedFormat,
    event: StreamEvent<'_>,
) -> Seq<Seq<char>> {
    match event {
        StreamEvent::Buffer { data, meta, received_at, .. } => buffer_lines(
            report_on(health, format, data@, meta, received_at),
            format.stall_warning_threshold_ns,
            meta,
            data@.len(),
        ),
        StreamEvent::TimedOut { stop_requested, now } => if !stop_requested
            && health.timeout_is_reported(now) {
            seq![
                timeout_text(
                    TimeoutWarning {
                        consecutive: health.after_timeout(now).consecutive_capture_timeouts,
                        total: health.after_timeout(now).capture_timeouts,
                    },
                ),
            ]
        } else {
            Seq::empty()
        },
        StreamEvent::Failed { message } => seq![
            failure_text(message@, says_disconnected(message@, lowercase(message@))),
        ],
    }
}

fn timeout_line(w: TimeoutWarning) -> (r: String)
    ensures
        r@ == timeout_text(w),
{
    let mut out: String = "V4L2 capture warning: frame timeout timeout_ms=".to_owned();
    push_decimal(&mut out, CAPTURE_POLL_TIMEOUT_NS / 1_000_000);
    out.append(" consecutive_timeouts=");
    push_decimal(&mut out, w.consecutive as u128);
    out.append(" total_timeouts=");
    push_decimal(&mut out, w.total as u128);
    out
}

fn stall_line(w: StallWarning, threshold_ns: u128) -> (r: String)
    ensures
        r@ == stall_text(w, threshold_ns),
{
    let mut out: String = "V4L2 capture warning: long frame interval sequence=".to_owned();
    push_decimal(&mut out, w.sequence as u128);
    out.append(" interval_ms=");
    push_decimal(&mut out, w.interval_ns / 1_000_000);
    out.append(" threshold_ms=");
    push_decimal(&mut out, threshold_ns / 1_000_000);
    out.append(" total_stalls=");
    push_decimal(&mut out, w.total as u128);
    out
}

fn gap_line(w: GapWarning) -> (r: String)
    ensures
        r@ == gap_text(w),
{
    let mut out: String = "V4L2 capture warning: sequence gap previous_sequence=".to_owned();
    push_decimal(&mut out, w.previous_sequence as u128);
    out.append(" sequence=");
    push_decimal(&mut out, w.sequence as u128);
    out.append(" missing_frames=");
    push_decimal(&mut out, w.missing as u128);
    out.append(" total_gap_events=");
    push_decimal(&mut out, w.total_events as u128);
    out.append(" total_missing_frames=");
    push_decimal(&mut out, w.total_frames as u128);
    out
}

fn corrupted_line(meta: BufferMeta, total: u64) -> (r: String)
    ensures
        r@ == corrupted_text(meta, total),
{
    let mut out: String = "V4L2 capture warning: dropping corrupted frame sequence=".to_owned();
    push_decimal(&mut out, meta.sequence as u128);
    out.append(" bytesused=");
    push_decimal(&mut out, meta.bytesused as u128);
    out.append(" total_dropped=");
    push_decimal(&mut out, total as u128);
    out
}

fn invalid_size_line(bytes_used: usize, buffer_len: usize) -> (r: String)
    ensures
        r@ == invalid_size_text(bytes_used, buffer_len as nat),
{
    let mut out: String = "V4L2 capture warning: invalid bytesused=".to_owned();
    push_decimal(&mut out, bytes_used as u128);
    out.append(" for mmap buffer size=");
    push_decimal(&mut out, buffer_len as u128);
    out
}

/// Adds a line, if there is one.
fn push_line(lines: &mut Vec<String>, line: Option<String>)
    ensures
        texts(final(lines)@) == (match line {
            Some(s) => texts(old(lines)@).push(s@),
            None => texts(old(lines)@),
        }),
{
    if let Some(s) = line {
        lines.push(s);
        assert(texts(lines@) =~= texts(old(lines)@).push(s@));
    }
}

fn report_lines(report: &BufferReport, threshold_ns: u128, meta: BufferMeta, buffer_len: usize) -> (r:
    Vec<String>)
    ensures
        texts(r@) == buffer_lines(*report, threshold_ns, meta, buffer_len as nat),
{
    let mut lines: Vec<String> = Vec::new();
    assert(texts(lines@) =~= Seq::empty());
    push_line(
        &mut lines,
        match report.stall {
            Some(w) => Some(stall_line(w, threshold_ns)),
            None => None,
        },
    );
    push_line(
        &mut lines,
        match report.gap {
            Some(w) => Some(gap_line(w)),
            None => None,
        },
    );
    push_line(
        &mut lines,
        match report.outcome {
            BufferOutcome::Corrupted { log, total } => if log {
                Some(corrupted_line(meta, total))
            } else {
                None
            },
            BufferOutcome::InvalidSize { bytes_used } => Some(
                invalid_size_line(bytes_used, buffer_len),
            ),
            BufferOutcome::Deliver { .. } => None,
        },
    );
    proof {
        let stall: Option<Seq<char>> = match report.stall {
            Some(w) => Some(stall_text(w, threshold_ns)),
            None => None,
        };
        let gap: Option<Seq<char>> = match report.gap {
            Some(w) => Some(gap_text(w)),
            None => None,
        };
        let outcome: Option<Seq<char>> = outcome_line(report.outcome, meta, buffer_len as nat);
        reveal_with_fuel(present, 4);
        assert(seq![stall, gap, outcome].drop_last() =~= seq![stall, gap]);
        assert(seq![stall, gap].drop_last() =~= seq![stall]);
        assert(seq![stall].drop_last() =~= Seq::empty());
    }
    lines
}

/// Takes note of what the stream yielded, and decides what the loop does next.
/// The lines are what is to be written to the error output.
pub fn on_stream_event(
    health: &mut CaptureHealth,
    format: &NegotiatedFormat,
    event: StreamEvent<'_>,
) -> (r: (StreamAction, Vec<String>))
    requires
        old(health).wf(),
    ensures
        final(health).wf(),
        *final(health) == health_after(*old(health), *format, event),
        is_action_for(*old(health), *format, event, r.0),
        texts(r.1@) == lines_for(*old(health), *format, event),
{
    match event {
        StreamEvent::Buffer { data, meta, received_at, capture_timestamp_ns } => {
            let report: BufferReport = health.on_buffer(format, meta, data.len(), received_at);
            let lines: Vec<String> = report_lines(
                &report,
                format.stall_warning_threshold_ns,
                meta,
                data.len(),
            );
            match report.outcome {
                BufferOutcome::Deliver { len } => {
                    let frame: CapturedFrame = captured_frame(
                        format,
                        capture_timestamp_ns,
                        data,
                        len,
                    );
                    assert(data@.subrange(0, len as int) =~= data@.take(len as int));
                    (StreamAction::Send(frame), lines)
                },
                _ => (StreamAction::Continue, lines),
            }
        },
        StreamEvent::TimedOut { stop_requested, now } => {
            let mut lines: Vec<String> = Vec::new();
            assert(texts(lines@) =~= Seq::empty());
            match health.on_timeout(stop_requested, now) {
                TimeoutAction::Exit => (StreamAction::Exit, lines),
                TimeoutAction::ResetStream { warning } => {
                    if let Some(w) = warning {
                        let line: String = timeout_line(w);
                        lines.push(line);
                        assert(texts(lines@) =~= seq![line@]);
                    }
                    (StreamAction::ResetStream, lines)
                },
            }
        },
        StreamEvent::Failed { message } => {
            let report: Option<CaptureMessage> = after_stream_failure(message);
            let mut line: String = match &report {
                Some(_) => "V4L2 device disconnected: ".to_owned(),
                None => "V4L2 capture warning: ".to_owned(),
            };
            line.append(message);
            let lines: Vec<String> = vec![line];
            assert(texts(lines@) =~= seq![line@]);
            match report {
                Some(gone) => (StreamAction::ReportAndExit(gone), lines),
                None => (StreamAction::Continue, lines),
            }
        },
    }
}

/// Only a sound buffer becomes a frame, and the frame holds its content from
/// the first byte on.
pub proof fn law_frames_come_from_sound_buffers(
    health: CaptureHealth,
    format: NegotiatedFormat,
    event: StreamEvent<'_>,
    action: StreamAction,
)
    requires
        is_action_for(health, format, event, action),
        action is Send,
    ensures
        event matches StreamEvent::Buffer { data, meta, capture_timestamp_ns, .. } && {
            &&& meta.flags & BUFFER_FLAG_ERROR != BUFFER_FLAG_ERROR
            &&& action->Send_0.contents() == data@.take(meta.bytesused as int)
            &&& action->Send_0.contents().len() == meta.bytesused
            &&& action->Send_0.capture_timestamp_ns == capture_timestamp_ns
        },
{
}

/// The loop ends only where a stop was asked for or the device is gone.
pub proof fn law_loop_ends_for_a_reason(
    health: CaptureHealth,
    format: NegotiatedFormat,
    event: StreamEvent<'_>,
    action: StreamAction,
)
    requires
        is_action_for(health, format, event, action),
        action is Exit || action is ReportAndExit,
    ensures
        match event {
            StreamEvent::Buffer { .. } => false,
            StreamEvent::TimedOut { stop_requested, .. } => stop_requested,
            StreamEvent::Failed { message } => says_disconnected(message@, lowercase(message@)),
        },
{
}

/// Every sound buffer becomes a frame that holds all that is used of it, with the
/// format that was settled on and the time that came with it. A damaged buffer,
/// one without content and one with more than fits become nothing, and the loop
/// goes on.
pub proof fn law_sound_buffers_become_frames(
    health: CaptureHealth,
    format: NegotiatedFormat,
    data: &[u8],
    meta: BufferMeta,
    received_at: u128,
    capture_timestamp_ns: Option<i64>,
    action: StreamAction,
)
    requires
        is_action_for(
            health,
            format,
            StreamEvent::Buffer { data, meta, received_at, capture_timestamp_ns },
            action,
        ),
        data@.len() <= usize::MAX,
    ensures
        if meta.flags / 0x40 % 2 == 0 && 1 <= meta.bytesused <= data@.len() {
            action matches StreamAction::Send(frame) && {
                &&& frame.contents() == data@.take(meta.bytesused as int)
                &&& frame.width == format.width && frame.height == format.height
                &&& frame.stride == format.stride && frame.pixel_format == format.pixel_format
                &&& frame.yuv_colorimetry == format.yuv_colorimetry
                &&& frame.capture_timestamp_ns == capture_timestamp_ns
            }
        } else {
            action is Continue
        },
{
    law_buffers_are_judged(
        health,
        format.stall_warning_threshold_ns,
        meta,
        data@.len() as usize,
        received_at,
    );
}

/// A timeout has the stream start over, unless a stop was asked for; an error has
/// no effect, unless it says that the device is gone: that is reported, in the
/// words that end the node, and ends the loop.
pub proof fn law_timeouts_and_errors(
    health: CaptureHealth,
    format: NegotiatedFormat,
    stop_requested: bool,
    now: u128,
    message: &str,
    after_timeout: StreamAction,
    after_error: StreamAction,
)
    requires
        is_action_for(
            health,
            format,
            StreamEvent::TimedOut { stop_requested, now },
            after_timeout,
        ),
        is_action_for(health, format, StreamEvent::Failed { message }, after_error),
    ensures
        stop_requested ==> after_timeout is Exit,
        !stop_requested ==> after_timeout is ResetStream,
        !says_disconnected(message@, lowercase(message@)) ==> after_error is Continue,
        says_disconnected(message@, lowercase(message@)) ==> (
        after_error matches StreamAction::ReportAndExit(CaptureMessage::Disconnected(reason))
            && reason@ == "摄像头已断开连接 (设备可能已被拔出或 USB 断开)"@),
        health_after(health, format, StreamEvent::Failed { message }) == health,
        health_after(health, format, StreamEvent::TimedOut { stop_requested: true, now }) == health,
        health_after(health, format, StreamEvent::TimedOut { stop_requested: false, now })
            == health.after_timeout(now),
{
}

/// The lines about a buffer: one about its being late, one about missing frames
/// and one about its being dropped, each only where there is that to report, in
/// this order and with the numbers of the report; times are in milliseconds.
pub proof fn law_lines_about_a_buffer(
    report: BufferReport,
    threshold_ns: u128,
    meta: BufferMeta,
    buffer_len: nat,
)
    ensures
        ({
            let late: Seq<Seq<char>> = match report.stall {
                Some(w) => seq![
                    "V4L2 capture warning: long frame interval sequence="@ + decimal(
                        w.sequence as nat,
                    ) + " interval_ms="@ + decimal(w.interval_ns as nat / 1_000_000)
                        + " threshold_ms="@ + decimal(threshold_ns as nat / 1_000_000)
                        + " total_stalls="@ + decimal(w.total as nat),
                ],
                None => Seq::empty(),
            };
            let missing: Seq<Seq<char>> = match report.gap {
                Some(w) => seq![
                    "V4L2 capture warning: sequence gap previous_sequence="@ + decimal(
                        w.previous_sequence as nat,
                    ) + " sequence="@ + decimal(w.sequence as nat) + " missing_frames="@ + decimal(
                        w.missing as nat,
                    ) + " total_gap_events="@ + decimal(w.total_events as nat)
                        + " total_missing_frames="@ + decimal(w.total_frames as nat),
                ],
                None => Seq::empty(),
            };
            let dropped: Seq<Seq<char>> = match report.outcome {
                BufferOutcome::Corrupted { log, total } => if log {
                    seq![
                        "V4L2 capture warning: dropping corrupted frame sequence="@ + decimal(
                            meta.sequence as nat,
                        ) + " bytesused="@ + decimal(meta.bytesused as nat) + " total_dropped="@
                            + decimal(total as nat),
                    ]
                } else {
                    Seq::empty()
                },
                BufferOutcome::InvalidSize { bytes_used } => seq![
                    "V4L2 capture warning: invalid bytesused="@ + decimal(bytes_used as nat)
                        + " for mmap buffer size="@ + decimal(buffer_len),
                ],
                BufferOutcome::Deliver { .. } => Seq::empty(),
            };
            buffer_lines(report, threshold_ns, meta, buffer_len) == late + missing + dropped
        }),
{
    let stall: Option<Seq<char>> = match report.stall {
        Some(w) => Some(stall_text(w, threshold_ns)),
        None => None,
    };
    let gap: Option<Seq<char>> = match report.gap {
        Some(w) => Some(gap_text(w)),
        None => None,
    };
    let outcome: Option<Seq<char>> = outcome_line(report.outcome, meta, buffer_len);
    reveal_with_fuel(present, 4);
    assert(seq![stall, gap, outcome].drop_last() =~= seq![stall, gap]);
    assert(seq![stall, gap].drop_last() =~= seq![stall]);
    assert(seq![stall].drop_last() =~= Seq::empty());
    let late: Seq<Seq<char>> = match stall {
        Some(line) => seq![line],
        None => Seq::empty(),
    };
    let missing: Seq<Seq<char>> = match gap {
        Some(line) => seq![line],
        None => Seq::empty(),
    };
    let dropped: Seq<Seq<char>> = match outcome {
        Some(line) => seq![line],
        None => Seq::empty(),
    };
    assert(buffer_lines(report, threshold_ns, meta, buffer_len) =~= late + missing + dropped);
}

/// The lines about timeouts and errors: a timeout is reported if it is time for
/// that, with the length of its run and the number of all; every error is
/// reported, with its text, and as what it is if it says that the device is gone.
/// A buffer is reported on by its own lines.
pub proof fn law_lines_about_other_events(
    health: CaptureHealth,
    format: NegotiatedFormat,
    stop_requested: bool,
    now: u128,
    message: &str,
)
    requires
        health.capture_timeouts < u64::MAX,
        health.consecutive_capture_timeouts < u64::MAX,
    ensures
        ({
            let due = match health.last_timeout_warning_at {
                None => true,
                Some(at) => now >= at + 5_000_000_000,
            };
            lines_for(health, format, StreamEvent::TimedOut { stop_requested, now }) == (
            if stop_requested || !due {
                Seq::empty()
            } else {
                seq![
                    "V4L2 capture warning: frame timeout timeout_ms="@ + decimal(2000)
                        + " consecutive_timeouts="@ + decimal(
                        (health.consecutive_capture_timeouts + 1) as nat,
                    ) + " total_timeouts="@ + decimal((health.capture_timeouts + 1) as nat),
                ]
            })
        }),
        lines_for(health, format, StreamEvent::Failed { message }) == seq![
            if says_disconnected(message@, lowercase(message@)) {
                "V4L2 device disconnected: "@ + message@
            } else {
                "V4L2 capture warning: "@ + message@
            },
        ],
{
    assert(millis(CAPTURE_POLL_TIMEOUT_NS as nat) == 2000);
}

/// What is said of a buffer and what becomes of it follow from one report.
pub proof fn law_buffer_events(
    health: CaptureHealth,
    format: NegotiatedFormat,
    data: &[u8],
    meta: BufferMeta,
    received_at: u128,
    capture_timestamp_ns: Option<i64>,
)
    requires
        data@.len() <= usize::MAX,
    ensures
        ({
            let event = StreamEvent::Buffer { data, meta, received_at, capture_timestamp_ns };
            let limit = format.stall_warning_threshold_ns;
            let report = health.buffer_report(limit, meta, data@.len() as usize, received_at);
            &&& lines_for(health, format, event) == buffer_lines(report, limit, meta, data@.len())
            &&& health_after(health, format, event) == health.after_buffer(limit, meta, received_at)
        }),
{
}

/// The kinds of warnings that are kept apart in time.
pub ghost enum HealthWarning {
    Timeout,
    Stall,
    Gap,
}

/// The instant of what the stream yielded, where it has one.
pub open spec fn instant_of(event: StreamEvent<'_>) -> Option<u128> {
    match event {
        StreamEvent::Buffer { received_at, .. } => Some(received_at),
        StreamEvent::TimedOut { now, .. } => Some(now),
        StreamEvent::Failed { .. } => None,
    }
}

/// Among the lines about what the stream yielded is a warning of this kind.
pub open spec fn warns(
    health: CaptureHealth,
    format: NegotiatedFormat,
    event: StreamEvent<'_>,
    kind: HealthWarning,
) -> bool {
    match event {
        StreamEvent::Buffer { data, meta, received_at, .. } => {
            let report = report_on(health, format, data@, meta, received_at);
            ||| kind is Stall && report.stall is Some
            ||| kind is Gap && report.gap is Some
        },
        StreamEvent::TimedOut { stop_requested, now } => kind is Timeout && !stop_requested
            && health.timeout_is_reported(now),
        StreamEvent::Failed { .. } => false,
    }
}

/// The instant of the last warning of a kind.
pub open spec fn last_warning(health: CaptureHealth, kind: HealthWarning) -> Option<u128> {
    match kind {
        HealthWarning::Timeout => health.last_timeout_warning_at,
        HealthWarning::Stall => health.last_stall_warning_at,
        HealthWarning::Gap => health.last_sequence_warning_at,
    }
}

/// The state of the loop after all that the stream yielded, in order.
pub open spec fn health_after_all(
    health: CaptureHealth,
    format: NegotiatedFormat,
    events: Seq<StreamEvent<'_>>,
) -> CaptureHealth
    decreases events.len(),
{
    if events.len() == 0 {
        health
    } else {
        health_after(
            health_after_all(health, format, events.drop_last()),
            format,
            events.last(),
        )
    }
}

/// The `i`-th thing that the stream yields leads to a warning of this kind.
pub open spec fn warns_at(
    health: CaptureHealth,
    format: NegotiatedFormat,
    events: Seq<StreamEvent<'_>>,
    i: int,
    kind: HealthWarning,
) -> bool {
    warns(health_after_all(health, format, events.take(i)), format, events[i], kind)
}

/// Once a warning of a kind was given, the last one is no earlier.
proof fn lemma_last_warning_moves_on(
    health: CaptureHealth,
    format: NegotiatedFormat,
    events: Seq<StreamEvent<'_>>,
    i: int,
    k: int,
    kind: HealthWarning,
)
    requires
        0 <= i < k <= events.len(),
        warns_at(health, format, events, i, kind),
    ensures
        instant_of(events[i]) is Some,
        last_warning(health_after_all(health, format, events.take(k)), kind) matches Some(last)
            && last >= instant_of(events[i])->0,
    decreases k,
{
    assert(events.take(k).drop_last() =~= events.take(k - 1));
    if i < k - 1 {
        lemma_last_warning_moves_on(health, format, events, i, k - 1, kind);
    }
}

/// Two warnings of one kind are at least five seconds apart, whatever the stream
/// yields between them.
pub proof fn law_warnings_of_one_kind_are_spaced(
    health: CaptureHealth,
    format: NegotiatedFormat,
    events: Seq<StreamEvent<'_>>,
    i: int,
    j: int,
    kind: HealthWarning,
)
    requires
        0 <= i < j < events.len(),
        warns_at(health, format, events, i, kind),
        warns_at(health, format, events, j, kind),
    ensures
        instant_of(events[i]) is Some,
        instant_of(events[j]) is Some,
        instant_of(events[j])->0 - instant_of(events[i])->0 >= 5_000_000_000,
{
    lemma_last_warning_moves_on(health, format, events, i, j, kind);
}

/// `on_stream_event` takes note of what the stream yielded, says what the loop does
/// next, and hands out the lines about it.
pub proof fn law_events_are_handled(
    format: &NegotiatedFormat,
    event: StreamEvent<'_>,
    r: (StreamAction, Vec<String>),
)
    ensures
        forall|health: &mut CaptureHealth| #[trigger]
            call_ensures(on_stream_event, (health, format, event), r) ==> {
                &&& *final(health) == health_after(*health, *format, event)
                &&& is_action_for(*health, *format, event, r.0)
                &&& texts(r.1@) == lines_for(*health, *format, event)
            },
{
}

} // verus!
