//! The node's part of a dataflow: when it captures, and when it ends.

use vstd::prelude::*;

use crate::backend::{can_direct_use_mjpeg, CaptureBackend, CapturedFrame, PixelFormat};
use crate::batch::{batch_rows, MessageBatch};
use crate::capture_error::{capture_error_text, CaptureError};
use crate::capture_health::disconnected_reason_text;
use crate::config::{CameraConfig, ImageFormat};
use crate::message::{
    build_error_text, image_from_captured_frame, is_of_format, is_passed_through, message_of_frame,
    BuildError, OutputFields,
};
use crate::pixels::{frame_is_convertible, is_convertible};
use crate::snapshot::is_retryable;
use crate::text::{
    contains, decimal, has_substring, has_word, law_words_are_found, same_text,
};

verus! {

/// The input whose arrival asks for a frame.
pub const TICK_INPUT: &'static str = "tick";

/// The message says that the camera is gone, which ends the node.
pub open spec fn says_camera_gone(message: Seq<char>) -> bool {
    has_substring(message, "摄像头已断开连接"@) || has_substring(message, "摄像头采集线程已退出"@)
        || has_substring(message, "设备可能已被拔出"@)
}

/// Whether a message says that the camera is gone. Such an error ends the node,
/// any other is only worth a warning.
pub fn is_usb_camera_disconnected_error(msg: &str) -> (r: bool)
    ensures
        r == says_camera_gone(msg@),
{
    contains(msg, "摄像头已断开连接") || contains(msg, "摄像头采集线程已退出") || contains(
        msg,
        "设备可能已被拔出",
    )
}

/// What the dataflow tells the node.
#[derive(Debug, Clone, PartialEq, Eq)]
pub enum NodeEvent {
    /// Data arrived at the input of this name.
    Input(String),
    Stop,
    Error(String),
    /// Anything else.
    Other,
    /// There will be no more events.
    Closed,
}

/// What the node does about it.
#[derive(Debug, Clone, PartialEq, Eq)]
pub enum NodeAction {
    /// Capture a frame and send it.
    Capture,
    /// Wait for the next event.
    Wait,
    /// End without error.
    Exit,
    /// End with this error.
    Fail(String),
}

/// Decides what an event asks for.
pub fn on_event(event: NodeEvent) -> (r: NodeAction)
    ensures
        match event {
            NodeEvent::Input(id) => r == (if id@ == TICK_INPUT@ {
                NodeAction::Capture
            } else {
                NodeAction::Wait
            }),
            NodeEvent::Stop => r == NodeAction::Exit,
            NodeEvent::Closed => r == NodeAction::Exit,
            NodeEvent::Error(message) => r matches NodeAction::Fail(text) && text@
                == "Dora error: "@ + message@,
            NodeEvent::Other => r == NodeAction::Wait,
        },
{
    match event {
        NodeEvent::Input(id) => if same_text(id.as_str(), TICK_INPUT) {
            NodeAction::Capture
        } else {
            NodeAction::Wait
        },
        NodeEvent::Stop => NodeAction::Exit,
        NodeEvent::Closed => NodeAction::Exit,
        NodeEvent::Error(message) => {
            let mut text: String = "Dora error: ".to_owned();
            text.append(message.as_str());
            NodeAction::Fail(text)
        },
        NodeEvent::Other => NodeAction::Wait,
    }
}

/// Why there is no message for a tick.
#[derive(Debug, Clone, PartialEq, Eq)]
pub enum NodeError {
    /// No frame could be captured.
    Capture(CaptureError),
    /// The frame could not be turned into a message.
    Build(BuildError),
    /// The frame is not one that can be converted: it is not compressed and has
    /// neither a width nor a stride, or it is grey or YUYV and complete, and its
    /// image would not fit in memory.
    Unconvertible,
}

/// Captures a frame, once, and builds the batch that carries it, with the time
/// at which the frame was captured. Which frame it is, the backend decides.
pub fn capture_and_build_image<B: CaptureBackend>(
    backend: &mut B,
    config: &CameraConfig,
) -> (r: Result<(MessageBatch, Option<i64>), NodeError>)
    ensures
        exists|source: &mut B, got: Result<CapturedFrame, CaptureError>|
            *source == *old(backend) && *final(source) == *final(backend) && #[trigger]
                call_ensures(B::capture_frame, (source,), got) && match got {
                Ok(frame) => is_built(frame, *config, r),
                Err(e) => r == Err::<(MessageBatch, Option<i64>), NodeError>(NodeError::Capture(e)),
            },
{
    match backend.capture_frame() {
        Ok(frame) => build_image(frame, config),
        Err(e) => Err(NodeError::Capture(e)),
    }
}

/// The batch carries the frame's message in the format that is configured, and
/// the time is that of the frame.
pub open spec fn carries_frame(
    batch: MessageBatch,
    time_ns: Option<i64>,
    frame: CapturedFrame,
    config: CameraConfig,
) -> bool {
    let message = message_of_frame(frame, config.image_format, config.image_jpeg_quality);
    &&& message is Ok
    &&& batch_rows(batch) == seq![message->Ok_0.row()]
    &&& is_of_format(message->Ok_0, config.image_format)
    &&& time_ns == frame.capture_timestamp_ns
}

/// The result is that of building the message of this frame.
pub open spec fn is_built(
    frame: CapturedFrame,
    config: CameraConfig,
    r: Result<(MessageBatch, Option<i64>), NodeError>,
) -> bool {
    if !is_convertible(frame) && !is_passed_through(frame, config.image_format) {
        r == Err::<(MessageBatch, Option<i64>), NodeError>(NodeError::Unconvertible)
    } else {
        match r {
            Ok((batch, time_ns)) => carries_frame(batch, time_ns, frame, config),
            Err(NodeError::Build(e)) => message_of_frame(
                frame,
                config.image_format,
                config.image_jpeg_quality,
            ) == Err::<OutputFields, Seq<char>>(build_error_text(e)),
            Err(_) => false,
        }
    }
}

/// Builds the batch that carries a frame, with the time at which the frame was
/// captured.
pub fn build_image(frame: CapturedFrame, config: &CameraConfig) -> (r: Result<
    (MessageBatch, Option<i64>),
    NodeError,
>)
    ensures
        is_built(frame, *config, r),
{
    let time_ns: Option<i64> = frame.capture_timestamp_ns;
    if !can_direct_use_mjpeg(frame.pixel_format, config.image_format)
        && !frame_is_convertible(&frame) {
        return Err(NodeError::Unconvertible);
    }
    match image_from_captured_frame(frame, config) {
        Ok(batch) => Ok((batch, time_ns)),
        Err(e) => Err(NodeError::Build(e)),
    }
}

/// What the node does about an error.
#[derive(Debug, Clone, Copy, PartialEq, Eq, Structural)]
pub enum ErrorAction {
    /// End with the error.
    Exit,
    /// Log it and go on.
    Continue,
}

/// Decides what follows an error of capturing or building, by its text.
pub fn on_capture_error(message: &str) -> (r: ErrorAction)
    ensures
        r == (if says_camera_gone(message@) {
            ErrorAction::Exit
        } else {
            ErrorAction::Continue
        }),
{
    if is_usb_camera_disconnected_error(message) {
        ErrorAction::Exit
    } else {
        ErrorAction::Continue
    }
}

/// What the capture thread reports when the device is gone, and the error that
/// follows its end, both end the node; after the report no snapshot is tried
/// again either.
pub proof fn law_lost_camera_ends_the_node(reason: String)
    requires
        reason@ == disconnected_reason_text(),
    ensures
        says_camera_gone(capture_error_text(CaptureError::Disconnected(reason))),
        !is_retryable(capture_error_text(CaptureError::Disconnected(reason))),
        says_camera_gone(capture_error_text(CaptureError::ThreadExited)),
{
    reveal_strlit("摄像头已断开连接 (设备可能已被拔出或 USB 断开)");
    reveal_strlit("摄像头已断开连接");
    reveal_strlit("摄像头采集线程已退出，请检查设备是否已断开");
    reveal_strlit("摄像头采集线程已退出");
    let gone: Seq<char> = "摄像头已断开连接"@;
    let ended: Seq<char> = "摄像头采集线程已退出"@;
    assert(reason@.subrange(0, 0int + gone.len()) =~= gone);
    assert(capture_error_text(CaptureError::ThreadExited).subrange(0, 0int + ended.len()) =~= ended);
}

/// A text without a character has no part with that character.
proof fn lemma_absent_char(s: Seq<char>, part: Seq<char>, c: char)
    requires
        !s.contains(c),
        part.contains(c),
    ensures
        !has_substring(s, part),
{
    if has_substring(s, part) {
        let i: int = choose|i: int|
            0 <= i && i + part.len() <= s.len() && #[trigger] s.subrange(i, i + part.len()) == part;
        let k: int = part.index_of(c);
        assert(part[k] == c);
        assert(s.subrange(i, i + part.len())[k] == s[i + k]);
        assert(s.contains(c));
    }
}

/// What else capturing can fail with, which is waiting too long for a frame,
/// does not end the node: the next tick tries again.
pub proof fn law_timeouts_do_not_end_the_node(e: CaptureError)
    requires
        e == CaptureError::FrameTimeout || e == CaptureError::FreshFrameTimeout,
    ensures
        !says_camera_gone(capture_error_text(e)),
{
    reveal_strlit("等待摄像头帧超时 (");
    reveal_strlit("等待摄像头新帧超时 (");
    reveal_strlit("ms)，请检查设备是否输出视频或是否被占用");
    reveal_strlit("s)，请检查设备是否输出视频或是否被占用");
    reveal_strlit("摄像头已断开连接");
    reveal_strlit("摄像头采集线程已退出");
    reveal_strlit("设备可能已被拔出");
    reveal_with_fuel(decimal, 4);
    let text: Seq<char> = capture_error_text(e);
    assert(decimal(500) =~= seq!['5', '0', '0']);
    assert(decimal(5) =~= seq!['5']);
    assert(!text.contains('已'));
    assert("摄像头已断开连接"@[3] == '已');
    assert("摄像头采集线程已退出"@[7] == '已');
    assert("设备可能已被拔出"@[4] == '已');
    lemma_absent_char(text, "摄像头已断开连接"@, '已');
    lemma_absent_char(text, "摄像头采集线程已退出"@, '已');
    lemma_absent_char(text, "设备可能已被拔出"@, '已');
}

/// An error after which no snapshot is tried again would end the node too.
pub proof fn law_final_snapshot_errors_end_the_node(message: Seq<char>)
    requires
        !is_retryable(message),
    ensures
        says_camera_gone(message),
{
}

/// The node ends over an error exactly if its text says that the camera was
/// disconnected or pulled out, or that the capture thread has ended.
pub proof fn law_words_for_a_lost_camera(message: &str, r: ErrorAction)
    requires
        call_ensures(on_capture_error, (message,), r),
    ensures
        r == ErrorAction::Exit <==> {
            ||| has_word(message@, "摄像头已断开连接"@)
            ||| has_word(message@, "摄像头采集线程已退出"@)
            ||| has_word(message@, "设备可能已被拔出"@)
        },
{
    law_words_are_found(message@, "摄像头已断开连接"@);
    law_words_are_found(message@, "摄像头采集线程已退出"@);
    law_words_are_found(message@, "设备可能已被拔出"@);
}

/// A tick asks for a frame, and no other input does; a stop, or the end of all
/// events, ends the node; an error ends it with its text.
pub proof fn law_ticks_ask_for_frames(event: NodeEvent, r: NodeAction)
    requires
        call_ensures(on_event, (event,), r),
    ensures
        r == NodeAction::Capture <==> (event matches NodeEvent::Input(id) && id@ == "tick"@),
        r == NodeAction::Exit <==> event is Stop || event is Closed,
        r is Fail <==> event is Error,
        event matches NodeEvent::Error(message) ==> (r matches NodeAction::Fail(text) && text@
            == "Dora error: "@ + message@),
{
}

/// The message that is built of a frame carries the time of that frame, and its
/// content is that of the frame's message in the format and at the quality that
/// are configured. There is none exactly if there is no such message.
pub proof fn law_built_message_is_that_of_the_frame(
    frame: CapturedFrame,
    config: CameraConfig,
    r: Result<(MessageBatch, Option<i64>), NodeError>,
)
    requires
        is_built(frame, config, r),
        is_convertible(frame) || (frame.pixel_format == PixelFormat::Mjpeg && config.image_format
            == ImageFormat::Jpeg),
    ensures
        ({
            let message = message_of_frame(frame, config.image_format, config.image_jpeg_quality);
            match r {
                Ok((batch, time_ns)) => {
                    &&& time_ns == frame.capture_timestamp_ns
                    &&& message matches Ok(m) && batch_rows(batch).len() == 1 && batch_rows(batch)[0]
                        == m.row()
                },
                Err(e) => e is Build && message is Err,
            }
        }),
{
}

} // verus!
