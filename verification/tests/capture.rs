use bytes::Bytes;
use crossbeam_channel::bounded;
use usb_camera::backend::{CaptureBackend, CapturedFrame, PixelFormat, YuvMatrix, YuvRange};
use usb_camera::backend_v4l::{
    after_init, after_poll, after_send, after_shutdown, after_stream_failure, asks_to_stop,
    await_init, await_shutdown, replace_pending_message, stop_requested, wait_was_cut_short,
    wait_with_ebusy_jitter, CaptureMessage, DrainStep, InitAction, ReplaceStep, ShutdownAction,
    V4lBackend, WaitKind,
};
use usb_camera::capture_error::CaptureError;
use usb_camera::capture_health::{
    buffer_is_corrupted, capture_timestamp_ns, captured_frame, disconnected_reason,
    is_device_disconnected_error, sequence_gap, should_log_health_warning, BufferMeta,
    BufferOutcome, CaptureHealth, NegotiatedFormat, TimeoutAction, HEALTH_WARNING_INTERVAL_NS,
};
use usb_camera::capture_loop::{on_stream_event, StreamAction, StreamEvent};
use usb_camera::channel::{Inbox, Outbox, Polled, SendOutcome, Waited};
use usb_camera::config::{CameraConfig, FrameRate, ImageFormat};
use usb_camera::negotiation::{
    after_stream_error, device_selector, frame_colorimetry, jittered_wait_ms, parse_device_index,
    pixel_format_from_fourcc, requested_format, yuv_colorimetry, Colorspace, DeviceSelector,
    Quantization, StreamRetry,
};

const SECOND_NS: u128 = 1_000_000_000;

fn test_frame(value: u8) -> CapturedFrame {
    CapturedFrame {
        width: 1,
        height: 1,
        stride: 1,
        pixel_format: PixelFormat::Gray8,
        yuv_colorimetry: None,
        capture_timestamp_ns: Some(i64::from(value)),
        data: Bytes::from(vec![value]),
    }
}

#[test]
fn cached_frame_keeps_capture_timestamp_until_replaced() {
    let (frame_tx, receiver) = bounded(1);
    let mut backend = V4lBackend::new(receiver);
    backend.last_frame = Some(test_frame(7));

    let cached = backend.capture_frame().unwrap();
    frame_tx
        .try_send(CaptureMessage::Frame(test_frame(9)))
        .unwrap();
    let fresh = backend.capture_frame().unwrap();
    let cached_fresh = backend.capture_frame().unwrap();

    assert_eq!(cached.capture_timestamp_ns, Some(7));
    assert_eq!(fresh.capture_timestamp_ns, Some(9));
    assert_eq!(cached_fresh.capture_timestamp_ns, Some(9));
    assert_eq!(cached_fresh.data.as_ref(), &[9]);
}

#[test]
fn newest_of_several_frames_is_returned() {
    let (frame_tx, receiver) = bounded(3);
    let mut backend = V4lBackend::new(receiver);
    for value in [1, 2, 3] {
        frame_tx
            .try_send(CaptureMessage::Frame(test_frame(value)))
            .unwrap();
    }
    assert_eq!(backend.capture_frame().unwrap().capture_timestamp_ns, Some(3));
    assert_eq!(backend.last_frame.unwrap().capture_timestamp_ns, Some(3));
}

#[test]
fn disconnection_is_reported_even_behind_a_frame() {
    let (frame_tx, receiver) = bounded(2);
    let mut backend = V4lBackend::new(receiver);
    backend.last_frame = Some(test_frame(1));
    frame_tx
        .try_send(CaptureMessage::Frame(test_frame(2)))
        .unwrap();
    frame_tx
        .try_send(CaptureMessage::Disconnected("gone".to_string()))
        .unwrap();
    assert_eq!(
        backend.capture_frame().unwrap_err(),
        CaptureError::Disconnected("gone".to_string())
    );
    assert_eq!(backend.last_frame.unwrap().capture_timestamp_ns, Some(1));
}

#[test]
fn ended_capture_thread_is_reported_despite_a_cached_frame() {
    let (frame_tx, receiver) = bounded::<CaptureMessage>(1);
    drop(frame_tx);
    let mut backend = V4lBackend::new(receiver);
    backend.last_frame = Some(test_frame(1));
    let error = backend.capture_frame().unwrap_err();
    assert_eq!(error, CaptureError::ThreadExited);
    assert_eq!(
        error.message(),
        "摄像头采集线程已退出，请检查设备是否已断开"
    );
    assert_eq!(
        backend.capture_fresh_frame().unwrap_err(),
        CaptureError::ThreadExited
    );
}

#[test]
fn first_frame_is_waited_for_half_a_second() {
    let (_frame_tx, receiver) = bounded::<CaptureMessage>(1);
    let mut backend = V4lBackend::new(receiver);
    let error = backend.capture_frame().unwrap_err();
    assert_eq!(error, CaptureError::FrameTimeout);
    assert_eq!(
        error.message(),
        "等待摄像头帧超时 (500ms)，请检查设备是否输出视频或是否被占用"
    );
}

#[test]
fn fresh_frame_is_never_the_cached_one() {
    let (frame_tx, receiver) = bounded(1);
    let mut backend = V4lBackend::new(receiver);
    backend.last_frame = Some(test_frame(1));
    frame_tx
        .try_send(CaptureMessage::Frame(test_frame(5)))
        .unwrap();
    assert_eq!(
        backend.capture_fresh_frame().unwrap().capture_timestamp_ns,
        Some(5)
    );
    frame_tx
        .try_send(CaptureMessage::Disconnected("gone".to_string()))
        .unwrap();
    assert!(backend.capture_fresh_frame().is_err());
    assert_eq!(backend.last_frame.unwrap().capture_timestamp_ns, Some(5));
}

#[test]
fn disconnected_message_replaces_pending_frame_without_blocking() {
    let (tx, rx) = bounded(1);
    tx.try_send(CaptureMessage::Frame(test_frame(1))).unwrap();
    assert!(replace_pending_message(
        &mut Outbox::new(rx.clone(), tx),
        CaptureMessage::Disconnected("gone".to_string())
    ));
    assert!(matches!(
        rx.try_recv().unwrap(),
        CaptureMessage::Disconnected(reason) if reason == "gone"
    ));
}

#[test]
fn replaced_message_is_all_that_the_channel_holds() {
    let (tx, rx) = bounded(1);
    let mut outbox = Outbox::new(rx.clone(), tx);
    for value in [1, 2, 3] {
        assert!(replace_pending_message(
            &mut outbox,
            CaptureMessage::Frame(test_frame(value))
        ));
        assert_eq!(rx.len(), 1);
    }
    assert!(matches!(
        rx.try_recv().unwrap(),
        CaptureMessage::Frame(frame) if frame.capture_timestamp_ns == Some(3)
    ));
    assert!(rx.is_empty());
}

#[test]
fn message_without_receiver_is_not_sent() {
    let (tx, rx) = bounded(1);
    let (_other_tx, other_rx) = bounded::<CaptureMessage>(1);
    drop(rx);
    assert!(!replace_pending_message(
        &mut Outbox::new(other_rx, tx),
        CaptureMessage::Frame(test_frame(1))
    ));
}

#[test]
fn what_follows_each_channel_event() {
    assert!(matches!(after_send(SendOutcome::Sent), ReplaceStep::Done));
    assert!(matches!(after_send(SendOutcome::Closed), ReplaceStep::Closed));
    assert!(matches!(
        after_send(SendOutcome::Full(CaptureMessage::Disconnected("x".to_string()))),
        ReplaceStep::Again(CaptureMessage::Disconnected(reason)) if reason == "x"
    ));

    assert!(matches!(
        after_poll(None, Polled::Message(CaptureMessage::Frame(test_frame(4)))),
        DrainStep::Again(Some(frame)) if frame.capture_timestamp_ns == Some(4)
    ));
    assert!(matches!(
        after_poll(Some(test_frame(4)), Polled::Empty),
        DrainStep::Drained(Some(frame)) if frame.capture_timestamp_ns == Some(4)
    ));
    assert!(matches!(
        after_poll(Some(test_frame(4)), Polled::Closed),
        DrainStep::Failed(CaptureError::ThreadExited)
    ));
    assert!(matches!(
        after_poll(None, Polled::Message(CaptureMessage::Disconnected("x".to_string()))),
        DrainStep::Failed(CaptureError::Disconnected(reason)) if reason == "x"
    ));

    let (_tx, receiver) = bounded(1);
    let mut backend = V4lBackend::new(receiver);
    assert_eq!(
        backend
            .after_wait(Waited::TimedOut, WaitKind::FreshFrame)
            .unwrap_err(),
        CaptureError::FreshFrameTimeout
    );
    assert_eq!(
        CaptureError::FreshFrameTimeout.message(),
        "等待摄像头新帧超时 (5s)，请检查设备是否输出视频或是否被占用"
    );
}

#[test]
fn opening_the_device_is_waited_for() {
    let (tx, receiver) = bounded(1);
    let mut rx = Inbox::new(receiver, ());
    tx.try_send(Ok(())).unwrap();
    assert!(matches!(await_init(&mut rx), InitAction::Proceed));
    tx.try_send(Err("busy".to_string())).unwrap();
    match await_init(&mut rx) {
        InitAction::StopAndJoin(error) => {
            assert_eq!(error.message(), "摄像头初始化失败: busy");
        }
        other => panic!("unexpected {other:?}"),
    }
    drop(tx);
    match await_init(&mut rx) {
        InitAction::Join(error) => assert_eq!(error.message(), "摄像头后台线程异常退出"),
        other => panic!("unexpected {other:?}"),
    }
    match after_init(Waited::TimedOut) {
        InitAction::StopAndReap(error) => assert_eq!(
            error.message(),
            "摄像头初始化超时 (20s)，请检查设备是否被其他程序占用或设备是否存在"
        ),
        other => panic!("unexpected {other:?}"),
    }
}

#[test]
fn shutdown_joins_an_ended_thread() {
    let (tx, receiver) = bounded(1);
    let mut rx = Inbox::new(receiver, ());
    tx.try_send(()).unwrap();
    assert_eq!(await_shutdown(&mut rx), ShutdownAction::Join);
    drop(tx);
    assert_eq!(await_shutdown(&mut rx), ShutdownAction::Join);
    assert_eq!(after_shutdown(Waited::TimedOut), ShutdownAction::Reap);
}

#[test]
fn stop_requests_are_noticed() {
    let (tx, receiver) = bounded(1);
    let mut rx = Inbox::new(receiver, ());
    assert!(!stop_requested(&mut rx));
    assert!(!wait_with_ebusy_jitter(0, &mut rx));
    tx.try_send(()).unwrap();
    assert!(wait_with_ebusy_jitter(0, &mut rx));
    tx.try_send(()).unwrap();
    assert!(stop_requested(&mut rx));
    drop(tx);
    assert!(stop_requested(&mut rx));
    assert!(wait_with_ebusy_jitter(10_000, &mut rx));
    assert!(!asks_to_stop(Polled::Empty));
    assert!(!wait_was_cut_short(Waited::TimedOut));
}

#[test]
fn random_waits_stay_in_range_and_vary() {
    let waits: Vec<u64> = (0..64).map(|_| jittered_wait_ms(100)).collect();
    assert!(waits.iter().all(|wait| (100..=600).contains(wait)));
    assert!(waits.iter().any(|wait| *wait != waits[0]));
}

#[test]
fn rejects_unknown_fourcc() {
    assert!(matches!(
        pixel_format_from_fourcc(*b"MJPG").unwrap(),
        PixelFormat::Mjpeg
    ));
    assert!(pixel_format_from_fourcc(*b"NV12").is_err());
}

#[test]
fn fourcc_codes_map_to_pixel_formats() {
    for (code, format) in [
        (*b"MJPG", PixelFormat::Mjpeg),
        (*b"RGB3", PixelFormat::Rgb8),
        (*b"BGR3", PixelFormat::Bgr8),
        (*b"YUYV", PixelFormat::Yuyv),
        (*b"YUY2", PixelFormat::Yuyv),
        (*b"GREY", PixelFormat::Gray8),
        (*b"Y800", PixelFormat::Gray8),
    ] {
        assert_eq!(pixel_format_from_fourcc(code).unwrap(), format);
    }
    assert_eq!(
        pixel_format_from_fourcc(*b"NV12").unwrap_err().message(),
        "设备协商出不支持的 V4L2 FourCC: NV12"
    );
    assert_eq!(
        pixel_format_from_fourcc([b'A', 0xff, b'B', b'C'])
            .unwrap_err()
            .message(),
        "设备协商出不支持的 V4L2 FourCC: A\u{fffd}BC"
    );
}

#[test]
fn devices_are_selected_by_index_or_path() {
    assert_eq!(device_selector("0"), DeviceSelector::Index(0));
    assert_eq!(device_selector("+7"), DeviceSelector::Index(7));
    assert_eq!(
        device_selector("/dev/video2"),
        DeviceSelector::Path("/dev/video2".to_string())
    );
    for text in [
        "0", "12", "+3", "007", "", "+", "-1", "1 ", " 1", "1a", "18446744073709551615",
        "18446744073709551616", "99999999999999999999999",
    ] {
        assert_eq!(parse_device_index(text), text.parse::<usize>().ok(), "{text}");
    }
}

fn config(image_format: ImageFormat) -> CameraConfig {
    CameraConfig {
        device: "/dev/video0".to_string(),
        output_id: "image".to_string(),
        image_format,
        image_jpeg_quality: 90,
        width: Some(640),
        height: None,
        fps: None,
    }
}

#[test]
fn jpeg_asks_for_mjpeg_and_the_rest_for_yuyv() {
    let request = requested_format(1920, 1080, &config(ImageFormat::Jpeg));
    assert_eq!((request.width, request.height), (640, 1080));
    assert_eq!(&request.fourcc, b"MJPG");
    assert_eq!(
        &requested_format(1, 1, &config(ImageFormat::Raw)).fourcc,
        b"YUYV"
    );
    assert_eq!(
        &requested_format(1, 1, &config(ImageFormat::Png)).fourcc,
        b"YUYV"
    );
}

#[test]
fn frame_rates_are_rounded_to_integers() {
    for fps in [1.0f32, 1.4, 1.5, 2.5, 29.97, 30.0, 59.5, 8388607.5, 16777215.0, 4.0e9, 4294967296.0, 1.0e30] {
        let rate = FrameRate { bits: fps.to_bits() };
        assert_eq!(rate.rounded_rate(), fps.round() as u32, "{fps}");
    }
}

#[test]
fn colorimetry_follows_the_driver() {
    let c = yuv_colorimetry(Colorspace::Jpeg, Quantization::Default);
    assert_eq!((c.range, c.matrix), (YuvRange::Full, YuvMatrix::Bt601));
    let c = yuv_colorimetry(Colorspace::Jpeg, Quantization::LimitedRange);
    assert_eq!(c.range, YuvRange::Limited);
    let c = yuv_colorimetry(Colorspace::Rec709, Quantization::Default);
    assert_eq!((c.range, c.matrix), (YuvRange::Limited, YuvMatrix::Bt709));
    let c = yuv_colorimetry(Colorspace::Srgb, Quantization::FullRange);
    assert_eq!((c.range, c.matrix), (YuvRange::Full, YuvMatrix::Bt601));
    assert!(frame_colorimetry(PixelFormat::Mjpeg, Colorspace::Jpeg, Quantization::Default).is_none());
    assert_eq!(
        frame_colorimetry(PixelFormat::Yuyv, Colorspace::Rec709, Quantization::FullRange)
            .unwrap()
            .matrix,
        YuvMatrix::Bt709
    );
}

#[test]
fn busy_devices_are_tried_again() {
    let busy = "Device or resource busy (os error 16)";
    assert_eq!(
        after_stream_error(0, busy),
        StreamRetry::Wait { backoff_ms: 150 }
    );
    assert_eq!(
        after_stream_error(10, busy),
        StreamRetry::Wait { backoff_ms: 1650 }
    );
    assert_eq!(
        after_stream_error(11, busy),
        StreamRetry::GiveUp(CaptureError::DeviceBusy)
    );
    assert_eq!(
        after_stream_error(0, "Invalid argument (os error 22)"),
        StreamRetry::GiveUp(CaptureError::StreamFailed)
    );
    assert_eq!(CaptureError::StreamFailed.message(), "failed to create v4l mmap stream");
    assert_eq!(
        CaptureError::DeviceBusy.message(),
        "摄像头设备正忙 (Device or resource busy)。请确认没有浏览器、VLC、其他相机节点或未退出的 usb_camera 进程正在占用该设备"
    );
    assert_eq!(CaptureError::InitCancelled.message(), "摄像头初始化已取消");
    assert_eq!(
        CaptureError::OpenIndex(3).message(),
        "failed to open v4l device index 3"
    );
    assert_eq!(
        CaptureError::OpenPath("/dev/video9".to_string()).message(),
        "failed to open v4l device path /dev/video9"
    );
    assert_eq!(CaptureError::QueryFormat.message(), "failed to query v4l format");
    assert_eq!(
        CaptureError::SetFormat.message(),
        "failed to set v4l capture format"
    );
    assert_eq!(CaptureError::ReapFailed.message(), "回收摄像头后台线程失败");
}

#[test]
fn detects_v4l2_corrupted_buffer_flag() {
    const DONE: u32 = 0x4;
    const ERROR: u32 = 0x40;
    assert!(!buffer_is_corrupted(0));
    assert!(!buffer_is_corrupted(DONE));

    assert!(buffer_is_corrupted(DONE | ERROR));
}

#[test]
fn detects_sequence_gaps_without_misreading_wrap_or_reset() {
    assert_eq!(sequence_gap(10, 11), 0);
    assert_eq!(sequence_gap(10, 14), 3);
    assert_eq!(sequence_gap(u32::MAX, 0), 0);
    assert_eq!(sequence_gap(100, 3), 0);
    assert_eq!(sequence_gap(u32::MAX / 2 + 100, 0), 0);
}

#[test]
fn sequence_gap_limits() {
    assert_eq!(sequence_gap(5, 5), 0);
    assert_eq!(sequence_gap(u32::MAX, 3), 3);
    assert_eq!(sequence_gap(0, 1_000_001), 1_000_000);
    assert_eq!(sequence_gap(0, 1_000_002), 0);
}

#[test]
fn health_warnings_are_limited_by_elapsed_time() {
    let start: u128 = 77 * SECOND_NS;
    let mut last_warning_at = None;
    assert!(should_log_health_warning(&mut last_warning_at, start));
    assert!(!should_log_health_warning(
        &mut last_warning_at,
        start + SECOND_NS
    ));
    assert!(should_log_health_warning(
        &mut last_warning_at,
        start + HEALTH_WARNING_INTERVAL_NS
    ));
    assert_eq!(last_warning_at, Some(start + HEALTH_WARNING_INTERVAL_NS));
}

fn format() -> NegotiatedFormat {
    NegotiatedFormat {
        width: 2,
        height: 1,
        stride: 4,
        pixel_format: PixelFormat::Yuyv,
        yuv_colorimetry: None,
        stall_warning_threshold_ns: SECOND_NS / 2,
    }
}

fn meta(sequence: u32, bytesused: u32, flags: u32) -> BufferMeta {
    BufferMeta {
        sequence,
        bytesused,
        flags,
    }
}

#[test]
fn health_counts_gaps_stalls_and_damaged_buffers() {
    let mut health = CaptureHealth::new();
    let report = health.on_buffer(&format(), meta(1, 4, 0), 8, SECOND_NS);
    assert!(report.stall.is_none() && report.gap.is_none());
    assert_eq!(report.outcome, BufferOutcome::Deliver { len: 4 });

    let report = health.on_buffer(&format(), meta(4, 4, 0x40), 8, 2 * SECOND_NS);
    let stall = report.stall.unwrap();
    assert_eq!((stall.sequence, stall.interval_ns, stall.total), (4, SECOND_NS, 1));
    let gap = report.gap.unwrap();
    assert_eq!((gap.previous_sequence, gap.sequence, gap.missing), (1, 4, 2));
    assert_eq!((gap.total_events, gap.total_frames), (1, 2));
    assert_eq!(report.outcome, BufferOutcome::Corrupted { log: true, total: 1 });

    // The second of each kind comes too early to be reported again.
    let report = health.on_buffer(&format(), meta(6, 9, 0x40), 8, 3 * SECOND_NS);
    assert!(report.stall.is_none() && report.gap.is_none());
    assert_eq!(report.outcome, BufferOutcome::Corrupted { log: false, total: 2 });
    assert_eq!((health.capture_stalls, health.sequence_gap_events, health.sequence_gap_frames), (2, 2, 3));

    let report = health.on_buffer(&format(), meta(7, 9, 0), 8, 3 * SECOND_NS);
    assert_eq!(report.outcome, BufferOutcome::InvalidSize { bytes_used: 9 });
    let report = health.on_buffer(&format(), meta(8, 0, 0), 8, 3 * SECOND_NS);
    assert_eq!(report.outcome, BufferOutcome::InvalidSize { bytes_used: 0 });
    let report = health.on_buffer(&format(), meta(9, 8, 0), 8, 3 * SECOND_NS);
    assert_eq!(report.outcome, BufferOutcome::Deliver { len: 8 });
}

#[test]
fn damaged_buffers_are_logged_every_hundred() {
    let mut health = CaptureHealth::new();
    let logged: Vec<u32> = (1..=250)
        .filter(|n| {
            matches!(
                health.on_buffer(&format(), meta(*n, 1, 0x40), 8, 0).outcome,
                BufferOutcome::Corrupted { log: true, .. }
            )
        })
        .collect();
    assert_eq!(logged, [1, 100, 200]);
}

#[test]
fn timeouts_reset_the_stream_and_forget_the_last_frame() {
    let mut health = CaptureHealth::new();
    health.on_buffer(&format(), meta(5, 4, 0), 8, SECOND_NS);
    match health.on_timeout(false, 3 * SECOND_NS) {
        TimeoutAction::ResetStream { warning: Some(warning) } => {
            assert_eq!((warning.consecutive, warning.total), (1, 1));
        }
        other => panic!("unexpected {other:?}"),
    }
    assert!(matches!(
        health.on_timeout(false, 5 * SECOND_NS),
        TimeoutAction::ResetStream { warning: None }
    ));
    match health.on_timeout(false, 8 * SECOND_NS) {
        TimeoutAction::ResetStream { warning: Some(warning) } => {
            assert_eq!((warning.consecutive, warning.total), (3, 3));
        }
        other => panic!("unexpected {other:?}"),
    }
    // Neither a stall nor a gap is seen across a timeout. A frame between two
    // timeouts does not bring the next warning forward.
    let report = health.on_buffer(&format(), meta(90, 4, 0), 8, 9 * SECOND_NS);
    assert!(report.stall.is_none() && report.gap.is_none());
    assert!(matches!(
        health.on_timeout(false, 13 * SECOND_NS - 1),
        TimeoutAction::ResetStream { warning: None }
    ));
    health.on_buffer(&format(), meta(91, 4, 0), 8, 13 * SECOND_NS - 1);
    match health.on_timeout(false, 13 * SECOND_NS) {
        TimeoutAction::ResetStream { warning: Some(warning) } => {
            assert_eq!((warning.consecutive, warning.total), (1, 5));
        }
        other => panic!("unexpected {other:?}"),
    }
    let before = health;
    assert_eq!(health.on_timeout(true, 99 * SECOND_NS), TimeoutAction::Exit);
    assert_eq!(health, before);
}

#[test]
fn frames_hold_the_used_part_of_the_buffer() {
    let frame = captured_frame(&format(), Some(42), &[1, 2, 3, 4, 5, 6], 4);
    assert_eq!((frame.width, frame.height, frame.stride), (2, 1, 4));
    assert_eq!(frame.capture_timestamp_ns, Some(42));
    assert_eq!(frame.data.as_ref(), &[1, 2, 3, 4]);
    assert_eq!(frame.clone().data.as_ref(), &[1, 2, 3, 4]);
}

#[test]
fn capture_times_fit_in_64_bits() {
    assert_eq!(capture_timestamp_ns(None), None);
    assert_eq!(capture_timestamp_ns(Some(5)), Some(5));
    assert_eq!(capture_timestamp_ns(Some(i64::MAX as u128)), Some(i64::MAX));
    assert_eq!(capture_timestamp_ns(Some(i64::MAX as u128 + 1)), None);
}

#[test]
fn disconnection_is_recognised_by_its_message() {
    for message in [
        "No such device (os error 19)",
        "NO SUCH FILE or directory",
        "device Disconnected",
        "Input/output error (os error 5)",
        "I/O Error",
        "error 5",
        "error 19",
    ] {
        assert!(is_device_disconnected_error(message), "{message}");
        match after_stream_failure(message) {
            Some(CaptureMessage::Disconnected(reason)) => {
                assert_eq!(reason, "摄像头已断开连接 (设备可能已被拔出或 USB 断开)");
                assert_eq!(reason, disconnected_reason());
            }
            other => panic!("unexpected {other:?}"),
        }
    }
    for message in ["Invalid argument (os error 22)", "ERROR 5", "busy"] {
        assert!(!is_device_disconnected_error(message), "{message}");
        assert!(after_stream_failure(message).is_none());
    }
}

#[test]
fn stream_events_lead_to_actions_and_lines() {
    let mut health = CaptureHealth::new();
    let format = format();
    let buffer = |sequence: u32, bytesused: u32, flags: u32, received_at: u128| StreamEvent::Buffer {
        data: &[1, 2, 3, 4, 5, 6, 7, 8],
        meta: meta(sequence, bytesused, flags),
        received_at,
        capture_timestamp_ns: Some(11),
    };
    let (action, lines) = on_stream_event(&mut health, &format, buffer(1, 3, 0, 0));
    match action {
        StreamAction::Send(frame) => {
            assert_eq!(frame.data.as_ref(), &[1, 2, 3]);
            assert_eq!(frame.capture_timestamp_ns, Some(11));
        }
        other => panic!("unexpected {other:?}"),
    }
    assert!(lines.is_empty());

    let (action, lines) = on_stream_event(&mut health, &format, buffer(5, 3, 0x40, 1_500_999_999));
    assert!(matches!(action, StreamAction::Continue));
    assert_eq!(
        lines,
        [
            "V4L2 capture warning: long frame interval sequence=5 interval_ms=1500 threshold_ms=500 total_stalls=1",
            "V4L2 capture warning: sequence gap previous_sequence=1 sequence=5 missing_frames=3 total_gap_events=1 total_missing_frames=3",
            "V4L2 capture warning: dropping corrupted frame sequence=5 bytesused=3 total_dropped=1",
        ]
    );

    let (action, lines) = on_stream_event(&mut health, &format, buffer(6, 9, 0, 1_600_000_000));
    assert!(matches!(action, StreamAction::Continue));
    assert_eq!(
        lines,
        ["V4L2 capture warning: invalid bytesused=9 for mmap buffer size=8"]
    );

    let timed_out = |stop_requested: bool| StreamEvent::TimedOut {
        stop_requested,
        now: 4 * SECOND_NS,
    };
    let (action, lines) = on_stream_event(&mut health, &format, timed_out(false));
    assert!(matches!(action, StreamAction::ResetStream));
    assert_eq!(
        lines,
        ["V4L2 capture warning: frame timeout timeout_ms=2000 consecutive_timeouts=1 total_timeouts=1"]
    );
    let (action, lines) = on_stream_event(&mut health, &format, timed_out(false));
    assert!(matches!(action, StreamAction::ResetStream) && lines.is_empty());
    let (action, lines) = on_stream_event(&mut health, &format, timed_out(true));
    assert!(matches!(action, StreamAction::Exit) && lines.is_empty());

    let failed = |message: &'static str| StreamEvent::Failed { message };
    let (action, lines) = on_stream_event(&mut health, &format, failed("odd"));
    assert!(matches!(action, StreamAction::Continue));
    assert_eq!(lines, ["V4L2 capture warning: odd"]);
    let (action, lines) = on_stream_event(&mut health, &format, failed("No such device"));
    assert!(matches!(
        action,
        StreamAction::ReportAndExit(CaptureMessage::Disconnected(reason)) if reason == disconnected_reason()
    ));
    assert_eq!(lines, ["V4L2 device disconnected: No such device"]);
}
