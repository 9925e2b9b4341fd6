use std::sync::Arc;

use arrow_array::{ArrayRef, LargeBinaryArray, RecordBatch, StringArray, UInt32Array};
use bytes::Bytes;
use usb_camera::batch::{CompressedImageMessage, ImageMessage, MessageBatch};
use usb_camera::capture_error::CaptureError;
use usb_camera::capture_health::disconnected_reason;
use usb_camera::cli::{parse_args, Cli, CliCommand, Commands};
use usb_camera::message::{batch_of_message, encode_rgb_png, OutputMessage};
use usb_camera::node::{
    is_usb_camera_disconnected_error, on_capture_error, on_event, ErrorAction, NodeAction,
    NodeEvent,
};
use usb_camera::order::{sort_by_key, text_le};
use usb_camera::pixels::RgbArray;
use usb_camera::sink::{
    decode_and_describe, default_input_id, default_log_every, on_sink_event, receive_time_ms,
    report_line, should_log, SinkAction, SinkConfig, SinkError,
};
use usb_camera::snapshot::should_retry_snapshot;
use usb_camera::text::{
    contains, ends_with, is_blank, is_space, octal_mode, push_decimal, same_text, starts_with, trim,
};

fn text(s: &str) -> Option<String> {
    Some(s.to_string())
}

fn cli() -> Cli {
    Cli {
        config: None,
        command: None,
        list_devices: false,
        snapshot: None,
        output: "snapshot.jpg".to_string(),
        json: false,
    }
}

#[test]
fn running_is_the_default() {
    assert_eq!(parse_args(cli()), CliCommand::Run { config_path: None });
    let mut args = cli();
    args.config = text("a");
    assert_eq!(parse_args(args.clone()), CliCommand::Run { config_path: text("a") });
    args.command = Some(Commands::Run { config: None });
    assert_eq!(parse_args(args.clone()), CliCommand::Run { config_path: text("a") });
    args.command = Some(Commands::Run { config: text("b") });
    assert_eq!(parse_args(args), CliCommand::Run { config_path: text("b") });
}

#[test]
fn older_arguments_come_first() {
    let mut args = cli();
    args.command = Some(Commands::CheckEnvironment { json: true });
    args.snapshot = text("/dev/video1");
    args.config = text("c");
    assert_eq!(
        parse_args(args.clone()),
        CliCommand::Snapshot {
            config_path: text("c"),
            device: text("/dev/video1"),
            output: "snapshot.jpg".to_string()
        }
    );
    args.list_devices = true;
    assert_eq!(parse_args(args), CliCommand::ListDevices { json: false });
}

#[test]
fn json_counts_in_either_place() {
    for (outer, inner) in [(false, false), (true, false), (false, true), (true, true)] {
        let mut args = cli();
        args.json = outer;
        args.command = Some(Commands::ListDevices { json: inner });
        assert_eq!(
            parse_args(args.clone()),
            CliCommand::ListDevices { json: outer || inner }
        );
        args.command = Some(Commands::CheckEnvironment { json: inner });
        assert_eq!(
            parse_args(args),
            CliCommand::CheckEnvironment { json: outer || inner }
        );
    }
}

#[test]
fn snapshot_subcommand_has_its_own_output() {
    let mut args = cli();
    args.config = text("outer");
    args.command = Some(Commands::Snapshot {
        device: None,
        config: None,
        output: "x.jpg".to_string(),
    });
    assert_eq!(
        parse_args(args),
        CliCommand::Snapshot {
            config_path: text("outer"),
            device: None,
            output: "x.jpg".to_string()
        }
    );
}

#[test]
fn ticks_alone_ask_for_frames() {
    assert_eq!(on_event(NodeEvent::Input("tick".to_string())), NodeAction::Capture);
    assert_eq!(on_event(NodeEvent::Input("Tick".to_string())), NodeAction::Wait);
    assert_eq!(on_event(NodeEvent::Other), NodeAction::Wait);
    assert_eq!(on_event(NodeEvent::Stop), NodeAction::Exit);
    assert_eq!(on_event(NodeEvent::Closed), NodeAction::Exit);
    assert_eq!(
        on_event(NodeEvent::Error("down".to_string())),
        NodeAction::Fail("Dora error: down".to_string())
    );
}

#[test]
fn lost_cameras_end_the_node_and_timeouts_do_not() {
    for message in [
        disconnected_reason(),
        CaptureError::ThreadExited.message(),
        "x 设备可能已被拔出".to_string(),
    ] {
        assert!(is_usb_camera_disconnected_error(&message));
        assert_eq!(on_capture_error(&message), ErrorAction::Exit);
    }
    assert!(!should_retry_snapshot(&disconnected_reason()));
    assert!(should_retry_snapshot(&CaptureError::ThreadExited.message()));
    for error in [
        CaptureError::FrameTimeout,
        CaptureError::FreshFrameTimeout,
        CaptureError::DeviceBusy,
    ] {
        assert_eq!(on_capture_error(&error.message()), ErrorAction::Continue);
    }
}

#[test]
fn sink_reports_the_first_and_every_nth_message() {
    assert_eq!(default_input_id(), "image");
    assert_eq!(default_log_every(), 30);
    let reported: Vec<u64> = (1..=90).filter(|count| should_log(*count, 30)).collect();
    assert_eq!(reported, [1, 30, 60, 90]);
    assert!((1..=5).all(|count| should_log(count, 0)));
    assert!(should_log(1, u64::MAX) && !should_log(2, u64::MAX));
    assert_eq!(receive_time_ms(Some(5)), 5);
    assert_eq!(receive_time_ms(None), 0);
}

#[test]
fn sink_counts_the_messages_of_its_input() {
    let config = SinkConfig {
        input_id: "image".to_string(),
        log_every: 2,
    };
    let mut count = 0;
    let input = |id: &str| NodeEvent::Input(id.to_string());
    assert_eq!(on_sink_event(&mut count, input("other"), &config), SinkAction::Wait);
    assert_eq!(on_sink_event(&mut count, input("image"), &config), SinkAction::Report { count: 1 });
    assert_eq!(on_sink_event(&mut count, input("image"), &config), SinkAction::Report { count: 2 });
    assert_eq!(on_sink_event(&mut count, input("image"), &config), SinkAction::Wait);
    assert_eq!(on_sink_event(&mut count, NodeEvent::Other, &config), SinkAction::Wait);
    assert_eq!(on_sink_event(&mut count, NodeEvent::Stop, &config), SinkAction::Exit);
    assert_eq!(on_sink_event(&mut count, NodeEvent::Closed, &config), SinkAction::Exit);
    assert_eq!(
        on_sink_event(&mut count, NodeEvent::Error("down".to_string()), &config),
        SinkAction::Fail("Dora error: down".to_string())
    );
    assert_eq!(count, 3);
}

fn compressed(format: &str, data: Vec<u8>) -> MessageBatch {
    batch_of_message(OutputMessage::Compressed(CompressedImageMessage {
        format: format.to_string(),
        data: Bytes::from(data),
    }))
    .unwrap()
}

#[test]
fn sink_describes_both_kinds_of_message() {
    let image = batch_of_message(OutputMessage::Image(ImageMessage {
        height: 1,
        width: 2,
        encoding: "rgb8".to_string(),
        step: 6,
        data: Bytes::from_static(&[1, 2, 3, 4, 5, 6]),
    }))
    .unwrap();
    let described = decode_and_describe(Some(&image));
    assert_eq!(
        report_line(7, 1234, &described),
        "count=7 received_at_unix_ms=1234 message=Image encoding=rgb8 width=2 height=1 bytes=6"
    );
    let file = encode_rgb_png(&RgbArray {
        height: 2,
        width: 3,
        data: vec![50; 18],
    })
    .unwrap();
    let len = file.len();
    assert_eq!(
        decode_and_describe(Some(&compressed("png", file))).unwrap(),
        format!("message=CompressedImage encoding=png width=3 height=2 bytes={len}")
    );
    assert_eq!(
        decode_and_describe(Some(&compressed("jpeg", vec![]))).unwrap(),
        "message=CompressedImage encoding=jpeg width=0 height=0 bytes=0"
    );
}

#[test]
fn sink_reports_what_it_cannot_describe() {
    let described = decode_and_describe(None);
    assert_eq!(described, Err(SinkError::NotStruct));
    assert_eq!(
        report_line(1, 0, &described),
        "count=1 received_at_unix_ms=0 decode_error=input is not an Arrow StructArray"
    );
    let broken = decode_and_describe(Some(&compressed("jpeg", vec![1, 2, 3]))).unwrap_err();
    assert!(broken
        .message()
        .starts_with("failed to decode jpeg image: decode error: "));

    let columns = |columns: Vec<(&str, ArrayRef)>| MessageBatch {
        batch: RecordBatch::try_from_iter(columns).unwrap(),
    };
    let one: ArrayRef = Arc::new(UInt32Array::from(vec![1]));
    let words: ArrayRef = Arc::new(StringArray::from(vec!["jpeg"]));
    let blank: ArrayRef = Arc::new(StringArray::from(vec![""]));
    let none: ArrayRef = Arc::new(StringArray::from(Vec::<&str>::new()));
    let bytes: ArrayRef = Arc::new(LargeBinaryArray::from_iter_values(std::iter::once(&[1u8, 2])));
    for (batch, reason) in [
        (columns(vec![("x", one.clone())]), "missing format column"),
        (columns(vec![("format", one.clone())]), "format column has unexpected type"),
        (columns(vec![("format", words.clone())]), "missing data column"),
        (
            columns(vec![("format", words.clone()), ("data", words)]),
            "data column has unexpected type",
        ),
        (
            columns(vec![("format", blank), ("data", bytes)]),
            "format must be non-empty",
        ),
        (columns(vec![("format", none)]), "RecordBatch must contain one row"),
    ] {
        let error = decode_and_describe(Some(&batch)).unwrap_err();
        assert_eq!(
            error.message(),
            format!("not Image or CompressedImage: invalid image message: {reason}")
        );
    }
}

#[test]
fn sink_describes_a_whole_frame() {
    let image = batch_of_message(OutputMessage::Image(ImageMessage {
        height: 480,
        width: 640,
        encoding: "rgb8".to_string(),
        step: 1920,
        data: Bytes::from(vec![9; 921_600]),
    }))
    .unwrap();
    assert_eq!(
        decode_and_describe(Some(&image)).unwrap(),
        "message=Image encoding=rgb8 width=640 height=480 bytes=921600"
    );
}

#[test]
fn batches_with_inconsistent_sizes_are_no_images() {
    let number = |n: u32| -> ArrayRef { Arc::new(UInt32Array::from(vec![n])) };
    let data: ArrayRef = Arc::new(LargeBinaryArray::from_iter_values(std::iter::once(&[0u8; 6])));
    for (height, width, encoding, step, is_image) in [
        (1, 2, "rgb8", 6, true),
        (1, 2, "bgr8", 6, true),
        (3, 2, "mono8", 2, true),
        (2, 3, "8UC1", 3, true),
        (1, 3, "16UC1", 6, true),
        (1, 1, "32SC1", 6, true),
        (1, 1, "32FC1", 6, true),
        (1, 2, "32FC1", 6, false),
        (1, 2, "rgb8", 5, false),
        (2, 2, "rgb8", 6, false),
        (1, 2, "yuv", 6, false),
        (u32::MAX, u32::MAX, "32FC1", 6, false),
        (u32::MAX, 1, "mono8", u32::MAX, false),
    ] {
        let encoding: ArrayRef = Arc::new(StringArray::from(vec![encoding]));
        let batch = MessageBatch {
            batch: RecordBatch::try_from_iter(vec![
                ("height", number(height)),
                ("width", number(width)),
                ("encoding", encoding),
                ("step", number(step)),
                ("data", data.clone()),
            ])
            .unwrap(),
        };
        assert_eq!(decode_and_describe(Some(&batch)).is_ok(), is_image);
    }
}

#[test]
fn text_helpers_agree_with_the_standard_library() {
    for code in 0..=0x3100u32 {
        if let Some(c) = char::from_u32(code) {
            assert_eq!(is_space(c), c.is_whitespace(), "{code:x}");
        }
    }
    for s in ["", " ", "a", " a b ", "\t\u{a0}x\u{2003}", "\u{3000}", "中 文\n", "ab", "aab"] {
        assert_eq!(trim(s), s.trim());
        assert_eq!(is_blank(s), s.trim().is_empty());
        for part in ["", "a", "ab", "文", " ", "aab"] {
            assert_eq!(contains(s, part), s.contains(part));
            assert_eq!(starts_with(s, part), s.starts_with(part));
            assert_eq!(ends_with(s, part), s.ends_with(part));
            assert_eq!(same_text(s, part), s == part);
            assert_eq!(text_le(s, part), s <= part);
        }
    }
    for n in [0, 7, 10, 99, 1_000_000, u128::MAX] {
        let mut out = "n=".to_string();
        push_decimal(&mut out, n);
        assert_eq!(out, format!("n={n}"));
    }
    for mode in [0, 7, 0o644, 0o777] {
        assert_eq!(octal_mode(mode), format!("{mode:03o}"));
    }
}

#[test]
fn sorting_orders_by_text() {
    let words: Vec<String> = ["b", "a", "", "ab", "a", "中"].iter().map(|w| w.to_string()).collect();
    let mut expected = words.clone();
    expected.sort();
    assert_eq!(sort_by_key(words), expected);
}
