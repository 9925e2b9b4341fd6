use arrow_array::{RecordBatch, StructArray};
use bytes::Bytes;
use forge_msgs::{CompressedImage, Image};
use usb_camera::backend::{
    can_direct_use_mjpeg, CaptureBackend, CapturedFrame, PixelFormat, YuvColorimetry, YuvMatrix,
    YuvRange,
};
use usb_camera::batch::{CompressedImageMessage, ImageMessage, MessageBatch};
use usb_camera::capture_error::CaptureError;
use usb_camera::config::{CameraConfig, ImageFormat};
use usb_camera::message::{
    batch_of_message, encode_rgb_jpeg, encode_rgb_png, image_from_captured_frame,
    message_from_captured_frame, message_from_rgb, normalize_mjpeg_payload, BuildError,
    OutputMessage,
};
use usb_camera::node::{build_image, capture_and_build_image, NodeError};
use usb_camera::pixels::{
    frame_is_convertible, frame_to_rgb_array, packed_frame_data, yuyv422_to_rgb,
    yuyv_frame_to_rgb_array, BufferKind, FrameError, RgbArray,
};
use usb_camera::snapshot::{
    after_failed_attempt, black_frames_message, decoded_picture_is_visible, should_retry_snapshot,
    snapshot_frame_has_visible_content, snapshot_jpeg, take_snapshot, RetryDecision, SnapshotError,
};

fn frame(pixel_format: PixelFormat, width: u32, height: u32, stride: usize, data: &[u8]) -> CapturedFrame {
    CapturedFrame {
        width,
        height,
        stride,
        pixel_format,
        yuv_colorimetry: None,
        capture_timestamp_ns: None,
        data: Bytes::copy_from_slice(data),
    }
}

fn config(image_format: ImageFormat) -> CameraConfig {
    CameraConfig {
        device: "0".to_string(),
        output_id: "image".to_string(),
        image_format,
        image_jpeg_quality: 90,
        width: None,
        height: None,
        fps: None,
    }
}

fn jpeg_of_color(width: u32, height: u32, color: [u8; 3]) -> Vec<u8> {
    let rgb = RgbArray {
        height: height as usize,
        width: width as usize,
        data: color.repeat((width * height) as usize),
    };
    encode_rgb_jpeg(&rgb, 100).unwrap()
}

#[test]
fn normalize_mjpeg_payload_trims_trailing_uvc_padding() {
    let payload =
        normalize_mjpeg_payload(Bytes::from_static(&[0xff, 0xd8, 1, 2, 0xff, 0xd9, 0, 0]))
            .unwrap();
    assert_eq!(payload.as_ref(), &[0xff, 0xd8, 1, 2, 0xff, 0xd9]);
}

#[test]
fn normalize_mjpeg_payload_appends_missing_eoi() {
    let payload = normalize_mjpeg_payload(Bytes::from_static(&[0xff, 0xd8, 1, 2])).unwrap();
    assert_eq!(payload.as_ref(), &[0xff, 0xd8, 1, 2, 0xff, 0xd9]);
}

#[test]
fn normalize_mjpeg_payload_rejects_missing_soi() {
    let error = normalize_mjpeg_payload(Bytes::from_static(&[1, 2, 0xff, 0xd9]))
        .expect_err("payload without SOI must be rejected");
    assert!(error.message().contains("缺少 JPEG SOI"));
}

#[test]
fn normalizing_keeps_up_to_the_last_eoi_and_is_idempotent() {
    let data = [0xff, 0xd8, 0xff, 0xd9, 7, 0xff, 0xff, 0xd9, 0xff];
    let once = normalize_mjpeg_payload(Bytes::copy_from_slice(&data)).unwrap();
    assert_eq!(once.as_ref(), &data[..8]);
    let twice = normalize_mjpeg_payload(once.clone()).unwrap();
    assert_eq!(once, twice);
    let bare = normalize_mjpeg_payload(Bytes::from_static(&[0xff, 0xd8])).unwrap();
    assert_eq!(bare.as_ref(), &[0xff, 0xd8, 0xff, 0xd9]);
    for short in [&[][..], &[0xff][..], &[0xd8, 0xff][..]] {
        assert_eq!(
            normalize_mjpeg_payload(Bytes::copy_from_slice(short)).unwrap_err(),
            BuildError::MissingSoi
        );
    }
}

#[test]
fn yuyv_conversion_produces_two_rgb_pixels_per_pair() {
    let frame = CapturedFrame {
        width: 2,
        height: 1,
        stride: 4,
        pixel_format: PixelFormat::Yuyv,
        yuv_colorimetry: Some(YuvColorimetry {
            range: YuvRange::Limited,
            matrix: YuvMatrix::Bt601,
        }),
        capture_timestamp_ns: None,
        data: Bytes::from_static(&[16, 128, 235, 128]),
    };
    let rgb = yuyv_frame_to_rgb_array(&frame).unwrap();
    assert_eq!(rgb.dim(), (1, 2, 3));
    assert_eq!(rgb.sample(0, 0, 0), 0);
    assert_eq!(rgb.sample(0, 1, 0), 255);
}

#[test]
fn yuyv_conversion_ignores_row_padding() {
    let frame = CapturedFrame {
        width: 2,
        height: 2,
        stride: 6,
        pixel_format: PixelFormat::Yuyv,
        yuv_colorimetry: Some(YuvColorimetry {
            range: YuvRange::Full,
            matrix: YuvMatrix::Bt601,
        }),
        capture_timestamp_ns: None,
        data: Bytes::from_static(&[
            10, 128, 20, 128, 255, 255, 30, 128, 40, 128, 255, 255,
        ]),
    };
    let rgb = yuyv_frame_to_rgb_array(&frame).unwrap();
    assert_eq!(rgb.sample(0, 0, 0), 10);
    assert_eq!(rgb.sample(0, 1, 0), 20);
    assert_eq!(rgb.sample(1, 0, 0), 30);
    assert_eq!(rgb.sample(1, 1, 0), 40);
}

#[test]
fn colors_follow_range_and_matrix() {
    let limited_601 = YuvColorimetry { range: YuvRange::Limited, matrix: YuvMatrix::Bt601 };
    let limited_709 = YuvColorimetry { range: YuvRange::Limited, matrix: YuvMatrix::Bt709 };
    let full_601 = YuvColorimetry { range: YuvRange::Full, matrix: YuvMatrix::Bt601 };
    let full_709 = YuvColorimetry { range: YuvRange::Full, matrix: YuvMatrix::Bt709 };
    assert_eq!(yuyv422_to_rgb(81, 90, 240, limited_601), (255, 0, 0));
    assert_eq!(yuyv422_to_rgb(145, 54, 34, limited_601), (0, 255, 1));
    assert_eq!(yuyv422_to_rgb(200, 100, 150, limited_601), (249, 207, 158));
    assert_eq!(yuyv422_to_rgb(200, 100, 150, limited_709), (254, 209, 155));
    assert_eq!(yuyv422_to_rgb(200, 100, 150, full_601), (230, 194, 150));
    assert_eq!(yuyv422_to_rgb(200, 100, 150, full_709), (234, 195, 148));
    assert_eq!(yuyv422_to_rgb(0, 0, 0, full_709), (0, 84, 0));
    assert_eq!(yuyv422_to_rgb(2_000_000_000, 128, 128, full_601), (255, 255, 255));
    assert_eq!(yuyv422_to_rgb(-2_000_000_000, 128, 4_000_000, limited_709), (255, 0, 0));
    assert_eq!(yuyv422_to_rgb(255, 255, 255, limited_709), (255, 183, 255));
    for y in [0, 16, 100, 255] {
        for c in [limited_601, limited_709, full_601, full_709] {
            let (r, g, b) = yuyv422_to_rgb(y, 128, 128, c);
            assert!(r == g && g == b);
        }
    }
    // Without colorimetry, limited range and BT.601 are taken.
    let rgb = yuyv_frame_to_rgb_array(&frame(PixelFormat::Yuyv, 2, 1, 4, &[81, 90, 145, 240])).unwrap();
    let other = yuyv_frame_to_rgb_array(&frame(PixelFormat::Mjpeg, 2, 1, 4, &[81, 90, 145, 240]));
    assert_eq!(other.unwrap(), rgb);
    let (r, g, b) = yuyv422_to_rgb(145, 90, 240, limited_601);
    assert_eq!(rgb.data, [255, 0, 0, r, g, b]);
}

#[test]
fn packed_formats_are_converted() {
    let rgb = frame_to_rgb_array(&frame(PixelFormat::Rgb8, 2, 1, 0, &[1, 2, 3, 4, 5, 6])).unwrap();
    assert_eq!((rgb.height, rgb.width), (1, 2));
    assert_eq!(rgb.data, [1, 2, 3, 4, 5, 6]);
    let bgr = frame_to_rgb_array(&frame(PixelFormat::Bgr8, 2, 1, 7, &[3, 2, 1, 6, 5, 4, 99])).unwrap();
    assert_eq!(bgr, rgb);
    let grey = frame_to_rgb_array(&frame(PixelFormat::Gray8, 1, 2, 2, &[7, 0, 9, 0])).unwrap();
    assert_eq!((grey.height, grey.width), (2, 1));
    assert_eq!(grey.data, [7, 7, 7, 9, 9, 9]);
}

#[test]
fn mjpeg_frames_are_decoded() {
    let file = jpeg_of_color(8, 4, [200, 30, 60]);
    let decoded = image::load_from_memory(&file).unwrap().to_rgb8();
    let rgb = frame_to_rgb_array(&frame(PixelFormat::Mjpeg, 1, 1, 0, &file)).unwrap();
    assert_eq!(rgb.dim(), (4, 8, 3));
    assert_eq!(&rgb.data, decoded.as_raw());
    assert_eq!(
        frame_to_rgb_array(&frame(PixelFormat::Mjpeg, 8, 4, 0, b"no picture")).unwrap_err(),
        FrameError::DecodeFailed
    );
}

#[test]
fn rows_are_packed_without_their_padding() {
    let padded = frame(PixelFormat::Gray8, 2, 2, 3, &[1, 2, 9, 3, 4, 9, 9]);
    assert_eq!(packed_frame_data(&padded, 1).unwrap(), [1, 2, 3, 4]);
    let tight = frame(PixelFormat::Gray8, 2, 2, 0, &[1, 2, 3, 4]);
    assert_eq!(packed_frame_data(&tight, 1).unwrap(), [1, 2, 3, 4]);
}

#[test]
fn unusable_frames_are_reported() {
    let error = frame_to_rgb_array(&frame(PixelFormat::Rgb8, 4, 1, 5, &[0; 12])).unwrap_err();
    assert_eq!(error, FrameError::StrideTooSmall { stride: 5, packed: 12 });
    assert_eq!(error.message(), "frame stride 5 is smaller than packed row size 12");
    let error = frame_to_rgb_array(&frame(PixelFormat::Rgb8, 2, 2, 8, &[0; 15])).unwrap_err();
    assert_eq!(
        error.message(),
        "unexpected frame buffer size: 15 < 16 (2x2, stride=8)"
    );
    let error = frame_to_rgb_array(&frame(PixelFormat::Yuyv, 3, 1, 6, &[0; 6])).unwrap_err();
    assert_eq!(error.message(), "YUYV width must be even, got 3");
    let error = frame_to_rgb_array(&frame(PixelFormat::Rgb8, 1, 2, usize::MAX, &[0; 6])).unwrap_err();
    assert_eq!(error, FrameError::BufferSizeOverflow);
    assert_eq!(error.message(), "frame buffer size overflow");
    assert_eq!(FrameError::RowSizeOverflow.message(), "frame row size overflow");
    assert_eq!(FrameError::RgbSizeOverflow.message(), "RGB frame size overflow");
    assert_eq!(FrameError::DecodeFailed.message(), "failed to decode mjpeg frame");
    for (kind, text) in [
        (BufferKind::Decoded, "failed to build ndarray from rgb buffer"),
        (BufferKind::Rgb8, "failed to build ndarray from rgb8 buffer"),
        (BufferKind::Bgr8, "failed to build ndarray from bgr8 buffer"),
        (BufferKind::YuyvRgb, "failed to build ndarray from yuyv rgb buffer"),
        (BufferKind::Gray8, "failed to build ndarray from gray8 buffer"),
    ] {
        assert_eq!(FrameError::ShapeMismatch(kind).message(), text);
    }
    let no_rows = frame(PixelFormat::Gray8, 0, u32::MAX, 0, &[]);
    assert!(!frame_is_convertible(&no_rows));
    let flat = frame(PixelFormat::Rgb8, 5, 0, 0, &[]);
    assert!(frame_is_convertible(&flat));
    assert_eq!(frame_to_rgb_array(&flat).unwrap().dim(), (0, 5, 3));
}

#[test]
fn shapes_beyond_memory_are_refused() {
    // No row holds data, but the non-empty sides alone are too long.
    let data = vec![0u8; 16];
    let wide = frame(PixelFormat::Rgb8, u32::MAX, 0, 0, &data);
    assert!(frame_to_rgb_array(&wide).is_ok());
    let short = frame(PixelFormat::Gray8, u32::MAX, u32::MAX, 0, &[]);
    assert!(frame_is_convertible(&short));
    let error = FrameError::FrameTooShort {
        len: 0,
        required: 0xffff_fffe_0000_0001,
        width: u32::MAX,
        height: u32::MAX,
        stride: 0xffff_ffff,
    };
    assert_eq!(frame_to_rgb_array(&short).unwrap_err(), error);
    assert_eq!(
        capture_and_build_image(&mut reel(vec![short.clone()]), &config(ImageFormat::Raw)).unwrap_err(),
        NodeError::Build(BuildError::Frame(error.clone()))
    );
    assert_eq!(
        snapshot_jpeg(&short, 90).unwrap_err(),
        SnapshotError::Build(BuildError::Frame(error))
    );
    let tall = frame(PixelFormat::Gray8, 0, 4, 4, &data);
    assert_eq!(frame_to_rgb_array(&tall).unwrap().dim(), (4, 0, 3));
}

#[test]
fn jpeg_files_hold_the_picture() {
    let file = jpeg_of_color(16, 8, [250, 10, 10]);
    assert!(file.starts_with(&[0xff, 0xd8]) && file.ends_with(&[0xff, 0xd9]));
    let decoded = image::load_from_memory(&file).unwrap().to_rgb8();
    assert_eq!(decoded.dimensions(), (16, 8));
    let pixel = decoded.get_pixel(3, 3).0;
    assert!(pixel[0] > 230 && pixel[1] < 30 && pixel[2] < 30);

    let coarse = RgbArray { height: 8, width: 16, data: (0..384).map(|i| (i * 7 % 251) as u8).collect() };
    assert!(encode_rgb_jpeg(&coarse, 1).unwrap().len() < encode_rgb_jpeg(&coarse, 100).unwrap().len());

    let empty = RgbArray { height: 0, width: 4, data: vec![] };
    let error = encode_rgb_jpeg(&empty, 90).unwrap_err();
    assert!(error.message().starts_with("failed to encode jpeg: "));
    let wide = RgbArray { height: 1, width: 65536, data: vec![0; 65536 * 3] };
    assert!(matches!(encode_rgb_jpeg(&wide, 90), Err(BuildError::Jpeg(_))));
    let widest = RgbArray { height: 1, width: 65535, data: vec![0; 65535 * 3] };
    assert!(encode_rgb_jpeg(&widest, 90).is_ok());
}

#[test]
fn png_files_hold_every_sample() {
    let rgb = RgbArray { height: 2, width: 2, data: vec![1, 2, 3, 4, 5, 6, 7, 8, 9, 10, 11, 12] };
    let file = encode_rgb_png(&rgb).unwrap();
    assert!(file.starts_with(b"\x89PNG\r\n\x1a\n"));
    let decoded = image::load_from_memory(&file).unwrap().to_rgb8();
    assert_eq!(decoded.dimensions(), (2, 2));
    assert_eq!(decoded.as_raw(), &rgb.data);
    let empty = RgbArray { height: 1, width: 0, data: vec![] };
    let error = encode_rgb_png(&empty).unwrap_err();
    assert!(error.message().starts_with("failed to encode png: "));
}

#[test]
fn only_mjpeg_to_jpeg_is_passed_through() {
    for format in [PixelFormat::Mjpeg, PixelFormat::Rgb8, PixelFormat::Bgr8, PixelFormat::Yuyv, PixelFormat::Gray8] {
        for wanted in [ImageFormat::Raw, ImageFormat::Jpeg, ImageFormat::Png] {
            assert_eq!(
                can_direct_use_mjpeg(format, wanted),
                format == PixelFormat::Mjpeg && wanted == ImageFormat::Jpeg
            );
        }
    }
}

#[test]
fn frames_become_messages_of_the_configured_format() {
    let source = frame(PixelFormat::Rgb8, 2, 1, 0, &[1, 2, 3, 4, 5, 6]);
    match message_from_captured_frame(source.clone(), ImageFormat::Raw, 90).unwrap() {
        OutputMessage::Image(m) => {
            assert_eq!((m.height, m.width, m.step), (1, 2, 6));
            assert_eq!(m.encoding, "rgb8");
            assert_eq!(m.data.as_ref(), &[1, 2, 3, 4, 5, 6]);
        }
        other => panic!("unexpected {other:?}"),
    }
    match message_from_captured_frame(source.clone(), ImageFormat::Png, 90).unwrap() {
        OutputMessage::Compressed(m) => {
            assert_eq!(m.format, "png");
            let decoded = image::load_from_memory(&m.data).unwrap().to_rgb8();
            assert_eq!(decoded.as_raw(), &[1, 2, 3, 4, 5, 6]);
        }
        other => panic!("unexpected {other:?}"),
    }
    match message_from_captured_frame(source, ImageFormat::Jpeg, 90).unwrap() {
        OutputMessage::Compressed(m) => {
            assert_eq!(m.format, "jpeg");
            assert_eq!(image::load_from_memory(&m.data).unwrap().to_rgb8().dimensions(), (2, 1));
        }
        other => panic!("unexpected {other:?}"),
    }
    // A frame that is passed through is not decoded.
    let mjpeg = frame(PixelFormat::Mjpeg, 2, 1, 0, &[0xff, 0xd8, 5]);
    match message_from_captured_frame(mjpeg.clone(), ImageFormat::Jpeg, 90).unwrap() {
        OutputMessage::Compressed(m) => assert_eq!(m.data.as_ref(), &[0xff, 0xd8, 5, 0xff, 0xd9]),
        other => panic!("unexpected {other:?}"),
    }
    assert_eq!(
        message_from_captured_frame(mjpeg, ImageFormat::Raw, 90).unwrap_err(),
        BuildError::Frame(FrameError::DecodeFailed)
    );
}

#[test]
fn rows_too_long_for_a_message_are_refused() {
    let rgb = RgbArray { height: 0, width: 1_500_000_000, data: vec![] };
    let error = message_from_rgb(&rgb, ImageFormat::Raw, 90).unwrap_err();
    assert_eq!(
        error.message(),
        "invalid image message: step 205032704 is smaller than width * bytes_per_pixel 4500000000"
    );
}

fn reread(batch: MessageBatch) -> RecordBatch {
    let array: StructArray = batch.batch.into();
    RecordBatch::from(array)
}

#[test]
fn forge_image_message_paths_round_trip() {
    let raw = Image::new(1, 2, "rgb8", 6, Bytes::from_static(&[1, 2, 3, 4, 5, 6]))
        .expect("valid raw image");
    let message = OutputMessage::Image(ImageMessage {
        height: 1,
        width: 2,
        encoding: "rgb8".to_string(),
        step: 6,
        data: Bytes::from_static(&[1, 2, 3, 4, 5, 6]),
    });
    let raw_batch = batch_of_message(message).expect("raw batch");
    let decoded_raw = Image::from_record_batch(&reread(raw_batch)).expect("decode raw image");
    assert_eq!(decoded_raw, raw);

    for (format, payload) in [
        ("jpeg", Bytes::from_static(&[0xff, 0xd8, 0xff, 0xd9])),
        ("png", Bytes::from_static(b"\x89PNG\r\n\x1a\n")),
    ] {
        let compressed =
            CompressedImage::new(format, payload.clone()).expect("valid compressed envelope");
        let message = OutputMessage::Compressed(CompressedImageMessage {
            format: format.to_string(),
            data: payload,
        });
        let compressed_batch = batch_of_message(message).expect("compressed batch");
        let decoded_compressed = CompressedImage::from_record_batch(&reread(compressed_batch))
            .expect("decode compressed image");
        assert_eq!(decoded_compressed, compressed);
    }
}

#[test]
fn invalid_messages_make_no_batch() {
    let image = |encoding: &str, step: u32, len: usize| {
        OutputMessage::Image(ImageMessage {
            height: 2,
            width: 2,
            encoding: encoding.to_string(),
            step,
            data: Bytes::from(vec![0; len]),
        })
    };
    assert!(batch_of_message(image("rgb8", 6, 12)).is_ok());
    assert!(batch_of_message(image("mono8", 6, 12)).is_ok());
    for (encoding, step, len, problem) in [
        (
            "rgb8",
            5,
            10,
            "invalid image message: step 5 is smaller than width * bytes_per_pixel 6",
        ),
        ("rgb8", 6, 11, "invalid image message: data length 11 must equal step * height 12"),
        ("yuv", 6, 12, "unsupported encoding: yuv"),
    ] {
        assert_eq!(
            batch_of_message(image(encoding, step, len)).unwrap_err().message(),
            problem
        );
    }
    let nameless = OutputMessage::Compressed(CompressedImageMessage {
        format: String::new(),
        data: Bytes::new(),
    });
    assert_eq!(
        batch_of_message(nameless).unwrap_err().message(),
        "invalid image message: format must be non-empty"
    );
}

#[test]
fn published_batches_are_read_back() {
    let source = frame(PixelFormat::Gray8, 2, 1, 2, &[8, 9]);
    let batch = image_from_captured_frame(source.clone(), &config(ImageFormat::Raw)).unwrap();
    let image = Image::from_record_batch(&reread(batch)).unwrap();
    assert_eq!((image.height, image.width, image.step), (1, 2, 6));
    assert_eq!(image.data.as_ref(), &[8, 8, 8, 9, 9, 9]);
    let batch = image_from_captured_frame(source, &config(ImageFormat::Png)).unwrap();
    let batch = reread(batch);
    assert!(Image::from_record_batch(&batch).is_err());
    assert_eq!(CompressedImage::from_record_batch(&batch).unwrap().format, "png");
}

/// Delivers the given frames one after the other, then an error.
struct Reel {
    frames: Vec<CapturedFrame>,
    taken: usize,
}

impl CaptureBackend for Reel {
    fn came_since(&self, before: &Self, _frame: CapturedFrame) -> bool {
        before.taken < self.taken
    }

    fn capture_frame(&mut self) -> Result<CapturedFrame, CaptureError> {
        let frame = self.frames.get(self.taken).cloned().ok_or(CaptureError::FrameTimeout);
        self.taken += 1;
        frame
    }

    fn capture_fresh_frame(&mut self) -> Result<CapturedFrame, CaptureError> {
        self.capture_frame()
    }
}

fn reel(frames: Vec<CapturedFrame>) -> Reel {
    Reel { frames, taken: 0 }
}

fn grey(value: u8) -> CapturedFrame {
    frame(PixelFormat::Gray8, 4, 4, 4, &[value; 16])
}

#[test]
fn ticks_turn_frames_into_batches_with_their_time() {
    let mut source = grey(9);
    source.capture_timestamp_ns = Some(77);
    let mut backend = reel(vec![source]);
    let (batch, time_ns) = capture_and_build_image(&mut backend, &config(ImageFormat::Raw)).unwrap();
    assert_eq!(time_ns, Some(77));
    assert_eq!(Image::from_record_batch(&reread(batch)).unwrap().width, 4);
    assert_eq!(
        capture_and_build_image(&mut backend, &config(ImageFormat::Raw)).unwrap_err(),
        NodeError::Capture(CaptureError::FrameTimeout)
    );
    let broken = frame(PixelFormat::Mjpeg, 1, 1, 0, &[1, 2, 3]);
    assert_eq!(
        build_image(broken, &config(ImageFormat::Jpeg)).unwrap_err(),
        NodeError::Build(BuildError::MissingSoi)
    );
    let no_rows = frame(PixelFormat::Rgb8, 0, 1, 0, &[1]);
    assert_eq!(
        build_image(no_rows, &config(ImageFormat::Jpeg)).unwrap_err(),
        NodeError::Unconvertible
    );
}

#[test]
fn brightness_decides_what_is_visible() {
    assert!(!snapshot_frame_has_visible_content(&grey(10)));
    assert!(snapshot_frame_has_visible_content(&grey(11)));
    assert!(!snapshot_frame_has_visible_content(&frame(PixelFormat::Rgb8, 0, 0, 0, &[])));
    // Only every eighth byte of YUYV counts, and short buffers never do.
    let mut yuyv = vec![0u8; 64];
    for i in (0..64).step_by(8) {
        yuyv[i] = 11;
    }
    assert!(snapshot_frame_has_visible_content(&frame(PixelFormat::Yuyv, 16, 2, 32, &yuyv)));
    assert!(!snapshot_frame_has_visible_content(&frame(PixelFormat::Yuyv, 16, 2, 32, &yuyv[..63])));
    let mut other = vec![255u8; 64];
    for i in (0..64).step_by(8) {
        other[i] = 10;
    }
    assert!(!snapshot_frame_has_visible_content(&frame(PixelFormat::Yuyv, 16, 2, 32, &other)));
    // Large buffers are sampled.
    let mut sampled = vec![0u8; 8000];
    for i in (0..8000).step_by(4) {
        sampled[i] = 200;
    }
    assert!(snapshot_frame_has_visible_content(&frame(PixelFormat::Bgr8, 1, 1, 0, &sampled)));
    sampled.rotate_right(1);
    assert!(!snapshot_frame_has_visible_content(&frame(PixelFormat::Bgr8, 1, 1, 0, &sampled)));
}

#[test]
fn compressed_frames_are_looked_into() {
    let bright = jpeg_of_color(64, 48, [180, 180, 180]);
    let dark = jpeg_of_color(64, 48, [0, 0, 0]);
    let look = |data: &[u8]| snapshot_frame_has_visible_content(&frame(PixelFormat::Mjpeg, 64, 48, 0, data));
    let mut padded = bright.clone();
    padded.resize(bright.len().max(512), 0);
    assert!(look(&padded));
    let mut padded = dark.clone();
    padded.resize(dark.len().max(512), 0);
    assert!(!look(&padded));
    assert!(!look(&bright[..511]));
    assert!(!look(&[0u8; 600]));

    assert!(decoded_picture_is_visible(2, 1, &vec![11; 6]));
    assert!(!decoded_picture_is_visible(2, 1, &vec![10; 6]));
    assert!(!decoded_picture_is_visible(0, 5, &vec![]));
    // Of 48 rows every second one is sampled.
    let mut pixels = vec![0u8; 48 * 3];
    for y in (0..48).step_by(2) {
        for k in 0..3 {
            pixels[y * 3 + k] = 11;
        }
    }
    assert!(decoded_picture_is_visible(1, 48, &pixels));
    pixels.rotate_right(3);
    assert!(!decoded_picture_is_visible(1, 48, &pixels));
}

#[test]
fn snapshot_takes_the_first_visible_frame_after_two() {
    let mut backend = reel(vec![grey(250), grey(250), grey(0), grey(120), grey(200)]);
    let (taken, lines) = take_snapshot(&mut backend, 100);
    let file = taken.unwrap();
    assert!(lines.is_empty());
    assert_eq!(backend.taken, 4);
    let mut late = reel((0..40).map(|n| grey(if n < 11 { 0 } else { 120 })).collect());
    let (taken, lines) = take_snapshot(&mut late, 100);
    assert!(taken.is_ok());
    assert_eq!(late.taken, 12);
    assert_eq!(lines, ["snapshot: 跳过疑似全黑帧，继续抓取..."]);
    let pixel = image::load_from_memory(&file).unwrap().to_rgb8().get_pixel(1, 1).0;
    assert!(pixel[0].abs_diff(120) < 4);
}

#[test]
fn snapshot_gives_up_after_black_frames_or_errors() {
    let mut backend = reel((0..40).map(|_| grey(0)).collect());
    let (taken, lines) = take_snapshot(&mut backend, 90);
    let error = taken.unwrap_err();
    assert_eq!(lines, ["snapshot: 跳过疑似全黑帧，继续抓取..."; 2]);
    assert_eq!(error, SnapshotError::TooDark);
    assert_eq!(backend.taken, 26);
    assert_eq!(
        error.message(),
        "snapshot: 连续 24 帧画面仍接近全黑（可稍等再试，或检查摄像头曝光/光照）"
    );
    assert_eq!(error.message(), black_frames_message());
    let mut backend = reel(vec![grey(1)]);
    assert_eq!(
        take_snapshot(&mut backend, 90).0.unwrap_err(),
        SnapshotError::Capture(CaptureError::FrameTimeout)
    );
    let odd = frame(PixelFormat::Yuyv, 3, 1, 6, &[200; 64]);
    assert_eq!(
        snapshot_jpeg(&odd, 90).unwrap_err().message(),
        "YUYV width must be even, got 3"
    );
    let no_rows = frame(PixelFormat::Gray8, 0, 1, 0, &[1]);
    assert_eq!(snapshot_jpeg(&no_rows, 90).unwrap_err(), SnapshotError::Unconvertible);
}

#[test]
fn failed_snapshots_are_repeated_with_growing_waits() {
    let message = "等待摄像头新帧超时";
    let waits: Vec<RetryDecision> = (0..6).map(|attempt| after_failed_attempt(attempt, message)).collect();
    assert_eq!(
        waits,
        [
            RetryDecision::RetryAfter { delay_ms: 200 },
            RetryDecision::RetryAfter { delay_ms: 400 },
            RetryDecision::RetryAfter { delay_ms: 600 },
            RetryDecision::RetryAfter { delay_ms: 800 },
            RetryDecision::GiveUp,
            RetryDecision::GiveUp,
        ]
    );
    for gone in ["x 摄像头已断开连接 y", "设备可能已被拔出"] {
        assert!(!should_retry_snapshot(gone));
        assert_eq!(after_failed_attempt(0, gone), RetryDecision::GiveUp);
    }
    assert!(should_retry_snapshot("摄像头采集线程已退出"));
}
