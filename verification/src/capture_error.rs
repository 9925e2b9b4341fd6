//! Errors of opening a camera and of waiting for its frames.

use vstd::prelude::*;

use crate::text::{decimal, lossy_text, push_decimal, utf8_lossy};

verus! {

/// The longest wait for the capture thread to open the device.
pub const INIT_TIMEOUT_SECS: u64 = 20;

/// The longest wait for the first frame, short enough to keep a stop event
/// from being held up.
pub const FRAME_RECV_TIMEOUT_MS: u64 = 500;

/// The longest wait for a frame that must be new, which has to cover devices
/// that start slowly.
pub const FRESH_FRAME_RECV_TIMEOUT_SECS: u64 = 5;

/// Why a camera could not be opened or did not deliver a frame.
#[derive(Debug, Clone, PartialEq, Eq)]
pub enum CaptureError {
    OpenIndex(usize),
    OpenPath(String),
    QueryFormat,
    SetFormat,
    UnsupportedFourcc([u8; 4]),
    StreamFailed,
    DeviceBusy,
    InitCancelled,
    InitFailed(String),
    InitTimeout,
    InitThreadExited,
    ReapFailed,
    /// The capture thread reported that the device is gone.
    Disconnected(String),
    ThreadExited,
    FrameTimeout,
    FreshFrameTimeout,
}

/// The text that reports a capture error.
pub open spec fn capture_error_text(e: CaptureError) -> Seq<char> {
    match e {
        CaptureError::OpenIndex(index) => "failed to open v4l device index "@ + decimal(
            index as nat,
        ),
        CaptureError::OpenPath(path) => "failed to open v4l device path "@ + path@,
        CaptureError::QueryFormat => "failed to query v4l format"@,
        CaptureError::SetFormat => "failed to set v4l capture format"@,
        CaptureError::UnsupportedFourcc(repr) => "设备协商出不支持的 V4L2 FourCC: "@
            + utf8_lossy(repr@),
        CaptureError::StreamFailed => "failed to create v4l mmap stream"@,
        CaptureError::DeviceBusy =>
            "摄像头设备正忙 (Device or resource busy)。请确认没有浏览器、VLC、其他相机节点或未退出的 usb_camera 进程正在占用该设备"@,
        CaptureError::InitCancelled => "摄像头初始化已取消"@,
        CaptureError::InitFailed(reason) => "摄像头初始化失败: "@ + reason@,
        CaptureError::InitTimeout => "摄像头初始化超时 ("@ + decimal(INIT_TIMEOUT_SECS as nat)
            + "s)，请检查设备是否被其他程序占用或设备是否存在"@,
        CaptureError::InitThreadExited => "摄像头后台线程异常退出"@,
        CaptureError::ReapFailed => "回收摄像头后台线程失败"@,
        CaptureError::Disconnected(reason) => reason@,
        CaptureError::ThreadExited => "摄像头采集线程已退出，请检查设备是否已断开"@,
        CaptureError::FrameTimeout => "等待摄像头帧超时 ("@ + decimal(
            FRAME_RECV_TIMEOUT_MS as nat,
        ) + "ms)，请检查设备是否输出视频或是否被占用"@,
        CaptureError::FreshFrameTimeout => "等待摄像头新帧超时 ("@ + decimal(
            FRESH_FRAME_RECV_TIMEOUT_SECS as nat,
        ) + "s)，请检查设备是否输出视频或是否被占用"@,
    }
}

impl CaptureError {
    /// The text that reports this error.
    pub fn message(&self) -> (r: String)
        ensures
            r@ == capture_error_text(*self),
    {
        match self {
            CaptureError::OpenIndex(index) => {
                let mut out: String = "failed to open v4l device index ".to_owned();
                push_decimal(&mut out, *index as u128);
                out
            },
            CaptureError::OpenPath(path) => {
                let mut out: String = "failed to open v4l device path ".to_owned();
                out.append(path.as_str());
                out
            },
            CaptureError::QueryFormat => "failed to query v4l format".to_owned(),
            CaptureError::SetFormat => "failed to set v4l capture format".to_owned(),
            CaptureError::UnsupportedFourcc(repr) => {
                let mut out: String = "设备协商出不支持的 V4L2 FourCC: ".to_owned();
                let name: String = lossy_text(repr.as_slice());
                out.append(name.as_str());
                out
            },
            CaptureError::StreamFailed => "failed to create v4l mmap stream".to_owned(),
            CaptureError::DeviceBusy =>
                "摄像头设备正忙 (Device or resource busy)。请确认没有浏览器、VLC、其他相机节点或未退出的 usb_camera 进程正在占用该设备".to_owned(),
            CaptureError::InitCancelled => "摄像头初始化已取消".to_owned(),
            CaptureError::InitFailed(reason) => {
                let mut out: String = "摄像头初始化失败: ".to_owned();
                out.append(reason.as_str());
                out
            },
            CaptureError::InitTimeout => {
                let mut out: String = "摄像头初始化超时 (".to_owned();
                push_decimal(&mut out, INIT_TIMEOUT_SECS as u128);
                out.append("s)，请检查设备是否被其他程序占用或设备是否存在");
                out
            },
            CaptureError::InitThreadExited => "摄像头后台线程异常退出".to_owned(),
            CaptureError::ReapFailed => "回收摄像头后台线程失败".to_owned(),
            CaptureError::Disconnected(reason) => reason.as_str().to_owned(),
            CaptureError::ThreadExited =>
                "摄像头采集线程已退出，请检查设备是否已断开".to_owned(),
            CaptureError::FrameTimeout => {
                let mut out: String = "等待摄像头帧超时 (".to_owned();
                push_decimal(&mut out, FRAME_RECV_TIMEOUT_MS as u128);
                out.append("ms)，请检查设备是否输出视频或是否被占用");
                out
            },
            CaptureError::FreshFrameTimeout => {
                let mut out: String = "等待摄像头新帧超时 (".to_owned();
                push_decimal(&mut out, FRESH_FRAME_RECV_TIMEOUT_SECS as u128);
                out.append("s)，请检查设备是否输出视频或是否被占用");
                out
            },
        }
    }
}

/// The texts of errors name the device, the code, the reason or the time that they
/// are about.
pub proof fn law_what_capture_errors_name(
    index: usize,
    path: String,
    repr: [u8; 4],
    reason: String,
)
    ensures
        capture_error_text(CaptureError::OpenIndex(index)) == "failed to open v4l device index "@
            + decimal(index as nat),
        capture_error_text(CaptureError::OpenPath(path)) == "failed to open v4l device path "@
            + path@,
        capture_error_text(CaptureError::UnsupportedFourcc(repr))
            == "设备协商出不支持的 V4L2 FourCC: "@ + utf8_lossy(repr@),
        capture_error_text(CaptureError::InitFailed(reason)) == "摄像头初始化失败: "@ + reason@,
        capture_error_text(CaptureError::Disconnected(reason)) == reason@,
        capture_error_text(CaptureError::QueryFormat) == "failed to query v4l format"@,
        capture_error_text(CaptureError::SetFormat) == "failed to set v4l capture format"@,
        capture_error_text(CaptureError::StreamFailed) == "failed to create v4l mmap stream"@,
        capture_error_text(CaptureError::DeviceBusy)
            == "摄像头设备正忙 (Device or resource busy)。请确认没有浏览器、VLC、其他相机节点或未退出的 usb_camera 进程正在占用该设备"@,
        capture_error_text(CaptureError::InitCancelled) == "摄像头初始化已取消"@,
        capture_error_text(CaptureError::InitThreadExited) == "摄像头后台线程异常退出"@,
        capture_error_text(CaptureError::ReapFailed) == "回收摄像头后台线程失败"@,
        capture_error_text(CaptureError::ThreadExited)
            == "摄像头采集线程已退出，请检查设备是否已断开"@,
        capture_error_text(CaptureError::InitTimeout) == "摄像头初始化超时 ("@ + decimal(20)
            + "s)，请检查设备是否被其他程序占用或设备是否存在"@,
        capture_error_text(CaptureError::FrameTimeout) == "等待摄像头帧超时 ("@ + decimal(500)
            + "ms)，请检查设备是否输出视频或是否被占用"@,
        capture_error_text(CaptureError::FreshFrameTimeout) == "等待摄像头新帧超时 ("@ + decimal(5)
            + "s)，请检查设备是否输出视频或是否被占用"@,
{
}

} // verus!
