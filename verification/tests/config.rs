use usb_camera::config::{
    default_device, default_image_format, default_jpeg_quality, default_output_id, CameraConfig,
    ConfigError, FrameRate, ImageFormat, SnapshotSource,
};

/// The configuration that a YAML text describes, with the defaults for what it
/// leaves out.
fn parse(text: &str) -> CameraConfig {
    let value: serde_yaml::Value = serde_yaml::from_str(text).unwrap();
    CameraConfig {
        device: value["device"].as_str().map_or_else(default_device, str::to_string),
        output_id: value["output_id"].as_str().map_or_else(default_output_id, str::to_string),
        image_format: default_image_format(),
        image_jpeg_quality: value["image_jpeg_quality"]
            .as_u64()
            .map_or_else(default_jpeg_quality, |quality| quality as u8),
        width: value["width"].as_u64().map(|width| width as u32),
        height: value["height"].as_u64().map(|height| height as u32),
        fps: value["fps"].as_f64().map(|fps| FrameRate { bits: (fps as f32).to_bits() }),
    }
}

fn with_fps(fps: f32) -> CameraConfig {
    CameraConfig {
        device: "/dev/video0".to_string(),
        output_id: "image".to_string(),
        image_format: ImageFormat::Raw,
        image_jpeg_quality: 90,
        width: None,
        height: None,
        fps: Some(FrameRate { bits: fps.to_bits() }),
    }
}

#[test]
fn invalid_ranges_are_rejected() {
    let invalid_quality = r#"
device: /dev/video0
image_jpeg_quality: 0
"#;
    let config: CameraConfig = parse(invalid_quality);
    assert!(config.validate().is_err());

    let sub_one_fps = r#"
device: /dev/video0
fps: 0.49
"#;
    let config: CameraConfig = parse(sub_one_fps);
    assert!(config.validate().is_err());

    let invalid_fps = r#"
device: /dev/video0
fps: 0
"#;
    let config: CameraConfig = parse(invalid_fps);
    assert!(config.validate().is_err());

    for non_finite in [f32::NAN, f32::INFINITY, f32::NEG_INFINITY] {
        let config = CameraConfig {
            device: "/dev/video0".to_string(),
            output_id: "image".to_string(),
            image_format: ImageFormat::Raw,
            image_jpeg_quality: 90,
            width: None,
            height: None,
            fps: Some(FrameRate { bits: non_finite.to_bits() }),
        };
        assert!(config.validate().is_err());
    }
}

#[test]
fn defaults_are_accepted() {
    let config = parse("{}");
    assert_eq!(config.device, "/dev/video0");
    assert_eq!(config.output_id, "image");
    assert_eq!(config.image_format, ImageFormat::Raw);
    assert_eq!(config.image_jpeg_quality, 90);
    let accepted = config.clone().validate().unwrap();
    assert_eq!(accepted, config);
}

#[test]
fn each_problem_is_named_in_order() {
    let mut config = parse("{device: ' \u{3000}\t', output_id: '', image_jpeg_quality: 101, width: 0, height: 0, fps: 0.5}");
    for (error, text) in [
        (ConfigError::EmptyDevice, "device must not be empty"),
        (ConfigError::EmptyOutputId, "output_id must not be empty"),
        (ConfigError::JpegQualityOutOfRange, "image_jpeg_quality must be in [1, 100]"),
        (ConfigError::ZeroWidth, "width must be positive if specified"),
        (ConfigError::ZeroHeight, "height must be positive if specified"),
        (ConfigError::UnusableFps, "fps must be finite and at least 1 if specified"),
    ] {
        let found = config.clone().validate().unwrap_err();
        assert_eq!(found, error);
        assert_eq!(found.message(), text);
        match error {
            ConfigError::EmptyDevice => config.device = "0".to_string(),
            ConfigError::EmptyOutputId => config.output_id = "x".to_string(),
            ConfigError::JpegQualityOutOfRange => config.image_jpeg_quality = 100,
            ConfigError::ZeroWidth => config.width = Some(1),
            ConfigError::ZeroHeight => config.height = None,
            _ => config.fps = None,
        }
    }
    assert!(config.validate().is_ok());
}

#[test]
fn frame_rates_from_one_on_are_accepted() {
    for fps in [1.0, 1.5, 30.0, 120.0, f32::MAX] {
        assert!(with_fps(fps).validate().is_ok(), "{fps}");
    }
    for fps in [0.99999994, 0.0, -0.0, -1.0, -30.0, f32::MIN_POSITIVE, 1.0e-40] {
        assert_eq!(
            with_fps(fps).validate().unwrap_err(),
            ConfigError::UnusableFps,
            "{fps}"
        );
    }
}

#[test]
fn command_line_precedes_environment() {
    assert_eq!(CameraConfig::load_path(Some("a.yaml"), Some("b.yaml")).unwrap(), "a.yaml");
    assert_eq!(CameraConfig::load_path(None, Some("b.yaml")).unwrap(), "b.yaml");
    for env in [None, Some("")] {
        let error = CameraConfig::load_path(None, env).unwrap_err();
        assert_eq!(
            error.message(),
            "no camera config found. set USB_CAMERA_NODE_CONFIG or pass --config <path.yaml>"
        );
    }
    assert_eq!(CameraConfig::load_path(Some(""), Some("b.yaml")).unwrap(), "");
}

#[test]
fn snapshot_defaults() {
    let config = CameraConfig::for_snapshot("/dev/video3".to_string()).unwrap();
    assert_eq!(config.device, "/dev/video3");
    assert_eq!(config.output_id, "image");
    assert_eq!(config.image_format, ImageFormat::Jpeg);
    assert_eq!(config.image_jpeg_quality, 90);
    assert_eq!((config.width, config.height), (Some(1280), Some(720)));
    assert!(config.fps.is_none());
    assert_eq!(
        CameraConfig::for_snapshot("  ".to_string()).unwrap_err(),
        ConfigError::EmptyDevice
    );
}

#[test]
fn snapshot_configuration_comes_from_file_or_device() {
    assert_eq!(
        CameraConfig::snapshot_source(Some("c.yaml"), Some("1")).unwrap(),
        SnapshotSource::File {
            path: "c.yaml".to_string(),
            device: Some("1".to_string())
        }
    );
    assert_eq!(
        CameraConfig::snapshot_source(None, Some("1")).unwrap(),
        SnapshotSource::Device("1".to_string())
    );
    assert_eq!(
        CameraConfig::snapshot_source(None, None).unwrap_err().message(),
        "snapshot requires --config <path.yaml> or --device <device>"
    );
    let config = with_fps(30.0);
    assert_eq!(config.clone().with_device(None), config);
    assert_eq!(
        config.clone().with_device(Some("7".to_string())).device,
        "7"
    );
}
