//! Camera configuration.

use vstd::arithmetic::power2::{
    lemma2_to64, lemma_pow2_strictly_increases, lemma_pow2_unfold, pow2,
};
use vstd::bits::{lemma_u64_shl_is_mul, lemma_u64_shr_is_div};
use vstd::prelude::*;

use crate::text::{
    is_blank, is_blank_text, is_white_space, lemma_blank_trims_to_nothing, trimmed,
};

verus! {

/// The format of the images that are sent.
#[derive(Debug, Clone, Copy, PartialEq, Eq, Structural)]
pub enum ImageFormat {
    /// Uncompressed `rgb8`.
    Raw,
    Jpeg,
    Png,
}

/// A frame rate, held as the bit pattern of an IEEE 754 single.
#[derive(Debug, Clone, Copy, PartialEq, Eq, Structural)]
pub struct FrameRate {
    pub bits: u32,
}

impl FrameRate {
    /// The sign bit is set.
    pub open spec fn is_negative(self) -> bool {
        self.bits >= 0x8000_0000
    }

    /// The biased exponent; a finite number has one below 255, and one is the
    /// smallest positive number with the exponent 127.
    pub open spec fn exponent(self) -> int {
        self.bits as int / 0x80_0000 % 256
    }

    /// The number is finite and at least one.
    pub open spec fn is_usable(self) -> bool {
        !self.is_negative() && 127 <= self.exponent() < 255
    }

    /// The significand; a number that is at least one is
    /// `significand * 2^(exponent - 150)`.
    pub open spec fn significand(self) -> int {
        0x80_0000 + self.bits % 0x80_0000
    }

    /// A number that is at least one, rounded to the nearest integer, halves
    /// upwards.
    pub open spec fn rounded(self) -> int {
        if self.exponent() >= 150 {
            self.significand() * pow2((self.exponent() - 150) as nat)
        } else {
            let unit = pow2((150 - self.exponent()) as nat) as int;
            (2 * self.significand() + unit) / (2 * unit)
        }
    }

    /// A usable number rounded to the nearest integer; the largest integer
    /// stands for all above it.
    pub fn rounded_rate(&self) -> (r: u32)
        requires
            self.is_usable(),
        ensures
            r == (if self.rounded() > u32::MAX {
                u32::MAX as int
            } else {
                self.rounded()
            }),
    {
        let exponent: u32 = self.bits / 0x80_0000 % 256;
        let significand: u64 = 0x80_0000 + (self.bits % 0x80_0000) as u64;
        if exponent >= 159 {
            proof {
                lemma2_to64();
                if exponent > 159 {
                    lemma_pow2_strictly_increases(9, (exponent - 150) as nat);
                }
                assert(significand * pow2((exponent - 150) as nat) >= 0x80_0000 * 512)
                    by (nonlinear_arith)
                    requires
                        significand >= 0x80_0000,
                        pow2((exponent - 150) as nat) >= 512,
                ;
            }
            return u32::MAX;
        }
        if exponent >= 150 {
            let shift: u64 = (exponent - 150) as u64;
            proof {
                lemma2_to64();
                if shift < 8 {
                    lemma_pow2_strictly_increases(shift as nat, 8);
                }
                assert(significand * pow2(shift as nat) <= 0x100_0000 * 256) by (nonlinear_arith)
                    requires
                        significand <= 0x100_0000,
                        0 < pow2(shift as nat) <= 256,
                ;
                lemma_u64_shl_is_mul(significand, shift);
            }
            let rate: u64 = significand << shift;
            return if rate > u32::MAX as u64 {
                u32::MAX
            } else {
                rate as u32
            };
        }
        let shift: u64 = (150 - exponent) as u64;
        proof {
            lemma2_to64();
            lemma_pow2_strictly_increases(shift as nat, 24);
            lemma_pow2_unfold((shift + 1) as nat);
            lemma_u64_shl_is_mul(1, shift);
            lemma_u64_shr_is_div(
                (2 * significand + pow2(shift as nat)) as u64,
                (shift + 1) as u64,
            );
            let unit: int = pow2(shift as nat) as int;
            assert((2 * significand + unit) / (2 * unit) <= 2 * significand + unit)
                by (nonlinear_arith)
                requires
                    unit >= 1,
                    significand >= 0,
            ;
        }
        ((2 * significand + (1u64 << shift)) >> (shift + 1)) as u32
    }

    /// Whether the number is finite and at least one.
    pub fn is_finite_and_at_least_one(&self) -> (r: bool)
        ensures
            r == self.is_usable(),
    {
        self.bits >= 0x3f80_0000 && self.bits < 0x7f80_0000
    }
}

/// The configuration of the camera node.
#[derive(Debug, Clone, PartialEq, Eq)]
pub struct CameraConfig {
    /// The device path, such as `/dev/video0`, or its index, such as `0`.
    pub device: String,
    /// The id under which images are sent.
    pub output_id: String,
    pub image_format: ImageFormat,
    /// JPEG quality from 1 to 100.
    pub image_jpeg_quality: u8,
    /// The wanted width; the device default if absent.
    pub width: Option<u32>,
    /// The wanted height; the device default if absent.
    pub height: Option<u32>,
    /// The wanted frame rate; not limited if absent.
    pub fps: Option<FrameRate>,
}

/// Why a configuration is not accepted.
#[derive(Debug, Clone, Copy, PartialEq, Eq, Structural)]
pub enum ConfigError {
    EmptyDevice,
    EmptyOutputId,
    JpegQualityOutOfRange,
    ZeroWidth,
    ZeroHeight,
    UnusableFps,
    NoConfigPath,
    NoSnapshotSource,
}

/// The text that reports a configuration error.
pub open spec fn config_error_text(e: ConfigError) -> Seq<char> {
    match e {
        ConfigError::EmptyDevice => "device must not be empty"@,
        ConfigError::EmptyOutputId => "output_id must not be empty"@,
        ConfigError::JpegQualityOutOfRange => "image_jpeg_quality must be in [1, 100]"@,
        ConfigError::ZeroWidth => "width must be positive if specified"@,
        ConfigError::ZeroHeight => "height must be positive if specified"@,
        ConfigError::UnusableFps => "fps must be finite and at least 1 if specified"@,
        ConfigError::NoConfigPath =>
            "no camera config found. set USB_CAMERA_NODE_CONFIG or pass --config <path.yaml>"@,
        ConfigError::NoSnapshotSource =>
            "snapshot requires --config <path.yaml> or --device <device>"@,
    }
}

impl ConfigError {
    /// The text that reports this error.
    pub fn message(&self) -> (r: String)
        ensures
            r@ == config_error_text(*self),
    {
        match self {
            ConfigError::EmptyDevice => "device must not be empty".to_owned(),
            ConfigError::EmptyOutputId => "output_id must not be empty".to_owned(),
            ConfigError::JpegQualityOutOfRange =>
                "image_jpeg_quality must be in [1, 100]".to_owned(),
            ConfigError::ZeroWidth => "width must be positive if specified".to_owned(),
            ConfigError::ZeroHeight => "height must be positive if specified".to_owned(),
            ConfigError::UnusableFps => "fps must be finite and at least 1 if specified".to_owned(),
            ConfigError::NoConfigPath =>
                "no camera config found. set USB_CAMERA_NODE_CONFIG or pass --config <path.yaml>".to_owned(),
            ConfigError::NoSnapshotSource =>
                "snapshot requires --config <path.yaml> or --device <device>".to_owned(),
        }
    }
}

/// The device of a configuration that names none.
pub fn default_device() -> (r: String)
    ensures
        r@ == "/dev/video0"@,
{
    "/dev/video0".to_owned()
}

/// The output id of a configuration that names none.
pub fn default_output_id() -> (r: String)
    ensures
        r@ == "image"@,
{
    "image".to_owned()
}

/// The image format of a configuration that names none.
pub fn default_image_format() -> (r: ImageFormat)
    ensures
        r == ImageFormat::Raw,
{
    ImageFormat::Raw
}

/// The JPEG quality of a configuration that names none.
pub fn default_jpeg_quality() -> (r: u8)
    ensures
        r == 90,
{
    90
}

/// Where the configuration of a snapshot comes from.
#[derive(Debug, Clone, PartialEq, Eq)]
pub enum SnapshotSource {
    /// A file, with the device replaced if one was given.
    File { path: String, device: Option<String> },
    /// The defaults for this device.
    Device(String),
}

impl CameraConfig {
    /// The first thing that is wrong with a configuration, if anything is.
    pub open spec fn problem(self) -> Option<ConfigError> {
        if is_blank_text(self.device@) {
            Some(ConfigError::EmptyDevice)
        } else if is_blank_text(self.output_id@) {
            Some(ConfigError::EmptyOutputId)
        } else if !(1 <= self.image_jpeg_quality <= 100) {
            Some(ConfigError::JpegQualityOutOfRange)
        } else if self.width == Some(0u32) {
            Some(ConfigError::ZeroWidth)
        } else if self.height == Some(0u32) {
            Some(ConfigError::ZeroHeight)
        } else if self.fps is Some && !self.fps->0.is_usable() {
            Some(ConfigError::UnusableFps)
        } else {
            None
        }
    }

    /// Hands the configuration back if every field is within its range.
    pub fn validate(self) -> (r: Result<CameraConfig, ConfigError>)
        ensures
            match r {
                Ok(config) => self.problem() is None && config == self,
                Err(e) => self.problem() == Some(e),
            },
    {
        if is_blank(self.device.as_str()) {
            return Err(ConfigError::EmptyDevice);
        }
        if is_blank(self.output_id.as_str()) {
            return Err(ConfigError::EmptyOutputId);
        }
        if self.image_jpeg_quality < 1 || self.image_jpeg_quality > 100 {
            return Err(ConfigError::JpegQualityOutOfRange);
        }
        if let Some(width) = self.width {
            if width == 0 {
                return Err(ConfigError::ZeroWidth);
            }
        }
        if let Some(height) = self.height {
            if height == 0 {
                return Err(ConfigError::ZeroHeight);
            }
        }
        if let Some(fps) = self.fps {
            if !fps.is_finite_and_at_least_one() {
                return Err(ConfigError::UnusableFps);
            }
        }
        Ok(self)
    }

    /// The path of the configuration file: the one given on the command line,
    /// else the one that the environment variable holds, unless that is empty.
    pub fn load_path(config_path: Option<&str>, env_path: Option<&str>) -> (r: Result<
        String,
        ConfigError,
    >)
        ensures
            match r {
                Ok(path) => match config_path {
                    Some(given) => path@ == given@,
                    None => env_path is Some && env_path->0@.len() > 0 && path@ == env_path->0@,
                },
                Err(e) => {
                    &&& e == ConfigError::NoConfigPath
                    &&& config_path is None
                    &&& env_path is None || env_path->0@.len() == 0
                },
            },
    {
        if let Some(path) = config_path {
            return Ok(path.to_owned());
        }
        if let Some(path) = env_path {
            if !path.is_empty() {
                return Ok(path.to_owned());
            }
        }
        Err(ConfigError::NoConfigPath)
    }

    /// The defaults for a snapshot of one device: JPEG, 1280 by 720.
    pub fn for_snapshot(device: String) -> (r: Result<CameraConfig, ConfigError>)
        ensures
            match r {
                Ok(config) => {
                    &&& !is_blank_text(device@)
                    &&& config.problem() is None
                    &&& config.device == device
                    &&& config.output_id@ == "image"@
                    &&& config.image_format == ImageFormat::Jpeg
                    &&& config.image_jpeg_quality == 90
                    &&& config.width == Some(1280u32)
                    &&& config.height == Some(720u32)
                    &&& config.fps is None
                },
                Err(e) => e == ConfigError::EmptyDevice && is_blank_text(device@),
            },
    {
        proof {
            reveal_strlit("image");
            assert(!is_white_space("image"@[0]));
        }
        let config: CameraConfig = CameraConfig {
            device,
            output_id: default_output_id(),
            image_format: ImageFormat::Jpeg,
            image_jpeg_quality: default_jpeg_quality(),
            width: Some(1280),
            height: Some(720),
            fps: None,
        };
        config.validate()
    }

    /// Where the configuration of a snapshot comes from: a file takes
    /// precedence, and a device given beside it replaces the file's.
    pub fn snapshot_source(config_path: Option<&str>, device: Option<&str>) -> (r: Result<
        SnapshotSource,
        ConfigError,
    >)
        ensures
            match r {
                Ok(SnapshotSource::File { path, device: replacement }) => {
                    &&& config_path is Some && path@ == config_path->0@
                    &&& replacement is Some == device is Some
                    &&& device is Some ==> replacement->0@ == device->0@
                },
                Ok(SnapshotSource::Device(name)) => {
                    &&& config_path is None
                    &&& device is Some && name@ == device->0@
                },
                Err(e) => {
                    &&& e == ConfigError::NoSnapshotSource
                    &&& config_path is None
                    &&& device is None
                },
            },
    {
        match config_path {
            Some(path) => Ok(
                SnapshotSource::File {
                    path: path.to_owned(),
                    device: match device {
                        Some(name) => Some(name.to_owned()),
                        None => None,
                    },
                },
            ),
            None => match device {
                Some(name) => Ok(SnapshotSource::Device(name.to_owned())),
                None => Err(ConfigError::NoSnapshotSource),
            },
        }
    }

    /// The configuration with its device replaced, if one is given.
    pub fn with_device(self, device: Option<String>) -> (r: CameraConfig)
        ensures
            r == (match device {
                Some(name) => (CameraConfig { device: name, ..self }),
                None => self,
            }),
    {
        match device {
            Some(name) => CameraConfig { device: name, ..self },
            None => self,
        }
    }
}

/// A configuration is accepted exactly if every field is within its range.
pub proof fn law_accepted_ranges(config: CameraConfig)
    ensures
        config.problem() is None <==> {
            &&& !is_blank_text(config.device@)
            &&& !is_blank_text(config.output_id@)
            &&& 1 <= config.image_jpeg_quality <= 100
            &&& config.width is Some ==> config.width->0 > 0
            &&& config.height is Some ==> config.height->0 > 0
            &&& config.fps is Some ==> config.fps->0.is_usable()
        },
{
}

/// The first of the rules that a configuration breaks is what is reported: a
/// device and an output that are not blank, a quality from 1 to 100, a width, a
/// height and a frame rate that are positive, the rate finite and at least one.
pub proof fn law_first_broken_rule_is_reported(config: CameraConfig)
    ensures
        ({
            let blank_device = trimmed(config.device@).len() == 0;
            let blank_output = trimmed(config.output_id@).len() == 0;
            let quality_fits = 1 <= config.image_jpeg_quality <= 100;
            let no_width = config.width == Some(0u32);
            let no_height = config.height == Some(0u32);
            let rate_fits = config.fps matches Some(rate) ==> 0x3f80_0000 <= rate.bits
                < 0x7f80_0000;
            let sound = !blank_device && !blank_output && quality_fits;
            &&& config.problem() == Some(ConfigError::EmptyDevice) <==> blank_device
            &&& config.problem() == Some(ConfigError::EmptyOutputId) <==> !blank_device
                && blank_output
            &&& config.problem() == Some(ConfigError::JpegQualityOutOfRange) <==> !blank_device
                && !blank_output && !quality_fits
            &&& config.problem() == Some(ConfigError::ZeroWidth) <==> sound && no_width
            &&& config.problem() == Some(ConfigError::ZeroHeight) <==> sound && !no_width
                && no_height
            &&& config.problem() == Some(ConfigError::UnusableFps) <==> sound && !no_width
                && !no_height && !rate_fits
            &&& config.problem() is None <==> sound && !no_width && !no_height && rate_fits
        }),
{
    lemma_blank_trims_to_nothing(config.device@);
    lemma_blank_trims_to_nothing(config.output_id@);
}

/// What `validate` hands back is the configuration itself, and every
/// configuration that breaks no rule is handed back.
pub proof fn law_validation_changes_nothing(
    config: CameraConfig,
    r: Result<CameraConfig, ConfigError>,
)
    requires
        call_ensures(CameraConfig::validate, (config,), r),
    ensures
        config.problem() is None ==> r == Ok::<CameraConfig, ConfigError>(config),
        config.problem() matches Some(e) ==> r == Err::<CameraConfig, ConfigError>(e),
{
}

/// A frame rate is asked for as the nearest whole number, the larger one of two
/// that are equally near. The rate is the significand times a power of two,
/// which for rates below 2^23 is the reciprocal of `unit`. Larger rates are
/// whole numbers, and the largest number stands for all above it.
pub proof fn law_nearest_rate_is_asked_for(rate: &FrameRate, r: u32)
    requires
        0x3f80_0000 <= rate.bits < 0x7f80_0000,
        call_ensures(FrameRate::rounded_rate, (rate,), r),
    ensures
        ({
            let exponent = rate.bits as int / 0x80_0000 - 127;
            let significand = rate.bits as int % 0x80_0000 + 0x80_0000;
            if exponent < 23 {
                let unit = pow2((23 - exponent) as nat);
                (2 * r - 1) * unit <= 2 * significand < (2 * r + 1) * unit
            } else {
                let exact = significand * pow2((exponent - 23) as nat);
                r == if exact <= u32::MAX {
                    exact
                } else {
                    u32::MAX as int
                }
            }
        }),
{
    let e = rate.exponent();
    let m = rate.significand();
    if e < 150 {
        let unit = pow2((150 - e) as nat) as int;
        lemma2_to64();
        lemma_pow2_strictly_increases((150 - e) as nat, 24);
        vstd::arithmetic::power2::lemma_pow2_pos((150 - e) as nat);
        let q = (2 * m + unit) / (2 * unit);
        vstd::arithmetic::div_mod::lemma_fundamental_div_mod(2 * m + unit, 2 * unit);
        vstd::arithmetic::div_mod::lemma_mod_bound(2 * m + unit, 2 * unit);
        assert((2 * q - 1) * unit <= 2 * m < (2 * q + 1) * unit) by (nonlinear_arith)
            requires
                2 * m + unit == (2 * unit) * q + (2 * m + unit) % (2 * unit),
                0 <= (2 * m + unit) % (2 * unit) < 2 * unit,
                unit > 0,
        ;
        assert(q <= 2 * m + unit) by (nonlinear_arith)
            requires
                q == (2 * m + unit) / (2 * unit),
                unit >= 1,
                m >= 0,
        ;
    }
}

/// A snapshot of a device is a JPEG file of quality 90, asked for in 1280 by 720
/// and at any rate.
pub proof fn law_snapshot_defaults(device: String, r: Result<CameraConfig, ConfigError>)
    requires
        call_ensures(CameraConfig::for_snapshot, (device,), r),
    ensures
        trimmed(device@).len() == 0 ==> r == Err::<CameraConfig, ConfigError>(
            ConfigError::EmptyDevice,
        ),
        trimmed(device@).len() > 0 ==> (r matches Ok(config) && {
            &&& config.device == device
            &&& config.output_id@ == "image"@
            &&& config.image_format == ImageFormat::Jpeg
            &&& config.image_jpeg_quality == 90
            &&& config.width == Some(1280u32)
            &&& config.height == Some(720u32)
            &&& config.fps is None
        }),
{
    lemma_blank_trims_to_nothing(device@);
}

/// The path of the configuration is the one given; else the one in the
/// environment, unless that is empty.
pub proof fn law_given_path_comes_first(
    given: Option<&str>,
    in_environment: Option<&str>,
    r: Result<String, ConfigError>,
)
    requires
        call_ensures(CameraConfig::load_path, (given, in_environment), r),
    ensures
        given matches Some(path) ==> (r matches Ok(p) && p@ == path@),
        given is None && in_environment is Some && in_environment->0@.len() > 0 ==> (r matches Ok(p)
            && p@ == in_environment->0@),
        given is None && (in_environment is None || in_environment->0@.len() == 0) ==> r is Err,
{
}

/// A snapshot is configured by the file that is given, with its device replaced
/// if one is given too; else by the device. It needs one of them.
pub proof fn law_snapshot_needs_a_source(
    file: Option<&str>,
    device: Option<&str>,
    r: Result<SnapshotSource, ConfigError>,
)
    requires
        call_ensures(CameraConfig::snapshot_source, (file, device), r),
    ensures
        match (file, device) {
            (Some(path), Some(name)) => r matches Ok(
                SnapshotSource::File { path: p, device: Some(d) },
            ) && p@ == path@ && d@ == name@,
            (Some(path), None) => r matches Ok(SnapshotSource::File { path: p, device: None }) && p@
                == path@,
            (None, Some(name)) => r matches Ok(SnapshotSource::Device(d)) && d@ == name@,
            (None, None) => r == Err::<SnapshotSource, ConfigError>(ConfigError::NoSnapshotSource),
        },
{
}

/// Another device replaces that of a configuration and nothing else.
pub proof fn law_device_is_replaced(
    config: CameraConfig,
    device: Option<String>,
    r: CameraConfig,
)
    requires
        call_ensures(CameraConfig::with_device, (config, device), r),
    ensures
        r.device == (if device is Some {
            device->0
        } else {
            config.device
        }),
        r.output_id == config.output_id,
        r.image_format == config.image_format,
        r.image_jpeg_quality == config.image_jpeg_quality,
        r.width == config.width,
        r.height == config.height,
        r.fps == config.fps,
{
}

/// A configuration that says nothing is that of the first device, which sends raw
/// images as `image`; JPEG files are of quality 90.
pub proof fn law_defaults(device: String, output: String, format: ImageFormat, quality: u8)
    requires
        call_ensures(default_device, (), device),
        call_ensures(default_output_id, (), output),
        call_ensures(default_image_format, (), format),
        call_ensures(default_jpeg_quality, (), quality),
    ensures
        device@ == "/dev/video0"@,
        output@ == "image"@,
        format == ImageFormat::Raw,
        quality == 90,
{
}

/// What is reported names the field that is wrong and its range, or what is missing
/// on the command line.
pub proof fn law_what_config_errors_name()
    ensures
        config_error_text(ConfigError::EmptyDevice) == "device must not be empty"@,
        config_error_text(ConfigError::EmptyOutputId) == "output_id must not be empty"@,
        config_error_text(ConfigError::JpegQualityOutOfRange)
            == "image_jpeg_quality must be in [1, 100]"@,
        config_error_text(ConfigError::ZeroWidth) == "width must be positive if specified"@,
        config_error_text(ConfigError::ZeroHeight) == "height must be positive if specified"@,
        config_error_text(ConfigError::UnusableFps)
            == "fps must be finite and at least 1 if specified"@,
        config_error_text(ConfigError::NoConfigPath)
            == "no camera config found. set USB_CAMERA_NODE_CONFIG or pass --config <path.yaml>"@,
        config_error_text(ConfigError::NoSnapshotSource)
            == "snapshot requires --config <path.yaml> or --device <device>"@,
{
}

} // verus!
