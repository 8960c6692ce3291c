//! Top-level configuration: the sections of a configuration document, their
//! defaults and the bounds that [`FluxConfig::validate`] enforces.
//!
//! Paths are plain text, and the output scale is a single-precision bit pattern.

use vstd::prelude::*;
use crate::error::FluxError;
use crate::float_bits;
use crate::frame::PixelFormat;
use crate::name_map::NameMap;
use crate::params::ParamValue;
use crate::text;

verus! {

/// Default capture device path.
pub const DEFAULT_INPUT_DEVICE: &'static str = "/dev/video0";

/// Default sink device path.
pub const DEFAULT_OUTPUT_DEVICE: &'static str = "/dev/video10";

/// Default frame width in pixels.
pub const DEFAULT_WIDTH: u32 = 1280;

/// Default frame height in pixels.
pub const DEFAULT_HEIGHT: u32 = 720;

/// Default frames per second.
pub const DEFAULT_FPS: u32 = 30;

/// Default maximum end-to-end latency in milliseconds.
pub const DEFAULT_MAX_LATENCY_MS: u32 = 120;

/// Default cap on frames in flight through the pipeline.
pub const DEFAULT_MAX_INFLIGHT_FRAMES: u32 = 1;

/// Default log level.
pub const DEFAULT_LOG_LEVEL: &'static str = "info";

/// Upper bound on the frame width.
pub const MAX_WIDTH: u32 = 16384;

/// Upper bound on the frame height.
pub const MAX_HEIGHT: u32 = 16384;

/// Upper bound on the frame rate.
pub const MAX_FPS: u32 = 240;

/// Upper bound on `max_inflight_frames`.
pub const MAX_INFLIGHT_FRAMES: u32 = 64;

/// Upper bound on `max_latency_ms`.
pub const MAX_LATENCY_MS: u32 = 10_000;

/// Default cadence of the metrics reporter; `0` disables periodic reporting.
pub const DEFAULT_METRICS_INTERVAL_SECS: u32 = 30;

/// Default output scale, `1.0`: publish at the input resolution.
pub const DEFAULT_OUTPUT_SCALE: u32 = 0x3F80_0000;

/// Lower inclusive bound on `output.scale`, `0.05`.
pub const MIN_OUTPUT_SCALE: u32 = 0x3D4C_CCCD;

/// Upper inclusive bound on `output.scale`, `1.0`: never upscale.
pub const MAX_OUTPUT_SCALE: u32 = 0x3F80_0000;

/// Upper bound on a positive `metrics_interval_secs`.
pub const MAX_METRICS_INTERVAL_SECS: u32 = 3600;

/// Upper bound on `input.auto.poll_interval_secs`.
pub const MAX_POLL_INTERVAL_SECS: u32 = 3600;

/// Upper inclusive bound on `input.acquire_backoff_max_ms`.
pub const MAX_ACQUIRE_BACKOFF_MS: u32 = 30_000;

/// Upper bound on `idle.teardown_secs`.
pub const MAX_IDLE_TEARDOWN_SECS: u32 = 3600;

/// Upper bound on `idle.deep_idle_secs`.
pub const MAX_IDLE_DEEP_SECS: u32 = 3600;

/// Lower inclusive bound on `idle.poll_interval_ms`.
pub const MIN_IDLE_POLL_INTERVAL_MS: u32 = 100;

/// Upper inclusive bound on `idle.poll_interval_ms`.
pub const MAX_IDLE_POLL_INTERVAL_MS: u32 = 5000;

/// Upper inclusive bound on `idle.fps`.
pub const MAX_IDLE_FPS: u32 = 60;

/// Lower inclusive bound on a non-zero `idle.resync_interval_secs`.
pub const MIN_IDLE_RESYNC_INTERVAL_SECS: u32 = 5;

/// Upper inclusive bound on `idle.resync_interval_secs`.
pub const MAX_IDLE_RESYNC_INTERVAL_SECS: u32 = 3600;

/// Backend selection for input and output.
#[derive(Debug, Clone, Copy, PartialEq, Eq, Structural)]
pub enum BackendKind {
    /// Pick the backend from the device string.
    Auto,
    /// Linux V4L2 capture or loopback.
    V4l2,
    /// Synthetic test-pattern source.
    Testsrc,
    /// Discarding sink.
    Fakesink,
}

impl Default for BackendKind {
    fn default() -> (r: Self)
        ensures
            r == BackendKind::Auto,
    {
        BackendKind::Auto
    }
}

// ---------------------------------------------------------------------------
// Pixel format tags
// ---------------------------------------------------------------------------

/// The tag of a pixel format.
pub open spec fn tag(format: PixelFormat) -> Seq<char> {
    match format {
        PixelFormat::Rgb => "RGB"@,
        PixelFormat::Rgba => "RGBA"@,
        PixelFormat::Bgr => "BGR"@,
        PixelFormat::Yuy2 => "YUY2"@,
        PixelFormat::Nv12 => "NV12"@,
        PixelFormat::Gray8 => "GRAY8"@,
    }
}

/// The pixel format that a tag stands for, in any letter case.
pub open spec fn of_tag(raw: Seq<char>) -> Option<PixelFormat> {
    let name = text::upper(raw);
    if name == "RGB"@ {
        Some(PixelFormat::Rgb)
    } else if name == "RGBA"@ {
        Some(PixelFormat::Rgba)
    } else if name == "BGR"@ {
        Some(PixelFormat::Bgr)
    } else if name == "YUY2"@ {
        Some(PixelFormat::Yuy2)
    } else if name == "NV12"@ {
        Some(PixelFormat::Nv12)
    } else if name == "GRAY8"@ {
        Some(PixelFormat::Gray8)
    } else {
        None
    }
}

/// The tag of a pixel format.
#[must_use]
pub fn pixel_format_tag(format: PixelFormat) -> (r: &'static str)
    ensures
        r@ == tag(format),
{
    match format {
        PixelFormat::Rgb => "RGB",
        PixelFormat::Rgba => "RGBA",
        PixelFormat::Bgr => "BGR",
        PixelFormat::Yuy2 => "YUY2",
        PixelFormat::Nv12 => "NV12",
        PixelFormat::Gray8 => "GRAY8",
    }
}

/// The complaint about a tag that is none.
pub open spec fn unknown_tag(raw: Seq<char>) -> Seq<char> {
    "unknown pixel format `"@ + text::upper(raw)
        + "`; expected one of RGB, RGBA, BGR, YUY2, NV12, GRAY8"@
}

/// Read a pixel format tag, in any letter case.
pub fn parse_pixel_format(raw: &str) -> (r: Result<PixelFormat, String>)
    ensures
        match r {
            Ok(f) => of_tag(raw@) == Some(f),
            Err(e) => of_tag(raw@) is None && e@ == unknown_tag(raw@),
        },
{
    let name = text::to_upper(raw);
    if text::same(name.as_str(), "RGB") {
        Ok(PixelFormat::Rgb)
    } else if text::same(name.as_str(), "RGBA") {
        Ok(PixelFormat::Rgba)
    } else if text::same(name.as_str(), "BGR") {
        Ok(PixelFormat::Bgr)
    } else if text::same(name.as_str(), "YUY2") {
        Ok(PixelFormat::Yuy2)
    } else if text::same(name.as_str(), "NV12") {
        Ok(PixelFormat::Nv12)
    } else if text::same(name.as_str(), "GRAY8") {
        Ok(PixelFormat::Gray8)
    } else {
        let mut message = "unknown pixel format `".to_owned();
        message.append(name.as_str());
        message.append("`; expected one of RGB, RGBA, BGR, YUY2, NV12, GRAY8");
        Err(message)
    }
}

/// Reading a tag gives back the format it was written for.
pub proof fn law_tag_round_trip(format: PixelFormat)
    ensures
        of_tag(tag(format)) == Some(format),
        of_tag(text::lower(tag(format))) == Some(format),
{
    reveal_strlit("RGB");
    reveal_strlit("RGBA");
    reveal_strlit("BGR");
    reveal_strlit("YUY2");
    reveal_strlit("NV12");
    reveal_strlit("GRAY8");
    let name = tag(format);
    assert(text::upper(name) =~= name);
    assert(text::upper(text::lower(name)) =~= name);
    assert("RGB"@.len() == 3 && "BGR"@.len() == 3 && "RGBA"@.len() == 4);
    assert("RGB"@[0] != "BGR"@[0]);
    assert("RGBA"@[0] == 'R' && "YUY2"@[0] == 'Y' && "NV12"@[0] == 'N');
}

// ---------------------------------------------------------------------------
// Input device
// ---------------------------------------------------------------------------

/// Input device selector.
#[derive(Debug, Clone, PartialEq, Eq)]
pub enum InputDevice {
    /// Pick the first capture device available at startup.
    Auto,
    /// Synthetic test source.
    Testsrc,
    /// Explicit device path.
    Path(String),
}

/// What a device selector stands for.
#[verifier::ext_equal]
pub ghost enum DeviceModel {
    /// Pick a device.
    Auto,
    /// Synthetic test source.
    Testsrc,
    /// The device at a path.
    Path(Seq<char>),
}

impl DeviceModel {
    /// The selector that `raw` spells.
    pub open spec fn of_text(raw: Seq<char>) -> Self {
        if text::lower(raw) == "auto"@ {
            DeviceModel::Auto
        } else if text::lower(raw) == "testsrc"@ {
            DeviceModel::Testsrc
        } else {
            DeviceModel::Path(raw)
        }
    }

    /// The text of the selector.
    pub open spec fn spelled(self) -> Seq<char> {
        match self {
            DeviceModel::Auto => "auto"@,
            DeviceModel::Testsrc => "testsrc"@,
            DeviceModel::Path(p) => p,
        }
    }
}

impl View for InputDevice {
    type V = DeviceModel;

    open spec fn view(&self) -> DeviceModel {
        match self {
            InputDevice::Auto => DeviceModel::Auto,
            InputDevice::Testsrc => DeviceModel::Testsrc,
            InputDevice::Path(p) => DeviceModel::Path(p@),
        }
    }
}

impl InputDevice {
    /// Read a selector: `auto` and `testsrc` in any letter case, else a path.
    #[must_use]
    pub fn parse(raw: &str) -> (r: Self)
        ensures
            r@ == DeviceModel::of_text(raw@),
    {
        let name = text::to_lower(raw);
        if text::same(name.as_str(), "auto") {
            InputDevice::Auto
        } else if text::same(name.as_str(), "testsrc") {
            InputDevice::Testsrc
        } else {
            InputDevice::Path(raw.to_owned())
        }
    }

    /// The text of the selector.
    #[must_use]
    pub fn to_string(&self) -> (r: String)
        ensures
            r@ == self@.spelled(),
    {
        match self {
            InputDevice::Auto => "auto".to_owned(),
            InputDevice::Testsrc => "testsrc".to_owned(),
            InputDevice::Path(p) => p.clone(),
        }
    }
}

/// Reading the text of a selector that was read gives the selector again.
pub proof fn law_device_round_trip(raw: Seq<char>)
    ensures
        DeviceModel::of_text(DeviceModel::of_text(raw).spelled()) == DeviceModel::of_text(raw),
{
    reveal_strlit("auto");
    reveal_strlit("testsrc");
    assert(text::lower("auto"@) =~= "auto"@);
    assert(text::lower("testsrc"@) =~= "testsrc"@);
    assert("auto"@.len() == 4 && "testsrc"@.len() == 7);
}

// ---------------------------------------------------------------------------
// Input
// ---------------------------------------------------------------------------

/// Parameters of the automatic choice of an input device.
#[derive(Debug, Clone)]
pub struct AutoInputConfig {
    /// Polling cadence in seconds while waiting for a device.
    pub poll_interval_secs: u32,
    /// Extra device paths to skip.
    pub exclude_devices: Vec<String>,
}

impl Default for AutoInputConfig {
    fn default() -> (r: Self)
        ensures
            r.poll_interval_secs == 2,
            r.exclude_devices@.len() == 0,
    {
        AutoInputConfig {
            poll_interval_secs: 2,
            exclude_devices: Vec::new(),
        }
    }
}

/// Capture-side configuration.
#[derive(Debug, Clone)]
pub struct InputConfig {
    /// Capture backend.
    pub backend: BackendKind,
    /// Capture device.
    pub device: InputDevice,
    /// Requested width in pixels.
    pub width: u32,
    /// Requested height in pixels.
    pub height: u32,
    /// Requested frames per second.
    pub fps: u32,
    /// Requested pixel format.
    pub format: PixelFormat,
    /// Parameters of the automatic choice.
    pub auto: AutoInputConfig,
    /// First delay of the acquire backoff, in milliseconds.
    pub acquire_backoff_base_ms: u32,
    /// Ceiling of the acquire backoff, in milliseconds.
    pub acquire_backoff_max_ms: u32,
}

impl Default for InputConfig {
    fn default() -> (r: Self)
        ensures
            r.backend == BackendKind::Auto,
            r.device@ == DeviceModel::Path(DEFAULT_INPUT_DEVICE@),
            r.width == DEFAULT_WIDTH,
            r.height == DEFAULT_HEIGHT,
            r.fps == DEFAULT_FPS,
            r.format == PixelFormat::Rgb,
            r.auto.poll_interval_secs == 2,
            r.auto.exclude_devices@.len() == 0,
            r.acquire_backoff_base_ms == 500,
            r.acquire_backoff_max_ms == 5000,
    {
        InputConfig {
            backend: BackendKind::Auto,
            device: InputDevice::Path(DEFAULT_INPUT_DEVICE.to_owned()),
            width: DEFAULT_WIDTH,
            height: DEFAULT_HEIGHT,
            fps: DEFAULT_FPS,
            format: PixelFormat::Rgb,
            auto: AutoInputConfig::default(),
            acquire_backoff_base_ms: 500,
            acquire_backoff_max_ms: 5000,
        }
    }
}

// ---------------------------------------------------------------------------
// Output
// ---------------------------------------------------------------------------

/// A downscale factor between [`MIN_OUTPUT_SCALE`] and [`MAX_OUTPUT_SCALE`].
#[derive(Debug, Clone, Copy, PartialEq)]
pub struct OutputScale(u32);

/// Why `bits` is no output scale, if it is none.
pub open spec fn scale_complaint(bits: u32) -> Option<Seq<char>> {
    if float_bits::nan(bits) {
        Some("output.scale must be a finite number, got NaN"@)
    } else if bits == float_bits::INFINITY {
        Some("output.scale must be finite, got inf"@)
    } else if bits == 0xFF80_0000u32 {
        Some("output.scale must be finite, got -inf"@)
    } else if float_bits::rank(bits) <= 0 {
        Some(
            "output.scale must be positive (use 1.0 for passthrough, 0.5 for half-size, …)"@,
        )
    } else if float_bits::rank(bits) < float_bits::rank(MIN_OUTPUT_SCALE) {
        Some("output.scale must be >= 0.05 (smaller values collapse to a sub-pixel output)"@)
    } else if float_bits::rank(bits) > float_bits::rank(MAX_OUTPUT_SCALE) {
        Some("output.scale must be <= 1 (upscaling is unsupported)"@)
    } else {
        None
    }
}

/// Whether `r` is the configuration error `reason`, without a hint.
pub open spec fn rejected<T>(r: Result<T, FluxError>, reason: Seq<char>) -> bool {
    r matches Err(e) && (e matches FluxError::Config { reason: t, hint } && t@ == reason
        && hint is None)
}

/// A configuration error without a hint.
fn config_err(reason: String) -> (r: FluxError)
    ensures
        r matches FluxError::Config { reason: t, hint } && t == reason && hint is None,
{
    FluxError::Config { reason, hint: None }
}

impl View for OutputScale {
    type V = u32;

    closed spec fn view(&self) -> u32 {
        self.0
    }
}

impl OutputScale {
    #[verifier::type_invariant]
    spec fn inv(self) -> bool {
        scale_complaint(self.0) is None
    }

    /// The scale that the bit pattern stands for, if it is in range.
    pub fn new(bits: u32) -> (r: Result<Self, FluxError>)
        ensures
            match scale_complaint(bits) {
                Some(reason) => rejected(r, reason),
                None => r matches Ok(s) && s@ == bits,
            },
    {
        let reason: &str = if float_bits::is_nan(bits) {
            "output.scale must be a finite number, got NaN"
        } else if bits == float_bits::INFINITY {
            "output.scale must be finite, got inf"
        } else if bits == 0xFF80_0000u32 {
            "output.scale must be finite, got -inf"
        } else if bits == float_bits::ZERO || bits >= float_bits::SIGN {
            "output.scale must be positive (use 1.0 for passthrough, 0.5 for half-size, …)"
        } else if bits < MIN_OUTPUT_SCALE {
            "output.scale must be >= 0.05 (smaller values collapse to a sub-pixel output)"
        } else if bits > MAX_OUTPUT_SCALE {
            "output.scale must be <= 1 (upscaling is unsupported)"
        } else {
            return Ok(OutputScale(bits));
        };
        Err(config_err(reason.to_owned()))
    }

    /// The passthrough factor, `1.0`.
    #[must_use]
    pub fn identity() -> (r: Self)
        ensures
            r@ == DEFAULT_OUTPUT_SCALE,
    {
        OutputScale(DEFAULT_OUTPUT_SCALE)
    }

    /// The factor, in range.
    #[must_use]
    pub fn value(self) -> (r: u32)
        ensures
            r == self@,
            scale_complaint(r) is None,
    {
        proof {
            use_type_invariant(&self);
        }
        self.0
    }
}

impl Default for OutputScale {
    fn default() -> (r: Self)
        ensures
            r@ == DEFAULT_OUTPUT_SCALE,
    {
        OutputScale::identity()
    }
}

/// The significand of a normal scale: the value is this over
/// [`denominator`].
pub open spec fn significand(bits: u32) -> int {
    0x80_0000 + bits as int % 0x80_0000
}

/// The power of two under the significand of a scale.
pub open spec fn denominator(bits: u32) -> int {
    let exponent = bits as int / 0x80_0000;
    if exponent == 127 {
        0x80_0000
    } else if exponent == 126 {
        0x100_0000
    } else if exponent == 125 {
        0x200_0000
    } else if exponent == 124 {
        0x400_0000
    } else if exponent == 123 {
        0x800_0000
    } else {
        0x1000_0000
    }
}

/// The integer `p`, below 2^56, rounded to double precision, which has 53
/// significant bits: to the nearest multiple of two, four or eight, ties to the
/// even multiple.
pub open spec fn nearest_double(p: int) -> int {
    if p < 0x20_0000_0000_0000 {
        p
    } else if p < 0x40_0000_0000_0000 {
        if p % 2 == 1 && (p / 2) % 2 == 1 {
            (p / 2 + 1) * 2
        } else {
            p / 2 * 2
        }
    } else if p < 0x80_0000_0000_0000 {
        if p % 4 > 2 || (p % 4 == 2 && (p / 4) % 2 == 1) {
            (p / 4 + 1) * 4
        } else {
            p / 4 * 4
        }
    } else {
        if p % 8 > 4 || (p % 8 == 4 && (p / 8) % 2 == 1) {
            (p / 8 + 1) * 8
        } else {
            p / 8 * 8
        }
    }
}

/// `input` times the scale, rounded to the nearest pixel, down to an even one,
/// and at least two.
pub open spec fn scaled(input: u32, bits: u32) -> int {
    let product = nearest_double(input * significand(bits));
    let pixels = (2 * product + denominator(bits)) / (2 * denominator(bits));
    let even = pixels / 2 * 2;
    if even < 2 {
        2
    } else {
        even
    }
}

/// Apply a scale to one dimension.
fn scale_dimension(input: u32, scale: OutputScale) -> (r: u32)
    ensures
        r == scaled(input, scale@),
        r % 2 == 0,
        2 <= r,
        r <= 2 || r <= input,
{
    let bits: u32 = scale.value();
    let m: u64 = 0x80_0000 + (bits % 0x80_0000) as u64;
    let exponent: u32 = bits / 0x80_0000;
    let d: u64 = if exponent == 127 {
        0x80_0000
    } else if exponent == 126 {
        0x100_0000
    } else if exponent == 125 {
        0x200_0000
    } else if exponent == 124 {
        0x400_0000
    } else if exponent == 123 {
        0x800_0000
    } else {
        0x1000_0000
    };
    assert(122 <= exponent <= 127);
    assert(m <= d);
    assert(0 <= input * m <= input * d && input * m <= 0xFFFF_FFFF * 0xFF_FFFF) by (nonlinear_arith)
        requires
            0 <= m <= d,
            m <= 0xFF_FFFF,
            0 <= input <= 0xFFFF_FFFF,
    ;
    let p: u64 = input as u64 * m;
    let product: u64 = if p < 0x20_0000_0000_0000 {
        p
    } else if p < 0x40_0000_0000_0000 {
        if p % 2 == 1 && (p / 2) % 2 == 1 {
            (p / 2 + 1) * 2
        } else {
            p / 2 * 2
        }
    } else if p < 0x80_0000_0000_0000 {
        if p % 4 > 2 || (p % 4 == 2 && (p / 4) % 2 == 1) {
            (p / 4 + 1) * 4
        } else {
            p / 4 * 4
        }
    } else {
        if p % 8 > 4 || (p % 8 == 4 && (p / 8) % 2 == 1) {
            (p / 8 + 1) * 8
        } else {
            p / 8 * 8
        }
    };
    assert(product == nearest_double(input * significand(bits)));
    let pixels: u64 = (2 * product + d) / (2 * d);
    proof {
        lemma_product_bounded(input as int, m as int, d as int);
        assert(pixels <= input) by (nonlinear_arith)
            requires
                pixels == (2 * product + d) / (2 * d as int),
                product <= input * d,
                d > 0,
                input >= 0,
        ;
    }
    let even: u32 = pixels as u32 / 2 * 2;
    if even < 2 {
        2
    } else {
        even
    }
}

/// A product that is at most a multiple of a power of two from 2^23 on stays
/// so when it is rounded.
proof fn lemma_product_bounded(input: int, m: int, d: int)
    requires
        0 <= input <= 0xFFFF_FFFF,
        0 <= m <= d,
        m <= 0xFF_FFFF,
        d == 0x80_0000 || d == 0x100_0000 || d == 0x200_0000 || d == 0x400_0000 || d == 0x800_0000
            || d == 0x1000_0000,
    ensures
        nearest_double(input * m) <= input * d,
{
    let p = input * m;
    let bound = input * d;
    assert(0 <= p <= bound && p <= 0xFFFF_FFFF * 0xFF_FFFF) by (nonlinear_arith)
        requires
            0 <= m <= d,
            m <= 0xFF_FFFF,
            0 <= input <= 0xFFFF_FFFF,
            p == input * m,
            bound == input * d,
    ;
    if d == 0x80_0000 {
        assert((input * 0x80_0000) % 8 == 0);
    } else if d == 0x100_0000 {
        assert((input * 0x100_0000) % 8 == 0);
    } else if d == 0x200_0000 {
        assert((input * 0x200_0000) % 8 == 0);
    } else if d == 0x400_0000 {
        assert((input * 0x400_0000) % 8 == 0);
    } else if d == 0x800_0000 {
        assert((input * 0x800_0000) % 8 == 0);
    } else {
        assert((input * 0x1000_0000) % 8 == 0);
    }
    assert(bound % 8 == 0);
    lemma_nearest_below(p, bound);
}

/// Rounding to double precision does not pass a multiple of eight.
proof fn lemma_nearest_below(p: int, bound: int)
    requires
        0 <= p <= bound,
        bound % 8 == 0,
    ensures
        nearest_double(p) <= bound,
{
}

/// An effective dimension is even, at least two, and never above the input,
/// except that an input below two gives two.
pub proof fn law_effective_dimension(input: u32, bits: u32)
    requires
        scale_complaint(bits) is None,
    ensures
        scaled(input, bits) % 2 == 0,
        2 <= scaled(input, bits),
        scaled(input, bits) <= 2 || scaled(input, bits) <= input,
{
    let m = significand(bits);
    let d = denominator(bits);
    assert(122 <= bits / 0x80_0000 <= 127);
    assert(m <= d);
    lemma_product_bounded(input as int, m, d);
    let product = nearest_double(input * m);
    let pixels = (2 * product + d) / (2 * d);
    assert(pixels <= input) by (nonlinear_arith)
        requires
            pixels == (2 * product + d) / (2 * d),
            product <= input * d,
            d > 0,
            input >= 0,
    ;
}

/// At the passthrough scale a dimension is the input, rounded down to an even
/// number and at least two.
pub proof fn law_identity_scale(input: u32)
    ensures
        scaled(input, DEFAULT_OUTPUT_SCALE) == (if input < 2 {
            2
        } else {
            input as int / 2 * 2
        }),
{
    let bits = DEFAULT_OUTPUT_SCALE;
    assert(significand(bits) == 0x80_0000 && denominator(bits) == 0x80_0000);
    let p = input * 0x80_0000;
    assert(p % 8 == 0);
    assert(nearest_double(p) == p);
    assert((2 * p + 0x80_0000) / 0x100_0000 == input);
}

/// Sink-side configuration.  The sink publishes at the scaled input size and at
/// the input frame rate.
#[derive(Debug, Clone)]
pub struct OutputConfig {
    /// Output backend.
    pub backend: BackendKind,
    /// Sink device path.
    pub device: String,
    /// Downscale factor relative to the input.
    pub scale: OutputScale,
    /// Pixel format pushed to the sink.
    pub format: PixelFormat,
}

impl Default for OutputConfig {
    fn default() -> (r: Self)
        ensures
            r.backend == BackendKind::V4l2,
            r.device@ == DEFAULT_OUTPUT_DEVICE@,
            r.scale@ == DEFAULT_OUTPUT_SCALE,
            r.format == PixelFormat::Yuy2,
    {
        OutputConfig {
            backend: BackendKind::V4l2,
            device: DEFAULT_OUTPUT_DEVICE.to_owned(),
            scale: OutputScale::identity(),
            format: PixelFormat::Yuy2,
        }
    }
}

impl OutputConfig {
    /// Size of the output for an input of the given size: even and at least
    /// two each way.
    #[must_use]
    pub fn effective_dimensions(&self, input_w: u32, input_h: u32) -> (r: (u32, u32))
        ensures
            r.0 == scaled(input_w, self.scale@),
            r.1 == scaled(input_h, self.scale@),
            r.0 % 2 == 0 && r.1 % 2 == 0,
            r.0 >= 2 && r.1 >= 2,
    {
        (scale_dimension(input_w, self.scale), scale_dimension(input_h, self.scale))
    }
}

// ---------------------------------------------------------------------------
// Realtime, presets, control, idle, logging
// ---------------------------------------------------------------------------

/// Scheduling configuration.
#[derive(Debug, Clone)]
pub struct RealtimeConfig {
    /// Latency in milliseconds past which a frame is late.
    pub max_latency_ms: u32,
    /// Whether late frames may be dropped.
    pub drop_late_frames: bool,
    /// Maximum number of frames in flight.
    pub max_inflight_frames: u32,
    /// Seconds between two metrics summaries; `0` disables them.
    pub metrics_interval_secs: u32,
}

impl Default for RealtimeConfig {
    fn default() -> (r: Self)
        ensures
            r.max_latency_ms == DEFAULT_MAX_LATENCY_MS,
            r.drop_late_frames,
            r.max_inflight_frames == DEFAULT_MAX_INFLIGHT_FRAMES,
            r.metrics_interval_secs == DEFAULT_METRICS_INTERVAL_SECS,
    {
        RealtimeConfig {
            max_latency_ms: DEFAULT_MAX_LATENCY_MS,
            drop_late_frames: true,
            max_inflight_frames: DEFAULT_MAX_INFLIGHT_FRAMES,
            metrics_interval_secs: DEFAULT_METRICS_INTERVAL_SECS,
        }
    }
}

/// One sub-pipeline of the composite effect: a chain of effect names, and a
/// parameter table per effect.
#[derive(Debug, Clone)]
pub struct PipelineSection {
    /// Effect names, in order.
    pub chain: Vec<String>,
    /// Model path; read of the mask section only.
    pub model: Option<String>,
    /// Model configuration path; read of the mask section only.
    pub model_config: Option<String>,
    /// Consecutive failures tolerated; read of the mask section only.
    pub fallback_threshold: Option<u32>,
    /// Parameter tables, by effect name.
    pub per_effect: NameMap<String, ParamValue>,
}

impl Default for PipelineSection {
    fn default() -> (r: Self)
        ensures
            r.chain@.len() == 0,
            r.model is None,
            r.model_config is None,
            r.fallback_threshold is None,
            r.per_effect.wf(),
            r.per_effect@ == Map::<Seq<char>, ParamValue>::empty(),
    {
        PipelineSection {
            chain: Vec::new(),
            model: None,
            model_config: None,
            fallback_threshold: None,
            per_effect: NameMap::new(),
        }
    }
}

/// One named composite pipeline; every section is optional.
#[derive(Debug, Clone)]
pub struct Preset {
    /// Segmentation model and mask effects.
    pub mask: Option<PipelineSection>,
    /// Background plane effects.
    pub background: Option<PipelineSection>,
    /// Foreground plane effects.
    pub foreground: Option<PipelineSection>,
    /// Effects on the composed frame.
    pub post: Option<PipelineSection>,
}

impl Default for Preset {
    fn default() -> (r: Self)
        ensures
            r.mask is None,
            r.background is None,
            r.foreground is None,
            r.post is None,
    {
        Preset {
            mask: None,
            background: None,
            foreground: None,
            post: None,
        }
    }
}

/// Control-socket configuration.
#[derive(Debug, Clone)]
pub struct ControlConfig {
    /// Whether to listen.
    pub enabled: bool,
    /// Socket path; derived from the runtime directory when absent.
    pub socket_path: Option<String>,
}

impl Default for ControlConfig {
    fn default() -> (r: Self)
        ensures
            !r.enabled,
            r.socket_path is None,
    {
        ControlConfig {
            enabled: false,
            socket_path: None,
        }
    }
}

/// What the idle frame shows.
#[derive(Debug, Clone, Copy, PartialEq, Eq, Structural)]
pub enum IdlePlaceholderKind {
    /// A solid colour.
    Color,
    /// A static image.
    Image,
}

impl Default for IdlePlaceholderKind {
    fn default() -> (r: Self)
        ensures
            r == IdlePlaceholderKind::Color,
    {
        IdlePlaceholderKind::Color
    }
}

/// How the presence of a consumer is detected.
#[derive(Debug, Clone, Copy, PartialEq, Eq, Structural)]
pub enum IdlePresenceSource {
    /// Kernel events, else the heuristic.
    Auto,
    /// Kernel events only.
    KernelEvent,
    /// The heuristic only.
    Inotify,
    /// Never absent.
    Disabled,
}

impl Default for IdlePresenceSource {
    fn default() -> (r: Self)
        ensures
            r == IdlePresenceSource::Auto,
    {
        IdlePresenceSource::Auto
    }
}

/// Idle-mode configuration.
#[derive(Debug, Clone)]
pub struct IdleConfig {
    /// Master switch.
    pub enabled: bool,
    /// Placeholder kind.
    pub placeholder: IdlePlaceholderKind,
    /// Colour of a solid placeholder.
    pub placeholder_rgb: [u8; 3],
    /// Path of an image placeholder.
    pub placeholder_path: Option<String>,
    /// Frames per second while idle.
    pub fps: u32,
    /// Least placeholder cadence that keeps the device visible.
    pub min_visibility_fps: u32,
    /// Seconds without a consumer before idling.
    pub teardown_secs: u32,
    /// Accepted and without effect.
    pub deep_idle_secs: u32,
    /// Polling cadence in milliseconds.
    pub poll_interval_ms: u32,
    /// Seconds between two readings of the capture usage; `0` disables them.
    pub resync_interval_secs: u32,
    /// How presence is detected.
    pub presence_source: IdlePresenceSource,
}

impl Default for IdleConfig {
    fn default() -> (r: Self)
        ensures
            !r.enabled,
            r.placeholder == IdlePlaceholderKind::Color,
            r.placeholder_rgb@ == seq![16u8, 16u8, 16u8],
            r.placeholder_path is None,
            r.fps == 1,
            r.min_visibility_fps == 10,
            r.teardown_secs == 5,
            r.deep_idle_secs == 30,
            r.poll_interval_ms == 250,
            r.resync_interval_secs == 30,
            r.presence_source == IdlePresenceSource::Auto,
    {
        IdleConfig {
            enabled: false,
            placeholder: IdlePlaceholderKind::Color,
            placeholder_rgb: [16, 16, 16],
            placeholder_path: None,
            fps: 1,
            min_visibility_fps: 10,
            teardown_secs: 5,
            deep_idle_secs: 30,
            poll_interval_ms: 250,
            resync_interval_secs: default_idle_resync_interval_secs(),
            presence_source: IdlePresenceSource::Auto,
        }
    }
}

/// Default of `idle.resync_interval_secs`.
#[must_use]
pub fn default_idle_resync_interval_secs() -> (r: u32)
    ensures
        r == 30,
{
    30
}

impl IdleConfig {
    /// Whether idle mode is off.
    #[must_use]
    pub fn is_off(&self) -> (r: bool)
        ensures
            r == !self.enabled,
    {
        !self.enabled
    }
}

/// Logging configuration.
#[derive(Debug, Clone)]
pub struct LoggingConfig {
    /// Log level filter.
    pub level: String,
}

impl Default for LoggingConfig {
    fn default() -> (r: Self)
        ensures
            r.level@ == DEFAULT_LOG_LEVEL@,
    {
        LoggingConfig {
            level: DEFAULT_LOG_LEVEL.to_owned(),
        }
    }
}

// ---------------------------------------------------------------------------
// Root
// ---------------------------------------------------------------------------

/// Root of the configuration.
#[derive(Debug, Clone)]
pub struct FluxConfig {
    /// Capture side.
    pub input: InputConfig,
    /// Sink side.
    pub output: OutputConfig,
    /// Scheduling.
    pub realtime: RealtimeConfig,
    /// Composite pipelines, by name.
    pub presets: NameMap<String, Preset>,
    /// Logging.
    pub logging: LoggingConfig,
    /// Control socket.
    pub control: ControlConfig,
    /// Idle mode.
    pub idle: IdleConfig,
}

impl Default for FluxConfig {
    fn default() -> (r: Self)
        ensures
            r.defect() is None,
            r.input.width == DEFAULT_WIDTH,
            r.input.height == DEFAULT_HEIGHT,
            r.input.fps == DEFAULT_FPS,
            r.input.format == PixelFormat::Rgb,
            r.input.backend == BackendKind::Auto,
            r.input.device@ == DeviceModel::Path(DEFAULT_INPUT_DEVICE@),
            r.output.backend == BackendKind::V4l2,
            r.output.device@ == DEFAULT_OUTPUT_DEVICE@,
            r.output.scale@ == DEFAULT_OUTPUT_SCALE,
            r.output.format == PixelFormat::Yuy2,
            r.realtime.drop_late_frames,
            r.realtime.max_latency_ms == DEFAULT_MAX_LATENCY_MS,
            r.realtime.max_inflight_frames == DEFAULT_MAX_INFLIGHT_FRAMES,
            r.realtime.metrics_interval_secs == DEFAULT_METRICS_INTERVAL_SECS,
            r.presets.wf(),
            r.presets@ == Map::<Seq<char>, Preset>::empty(),
            r.logging.level@ == DEFAULT_LOG_LEVEL@,
            !r.control.enabled,
            !r.idle.enabled,
    {
        FluxConfig {
            input: InputConfig::default(),
            output: OutputConfig::default(),
            realtime: RealtimeConfig::default(),
            presets: NameMap::new(),
            logging: LoggingConfig::default(),
            control: ControlConfig::default(),
            idle: IdleConfig::default(),
        }
    }
}

/// `got` is outside `lo..=hi`.
pub open spec fn range_text(name: Seq<char>, lo: nat, hi: nat, got: nat) -> Seq<char> {
    name + " must be in "@ + text::decimal(lo) + "..="@ + text::decimal(hi) + ", got "@
        + text::decimal(got)
}

/// `got` is neither zero nor within `lo..=hi`.
pub open spec fn zero_or_range_text(name: Seq<char>, lo: nat, hi: nat, got: nat) -> Seq<char> {
    name + " must be 0 (disabled) or in "@ + text::decimal(lo) + "..="@ + text::decimal(hi)
        + ", got "@ + text::decimal(got)
}

/// `got` is above `hi`.
pub open spec fn above_text(name: Seq<char>, hi: nat, got: nat) -> Seq<char> {
    name + " must be <= "@ + text::decimal(hi) + ", got "@ + text::decimal(got)
}

/// Why the dimensions of a section are refused, if they are.
pub open spec fn dimension_defect(section: Seq<char>, width: u32, height: u32) -> Option<Seq<char>> {
    let size = text::decimal(width as nat) + "x"@ + text::decimal(height as nat);
    if width == 0 || height == 0 {
        Some(section + " width/height must be > 0 (got "@ + size + ")"@)
    } else if width > MAX_WIDTH || height > MAX_HEIGHT {
        Some(
            section + " width/height must be <= "@ + text::decimal(MAX_WIDTH as nat) + "x"@
                + text::decimal(MAX_HEIGHT as nat) + " (got "@ + size + ")"@,
        )
    } else {
        None
    }
}

/// Why the frame rate of a section is refused, if it is.
pub open spec fn fps_defect(section: Seq<char>, fps: u32) -> Option<Seq<char>> {
    if fps == 0 {
        Some(section + ".fps must be > 0"@)
    } else if fps > MAX_FPS {
        Some(
            section + ".fps must be <= "@ + text::decimal(MAX_FPS as nat) + " (got "@
                + text::decimal(fps as nat) + ")"@,
        )
    } else {
        None
    }
}

fn bounds(name: &str, before: &str, lo: u32, hi: u32, got: u32) -> (r: String)
    ensures
        r@ == name@ + before@ + text::decimal(lo as nat) + "..="@ + text::decimal(hi as nat)
            + ", got "@ + text::decimal(got as nat),
{
    let mut out = name.to_owned();
    out.append(before);
    text::push_decimal(&mut out, lo as u64);
    out.append("..=");
    text::push_decimal(&mut out, hi as u64);
    out.append(", got ");
    text::push_decimal(&mut out, got as u64);
    out
}

fn above(name: &str, hi: u32, got: u32) -> (r: String)
    ensures
        r@ == above_text(name@, hi as nat, got as nat),
{
    let mut out = name.to_owned();
    out.append(" must be <= ");
    text::push_decimal(&mut out, hi as u64);
    out.append(", got ");
    text::push_decimal(&mut out, got as u64);
    out
}

fn check_dimensions(section: &str, width: u32, height: u32) -> (r: Result<(), FluxError>)
    ensures
        match dimension_defect(section@, width, height) {
            Some(reason) => rejected(r, reason),
            None => r is Ok,
        },
{
    let mut size = String::new();
    text::push_decimal(&mut size, width as u64);
    size.append("x");
    text::push_decimal(&mut size, height as u64);
    proof {
        assert(size@ =~= text::decimal(width as nat) + "x"@ + text::decimal(height as nat));
    }
    let mut out = section.to_owned();
    if width == 0 || height == 0 {
        out.append(" width/height must be > 0 (got ");
    } else if width > MAX_WIDTH || height > MAX_HEIGHT {
        out.append(" width/height must be <= ");
        text::push_decimal(&mut out, MAX_WIDTH as u64);
        out.append("x");
        text::push_decimal(&mut out, MAX_HEIGHT as u64);
        out.append(" (got ");
    } else {
        return Ok(());
    }
    out.append(size.as_str());
    out.append(")");
    Err(config_err(out))
}

fn check_fps(section: &str, fps: u32) -> (r: Result<(), FluxError>)
    ensures
        match fps_defect(section@, fps) {
            Some(reason) => rejected(r, reason),
            None => r is Ok,
        },
{
    let mut out = section.to_owned();
    if fps == 0 {
        out.append(".fps must be > 0");
    } else if fps > MAX_FPS {
        out.append(".fps must be <= ");
        text::push_decimal(&mut out, MAX_FPS as u64);
        out.append(" (got ");
        text::push_decimal(&mut out, fps as u64);
        out.append(")");
    } else {
        return Ok(());
    }
    Err(config_err(out))
}

impl FluxConfig {
    /// First rule that the configuration breaks, if any.
    pub open spec fn defect(&self) -> Option<Seq<char>> {
        if let Some(reason) = dimension_defect("input"@, self.input.width, self.input.height) {
            Some(reason)
        } else if let Some(reason) = fps_defect("input"@, self.input.fps) {
            Some(reason)
        } else if self.realtime.max_inflight_frames == 0
            || self.realtime.max_inflight_frames > MAX_INFLIGHT_FRAMES {
            Some(
                range_text(
                    "realtime.max_inflight_frames"@,
                    1nat,
                    MAX_INFLIGHT_FRAMES as nat,
                    self.realtime.max_inflight_frames as nat,
                ),
            )
        } else if self.realtime.max_latency_ms == 0
            || self.realtime.max_latency_ms > MAX_LATENCY_MS {
            Some(
                range_text(
                    "realtime.max_latency_ms"@,
                    1nat,
                    MAX_LATENCY_MS as nat,
                    self.realtime.max_latency_ms as nat,
                ),
            )
        } else if self.realtime.metrics_interval_secs > MAX_METRICS_INTERVAL_SECS {
            Some(
                zero_or_range_text(
                    "realtime.metrics_interval_secs"@,
                    1nat,
                    MAX_METRICS_INTERVAL_SECS as nat,
                    self.realtime.metrics_interval_secs as nat,
                ),
            )
        } else if self.input.auto.poll_interval_secs == 0
            || self.input.auto.poll_interval_secs > MAX_POLL_INTERVAL_SECS {
            Some(
                range_text(
                    "input.auto.poll_interval_secs"@,
                    1nat,
                    MAX_POLL_INTERVAL_SECS as nat,
                    self.input.auto.poll_interval_secs as nat,
                ),
            )
        } else if self.input.acquire_backoff_base_ms == 0 {
            Some("input.acquire_backoff_base_ms must be > 0, got 0"@)
        } else if self.input.acquire_backoff_max_ms > MAX_ACQUIRE_BACKOFF_MS {
            Some(
                above_text(
                    "input.acquire_backoff_max_ms"@,
                    MAX_ACQUIRE_BACKOFF_MS as nat,
                    self.input.acquire_backoff_max_ms as nat,
                ),
            )
        } else if self.input.acquire_backoff_max_ms < self.input.acquire_backoff_base_ms {
            Some(
                "input.acquire_backoff_max_ms ("@ + text::decimal(
                    self.input.acquire_backoff_max_ms as nat,
                ) + ") must be >= input.acquire_backoff_base_ms ("@ + text::decimal(
                    self.input.acquire_backoff_base_ms as nat,
                ) + ")"@,
            )
        } else if self.idle.fps == 0 || self.idle.fps > MAX_IDLE_FPS {
            Some(range_text("idle.fps"@, 1nat, MAX_IDLE_FPS as nat, self.idle.fps as nat))
        } else if self.idle.min_visibility_fps == 0 || self.idle.min_visibility_fps > MAX_IDLE_FPS {
            Some(
                range_text(
                    "idle.min_visibility_fps"@,
                    1nat,
                    MAX_IDLE_FPS as nat,
                    self.idle.min_visibility_fps as nat,
                ),
            )
        } else if self.idle.teardown_secs == 0 || self.idle.teardown_secs > MAX_IDLE_TEARDOWN_SECS {
            Some(
                range_text(
                    "idle.teardown_secs"@,
                    1nat,
                    MAX_IDLE_TEARDOWN_SECS as nat,
                    self.idle.teardown_secs as nat,
                ),
            )
        } else if self.idle.deep_idle_secs == 0 {
            Some("idle.deep_idle_secs must be > 0, got 0"@)
        } else if self.idle.deep_idle_secs > MAX_IDLE_DEEP_SECS {
            Some(
                above_text(
                    "idle.deep_idle_secs"@,
                    MAX_IDLE_DEEP_SECS as nat,
                    self.idle.deep_idle_secs as nat,
                ),
            )
        } else if self.idle.poll_interval_ms < MIN_IDLE_POLL_INTERVAL_MS
            || self.idle.poll_interval_ms > MAX_IDLE_POLL_INTERVAL_MS {
            Some(
                range_text(
                    "idle.poll_interval_ms"@,
                    MIN_IDLE_POLL_INTERVAL_MS as nat,
                    MAX_IDLE_POLL_INTERVAL_MS as nat,
                    self.idle.poll_interval_ms as nat,
                ),
            )
        } else if self.idle.resync_interval_secs != 0
            && (self.idle.resync_interval_secs < MIN_IDLE_RESYNC_INTERVAL_SECS
                || self.idle.resync_interval_secs > MAX_IDLE_RESYNC_INTERVAL_SECS) {
            Some(
                zero_or_range_text(
                    "idle.resync_interval_secs"@,
                    MIN_IDLE_RESYNC_INTERVAL_SECS as nat,
                    MAX_IDLE_RESYNC_INTERVAL_SECS as nat,
                    self.idle.resync_interval_secs as nat,
                ),
            )
        } else if self.idle.placeholder == IdlePlaceholderKind::Image
            && self.idle.placeholder_path is None {
            Some("idle.placeholder = \"image\" requires idle.placeholder_path"@)
        } else {
            None
        }
    }

    /// Whether every field is within its bounds.
    pub open spec fn within_bounds(&self) -> bool {
        &&& 1 <= self.input.width <= MAX_WIDTH
        &&& 1 <= self.input.height <= MAX_HEIGHT
        &&& 1 <= self.input.fps <= MAX_FPS
        &&& 1 <= self.realtime.max_inflight_frames <= MAX_INFLIGHT_FRAMES
        &&& 1 <= self.realtime.max_latency_ms <= MAX_LATENCY_MS
        &&& self.realtime.metrics_interval_secs <= MAX_METRICS_INTERVAL_SECS
        &&& 1 <= self.input.auto.poll_interval_secs <= MAX_POLL_INTERVAL_SECS
        &&& 1 <= self.input.acquire_backoff_base_ms <= self.input.acquire_backoff_max_ms
            <= MAX_ACQUIRE_BACKOFF_MS
        &&& 1 <= self.idle.fps <= MAX_IDLE_FPS
        &&& 1 <= self.idle.min_visibility_fps <= MAX_IDLE_FPS
        &&& 1 <= self.idle.teardown_secs <= MAX_IDLE_TEARDOWN_SECS
        &&& 1 <= self.idle.deep_idle_secs <= MAX_IDLE_DEEP_SECS
        &&& MIN_IDLE_POLL_INTERVAL_MS <= self.idle.poll_interval_ms <= MAX_IDLE_POLL_INTERVAL_MS
        &&& self.idle.resync_interval_secs == 0 || MIN_IDLE_RESYNC_INTERVAL_SECS
            <= self.idle.resync_interval_secs <= MAX_IDLE_RESYNC_INTERVAL_SECS
        &&& self.idle.placeholder == IdlePlaceholderKind::Image ==> self.idle.placeholder_path is Some
    }

    /// A configuration is accepted exactly when every field is within its
    /// bounds.
    pub proof fn law_accepted_within_bounds(&self)
        ensures
            self.defect() is None <==> self.within_bounds(),
    {
    }

    /// Check the bounds of every field; the first rule that is broken is
    /// reported.
    pub fn validate(&self) -> (r: Result<(), FluxError>)
        ensures
            match self.defect() {
                Some(reason) => rejected(r, reason),
                None => r is Ok,
            },
    {
        match check_dimensions("input", self.input.width, self.input.height) {
            Ok(()) => {},
            Err(e) => {
                return Err(e);
            },
        }
        match check_fps("input", self.input.fps) {
            Ok(()) => {},
            Err(e) => {
                return Err(e);
            },
        }
        let reason: String = if self.realtime.max_inflight_frames == 0
            || self.realtime.max_inflight_frames > MAX_INFLIGHT_FRAMES {
            bounds(
                "realtime.max_inflight_frames",
                " must be in ",
                1,
                MAX_INFLIGHT_FRAMES,
                self.realtime.max_inflight_frames,
            )
        } else if self.realtime.max_latency_ms == 0
            || self.realtime.max_latency_ms > MAX_LATENCY_MS {
            bounds(
                "realtime.max_latency_ms",
                " must be in ",
                1,
                MAX_LATENCY_MS,
                self.realtime.max_latency_ms,
            )
        } else if self.realtime.metrics_interval_secs > MAX_METRICS_INTERVAL_SECS {
            bounds(
                "realtime.metrics_interval_secs",
                " must be 0 (disabled) or in ",
                1,
                MAX_METRICS_INTERVAL_SECS,
                self.realtime.metrics_interval_secs,
            )
        } else if self.input.auto.poll_interval_secs == 0
            || self.input.auto.poll_interval_secs > MAX_POLL_INTERVAL_SECS {
            bounds(
                "input.auto.poll_interval_secs",
                " must be in ",
                1,
                MAX_POLL_INTERVAL_SECS,
                self.input.auto.poll_interval_secs,
            )
        } else if self.input.acquire_backoff_base_ms == 0 {
            "input.acquire_backoff_base_ms must be > 0, got 0".to_owned()
        } else if self.input.acquire_backoff_max_ms > MAX_ACQUIRE_BACKOFF_MS {
            above(
                "input.acquire_backoff_max_ms",
                MAX_ACQUIRE_BACKOFF_MS,
                self.input.acquire_backoff_max_ms,
            )
        } else if self.input.acquire_backoff_max_ms < self.input.acquire_backoff_base_ms {
            {
                let mut out = "input.acquire_backoff_max_ms (".to_owned();
                text::push_decimal(&mut out, self.input.acquire_backoff_max_ms as u64);
                out.append(") must be >= input.acquire_backoff_base_ms (");
                text::push_decimal(&mut out, self.input.acquire_backoff_base_ms as u64);
                out.append(")");
                out
            }
        } else if self.idle.fps == 0 || self.idle.fps > MAX_IDLE_FPS {
            bounds("idle.fps", " must be in ", 1, MAX_IDLE_FPS, self.idle.fps)
        } else if self.idle.min_visibility_fps == 0 || self.idle.min_visibility_fps > MAX_IDLE_FPS {
            bounds(
                "idle.min_visibility_fps",
                " must be in ",
                1,
                MAX_IDLE_FPS,
                self.idle.min_visibility_fps,
            )
        } else if self.idle.teardown_secs == 0 || self.idle.teardown_secs > MAX_IDLE_TEARDOWN_SECS {
            bounds(
                "idle.teardown_secs",
                " must be in ",
                1,
                MAX_IDLE_TEARDOWN_SECS,
                self.idle.teardown_secs,
            )
        } else if self.idle.deep_idle_secs == 0 {
            "idle.deep_idle_secs must be > 0, got 0".to_owned()
        } else if self.idle.deep_idle_secs > MAX_IDLE_DEEP_SECS {
            above("idle.deep_idle_secs", MAX_IDLE_DEEP_SECS, self.idle.deep_idle_secs)
        } else if self.idle.poll_interval_ms < MIN_IDLE_POLL_INTERVAL_MS
            || self.idle.poll_interval_ms > MAX_IDLE_POLL_INTERVAL_MS {
            bounds(
                "idle.poll_interval_ms",
                " must be in ",
                MIN_IDLE_POLL_INTERVAL_MS,
                MAX_IDLE_POLL_INTERVAL_MS,
                self.idle.poll_interval_ms,
            )
        } else if self.idle.resync_interval_secs != 0
            && (self.idle.resync_interval_secs < MIN_IDLE_RESYNC_INTERVAL_SECS
                || self.idle.resync_interval_secs > MAX_IDLE_RESYNC_INTERVAL_SECS) {
            bounds(
                "idle.resync_interval_secs",
                " must be 0 (disabled) or in ",
                MIN_IDLE_RESYNC_INTERVAL_SECS,
                MAX_IDLE_RESYNC_INTERVAL_SECS,
                self.idle.resync_interval_secs,
            )
        } else if self.idle.placeholder == IdlePlaceholderKind::Image
            && self.idle.placeholder_path.is_none() {
            "idle.placeholder = \"image\" requires idle.placeholder_path".to_owned()
        } else {
            return Ok(());
        };
        Err(config_err(reason))
    }
}

/// A configuration is accepted where every figure is in its range.
pub proof fn law_configuration_accepted(c: &FluxConfig, r: Result<(), FluxError>)
    requires
        call_ensures(FluxConfig::validate, (c,), r),
    ensures
        r is Ok <==> {
            &&& 1 <= c.input.width <= 16384
            &&& 1 <= c.input.height <= 16384
            &&& 1 <= c.input.fps <= 240
            &&& 1 <= c.realtime.max_inflight_frames <= 64
            &&& 1 <= c.realtime.max_latency_ms <= 10_000
            &&& c.realtime.metrics_interval_secs <= 3600
            &&& 1 <= c.input.auto.poll_interval_secs <= 3600
            &&& 1 <= c.input.acquire_backoff_base_ms <= c.input.acquire_backoff_max_ms <= 30_000
            &&& 1 <= c.idle.fps <= 60
            &&& 1 <= c.idle.min_visibility_fps <= 60
            &&& 1 <= c.idle.teardown_secs <= 3600
            &&& 1 <= c.idle.deep_idle_secs <= 3600
            &&& 100 <= c.idle.poll_interval_ms <= 5000
            &&& (c.idle.resync_interval_secs == 0 || 5 <= c.idle.resync_interval_secs <= 3600)
            &&& (c.idle.placeholder == IdlePlaceholderKind::Image ==> c.idle.placeholder_path
                is Some)
        },
{
}

/// A scale is a number from 0.05 to one, and keeps its pattern.
pub proof fn law_scale_in_range(bits: u32, r: Result<OutputScale, FluxError>)
    requires
        call_ensures(OutputScale::new, (bits,), r),
    ensures
        r is Ok <==> float_bits::value_at_least(bits, 0x3D4C_CCCDu32) && float_bits::value_at_least(
            0x3F80_0000u32,
            bits,
        ),
        r matches Ok(s) ==> s@ == bits,
{
}

/// Whether `size` is `input` pixels scaled by the number with the pattern `bits`: the
/// nearest whole number of pixels, one less where that is odd, and at least two.
pub open spec fn scaled_to(input: u32, bits: u32, size: u32) -> bool {
    let m = 0x80_0000 + (bits as int) % 0x80_0000;
    let d = vstd::arithmetic::power2::pow2((150 - (bits as int) / 0x80_0000) as nat) as int;
    exists|pixels: int|
        {
            &&& #[trigger] nearest_pixel(input * m, d, pixels)
            &&& size == (if pixels < 2 {
                2
            } else {
                pixels - pixels % 2
            })
        }
}

/// Whether `pixels` is the whole number nearest to `a / d`, the greater of two.
pub open spec fn nearest_pixel(a: int, d: int, pixels: int) -> bool {
    2 * d * pixels - d <= 2 * a < 2 * d * pixels + d
}

/// Each side of the output is the same side of the input, scaled; sides of up to 2^28
/// pixels, whose product with the scale is exact in double precision.
pub proof fn law_output_size(c: &OutputConfig, w: u32, h: u32, r: (u32, u32))
    requires
        call_ensures(OutputConfig::effective_dimensions, (c, w, h), r),
        scale_complaint(c.scale@) is None,
        w <= 0x1000_0000,
        h <= 0x1000_0000,
    ensures
        scaled_to(w, c.scale@, r.0),
        scaled_to(h, c.scale@, r.1),
{
    lemma_scaled_to(w, c.scale@);
    lemma_scaled_to(h, c.scale@);
}

/// Scaling one side.
proof fn lemma_scaled_to(input: u32, bits: u32)
    requires
        scale_complaint(bits) is None,
        input <= 0x1000_0000,
    ensures
        0 <= scaled(input, bits) <= u32::MAX,
        scaled_to(input, bits, scaled(input, bits) as u32),
{
    law_effective_dimension(input, bits);
    vstd::arithmetic::power2::lemma2_to64();
    let m = significand(bits);
    let d = denominator(bits);
    let e = bits as int / 0x80_0000;
    assert(122 <= e <= 127);
    assert(vstd::arithmetic::power2::pow2((150 - e) as nat) == d) by {
        if e == 122 {
            assert((150 - e) as nat == 28);
        } else if e == 123 {
            assert((150 - e) as nat == 27);
        } else if e == 124 {
            assert((150 - e) as nat == 26);
        } else if e == 125 {
            assert((150 - e) as nat == 25);
        } else if e == 126 {
            assert((150 - e) as nat == 24);
        } else {
            assert((150 - e) as nat == 23);
        }
    }
    let a = input * m;
    assert(0 <= a < 0x20_0000_0000_0000) by (nonlinear_arith)
        requires
            0 <= input <= 0x1000_0000,
            0 <= m < 0x100_0000,
            a == input * m,
    ;
    let pixels = (2 * a + d) / (2 * d);
    vstd::arithmetic::div_mod::lemma_fundamental_div_mod(2 * a + d, 2 * d);
    vstd::arithmetic::div_mod::lemma_mod_bound(2 * a + d, 2 * d);
    assert(nearest_pixel(a, d, pixels));
    assert(pixels / 2 * 2 == pixels - pixels % 2);
    assert(pixels >= 0) by (nonlinear_arith)
        requires
            2 * d * pixels + d > 2 * a,
            a >= 0,
            d > 0,
    ;
}

/// A tag names its format, in any letter case, and nothing else is a tag.
pub proof fn law_pixel_format_tags(raw: &str, r: Result<PixelFormat, String>)
    requires
        call_ensures(parse_pixel_format, (raw,), r),
    ensures
        r == Ok::<PixelFormat, String>(PixelFormat::Rgb) <==> text::upper(raw@) == "RGB"@,
        r == Ok::<PixelFormat, String>(PixelFormat::Rgba) <==> text::upper(raw@) == "RGBA"@,
        r == Ok::<PixelFormat, String>(PixelFormat::Bgr) <==> text::upper(raw@) == "BGR"@,
        r == Ok::<PixelFormat, String>(PixelFormat::Yuy2) <==> text::upper(raw@) == "YUY2"@,
        r == Ok::<PixelFormat, String>(PixelFormat::Nv12) <==> text::upper(raw@) == "NV12"@,
        r == Ok::<PixelFormat, String>(PixelFormat::Gray8) <==> text::upper(raw@) == "GRAY8"@,
{
    reveal_strlit("RGB");
    reveal_strlit("RGBA");
    reveal_strlit("BGR");
    reveal_strlit("YUY2");
    reveal_strlit("NV12");
    reveal_strlit("GRAY8");
    assert("RGB"@.len() == 3 && "RGBA"@.len() == 4 && "BGR"@.len() == 3 && "YUY2"@.len() == 4
        && "NV12"@.len() == 4 && "GRAY8"@.len() == 5);
    assert("RGB"@[0] == 'R' && "BGR"@[0] == 'B');
    assert("RGBA"@[0] == 'R' && "YUY2"@[0] == 'Y' && "NV12"@[0] == 'N');
}

/// A selector names a device by path unless it is one of the two words, in any letter
/// case; what it is written as is read as the same selector.
pub proof fn law_device_selector(raw: &str, r: InputDevice)
    requires
        call_ensures(InputDevice::parse, (raw,), r),
    ensures
        r is Auto <==> text::lower(raw@) == "auto"@,
        r is Testsrc <==> text::lower(raw@) == "testsrc"@,
        r matches InputDevice::Path(p) ==> p@ == raw@,
{
    reveal_strlit("auto");
    reveal_strlit("testsrc");
    assert("auto"@.len() != "testsrc"@.len());
}

/// A configuration that says nothing is accepted, and reads 1280 by 720 pixels at 30
/// frames a second and publishes them at full size.
pub proof fn law_default_configuration(c: FluxConfig, r: Result<(), FluxError>)
    requires
        call_ensures(<FluxConfig as Default>::default, (), c),
        call_ensures(FluxConfig::validate, (&c,), r),
    ensures
        r is Ok,
        c.input.width == 1280 && c.input.height == 720 && c.input.fps == 30,
        c.output.scale@ == 0x3F80_0000u32,
        c.realtime.max_latency_ms == 120 && c.realtime.max_inflight_frames == 1
            && c.realtime.metrics_interval_secs == 30 && c.realtime.drop_late_frames,
        c.input.device@ == DeviceModel::Path("/dev/video0"@),
        c.output.device@ == "/dev/video10"@,
        c.logging.level@ == "info"@,
        !c.control.enabled && !c.idle.enabled,
{
}

} // verus!
