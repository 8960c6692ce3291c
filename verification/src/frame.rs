//! Video frame model.
//!
//! [`VideoFrame`] is the universal currency between capture, effect chain and
//! output.  It is decoupled from any capture backend so that effects and the
//! inference layer never reach across that boundary.

use std::cmp::Ordering;
use std::sync::Arc;
use std::time::Duration;
use vstd::prelude::*;

verus! {

/// Pixel layout of a [`VideoFrame`].
///
/// The processing path operates on `Rgb`/`Rgba`; the other variants serve
/// capture and output negotiation.
#[derive(Debug, Clone, Copy, PartialEq, Eq, Hash, Structural)]
pub enum PixelFormat {
    /// 24-bit packed RGB, 8 bits per channel, R-G-B byte order.
    Rgb,
    /// 32-bit packed RGBA, 8 bits per channel, R-G-B-A byte order.
    Rgba,
    /// 24-bit packed BGR, 8 bits per channel, B-G-R byte order.
    Bgr,
    /// 16-bit packed YUV 4:2:2 (`YUYV`): two pixels per 4-byte group.
    Yuy2,
    /// 12-bit semi-planar YUV 4:2:0: a full-resolution `Y` plane and an
    /// interleaved `UV` plane at half resolution in each dimension.
    Nv12,
    /// 8-bit single-channel luminance.
    Gray8,
}

impl PixelFormat {
    /// Bytes per pixel of the packed formats.
    pub open spec fn pixel_bytes(self) -> Option<usize> {
        match self {
            PixelFormat::Rgb | PixelFormat::Bgr => Some(3usize),
            PixelFormat::Rgba => Some(4usize),
            PixelFormat::Yuy2 => Some(2usize),
            PixelFormat::Gray8 => Some(1usize),
            PixelFormat::Nv12 => None,
        }
    }

    /// Number of bytes per pixel for packed formats.
    ///
    /// `None` for the planar format `Nv12`, where a single scalar does not
    /// describe the layout.
    #[must_use]
    pub fn bytes_per_pixel(self) -> (r: Option<usize>)
        ensures
            r == self.pixel_bytes(),
    {
        match self {
            PixelFormat::Rgb | PixelFormat::Bgr => Some(3),
            PixelFormat::Rgba => Some(4),
            PixelFormat::Yuy2 => Some(2),
            PixelFormat::Gray8 => Some(1),
            PixelFormat::Nv12 => None,
        }
    }

    /// Number of planes.
    pub open spec fn planes(self) -> nat {
        if self == PixelFormat::Nv12 {
            2
        } else {
            1
        }
    }

    /// Name of the variant.
    pub open spec fn variant(self) -> Seq<char> {
        match self {
            PixelFormat::Rgb => "Rgb"@,
            PixelFormat::Rgba => "Rgba"@,
            PixelFormat::Bgr => "Bgr"@,
            PixelFormat::Yuy2 => "Yuy2"@,
            PixelFormat::Nv12 => "Nv12"@,
            PixelFormat::Gray8 => "Gray8"@,
        }
    }

    /// Name of the variant, as used in diagnostics.
    pub fn variant_name(self) -> (r: &'static str)
        ensures
            r@ == self.variant(),
    {
        match self {
            PixelFormat::Rgb => "Rgb",
            PixelFormat::Rgba => "Rgba",
            PixelFormat::Bgr => "Bgr",
            PixelFormat::Yuy2 => "Yuy2",
            PixelFormat::Nv12 => "Nv12",
            PixelFormat::Gray8 => "Gray8",
        }
    }
}

/// The nanoseconds in a [`Duration`], as [`Duration::as_nanos`] counts them.
pub uninterp spec fn duration_nanos(d: Duration) -> u128;

/// Whole microseconds in a [`Duration`].
pub open spec fn duration_micros(d: Duration) -> u128 {
    duration_nanos(d) / 1000
}

/// [`Duration::from_nanos`]: the duration of `nanos` nanoseconds.
#[verifier::external_body]
fn duration_from_nanos(nanos: u64) -> (d: Duration)
    ensures
        duration_nanos(d) == nanos,
{
    Duration::from_nanos(nanos)
}

/// [`Duration::as_micros`]: the whole microseconds in `d`, that is the thousandth
/// part of its nanoseconds, rounded down.
#[verifier::external_body]
pub(crate) fn micros_of(d: Duration) -> (us: u128)
    ensures
        us == duration_micros(d),
{
    d.as_micros()
}

/// Monotonic timestamp expressed in nanoseconds since pipeline start.
///
/// The inner field is private; use [`Timestamp::from_nanos`] and
/// [`Timestamp::as_nanos`] to convert.  This guards against accidental
/// construction with foreign clock domains.
#[derive(Debug, Clone, Copy, PartialEq, Eq, Ord, Hash, Structural)]
pub struct Timestamp(u64);

impl Timestamp {
    /// The nanosecond count.
    pub closed spec fn nanos(self) -> u64 {
        self.0
    }

    /// Construct a timestamp from a nanosecond count.  The caller is
    /// responsible for the value being in the pipeline's clock domain.
    #[must_use]
    pub fn from_nanos(nanos: u64) -> (r: Self)
        ensures
            r.nanos() == nanos,
    {
        Timestamp(nanos)
    }

    /// The underlying nanosecond count.
    #[must_use]
    pub fn as_nanos(self) -> (r: u64)
        ensures
            r == self.nanos(),
    {
        self.0
    }

    /// The timestamp as a [`Duration`] since pipeline start.
    #[must_use]
    pub fn as_duration(self) -> (r: Duration)
        ensures
            duration_nanos(r) == self.nanos(),
            duration_micros(r) == self.nanos() / 1000,
    {
        duration_from_nanos(self.0)
    }

    /// Timestamps are the nanosecond counts they hold.
    pub proof fn law_nanos_injective(a: Self, b: Self)
        ensures
            a.nanos() == b.nanos() <==> a == b,
    {
    }
}

impl PartialOrd for Timestamp {
    fn partial_cmp(&self, other: &Self) -> (r: Option<Ordering>) {
        if self.0 < other.0 {
            Some(Ordering::Less)
        } else if self.0 == other.0 {
            Some(Ordering::Equal)
        } else {
            Some(Ordering::Greater)
        }
    }
}

impl vstd::std_specs::cmp::PartialOrdSpecImpl for Timestamp {
    open spec fn obeys_partial_cmp_spec() -> bool {
        true
    }

    open spec fn partial_cmp_spec(&self, other: &Self) -> Option<Ordering> {
        if self.nanos() < other.nanos() {
            Some(Ordering::Less)
        } else if self.nanos() == other.nanos() {
            Some(Ordering::Equal)
        } else {
            Some(Ordering::Greater)
        }
    }
}

/// Timestamps are ordered as the nanosecond counts they hold.
pub proof fn law_timestamp_order(a: Timestamp, b: Timestamp)
    ensures
        vstd::std_specs::cmp::PartialOrdSpec::partial_cmp_spec(&a, &b) == Some(Ordering::Less)
            <==> a.nanos() < b.nanos(),
        vstd::std_specs::cmp::PartialOrdSpec::partial_cmp_spec(&a, &b) == Some(Ordering::Equal)
            <==> a == b,
        vstd::std_specs::cmp::PartialOrdSpec::partial_cmp_spec(&a, &b) == Some(Ordering::Greater)
            <==> a.nanos() > b.nanos(),
{
}

impl Default for Timestamp {
    fn default() -> (r: Self)
        ensures
            r.nanos() == 0,
    {
        Timestamp(0)
    }
}

/// Frame payload storage.
#[derive(Debug)]
pub enum FrameBuffer {
    /// Heap-owned buffer; mutation is in place.
    Owned(Vec<u8>),
    /// Reference-counted shared buffer; mutation requires explicit promotion
    /// via [`FrameBuffer::make_owned`].
    Shared(Arc<[u8]>),
}

impl View for FrameBuffer {
    type V = Seq<u8>;

    open spec fn view(&self) -> Seq<u8> {
        match self {
            FrameBuffer::Owned(v) => v@,
            FrameBuffer::Shared(s) => s@,
        }
    }
}

impl FrameBuffer {
    /// Read-only access to the underlying bytes, regardless of variant.
    #[must_use]
    pub fn as_slice(&self) -> (r: &[u8])
        ensures
            r@ == self@,
    {
        match self {
            FrameBuffer::Owned(v) => v.as_slice(),
            FrameBuffer::Shared(s) => &**s,
        }
    }

    /// Total byte length of the payload.
    #[must_use]
    pub fn len(&self) -> (r: usize)
        ensures
            r == self@.len(),
    {
        self.as_slice().len()
    }

    /// Whether the payload is empty.
    #[must_use]
    pub fn is_empty(&self) -> (r: bool)
        ensures
            r == (self@.len() == 0),
    {
        self.len() == 0
    }

    /// Mutable slice **only if the buffer is `Owned`**.  `None` for `Shared`,
    /// without copying: the caller promotes explicitly.
    pub fn as_mut_owned(&mut self) -> (r: Option<&mut [u8]>)
        ensures
            r is Some <==> *old(self) is Owned,
            r is None ==> *final(self) == *old(self),
            r matches Some(slice) ==> {
                &&& slice@ == old(self)@
                &&& *final(self) is Owned
                &&& final(self)@ == final(slice)@
            },
    {
        match self {
            FrameBuffer::Owned(v) => Some(v.as_mut_slice()),
            FrameBuffer::Shared(_) => None,
        }
    }

    /// Promote a `Shared` buffer to `Owned` by copying.  No effect on a buffer
    /// that is `Owned` already.
    pub fn make_owned(&mut self)
        ensures
            *final(self) is Owned,
            final(self)@ == old(self)@,
            *old(self) is Owned ==> *final(self) == *old(self),
    {
        let copied: Option<Vec<u8>> = match self {
            FrameBuffer::Owned(_) => None,
            FrameBuffer::Shared(s) => Some(vstd::slice::slice_to_vec(&**s)),
        };
        if let Some(bytes) = copied {
            *self = FrameBuffer::Owned(bytes);
        }
    }

    /// Mutable slice; a `Shared` buffer is promoted first, which copies it.
    pub fn as_mut_slice(&mut self) -> (r: &mut [u8])
        ensures
            r@ == old(self)@,
            *final(self) is Owned,
            final(self)@ == final(r)@,
    {
        self.make_owned();
        match self {
            FrameBuffer::Owned(v) => v.as_mut_slice(),
            FrameBuffer::Shared(_) => vstd::pervasive::unreached(),
        }
    }
}

/// Per-frame metadata distinct from pixel data.
#[derive(Debug, Clone, Copy)]
pub struct FrameMeta {
    /// Sequence number assigned by the capture stage.
    pub sequence: u64,
    /// Pipeline-monotonic timestamp at which the frame entered processing.
    pub timestamp: Timestamp,
    /// Capture timestamp from the source, if the backend exposes one.
    pub source_timestamp: Option<Timestamp>,
    /// Nominal frame duration, if known from the negotiated frame rate.
    pub duration: Option<Duration>,
}

impl Default for FrameMeta {
    fn default() -> (r: Self)
        ensures
            r.sequence == 0,
            r.timestamp.nanos() == 0,
            r.source_timestamp is None,
            r.duration is None,
    {
        FrameMeta {
            sequence: 0,
            timestamp: Timestamp::default(),
            source_timestamp: None,
            duration: None,
        }
    }
}

/// Row strides in bytes.
///
/// Packed formats carry a single byte count; planar formats carry one stride
/// per plane.
#[derive(Debug, Clone)]
pub enum Stride {
    /// Single packed plane.
    Packed(usize),
    /// Multiple planes (`Nv12` has two).
    Planar(Vec<usize>),
}

impl Stride {
    /// Stride of the first plane.
    pub open spec fn first(&self) -> usize {
        match self {
            Stride::Packed(s) => *s,
            Stride::Planar(strides) => if strides@.len() > 0 {
                strides@[0]
            } else {
                0
            },
        }
    }

    /// Number of planes.
    pub open spec fn count(&self) -> nat {
        match self {
            Stride::Packed(_) => 1,
            Stride::Planar(strides) => strides@.len(),
        }
    }

    /// Stride of the first (or only) plane, in bytes; `0` for an empty planar
    /// list.
    #[must_use]
    pub fn primary(&self) -> (r: usize)
        ensures
            r == self.first(),
    {
        match self {
            Stride::Packed(s) => *s,
            Stride::Planar(strides) => if strides.len() > 0 {
                strides[0]
            } else {
                0
            },
        }
    }

    /// Number of planes.
    #[must_use]
    pub fn plane_count(&self) -> (r: usize)
        ensures
            r == self.count(),
    {
        match self {
            Stride::Packed(_) => 1,
            Stride::Planar(strides) => strides.len(),
        }
    }
}

/// A single video frame in the processing pipeline.
///
/// A frame built from untrusted input is checked with
/// [`VideoFrame::validate`] before use.
#[derive(Debug)]
pub struct VideoFrame {
    /// Pixel payload.
    pub data: FrameBuffer,
    /// Frame width in pixels.
    pub width: u32,
    /// Frame height in pixels.
    pub height: u32,
    /// Pixel layout.
    pub format: PixelFormat,
    /// Row strides per plane.
    pub stride: Stride,
    /// Per-frame metadata.
    pub meta: FrameMeta,
}

impl VideoFrame {
    /// First documented invariant that the frame breaks, if any: positive
    /// dimensions, as many planes as the format has, and a payload that holds
    /// the whole primary plane.
    pub open spec fn defect(&self) -> Option<Seq<char>> {
        if self.width == 0 || self.height == 0 {
            Some("width and height must be > 0"@)
        } else if self.stride.count() != self.format.planes() {
            Some("stride plane count does not match format"@)
        } else if self.data@.len() < self.stride.first() * self.height {
            Some("data buffer shorter than primary stride * height"@)
        } else {
            None
        }
    }

    /// Construct a frame for a packed pixel format with tight strides.
    ///
    /// `None` if the format is planar, or if `width * bytes_per_pixel`
    /// overflows `usize`.
    #[must_use]
    pub fn new_packed(
        data: FrameBuffer,
        width: u32,
        height: u32,
        format: PixelFormat,
        meta: FrameMeta,
    ) -> (r: Option<Self>)
        ensures
            r is Some <==> format.pixel_bytes() is Some && width * format.pixel_bytes()->0
                <= usize::MAX,
            r matches Some(frame) ==> {
                &&& frame.data == data
                &&& frame.width == width
                &&& frame.height == height
                &&& frame.format == format
                &&& frame.stride == Stride::Packed(
                    (width * format.pixel_bytes()->0) as usize,
                )
                &&& frame.meta == meta
            },
    {
        let bpp: usize = match format.bytes_per_pixel() {
            Some(bpp) => bpp,
            None => {
                return None;
            },
        };
        let stride: usize = match (width as usize).checked_mul(bpp) {
            Some(stride) => stride,
            None => {
                return None;
            },
        };
        Some(VideoFrame { data, width, height, format, stride: Stride::Packed(stride), meta })
    }

    /// Verify the documented invariants; `Err` carries the reason.
    ///
    /// The check is cheap: of planar strides only the count and the primary
    /// plane are looked at.
    pub fn validate(&self) -> (r: Result<(), &'static str>)
        ensures
            match r {
                Ok(()) => self.defect() is None,
                Err(reason) => self.defect() == Some(reason@),
            },
    {
        if self.width == 0 || self.height == 0 {
            return Err("width and height must be > 0");
        }
        let expected_planes: usize = if self.format == PixelFormat::Nv12 {
            2
        } else {
            1
        };
        if self.stride.plane_count() != expected_planes {
            return Err("stride plane count does not match format");
        }
        let primary: usize = self.stride.primary();
        assert(primary * self.height <= u64::MAX * u32::MAX) by (nonlinear_arith)
            requires
                primary <= u64::MAX,
                self.height <= u32::MAX,
        ;
        let needed: u128 = primary as u128 * self.height as u128;
        if (self.data.len() as u128) < needed {
            return Err("data buffer shorter than primary stride * height");
        }
        Ok(())
    }

    /// A tightly packed frame with positive dimensions is valid exactly when
    /// its payload holds `width * bytes_per_pixel * height` bytes.
    pub proof fn law_packed_frame_valid(frame: Self, bpp: usize)
        requires
            frame.width > 0,
            frame.height > 0,
            frame.format.pixel_bytes() == Some(bpp),
            frame.width * bpp <= usize::MAX,
            frame.stride == Stride::Packed((frame.width * bpp) as usize),
        ensures
            frame.defect() is None <==> frame.data@.len() >= frame.width * bpp * frame.height,
    {
    }
}

/// A frame is valid where it has an area, as many planes as its format, two for the
/// semi-planar one and one for every other, and a payload that holds its first plane.
pub proof fn law_frame_valid(frame: &VideoFrame, r: Result<(), &'static str>, planes: usize, row: usize)
    requires
        call_ensures(VideoFrame::validate, (frame,), r),
        call_ensures(Stride::plane_count, (&frame.stride,), planes),
        call_ensures(Stride::primary, (&frame.stride,), row),
    ensures
        r is Ok <==> frame.width > 0 && frame.height > 0 && planes == (if frame.format
            == PixelFormat::Nv12 {
            2int
        } else {
            1int
        }) && frame.data@.len() >= row * frame.height,
        frame.stride matches Stride::Packed(n) ==> planes == 1 && row == n,
        frame.stride matches Stride::Planar(v) ==> planes == v@.len() && (v@.len() > 0 ==> row
            == v@[0]),
{
}

/// A packed frame holds what it is made of, its rows without a gap between them.
pub proof fn law_packed_frame(
    data: FrameBuffer,
    width: u32,
    height: u32,
    format: PixelFormat,
    meta: FrameMeta,
    r: Option<VideoFrame>,
)
    requires
        call_ensures(VideoFrame::new_packed, (data, width, height, format, meta), r),
    ensures
        format == PixelFormat::Nv12 ==> r is None,
        format != PixelFormat::Nv12 && 4 * width <= usize::MAX ==> r is Some,
        r matches Some(f) ==> f.data == data && f.width == width && f.height == height && f.format
            == format && f.meta == meta && (f.stride matches Stride::Packed(row) && row == width
            * (match format {
            PixelFormat::Rgb | PixelFormat::Bgr => 3int,
            PixelFormat::Rgba => 4,
            PixelFormat::Yuy2 => 2,
            PixelFormat::Gray8 => 1,
            PixelFormat::Nv12 => 0,
        })),
{
    assert(1 * width <= 4 * width && 2 * width <= 4 * width && 3 * width <= 4 * width);
    assert(width * 1 == width && width * 2 == 2 * width && width * 3 == 3 * width && width * 4 == 4
        * width);
}

/// A timestamp and its duration count the same nanoseconds.
pub proof fn law_timestamp_nanos(n: u64, t: Timestamp, back: u64, d: Duration)
    requires
        call_ensures(Timestamp::from_nanos, (n,), t),
        call_ensures(Timestamp::as_nanos, (t,), back),
        call_ensures(Timestamp::as_duration, (t,), d),
    ensures
        back == n,
        duration_nanos(d) == n,
{
}

} // verus!
