//! The box blur on a graphics device.
//!
//! The device keeps its pipelines to itself and hands out the textures and
//! buffers of a frame size; the backend decides what is uploaded, how often the
//! passes run and how the result is read back.

use vstd::prelude::*;
use crate::backend::blur::{self, BackendRules, BackendState, BlurBackend, BlurRequest};
use crate::backend::wgpu_blur;
use crate::composite::segmentation;
use crate::error::EffectError;
use crate::metrics::Counters;
use crate::processing::blur as box_blur;
use crate::text;

verus! {

/// Name under which the backend reports errors.
pub const COMPONENT: &'static str = "blur backend (wgpu)";

/// One run of the compute passes.
pub struct Dispatch<'a> {
    /// Packed RGBA to upload.
    pub rgba: &'a [u8],
    /// Parameter block.
    pub uniform: [u8; 16],
    /// Frame width.
    pub width: u32,
    /// Frame height.
    pub height: u32,
    /// Bytes of a row of the buffer that the result is copied to.
    pub bytes_per_row: u32,
    /// Workgroups along a row.
    pub groups_x: u32,
    /// Workgroups along a column.
    pub groups_y: u32,
    /// Pairs of a horizontal and a vertical pass.
    pub passes: u32,
}

/// A graphics device with the two compute passes.
pub trait BlurDevice: Send {
    /// Textures and buffers for frames of a size.
    type Buffers: Send;

    /// Allocate textures and buffers for frames of a size.
    fn allocate(&self, width: u32, height: u32, bytes_per_row: u32) -> Self::Buffers;

    /// Upload, run the passes, and read the result back, row by row.
    fn run(&self, buffers: &Self::Buffers, dispatch: Dispatch<'_>) -> Result<Vec<u8>, String>;
}

/// The box blur on a graphics device.
pub struct WgpuBlurBackend<D: BlurDevice> {
    buffers: Option<D::Buffers>,
    device: D,
    prepared_width: u32,
    prepared_height: u32,
    bytes_per_row: u32,
    upload_buf: Vec<u8>,
}

/// Whether frames of a size fit the device's buffers.
pub open spec fn addressable(w: u32, h: u32) -> bool {
    wgpu_blur::padded_row(w) <= u32::MAX && w * h * 4 <= usize::MAX
}

/// Why a frame size is refused, if it is.
pub open spec fn size_complaint(w: u32, h: u32) -> Option<Seq<char>> {
    if w < 2 || h < 2 {
        Some(blur::frame_text(w, h, " too small; blur needs at least 2x2"@))
    } else if !addressable(w, h) {
        Some(blur::frame_text(w, h, " overflows usize"@))
    } else {
        None
    }
}

/// `staging buffer holds <len> bytes, expected <expected>`.
pub open spec fn short_text(len: nat, expected: nat) -> Seq<char> {
    "staging buffer holds "@ + text::decimal(len) + " bytes, expected "@ + text::decimal(expected)
}

/// Whether `d` runs `passes` pairs of passes of a radius over `src`.
pub open spec fn dispatches(
    d: Dispatch<'_>,
    src: Seq<u8>,
    width: u32,
    height: u32,
    radius: u32,
    passes: u32,
) -> bool {
    &&& d.rgba@ == wgpu_blur::rgba(src)
    &&& d.uniform@ == wgpu_blur::le_bytes(width) + wgpu_blur::le_bytes(height)
        + wgpu_blur::le_bytes(radius) + seq![0u8, 0u8, 0u8, 0u8]
    &&& d.width == width
    &&& d.height == height
    &&& d.bytes_per_row == wgpu_blur::padded_row(width)
    &&& d.groups_x == (width + 7) / 8
    &&& d.groups_y == (height + 7) / 8
    &&& d.passes == passes
}

/// Whether the device's `reply` may end as given.
pub open spec fn read_back(
    reply: Result<Vec<u8>, String>,
    width: u32,
    height: u32,
    dst: Seq<u8>,
    after: Seq<u8>,
    r: Result<(), EffectError>,
) -> bool {
    let row = wgpu_blur::padded_row(width);
    match reply {
        Err(reason) => after == dst && (r matches Err(e) && segmentation::processing_failure(
            e,
            COMPONENT@,
            reason@,
        )),
        Ok(rows) => if rows@.len() < row * height {
            after == dst && (r matches Err(e) && segmentation::processing_failure(
                e,
                COMPONENT@,
                short_text(rows@.len(), (row * height) as nat),
            ))
        } else {
            r is Ok && wgpu_blur::stripped(rows@, after, width as int, height as int, row)
        },
    }
}

/// Whether the device may allocate `buffers` for frames of a size.
pub open spec fn allocated<D: BlurDevice>(
    device: D,
    width: u32,
    height: u32,
    buffers: D::Buffers,
) -> bool {
    exists|row: u32| #[trigger]
        call_ensures(D::allocate, (&device, width, height, row), buffers) && row
            == wgpu_blur::padded_row(width)
}

/// Whether a run on the device may end as given.
pub open spec fn ran<D: BlurDevice>(
    device: D,
    buffers: D::Buffers,
    src: Seq<u8>,
    dst: Seq<u8>,
    width: u32,
    height: u32,
    radius: u32,
    passes: u32,
    after: Seq<u8>,
    r: Result<(), EffectError>,
) -> bool {
    exists|d: Dispatch<'_>, reply: Result<Vec<u8>, String>| #[trigger]
        call_ensures(D::run, (&device, &buffers, d), reply) && dispatches(
            d,
            src,
            width,
            height,
            radius,
            passes,
        ) && read_back(reply, width, height, dst, after, r)
}

impl<D: BlurDevice> WgpuBlurBackend<D> {
    /// The device.
    pub closed spec fn gpu(&self) -> D {
        self.device
    }

    /// What the device allocated for the frame size, once there is one.
    pub closed spec fn textures(&self) -> Option<D::Buffers> {
        self.buffers
    }

    /// Frame size the backend is prepared for; zero by zero before that.
    pub closed spec fn size(&self) -> (u32, u32) {
        (self.prepared_width, self.prepared_height)
    }

    spec fn sound(&self) -> bool {
        let w = self.prepared_width;
        let h = self.prepared_height;
        ||| w == 0 && h == 0 && self.upload_buf@.len() == 0 && self.buffers is None
        ||| w >= 2 && h >= 2 && addressable(w, h) && self.bytes_per_row == wgpu_blur::padded_row(w)
            && self.upload_buf@.len() == w * h * 4 && (self.buffers matches Some(b) && allocated(
            self.device,
            w,
            h,
            b,
        ))
    }

    /// A backend on a device, without textures yet.
    #[must_use]
    pub fn new(device: D) -> (r: Self)
        ensures
            r.wf(),
            r.gpu() == device,
            r.size() == (0u32, 0u32),
            r.textures() is None,
    {
        WgpuBlurBackend {
            buffers: None,
            device,
            prepared_width: 0,
            prepared_height: 0,
            bytes_per_row: 0,
            upload_buf: Vec::new(),
        }
    }
}

/// Bytes of a packed RGBA plane, where rows and bytes can be addressed.
fn rgba_bytes(w: u32, h: u32) -> (r: Option<usize>)
    ensures
        match r {
            Some(n) => addressable(w, h) && n == w * h * 4,
            None => !addressable(w, h),
        },
{
    assert(0 <= w * h <= 0xFFFF_FFFF * 0xFFFF_FFFF) by (nonlinear_arith)
        requires
            0 <= w <= 0xFFFF_FFFF,
            0 <= h <= 0xFFFF_FFFF,
    ;
    let row: u64 = (w as u64 * 4 + 255) / 256 * 256;
    let bytes: u128 = (w as u64 * h as u64) as u128 * 4;
    if row <= u32::MAX as u64 && bytes <= usize::MAX as u128 {
        Some(bytes as usize)
    } else {
        None
    }
}

/// Whether the blur on a device may be prepared for frames of a size.
pub open spec fn gpu_prepared<D: BlurDevice>(
    device: D,
    s: BackendState,
    size: (u32, u32),
    t: BackendState,
    r: Result<(), EffectError>,
) -> bool {
    match size_complaint(size.0, size.1) {
        Some(reason) => segmentation::unprepared(r, COMPONENT@, reason) && t == s,
        None => {
            &&& r is Ok
            &&& t == (BackendState { fits: size, ..s })
            &&& exists|b: D::Buffers| #[trigger] allocated(device, size.0, size.1, b)
        },
    }
}

/// Whether the blur on a device may answer a request: the device runs on what it
/// allocated for frames of the size.
pub open spec fn gpu_blurred<D: BlurDevice>(
    device: D,
    s: BackendState,
    q: BlurRequest,
    dst: Seq<u8>,
    t: BackendState,
    r: Result<(), EffectError>,
) -> bool {
    &&& t == s
    &&& match blur::frame_complaint(
        s.fits.0,
        s.fits.1,
        q.src.len(),
        q.dst.len(),
        q.width,
        q.height,
    ) {
        Some(reason) => dst == q.dst && (r matches Err(e) && segmentation::processing_failure(
            e,
            COMPONENT@,
            reason,
        )),
        None => if q.radius == 0 || q.passes == 0 {
            r is Ok && dst == q.src
        } else if q.width == 0 {
            dst == q.dst && (r matches Err(e) && segmentation::processing_failure(
                e,
                COMPONENT@,
                "blur called before prepare"@,
            ))
        } else {
            exists|b: D::Buffers| #[trigger]
                allocated(device, q.width, q.height, b) && ran(
                    device,
                    b,
                    q.src,
                    q.dst,
                    q.width,
                    q.height,
                    q.radius,
                    q.passes,
                    dst,
                    r,
                )
        },
    }
}

/// What the blur on a device may do.
pub open spec fn gpu_rules<D: BlurDevice>(device: D) -> BackendRules {
    BackendRules {
        prepare: |s: BackendState, size: (u32, u32), t: BackendState, r: Result<(), EffectError>|
            gpu_prepared(device, s, size, t, r),
        blur: |
            s: BackendState,
            q: BlurRequest,
            dst: Seq<u8>,
            t: BackendState,
            r: Result<(), EffectError>,
        | gpu_blurred(device, s, q, dst, t, r),
    }
}

impl<D: BlurDevice> BlurBackend for WgpuBlurBackend<D> {
    open spec fn rules(&self) -> BackendRules {
        gpu_rules(self.gpu())
    }

    open spec fn state(&self) -> BackendState {
        blur::single("wgpu"@, self.size())
    }

    closed spec fn wf(&self) -> bool {
        self.sound()
    }

    fn name(&self) -> (r: &'static str) {
        "wgpu"
    }

    fn prepare(&mut self, width: u32, height: u32) -> (r: Result<(), EffectError>)
        ensures
            final(self).gpu() == old(self).gpu(),
            r is Ok ==> final(self).size() == (width, height) && (
            final(self).textures() matches Some(b) && allocated(
                old(self).gpu(),
                width,
                height,
                b,
            )),
            r is Err ==> *final(self) == *old(self),
    {
        if width < 2 || height < 2 {
            let reason = blur::frame_reason(width, height, " too small; blur needs at least 2x2");
            return Err(EffectError::prepare_failed(COMPONENT, reason));
        }
        match rgba_bytes(width, height) {
            Some(bytes) => {
                let row: u32 = wgpu_blur::padded_bytes_per_row(width);
                // Release the old textures before the new ones are allocated.
                self.buffers = None;
                let buffers = self.device.allocate(width, height, row);
                assert(allocated(old(self).gpu(), width, height, buffers));
                self.buffers = Some(buffers);
                self.upload_buf = segmentation::filled(0u8, bytes);
                self.bytes_per_row = row;
                self.prepared_width = width;
                self.prepared_height = height;
                Ok(())
            },
            None => {
                let reason = blur::frame_reason(width, height, " overflows usize");
                Err(EffectError::prepare_failed(COMPONENT, reason))
            },
        }
    }

    fn blur(
        &mut self,
        src: &[u8],
        dst: &mut [u8],
        width: u32,
        height: u32,
        radius: u32,
        passes: u32,
    ) -> (r: Result<(), EffectError>)
        ensures
            final(self).gpu() == old(self).gpu(),
            final(self).textures() == old(self).textures(),
            final(self).size() == old(self).size(),
    {
        if width != self.prepared_width || height != self.prepared_height {
            let reason = segmentation::size_mismatch_text(
                width,
                height,
                self.prepared_width,
                self.prepared_height,
            );
            return Err(EffectError::process_failed(COMPONENT, reason));
        }
        proof {
            if width == 0 {
                assert(width * height * 3 == 0) by (nonlinear_arith)
                    requires
                        width == 0,
                ;
            }
        }
        let expected: usize = self.upload_buf.len() / 4 * 3;
        if src.len() != expected || dst.len() != expected {
            let reason = blur::lengths_reason(src.len(), dst.len(), expected);
            return Err(EffectError::process_failed(COMPONENT, reason));
        }
        if radius == 0 || passes == 0 {
            box_blur::copy_slice(src, dst);
            return Ok(());
        }
        let buffers = match &self.buffers {
            Some(buffers) => buffers,
            None => {
                let reason = "blur called before prepare".to_owned();
                return Err(EffectError::process_failed(COMPONENT, reason));
            },
        };
        wgpu_blur::pad_rgb_to_rgba(src, self.upload_buf.as_mut_slice());
        let dispatch = Dispatch {
            rgba: self.upload_buf.as_slice(),
            uniform: wgpu_blur::pack_uniform(width, height, radius),
            width,
            height,
            bytes_per_row: self.bytes_per_row,
            groups_x: wgpu_blur::workgroups(width),
            groups_y: wgpu_blur::workgroups(height),
            passes,
        };
        let ghost d = dispatch;
        let reply = self.device.run(buffers, dispatch);
        let ghost answer = reply;
        assert(call_ensures(D::run, (&self.device, buffers, d), answer));
        assert(dispatches(d, src@, width, height, radius, passes));
        match reply {
            Err(reason) => {
                let r: Result<(), EffectError> = Err(
                    EffectError::process_failed(COMPONENT, reason),
                );
                assert(read_back(answer, width, height, dst@, dst@, r));
                r
            },
            Ok(rows) => {
                assert(0 <= self.bytes_per_row * height <= 0xFFFF_FFFF * 0xFFFF_FFFF)
                    by (nonlinear_arith)
                    requires
                        0 <= self.bytes_per_row <= 0xFFFF_FFFF,
                        0 <= height <= 0xFFFF_FFFF,
                ;
                let needed: u64 = self.bytes_per_row as u64 * height as u64;
                if (rows.len() as u64) < needed {
                    let mut reason = "staging buffer holds ".to_owned();
                    text::push_decimal(&mut reason, rows.len() as u64);
                    reason.append(" bytes, expected ");
                    text::push_decimal(&mut reason, needed);
                    let r: Result<(), EffectError> = Err(
                        EffectError::process_failed(COMPONENT, reason),
                    );
                    assert(read_back(answer, width, height, dst@, dst@, r));
                    return r;
                }
                wgpu_blur::strip_rgba_to_rgb(
                    rows.as_slice(),
                    dst,
                    width,
                    height,
                    self.bytes_per_row,
                );
                let r: Result<(), EffectError> = Ok(());
                assert(read_back(answer, width, height, old(dst)@, dst@, r));
                r
            },
        }
    }

    fn published(&self) -> (r: Option<&Counters>) {
        None
    }
}

} // verus!
