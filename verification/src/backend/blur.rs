//! Blur backends, and the one on the CPU.
//!
//! A backend owns its buffers: `prepare` allocates them for a frame size, `blur`
//! runs on frames of that size.

use vstd::prelude::*;
use crate::composite::segmentation;
use crate::error::EffectError;
use crate::metrics::{CounterValues, Counters};
use crate::processing::blur as box_blur;
use crate::text;

verus! {

/// What a backend holds between calls.
pub ghost struct BackendState {
    /// Name of the backend.
    pub id: Seq<char>,
    /// Frame size that the backend is prepared for.
    pub fits: (u32, u32),
    /// What the backend has counted, if it counts.
    pub tally: Option<CounterValues>,
    /// What the backends inside hold, the one that blurs first.
    pub parts: Seq<BackendState>,
}

/// A backend of a name that fits frames of a size, with no backend inside, and
/// counts nothing.
pub open spec fn single(id: Seq<char>, fits: (u32, u32)) -> BackendState {
    BackendState { id, fits, tally: None, parts: Seq::empty() }
}

/// What a backend is asked to blur.
pub ghost struct BlurRequest {
    /// The source.
    pub src: Seq<u8>,
    /// The destination before the call.
    pub dst: Seq<u8>,
    /// Width in pixels.
    pub width: u32,
    /// Height in pixels.
    pub height: u32,
    /// Half-kernel radius.
    pub radius: u32,
    /// Number of passes.
    pub passes: u32,
}

/// What a backend may do: for each operation the outcomes that are allowed from a
/// state to a next one.  The rules of a backend never change.
pub ghost struct BackendRules {
    /// Preparing for frames of a size.
    pub prepare: spec_fn(BackendState, (u32, u32), BackendState, Result<(), EffectError>) -> bool,
    /// Blurring, with the destination afterwards.
    pub blur: spec_fn(
        BackendState,
        BlurRequest,
        Seq<u8>,
        BackendState,
        Result<(), EffectError>,
    ) -> bool,
}

/// Rules that allow everything.
pub open spec fn no_backend_rules() -> BackendRules {
    BackendRules {
        prepare: |s: BackendState, size: (u32, u32), t: BackendState, r: Result<(), EffectError>|
            true,
        blur: |
            s: BackendState,
            q: BlurRequest,
            dst: Seq<u8>,
            t: BackendState,
            r: Result<(), EffectError>,
        | true,
    }
}

/// A separable box blur of packed RGB planes.
///
/// Lifecycle: construct, `prepare`, repeated `blur`; `prepare` again to resize.
pub trait BlurBackend: Send {
    /// What the backend may do.
    open spec fn rules(&self) -> BackendRules {
        no_backend_rules()
    }

    /// What the backend holds.
    open spec fn state(&self) -> BackendState {
        arbitrary()
    }

    /// What every method keeps.
    open spec fn wf(&self) -> bool {
        true
    }

    /// Stable identifier for logs and metrics.
    fn name(&self) -> (r: &'static str)
        ensures
            r@ == self.state().id,
    ;

    /// Allocate what frames of a size need.
    fn prepare(&mut self, width: u32, height: u32) -> (r: Result<(), EffectError>)
        requires
            old(self).wf(),
        ensures
            final(self).wf(),
            (old(self).rules().prepare)(
                old(self).state(),
                (width, height),
                final(self).state(),
                r,
            ),
            final(self).rules() == old(self).rules(),
    ;

    /// Blur `src` into `dst`.
    fn blur(
        &mut self,
        src: &[u8],
        dst: &mut [u8],
        width: u32,
        height: u32,
        radius: u32,
        passes: u32,
    ) -> (r: Result<(), EffectError>)
        requires
            old(self).wf(),
        ensures
            final(self).wf(),
            final(dst)@.len() == old(dst)@.len(),
            (old(self).rules().blur)(
                old(self).state(),
                (BlurRequest { src: src@, dst: old(dst)@, width, height, radius, passes }),
                final(dst)@,
                final(self).state(),
                r,
            ),
            final(self).rules() == old(self).rules(),
    ;

    /// Counters that the backend keeps, if it keeps any.
    fn published(&self) -> (r: Option<&Counters>)
        ensures
            match r {
                Some(c) => self.state().tally == Some(c@),
                None => self.state().tally is None,
            },
    ;
}

/// A backend behind a pointer.
pub struct BlurHandle {
    /// The backend.
    pub backend: Box<dyn BlurBackend>,
}

impl BlurHandle {
    /// Whether the backend may be prepared for frames of a size with the outcome
    /// `r` and be `after` then.
    pub open spec fn prepares(
        &self,
        size: (u32, u32),
        after: BlurHandle,
        r: Result<(), EffectError>,
    ) -> bool {
        &&& (self.backend.rules().prepare)(self.backend.state(), size, after.backend.state(), r)
        &&& after.backend.rules() == self.backend.rules()
    }

    /// Whether the backend may answer a request with `r`, leave the destination
    /// `dst`, and be `after` then.
    pub open spec fn answers(
        &self,
        q: BlurRequest,
        dst: Seq<u8>,
        after: BlurHandle,
        r: Result<(), EffectError>,
    ) -> bool {
        &&& (self.backend.rules().blur)(self.backend.state(), q, dst, after.backend.state(), r)
        &&& after.backend.rules() == self.backend.rules()
    }
}

/// The box blur on the CPU.
#[derive(Debug)]
pub struct CpuBlurBackend {
    scratch: Vec<u8>,
    prepared_width: u32,
    prepared_height: u32,
}

/// Name under which the CPU backend reports errors.
pub const COMPONENT: &'static str = "blur backend (cpu)";

/// `frame <w>x<h><rest>`.
pub open spec fn frame_text(w: u32, h: u32, rest: Seq<char>) -> Seq<char> {
    "frame "@ + text::decimal(w as nat) + "x"@ + text::decimal(h as nat) + rest
}

pub(crate) fn frame_reason(w: u32, h: u32, rest: &str) -> (r: String)
    ensures
        r@ == frame_text(w, h, rest@),
{
    let mut out = "frame ".to_owned();
    text::push_decimal(&mut out, w as u64);
    out.append("x");
    text::push_decimal(&mut out, h as u64);
    out.append(rest);
    out
}

/// `buffer length mismatch: src=<s>, dst=<d>, expected=<e>`.
pub open spec fn lengths_text(src: nat, dst: nat, expected: nat) -> Seq<char> {
    "buffer length mismatch: src="@ + text::decimal(src) + ", dst="@ + text::decimal(dst)
        + ", expected="@ + text::decimal(expected)
}

pub(crate) fn lengths_reason(src: usize, dst: usize, expected: usize) -> (r: String)
    ensures
        r@ == lengths_text(src as nat, dst as nat, expected as nat),
{
    let mut out = "buffer length mismatch: src=".to_owned();
    text::push_decimal(&mut out, src as u64);
    out.append(", dst=");
    text::push_decimal(&mut out, dst as u64);
    out.append(", expected=");
    text::push_decimal(&mut out, expected as u64);
    out
}

/// Why a frame size is refused, if it is.
pub open spec fn size_complaint(w: u32, h: u32) -> Option<Seq<char>> {
    if w < 2 || h < 2 {
        Some(frame_text(w, h, " too small; box blur needs at least 2x2"@))
    } else if !segmentation::countable(w, h) {
        Some(frame_text(w, h, " overflows usize"@))
    } else {
        None
    }
}

/// Why a frame is refused, if it is, by a backend that is prepared for frames of
/// `pw` by `ph`.
pub open spec fn frame_complaint(
    pw: u32,
    ph: u32,
    src: nat,
    dst: nat,
    w: u32,
    h: u32,
) -> Option<Seq<char>> {
    let expected = (w * h * 3) as nat;
    if w != pw || h != ph {
        Some(segmentation::size_mismatch(w, h, pw, ph))
    } else if src != expected || dst != expected {
        Some(lengths_text(src, dst, expected))
    } else {
        None
    }
}

impl CpuBlurBackend {
    /// Frame size the backend is prepared for; zero by zero before that.
    pub closed spec fn size(&self) -> (u32, u32) {
        (self.prepared_width, self.prepared_height)
    }

    spec fn sound(&self) -> bool {
        &&& segmentation::countable(self.prepared_width, self.prepared_height)
        &&& self.scratch@.len() == self.prepared_width * self.prepared_height * 3
    }

    /// A backend without buffers.
    #[must_use]
    pub fn new() -> (r: Self)
        ensures
            r.wf(),
            r.size() == (0u32, 0u32),
    {
        CpuBlurBackend { scratch: Vec::new(), prepared_width: 0, prepared_height: 0 }
    }
}

impl Default for CpuBlurBackend {
    fn default() -> (r: Self)
        ensures
            r.wf(),
            r.size() == (0u32, 0u32),
    {
        CpuBlurBackend::new()
    }
}

/// Whether the box blur on the CPU may be prepared for frames of a size.
pub open spec fn cpu_prepared(
    s: BackendState,
    size: (u32, u32),
    t: BackendState,
    r: Result<(), EffectError>,
) -> bool {
    match size_complaint(size.0, size.1) {
        Some(reason) => segmentation::unprepared(r, COMPONENT@, reason) && t == s,
        None => r is Ok && t == (BackendState { fits: size, ..s }),
    }
}

/// Whether the box blur on the CPU may answer a request.
pub open spec fn cpu_blurred(
    s: BackendState,
    q: BlurRequest,
    dst: Seq<u8>,
    t: BackendState,
    r: Result<(), EffectError>,
) -> bool {
    &&& t == s
    &&& match frame_complaint(s.fits.0, s.fits.1, q.src.len(), q.dst.len(), q.width, q.height) {
        Some(reason) => dst == q.dst && (r matches Err(e) && segmentation::processing_failure(
            e,
            COMPONENT@,
            reason,
        )),
        None => r is Ok && dst == box_blur::blurred(
            q.src,
            3 * q.width,
            q.height as int,
            q.radius as int,
            q.passes as nat,
        ),
    }
}

/// What the box blur on the CPU may do.
pub open spec fn cpu_rules() -> BackendRules {
    BackendRules {
        prepare: |s: BackendState, size: (u32, u32), t: BackendState, r: Result<(), EffectError>|
            cpu_prepared(s, size, t, r),
        blur: |
            s: BackendState,
            q: BlurRequest,
            dst: Seq<u8>,
            t: BackendState,
            r: Result<(), EffectError>,
        | cpu_blurred(s, q, dst, t, r),
    }
}

impl BlurBackend for CpuBlurBackend {
    open spec fn rules(&self) -> BackendRules {
        cpu_rules()
    }

    open spec fn state(&self) -> BackendState {
        single("cpu"@, self.size())
    }

    closed spec fn wf(&self) -> bool {
        self.sound()
    }

    fn name(&self) -> (r: &'static str) {
        "cpu"
    }

    fn prepare(&mut self, width: u32, height: u32) -> (r: Result<(), EffectError>)
        ensures
            r is Ok ==> final(self).size() == (width, height),
            r is Err ==> *final(self) == *old(self),
    {
        if width < 2 || height < 2 {
            let reason = frame_reason(width, height, " too small; box blur needs at least 2x2");
            return Err(EffectError::prepare_failed(COMPONENT, reason));
        }
        match segmentation::plane_bytes(width, height) {
            Some(bytes) => {
                self.scratch = segmentation::filled(0u8, bytes);
                self.prepared_width = width;
                self.prepared_height = height;
                Ok(())
            },
            None => {
                let reason = frame_reason(width, height, " overflows usize");
                Err(EffectError::prepare_failed(COMPONENT, reason))
            },
        }
    }

    fn blur(
        &mut self,
        src: &[u8],
        dst: &mut [u8],
        width: u32,
        height: u32,
        radius: u32,
        passes: u32,
    ) -> (r: Result<(), EffectError>)
        ensures
            final(self).size() == old(self).size(),
    {
        if width != self.prepared_width || height != self.prepared_height {
            let reason = segmentation::size_mismatch_text(
                width,
                height,
                self.prepared_width,
                self.prepared_height,
            );
            return Err(EffectError::process_failed(COMPONENT, reason));
        }
        let expected: usize = self.scratch.len();
        if src.len() != expected || dst.len() != expected {
            let reason = lengths_reason(src.len(), dst.len(), expected);
            return Err(EffectError::process_failed(COMPONENT, reason));
        }
        box_blur::box_blur_rgb(
            src,
            dst,
            self.scratch.as_mut_slice(),
            width,
            height,
            radius,
            passes,
        );
        Ok(())
    }

    fn published(&self) -> (r: Option<&Counters>) {
        None
    }
}

} // verus!
