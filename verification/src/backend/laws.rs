//! What the blur backends and the forced choices promise.

use vstd::prelude::*;
use crate::backend::blur::{
    BackendState, BlurBackend, BlurHandle, BlurRequest, CpuBlurBackend,
};
use crate::backend::blur_factory;
use crate::backend::blur_factory::StickyBlurFallback;
use crate::backend::inference;
use crate::backend::inference::{BuiltEngine, StickyInferenceFallback};
use crate::backend::overrides::{BackendOverrides, BlurBackendChoice, InferenceBackendChoice};
use crate::backend::wgpu_backend::{BlurDevice, Dispatch, WgpuBlurBackend};
use crate::backend::wgpu_blur;
use crate::error::{EffectError, InferenceError};
use crate::metrics::{CounterValues, Counters};
use crate::ml::model_config::ModelConfig;
use crate::ml::onnx;
use crate::ml::onnx::{OnnxEngine, OnnxRuntime};
use crate::ml::openvino_engine;
use crate::ml::openvino_engine::{OpenVinoEngine, OpenVinoRuntime};
use crate::processing::blur as box_blur;
use crate::text;
use crate::traits::{
    EngineCall, EngineState, InferenceEngine, InferenceInput, InferenceOutput, LoadedEngine,
};

verus! {

/// The blur on the CPU takes frames of the size that it is prepared for and no
/// others, and leaves in the destination the source blurred at that size, one pass
/// after the other; a refused frame leaves the destination alone.
pub proof fn law_cpu_blur(
    b: &mut CpuBlurBackend,
    src: &[u8],
    dst: &mut [u8],
    width: u32,
    height: u32,
    radius: u32,
    passes: u32,
    r: Result<(), EffectError>,
)
    requires
        call_ensures(
            <CpuBlurBackend as BlurBackend>::blur,
            (b, src, dst, width, height, radius, passes),
            r,
        ),
    ensures
        final(b).size() == old(b).size(),
        r is Ok <==> old(b).size() == (width, height) && src@.len() == 3 * width * height
            && old(dst)@.len() == 3 * width * height,
        r is Err ==> final(dst)@ == old(dst)@,
        r is Ok && (radius == 0 || passes == 0) ==> final(dst)@ == src@,
        r is Ok && width > 0 && height > 0 && radius > 0 ==> exists|planes: Seq<Seq<u8>>| #[trigger]
            box_blur::pass_by_pass(
                planes,
                src@,
                final(dst)@,
                width as int,
                height as int,
                radius as int,
                passes as nat,
            ),
{
    assert(width * height * 3 == 3 * width * height) by (nonlinear_arith);
    let (w, h) = (width as int, height as int);
    if r is Ok {
        if radius == 0 || passes == 0 {
            box_blur::law_nothing_to_blur(src@, 3 * w, h, radius as int, passes as nat);
        }
        if width > 0 && height > 0 && radius > 0 {
            box_blur::law_pass_by_pass(src@, w, h, radius as int, passes as nat);
        }
    }
}

/// Frames of at least two by two pixels can be prepared for, as far as their bytes
/// can be counted; a refusal leaves the backend as it is.
pub proof fn law_cpu_prepare(
    b: &mut CpuBlurBackend,
    width: u32,
    height: u32,
    r: Result<(), EffectError>,
)
    requires
        call_ensures(<CpuBlurBackend as BlurBackend>::prepare, (b, width, height), r),
    ensures
        r is Ok <==> width >= 2 && height >= 2 && 3 * width * height <= usize::MAX,
        r is Ok ==> final(b).size() == (width, height),
        r is Err ==> *final(b) == *old(b),
{
    assert(width * height * 3 == 3 * width * height) by (nonlinear_arith);
}

/// The number whose four bytes stand at `at`, the lowest first.
pub open spec fn number_at(bytes: Seq<u8>, at: int) -> int {
    bytes[at] + 0x100 * bytes[at + 1] + 0x1_0000 * bytes[at + 2] + 0x100_0000 * bytes[at + 3]
}

/// Whether the pixels of packed RGB stand in packed RGBA, each fully opaque.
pub open spec fn opaque_pixels(rgb: Seq<u8>, rgba: Seq<u8>) -> bool {
    &&& 3 * rgba.len() == 4 * rgb.len()
    &&& forall|p: int| #[trigger] opaque_pixel(rgb, rgba, p)
}

/// Whether pixel `p` of packed RGB stands in packed RGBA, fully opaque.
pub open spec fn opaque_pixel(rgb: Seq<u8>, rgba: Seq<u8>, p: int) -> bool {
    0 <= 3 * p < rgb.len() ==> {
        &&& rgba[4 * p] == rgb[3 * p]
        &&& rgba[4 * p + 1] == rgb[3 * p + 1]
        &&& rgba[4 * p + 2] == rgb[3 * p + 2]
        &&& rgba[4 * p + 3] == 255
    }
}

/// Whether the device is shown a frame: its pixels, its size and radius, a row that is
/// the next multiple of 256 bytes, and just as many groups of eight by eight pixels as
/// cover it.
pub open spec fn shown(
    d: Dispatch<'_>,
    src: Seq<u8>,
    width: u32,
    height: u32,
    radius: u32,
    passes: u32,
) -> bool {
    &&& opaque_pixels(src, d.rgba@)
    &&& number_at(d.uniform@, 0) == width
    &&& number_at(d.uniform@, 4) == height
    &&& number_at(d.uniform@, 8) == radius
    &&& number_at(d.uniform@, 12) == 0
    &&& d.width == width
    &&& d.height == height
    &&& d.bytes_per_row % 256 == 0
    &&& 4 * width <= d.bytes_per_row < 4 * width + 256
    &&& 8 * d.groups_x - 8 < width <= 8 * d.groups_x
    &&& 8 * d.groups_y - 8 < height <= 8 * d.groups_y
    &&& d.passes == passes
}

/// Whether the colours of pixel `(x, y)` come from the rows that the device handed
/// back, each of `row` bytes.
pub open spec fn pixel_read(
    rows: Seq<u8>,
    out: Seq<u8>,
    width: int,
    row: int,
    x: int,
    y: int,
) -> bool {
    forall|c: int|
        0 <= c < 3 ==> #[trigger] out[3 * (y * width + x) + c] == rows[y * row + 4 * x + c]
}

/// What a run on the device may come to.
pub open spec fn device_run<D: BlurDevice>(
    device: D,
    buffers: D::Buffers,
    d: Dispatch<'_>,
    reply: Result<Vec<u8>, String>,
    dst: Seq<u8>,
    after: Seq<u8>,
    r: Result<(), EffectError>,
) -> bool {
    &&& call_ensures(D::run, (&device, &buffers, d), reply)
    &&& call_ensures(D::allocate, (&device, d.width, d.height, d.bytes_per_row), buffers)
    &&& r is Ok <==> (reply matches Ok(rows) && rows@.len() >= d.bytes_per_row * d.height)
    &&& r is Err ==> after == dst
    &&& r is Ok ==> after.len() == 3 * d.width * d.height && forall|x: int, y: int|
        0 <= x < d.width && 0 <= y < d.height ==> #[trigger] pixel_read(
            reply->Ok_0@,
            after,
            d.width as int,
            d.bytes_per_row as int,
            x,
            y,
        )
}

/// Padding to RGBA keeps every pixel at its place.
proof fn lemma_opaque_pixels(rgb: Seq<u8>)
    requires
        rgb.len() % 3 == 0,
    ensures
        opaque_pixels(rgb, wgpu_blur::rgba(rgb)),
{
    assert forall|p: int| #[trigger] opaque_pixel(rgb, wgpu_blur::rgba(rgb), p) by {
        if 0 <= 3 * p < rgb.len() {
            assert((4 * p) / 4 == p && (4 * p) % 4 == 0);
            assert((4 * p + 1) / 4 == p && (4 * p + 1) % 4 == 1);
            assert((4 * p + 2) / 4 == p && (4 * p + 2) % 4 == 2);
            assert((4 * p + 3) % 4 == 3);
        }
    }
}

/// Four little-endian bytes spell their number.
proof fn lemma_number(v: u32)
    ensures
        number_at(wgpu_blur::le_bytes(v), 0) == v,
{
}

/// The blur on a device takes frames of the size that it is prepared for and no
/// others.  It hands the source over as it is where there is nothing to blur;
/// otherwise it shows the frame to the device, on what the device allocated for that
/// size, and reads the colours back row by row.  Whatever goes wrong leaves the
/// destination alone.
pub proof fn law_device_blur<D: BlurDevice>(
    b: &mut WgpuBlurBackend<D>,
    src: &[u8],
    dst: &mut [u8],
    width: u32,
    height: u32,
    radius: u32,
    passes: u32,
    r: Result<(), EffectError>,
)
    requires
        call_ensures(
            <WgpuBlurBackend<D> as BlurBackend>::blur,
            (b, src, dst, width, height, radius, passes),
            r,
        ),
    ensures
        final(b).size() == old(b).size(),
        final(b).gpu() == old(b).gpu(),
        final(b).textures() == old(b).textures(),
        r is Err ==> final(dst)@ == old(dst)@,
        r is Ok ==> old(b).size() == (width, height) && src@.len() == 3 * width * height
            && old(dst)@.len() == 3 * width * height,
        old(b).size() == (width, height) && src@.len() == 3 * width * height && old(dst)@.len() == 3
            * width * height && (radius == 0 || passes == 0) ==> r is Ok && final(dst)@ == src@,
        old(b).size() == (width, height) && src@.len() == 3 * width * height && old(dst)@.len() == 3
            * width * height && radius > 0 && passes > 0 && width > 0 ==> exists|
            buffers: D::Buffers,
            d: Dispatch<'_>,
            reply: Result<Vec<u8>, String>,
        | #[trigger]
            device_run(old(b).gpu(), buffers, d, reply, old(dst)@, final(dst)@, r) && shown(
                d,
                src@,
                width,
                height,
                radius,
                passes,
            ),
{
    assert(width * height * 3 == 3 * width * height) by (nonlinear_arith);
    assert(width == 0 ==> width * height * 3 == 0) by (nonlinear_arith);
    if old(b).size() == (width, height) && src@.len() == 3 * width * height && old(dst)@.len() == 3
        * width * height && radius > 0 && passes > 0 && width > 0 {
        let device = old(b).gpu();
        let buffers = choose|buffers: D::Buffers| #[trigger]
            crate::backend::wgpu_backend::allocated(device, width, height, buffers)
                && crate::backend::wgpu_backend::ran(
                device,
                buffers,
                src@,
                old(dst)@,
                width,
                height,
                radius,
                passes,
                final(dst)@,
                r,
            );
        let (d, reply) = choose|d: Dispatch<'_>, reply: Result<Vec<u8>, String>| #[trigger]
            call_ensures(D::run, (&device, &buffers, d), reply)
                && crate::backend::wgpu_backend::dispatches(d, src@, width, height, radius, passes)
                && crate::backend::wgpu_backend::read_back(
                reply,
                width,
                height,
                old(dst)@,
                final(dst)@,
                r,
            );
        lemma_shown(d, src@, width, height, radius, passes);
        let row = choose|row: u32| #[trigger]
            call_ensures(D::allocate, (&device, width, height, row), buffers) && row
                == wgpu_blur::padded_row(width);
        if r is Ok {
            let rows = reply->Ok_0@;
            assert forall|x: int, y: int| 0 <= x < width && 0 <= y < height implies #[trigger] pixel_read(
                rows,
                final(dst)@,
                width as int,
                row as int,
                x,
                y,
            ) by {
                assert forall|c: int| 0 <= c < 3 implies #[trigger] final(dst)@[3 * (y * (
                width as int) + x) + c] == rows[y * (row as int) + 4 * x + c] by {
                    let at = wgpu_blur::packed_at(width as int, x, y, c);
                    assert(at == 3 * (y * (width as int) + x) + c);
                    assert(final(dst)@[at] == rows[y * row + x * 4 + c]);
                }
            }
        }
        assert(device_run(device, buffers, d, reply, old(dst)@, final(dst)@, r));
    }
}

/// What the backend dispatches shows the frame.
proof fn lemma_shown(
    d: Dispatch<'_>,
    src: Seq<u8>,
    width: u32,
    height: u32,
    radius: u32,
    passes: u32,
)
    requires
        crate::backend::wgpu_backend::dispatches(d, src, width, height, radius, passes),
        src.len() == 3 * width * height,
    ensures
        shown(d, src, width, height, radius, passes),
{
    lemma_number(width);
    lemma_number(height);
    lemma_number(radius);
    assert(src.len() % 3 == 0) by {
        assert(3 * width * height == 3 * (width * height)) by (nonlinear_arith);
    }
    lemma_opaque_pixels(src);
    let u = d.uniform@;
    let (a, b, c) = (wgpu_blur::le_bytes(width), wgpu_blur::le_bytes(height), wgpu_blur::le_bytes(radius));
    assert(u[0] == a[0] && u[1] == a[1] && u[2] == a[2] && u[3] == a[3]);
    assert(u[4] == b[0] && u[5] == b[1] && u[6] == b[2] && u[7] == b[3]);
    assert(u[8] == c[0] && u[9] == c[1] && u[10] == c[2] && u[11] == c[3]);
}

/// Frames of at least two by two pixels can be prepared for, as far as their rows and
/// bytes can be addressed, and the device then has buffers for them.
pub proof fn law_device_prepare<D: BlurDevice>(
    b: &mut WgpuBlurBackend<D>,
    width: u32,
    height: u32,
    r: Result<(), EffectError>,
)
    requires
        call_ensures(<WgpuBlurBackend<D> as BlurBackend>::prepare, (b, width, height), r),
    ensures
        final(b).gpu() == old(b).gpu(),
        r is Err ==> *final(b) == *old(b),
        r is Ok <==> width >= 2 && height >= 2 && 4 * width * height <= usize::MAX && (4 * width
            + 255) / 256 * 256 <= u32::MAX,
        r is Ok ==> final(b).size() == (width, height) && final(b).textures() is Some && exists|
            row: u32,
        |
            row % 256 == 0 && 4 * width <= row < 4 * width + 256 && #[trigger] call_ensures(
                D::allocate,
                (&old(b).gpu(), width, height, row),
                final(b).textures()->0,
            ),
{
    assert(width * height * 4 == 4 * width * height) by (nonlinear_arith);
    assert(width * 4 == 4 * width);
}

/// Whether a value spells a word, whatever its letter case and the white space around
/// it.
pub open spec fn spells(v: Option<String>, word: Seq<char>) -> bool {
    v matches Some(s) && text::lower(text::trimmed(s@)) == word
}

/// Each choice goes by its own variable: the value that the variable holds forces a
/// backend where it spells the backend's name, and forces nothing otherwise.
pub proof fn law_forced_choices<F: Fn(&str) -> Option<String>>(lookup: F, r: BackendOverrides)
    requires
        call_ensures(BackendOverrides::from_lookup::<F>, (lookup,), r),
    ensures
        exists|v: Option<String>| #[trigger]
            call_ensures(lookup, ("FLUXFRAME_FORCE_INFERENCE_BACKEND",), v) && (r.inference
                == InferenceBackendChoice::Cpu <==> spells(v, "cpu"@)) && (r.inference
                == InferenceBackendChoice::OpenVino <==> spells(v, "openvino"@)),
        exists|v: Option<String>| #[trigger]
            call_ensures(lookup, ("FLUXFRAME_FORCE_BLUR_BACKEND",), v) && (r.blur
                == BlurBackendChoice::Cpu <==> spells(v, "cpu"@)) && (r.blur
                == BlurBackendChoice::Wgpu <==> spells(v, "wgpu"@)),
{
    reveal_strlit("cpu");
    reveal_strlit("openvino");
    reveal_strlit("wgpu");
    assert("cpu"@[0] != "openvino"@[0]);
    assert("cpu"@[0] != "wgpu"@[0]);
    assert("cpu"@.len() > 0 && "openvino"@.len() > 0 && "wgpu"@.len() > 0);
    assert(Seq::<char>::empty().len() == 0);
}

/// What the primary of a fallback may answer and leave: a success is the answer of the
/// whole, a failure sends the same question, with the destination as the primary left
/// it, to the secondary.
pub open spec fn primary_answered(
    p: BlurHandle,
    second: BlurHandle,
    q: BlurRequest,
    mid: Seq<u8>,
    left: BackendState,
    first: Result<(), EffectError>,
    kept: Option<BlurHandle>,
    after: BlurHandle,
    dst: Seq<u8>,
    r: Result<(), EffectError>,
) -> bool {
    &&& (p.backend.rules().blur)(p.backend.state(), q, mid, left, first)
    &&& first is Ok ==> r is Ok && dst == mid && after == second && (kept matches Some(k)
        && k.backend.state() == left && k.backend.rules() == p.backend.rules())
    &&& first is Err ==> kept is None && (second.backend.rules().blur)(
        second.backend.state(),
        BlurRequest { dst: mid, ..q },
        dst,
        after.backend.state(),
        r,
    )
}

/// A fallback asks its primary first and its secondary only where the primary is gone
/// or fails, with the same source, size, radius and passes; a failure of the primary is
/// counted once and counts nothing else.
pub proof fn law_blur_falls_back(
    b: &mut StickyBlurFallback,
    src: &[u8],
    dst: &mut [u8],
    width: u32,
    height: u32,
    radius: u32,
    passes: u32,
    r: Result<(), EffectError>,
)
    requires
        call_ensures(
            <StickyBlurFallback as BlurBackend>::blur,
            (b, src, dst, width, height, radius, passes),
            r,
        ),
    ensures
        final(b).names() == old(b).names(),
        old(b).first() matches Some(p) ==> exists|
            mid: Seq<u8>,
            left: BackendState,
            first: Result<(), EffectError>,
        | #[trigger]
            primary_answered(
                p,
                old(b).second(),
                BlurRequest { src: src@, dst: old(dst)@, width, height, radius, passes },
                mid,
                left,
                first,
                final(b).first(),
                final(b).second(),
                final(dst)@,
                r,
            ),
        old(b).first() is None ==> final(b).first() is None && (
        old(b).second().backend.rules().blur)(
            old(b).second().backend.state(),
            BlurRequest { src: src@, dst: old(dst)@, width, height, radius, passes },
            final(dst)@,
            final(b).second().backend.state(),
            r,
        ),
        final(b).counted()@ == (if old(b).first() is Some && final(b).first() is None {
            CounterValues {
                blur_runtime_fallback_gpu_to_cpu: old(b).counted()@.blur_runtime_fallback_gpu_to_cpu.wrapping_add(1),
                ..old(b).counted()@
            }
        } else {
            old(b).counted()@
        }),
{
    let q = BlurRequest { src: src@, dst: old(dst)@, width, height, radius, passes };
    let (mid, first) = choose|mid: Seq<u8>, first: Result<(), EffectError>| #[trigger]
        blur_factory::answered(old(b), final(b), q, mid, first, final(dst)@, r);
    if let Some(p) = old(b).first() {
        if first is Ok {
            let kept = final(b).first()->0;
            assert(p.answers(q, mid, kept, first));
            assert(primary_answered(
                p,
                old(b).second(),
                q,
                mid,
                kept.backend.state(),
                first,
                final(b).first(),
                final(b).second(),
                final(dst)@,
                r,
            ));
        } else {
            let left = choose|left: BlurHandle| #[trigger] p.answers(q, mid, left, first);
            assert(primary_answered(
                p,
                old(b).second(),
                q,
                mid,
                left.backend.state(),
                first,
                final(b).first(),
                final(b).second(),
                final(dst)@,
                r,
            ));
        }
    }
}

/// Preparing prepares both backends for the size: the primary first, whose failure is
/// the outcome and leaves the secondary alone, and then the secondary.
pub proof fn law_both_are_prepared(
    b: &mut StickyBlurFallback,
    width: u32,
    height: u32,
    r: Result<(), EffectError>,
)
    requires
        call_ensures(<StickyBlurFallback as BlurBackend>::prepare, (b, width, height), r),
    ensures
        final(b).first() is Some <==> old(b).first() is Some,
        final(b).counted()@ == old(b).counted()@,
        old(b).first() matches Some(p) ==> exists|first: Result<(), EffectError>| #[trigger]
            (p.backend.rules().prepare)(
                p.backend.state(),
                (width, height),
                final(b).first()->0.backend.state(),
                first,
            ) && (first is Err ==> r == first && final(b).second() == old(b).second()) && (
            first is Ok ==> (old(b).second().backend.rules().prepare)(
                old(b).second().backend.state(),
                (width, height),
                final(b).second().backend.state(),
                r,
            )),
        old(b).first() is None ==> (old(b).second().backend.rules().prepare)(
            old(b).second().backend.state(),
            (width, height),
            final(b).second().backend.state(),
            r,
        ),
{
    let first = choose|first: Result<(), EffectError>| #[trigger]
        blur_factory::prepared(old(b), final(b), width, height, first, r);
    if let Some(p) = old(b).first() {
        assert(p.prepares((width, height), final(b).first()->0, first));
        assert((p.backend.rules().prepare)(
            p.backend.state(),
            (width, height),
            final(b).first()->0.backend.state(),
            first,
        ));
    }
}

/// Unless the shader is forced, the blur runs on the CPU and nothing is probed.  A
/// forced shader is what the probe finds, error or backend, and an error where nothing
/// can be probed; with counters, the backend that was found comes first and the CPU
/// stands behind it.
pub proof fn law_blur_choice<P: FnOnce() -> Result<BlurHandle, EffectError>>(
    overrides: BackendOverrides,
    counters: Option<Counters>,
    probe: Option<P>,
    r: Result<BlurHandle, EffectError>,
    cpu: CpuBlurBackend,
)
    requires
        call_ensures(blur_factory::build_blur_backend::<P>, (overrides, counters, probe), r),
    ensures
        overrides.blur != BlurBackendChoice::Wgpu ==> (r matches Ok(h) && h.backend.rules()
            == cpu.rules() && h.backend.state().id == "cpu"@ && h.backend.state().fits == (0u32, 0u32)
            && h.backend.state().tally is None && h.backend.state().parts.len() == 0),
        overrides.blur == BlurBackendChoice::Wgpu && probe is None ==> r is Err,
        overrides.blur == BlurBackendChoice::Wgpu ==> (probe matches Some(p) ==> exists|
            found: Result<BlurHandle, EffectError>,
        | #[trigger]
            call_ensures(p, (), found) && (found is Err || counters is None ==> r == found) && (
            found matches Ok(h) ==> (counters matches Some(c) ==> (r matches Ok(w)
                && w.backend.state().id == h.backend.state().id && w.backend.state().tally == Some(
                c@,
            ) && w.backend.state().parts.len() == 2 && w.backend.state().parts[0]
                == h.backend.state() && w.backend.state().parts[1].id == "cpu"@
                && w.backend.state().parts[1].parts.len() == 0)))),
{
    if overrides.blur == BlurBackendChoice::Wgpu && probe is Some {
        let found = choose|found: Result<BlurHandle, EffectError>| #[trigger]
            call_ensures(probe->0, (), found) && match (found, counters) {
                (Err(_), _) => r == found,
                (Ok(_), None) => r == found,
                (Ok(h), Some(c)) => r matches Ok(w) && blur_factory::falls_back(w, h, c),
            };
        if found is Ok && counters is Some {
            let (w, h, c) = (r->Ok_0, found->Ok_0, counters->0);
            let s = choose|s: StickyBlurFallback| #[trigger]
                blur_factory::runs(w, s) && s.first() == Some(h) && blur_factory::on_cpu(s.second())
                    && s.counted() == c && s.names() == ("wgpu"@, "cpu"@);
            let back = choose|back: CpuBlurBackend| #[trigger]
                blur_factory::runs(s.second(), back) && back.size() == (0u32, 0u32);
            assert(s.second().backend.state() == back.state());
        }
        assert(call_ensures(probe->0, (), found));
    } else if overrides.blur != BlurBackendChoice::Wgpu {
        let h = r->Ok_0;
        let back = choose|back: CpuBlurBackend| #[trigger]
            blur_factory::runs(h, back) && back.size() == (0u32, 0u32);
        assert(h.backend.state() == back.state());
    }
}

/// What the primary engine of a fallback may answer: a success is the answer of the
/// whole, a failure sends the same question to the secondary.
pub open spec fn engine_answered(
    p: LoadedEngine,
    second: LoadedEngine,
    data: Seq<u32>,
    shape: Seq<usize>,
    left: EngineState,
    first: Result<InferenceOutput, InferenceError>,
    kept: Option<LoadedEngine>,
    after: LoadedEngine,
    r: Result<InferenceOutput, InferenceError>,
) -> bool {
    &&& (p.engine.rules().infer)(p.engine.state(), EngineCall { data, shape, r: first }, left)
    &&& first is Ok ==> r == first && after == second && (kept matches Some(k)
        && k.engine.state() == left && k.engine.rules() == p.engine.rules())
    &&& first is Err ==> kept is None && (second.engine.rules().infer)(
        second.engine.state(),
        EngineCall { data, shape, r },
        after.engine.state(),
    )
}

/// A fallback asks its primary engine first and its secondary only where the primary
/// is gone or fails, with the same values and shape; a failure of the primary is
/// counted once and counts nothing else.
pub proof fn law_inference_falls_back(
    b: &mut StickyInferenceFallback,
    input: InferenceInput<'_>,
    r: Result<InferenceOutput, InferenceError>,
)
    requires
        call_ensures(<StickyInferenceFallback as InferenceEngine>::infer, (b, input), r),
    ensures
        final(b).names() == old(b).names(),
        old(b).first() matches Some(p) ==> exists|
            left: EngineState,
            first: Result<InferenceOutput, InferenceError>,
        | #[trigger]
            engine_answered(
                p,
                old(b).second(),
                input.data@,
                input.shape@,
                left,
                first,
                final(b).first(),
                final(b).second(),
                r,
            ),
        old(b).first() is None ==> final(b).first() is None && (
        old(b).second().engine.rules().infer)(
            old(b).second().engine.state(),
            EngineCall { data: input.data@, shape: input.shape@, r },
            final(b).second().engine.state(),
        ),
        final(b).counted()@ == (if old(b).first() is Some && final(b).first() is None {
            CounterValues {
                inference_runtime_fallback_gpu_to_cpu: old(b).counted()@.inference_runtime_fallback_gpu_to_cpu.wrapping_add(1),
                ..old(b).counted()@
            }
        } else {
            old(b).counted()@
        }),
{
    let q = choose|q: Result<InferenceOutput, InferenceError>| #[trigger]
        inference::answered(old(b), final(b), input.data@, input.shape@, q, r);
    if let Some(p) = old(b).first() {
        if q is Ok {
            let kept = final(b).first()->0;
            assert(p.answers(input.data@, input.shape@, kept, q));
            assert(engine_answered(
                p,
                old(b).second(),
                input.data@,
                input.shape@,
                kept.engine.state(),
                q,
                final(b).first(),
                final(b).second(),
                r,
            ));
        } else {
            let left = choose|left: LoadedEngine| #[trigger]
                p.answers(input.data@, input.shape@, left, q);
            assert(engine_answered(
                p,
                old(b).second(),
                input.data@,
                input.shape@,
                left.engine.state(),
                q,
                final(b).first(),
                final(b).second(),
                r,
            ));
        }
    }
}

/// A forced CPU never touches OpenVINO, a forced OpenVINO never touches the ONNX
/// runtime, and without a choice the ONNX runtime is asked only where OpenVINO is not
/// there or fails to load; the backend goes by what runs it.
pub proof fn law_inference_choice<O: OnnxRuntime + 'static, V: OpenVinoRuntime + 'static>(
    model_path: &str,
    config: ModelConfig,
    overrides: BackendOverrides,
    device: &str,
    onnx_runtime: O,
    openvino_runtime: Option<V>,
    counters: Option<Counters>,
    r: Result<BuiltEngine, InferenceError>,
)
    requires
        call_ensures(
            inference::build_inference_engine::<O, V>,
            (model_path, config, overrides, device, onnx_runtime, openvino_runtime, counters),
            r,
        ),
    ensures
        overrides.inference == InferenceBackendChoice::OpenVino && openvino_runtime is None ==> r
            is Err,
        overrides.inference != InferenceBackendChoice::OpenVino && (overrides.inference
            == InferenceBackendChoice::Cpu || openvino_runtime is None) ==> exists|
            loaded: Result<OnnxEngine<O>, InferenceError>,
        | #[trigger]
            onnx::may_load(onnx_runtime, model_path, config, loaded) && (r is Ok <==> loaded is Ok)
                && (r matches Ok(b) ==> b.backend@ == "cpu"@ && b.engine.engine.state()
                == loaded->Ok_0.state() && b.engine.engine.rules() == loaded->Ok_0.rules()) && (
            r matches Err(e) ==> loaded == Err::<OnnxEngine<O>, InferenceError>(e)),
        overrides.inference != InferenceBackendChoice::Cpu ==> (openvino_runtime matches Some(v)
            ==> exists|loaded: Result<OpenVinoEngine<V>, InferenceError>| #[trigger]
            openvino_engine::may_load(v, model_path, config, device, loaded) && (loaded matches Ok(
                e,
            ) ==> (r matches Ok(b) && b.backend@ == "openvino["@ + device@ + "]"@
                && b.engine.engine.state() == e.state() && b.engine.engine.rules() == e.rules()))
                && (loaded matches Err(e) ==> overrides.inference
                == InferenceBackendChoice::OpenVino ==> r == Err::<BuiltEngine, InferenceError>(e))
                && (loaded is Err && overrides.inference == InferenceBackendChoice::Auto ==> exists|
                next: Result<OnnxEngine<O>, InferenceError>,
            | #[trigger]
                onnx::may_load(onnx_runtime, model_path, config, next) && (r is Ok <==> next is Ok)
                    && (r matches Ok(b) ==> b.backend@ == "cpu"@ && b.engine.engine.state()
                    == next->Ok_0.state()))),
{
}

/// The device is the one that is named, or the best at hand.
pub proof fn law_openvino_device(value: Option<String>, r: String)
    requires
        call_ensures(inference::openvino_device, (value,), r),
    ensures
        value matches Some(v) ==> r@ == v@,
        value is None ==> r@ == "AUTO:NPU,GPU,CPU"@,
{
}

} // verus!
