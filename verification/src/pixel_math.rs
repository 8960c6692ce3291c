//! Arithmetic on single pixels and tensor values.
//!
//! The library decides which values go where; what happens to one value is
//! floating-point arithmetic and comes from the outside.  Values are
//! single-precision bit patterns.

use vstd::prelude::*;

verus! {

/// Size of a plane and of the plane it is resized to.
#[derive(Debug, Clone, Copy, PartialEq, Eq, Structural)]
pub struct Resize {
    /// Width of the source.
    pub src_w: u32,
    /// Height of the source.
    pub src_h: u32,
    /// Width of the result.
    pub dst_w: u32,
    /// Height of the result.
    pub dst_h: u32,
}

/// Arithmetic on single values.
pub trait PixelMath: Send {
    /// `(v - zero) * scale`.
    fn normalise(&self, v: u8, scale: u32, zero: u32) -> u32;

    /// `1 / (1 + exp(-x))`.
    fn sigmoid(&self, x: u32) -> u32;

    /// The foreground's share in the softmax of two logits.
    fn softmax(&self, background: u32, foreground: u32) -> u32;

    /// Whether the label `v` rounds to `class`.
    fn is_class(&self, v: u32, class: u32) -> bool;

    /// Byte `i` of the packed RGB plane `src`, resized bilinearly.
    fn sample_rgb(&self, src: &[u8], size: Resize, i: usize) -> u8;

    /// Value `i` of the mask `src`, resized bilinearly.
    fn sample_mask(&self, src: &[u32], size: Resize, i: usize) -> u32;

    /// `foreground * confidence + background * (1 - confidence)`.
    fn blend(&self, foreground: u8, background: u8, confidence: u32) -> u8;

    /// `factor * previous + (1 - factor) * current`.
    fn smooth(&self, previous: u32, current: u32, factor: u32) -> u32;

    /// Value `i` of the mask `src` of `width` by `height` values, blurred with a
    /// box of the given radius.
    fn feather(&self, src: &[u32], width: u32, height: u32, radius: u32, i: usize) -> u32;
}

/// Whether `out` is the slice `src` resized.
pub open spec fn sampled_rgb<M: PixelMath>(math: &M, src: &[u8], size: Resize, out: Seq<u8>) -> bool {
    &&& out.len() == size.dst_w * size.dst_h * 3
    &&& forall|i: usize|
        i < out.len() ==> call_ensures(M::sample_rgb, (math, src, size, i), #[trigger] out[i as int])
}

/// Whether `out` is the mask in the slice `src` resized.
pub open spec fn sampled_mask<M: PixelMath>(math: &M, src: &[u32], size: Resize, out: Seq<u32>) -> bool {
    &&& out.len() == size.dst_w * size.dst_h
    &&& forall|i: usize|
        i < out.len() ==> call_ensures(
            M::sample_mask,
            (math, src, size, i),
            #[trigger] out[i as int],
        )
}

/// Whether `out` is the plane `src` resized.
pub open spec fn resized_rgb<M: PixelMath>(math: &M, src: Seq<u8>, size: Resize, out: Seq<u8>) -> bool {
    exists|s: &[u8]| s@ == src && #[trigger] sampled_rgb(math, s, size, out)
}

/// Whether `out` is the mask `src` resized.
pub open spec fn resized_mask<M: PixelMath>(
    math: &M,
    src: Seq<u32>,
    size: Resize,
    out: Seq<u32>,
) -> bool {
    exists|s: &[u32]| s@ == src && #[trigger] sampled_mask(math, s, size, out)
}

/// Whether `out` is `foreground` over `background`, weighted by the mask.
pub open spec fn composed<M: PixelMath>(
    math: &M,
    foreground: Seq<u8>,
    background: Seq<u8>,
    mask: Seq<u32>,
    out: Seq<u8>,
) -> bool {
    &&& out.len() == foreground.len()
    &&& forall|i: int|
        0 <= i < out.len() ==> call_ensures(
            M::blend,
            (math, foreground[i], background[i], mask[i / 3]),
            #[trigger] out[i],
        )
}

/// Whether `out` is `previous` smoothed with `current`.
pub open spec fn smoothed<M: PixelMath>(
    math: &M,
    previous: Seq<u32>,
    current: Seq<u32>,
    factor: u32,
    out: Seq<u32>,
) -> bool {
    &&& out.len() == previous.len()
    &&& forall|i: int|
        0 <= i < out.len() ==> call_ensures(
            M::smooth,
            (math, previous[i], current[i], factor),
            #[trigger] out[i],
        )
}

/// Whether `out` is the mask in the slice `src` blurred.
pub open spec fn softened<M: PixelMath>(
    math: &M,
    src: &[u32],
    width: u32,
    height: u32,
    radius: u32,
    out: Seq<u32>,
) -> bool {
    &&& out.len() == src@.len()
    &&& forall|i: usize|
        i < out.len() ==> call_ensures(
            M::feather,
            (math, src, width, height, radius, i),
            #[trigger] out[i as int],
        )
}

/// Whether `out` is the mask `src` blurred; a radius of zero leaves it alone.
pub open spec fn feathered<M: PixelMath>(
    math: &M,
    src: Seq<u32>,
    width: u32,
    height: u32,
    radius: u32,
    out: Seq<u32>,
) -> bool {
    if radius == 0 {
        out == src
    } else {
        exists|s: &[u32]| s@ == src && #[trigger] softened(math, s, width, height, radius, out)
    }
}

/// Smooth `previous` in place with `current`.
pub fn smooth_temporal<M: PixelMath>(
    math: &M,
    previous: &mut [u32],
    current: &[u32],
    factor: u32,
)
    requires
        old(previous)@.len() == current@.len(),
    ensures
        smoothed(math, old(previous)@, current@, factor, final(previous)@),
{
    let n: usize = previous.len();
    let mut i: usize = 0;
    while i < n
        invariant
            i <= n,
            n == previous@.len(),
            n == old(previous)@.len(),
            n == current@.len(),
            forall|k: int| i <= k < n ==> previous@[k] == old(previous)@[k],
            forall|k: int|
                0 <= k < i ==> call_ensures(
                    M::smooth,
                    (math, old(previous)@[k], current@[k], factor),
                    #[trigger] previous@[k],
                ),
        decreases n - i,
    {
        let v: u32 = math.smooth(previous[i], current[i], factor);
        previous[i] = v;
        i = i + 1;
    }
}

/// Blur the mask in place, with `scratch` as work space.
pub fn feather<M: PixelMath>(
    math: &M,
    mask: &mut [u32],
    scratch: &mut Vec<u32>,
    width: u32,
    height: u32,
    radius: u32,
)
    ensures
        feathered(math, old(mask)@, width, height, radius, final(mask)@),
        final(mask)@.len() == old(mask)@.len(),
{
    if radius == 0 {
        return;
    }
    *scratch = vstd::slice::slice_to_vec(mask);
    let src: &[u32] = scratch.as_slice();
    let mut i: usize = 0;
    while i < mask.len()
        invariant
            i <= mask@.len(),
            mask@.len() == old(mask)@.len(),
            src@ == old(mask)@,
            forall|k: usize|
                k < i ==> call_ensures(
                    M::feather,
                    (math, src, width, height, radius, k),
                    #[trigger] mask@[k as int],
                ),
        decreases mask@.len() - i,
    {
        let v: u32 = math.feather(src, width, height, radius, i);
        mask[i] = v;
        i = i + 1;
    }
    assert(softened(math, src, width, height, radius, mask@));
}

/// Fill `out` with `src`, resized.
pub fn resize_rgb<M: PixelMath>(math: &M, src: &[u8], size: Resize, out: &mut Vec<u8>)
    requires
        old(out)@.len() == size.dst_w * size.dst_h * 3,
    ensures
        resized_rgb(math, src@, size, final(out)@),
{
    let mut i: usize = 0;
    while i < out.len()
        invariant
            i <= out@.len(),
            out@.len() == size.dst_w * size.dst_h * 3,
            forall|k: usize|
                k < i ==> call_ensures(
                    M::sample_rgb,
                    (math, src, size, k),
                    #[trigger] out@[k as int],
                ),
        decreases out@.len() - i,
    {
        let v: u8 = math.sample_rgb(src, size, i);
        out[i] = v;
        i = i + 1;
    }
    assert(sampled_rgb(math, src, size, out@));
}

/// Fill `out` with the mask `src`, resized.
pub fn resize_mask<M: PixelMath>(math: &M, src: &[u32], size: Resize, out: &mut Vec<u32>)
    requires
        old(out)@.len() == size.dst_w * size.dst_h,
    ensures
        resized_mask(math, src@, size, final(out)@),
{
    let mut i: usize = 0;
    while i < out.len()
        invariant
            i <= out@.len(),
            out@.len() == size.dst_w * size.dst_h,
            forall|k: usize|
                k < i ==> call_ensures(
                    M::sample_mask,
                    (math, src, size, k),
                    #[trigger] out@[k as int],
                ),
        decreases out@.len() - i,
    {
        let v: u32 = math.sample_mask(src, size, i);
        out[i] = v;
        i = i + 1;
    }
    assert(sampled_mask(math, src, size, out@));
}

/// Lay `plane` over `background` in place: the mask has one value per pixel,
/// the planes three bytes.
pub fn alpha_composite_rgb_in_place<M: PixelMath>(
    math: &M,
    plane: &mut [u8],
    background: &[u8],
    mask: &[u32],
)
    requires
        old(plane)@.len() == background@.len(),
        old(plane)@.len() == 3 * mask@.len(),
    ensures
        composed(math, old(plane)@, background@, mask@, final(plane)@),
{
    let n: usize = plane.len();
    let mut i: usize = 0;
    while i < n
        invariant
            i <= n,
            n == plane@.len(),
            n == old(plane)@.len(),
            n == background@.len(),
            n == 3 * mask@.len(),
            forall|k: int| i <= k < n ==> plane@[k] == old(plane)@[k],
            forall|k: int|
                0 <= k < i ==> call_ensures(
                    M::blend,
                    (math, old(plane)@[k], background@[k], mask@[k / 3]),
                    #[trigger] plane@[k],
                ),
        decreases n - i,
    {
        let v: u8 = math.blend(plane[i], background[i], mask[i / 3]);
        plane[i] = v;
        i = i + 1;
    }
}

/// Every value of a smoothed mask weighs the value that was there and the value of the
/// current mask at the same place.
pub proof fn law_smoothed_in_place<M: PixelMath>(
    math: &M,
    previous: &mut [u32],
    current: &[u32],
    factor: u32,
    i: int,
)
    requires
        call_ensures(smooth_temporal::<M>, (math, previous, current, factor), ()),
        0 <= i < old(previous)@.len(),
    ensures
        final(previous)@.len() == old(previous)@.len(),
        call_ensures(
            M::smooth,
            (math, old(previous)@[i], current@[i], factor),
            final(previous)@[i],
        ),
{
    assert(call_ensures(
        M::smooth,
        (math, old(previous)@[i], current@[i], factor),
        final(previous)@[i],
    ));
}

/// Every value of a feathered mask comes from the whole mask as it was, at its own size
/// and with the given radius; without a radius the mask stays.
pub proof fn law_feathered_in_place<M: PixelMath>(
    math: &M,
    mask: &mut [u32],
    scratch: &mut Vec<u32>,
    width: u32,
    height: u32,
    radius: u32,
    i: usize,
)
    requires
        call_ensures(feather::<M>, (math, mask, scratch, width, height, radius), ()),
        i < old(mask)@.len(),
    ensures
        final(mask)@.len() == old(mask)@.len(),
        radius == 0 ==> final(mask)@ == old(mask)@,
        radius > 0 ==> exists|src: &[u32]|
            src@ == old(mask)@ && #[trigger] call_ensures(
                M::feather,
                (math, src, width, height, radius, i),
                final(mask)@[i as int],
            ),
{
    if radius > 0 {
        let s = choose|s: &[u32]|
            s@ == old(mask)@ && #[trigger] softened(math, s, width, height, radius, final(mask)@);
        assert(call_ensures(
            M::feather,
            (math, s, width, height, radius, i),
            final(mask)@[i as int],
        ));
    }
}

/// Every byte of a resized plane is sampled from the whole source, at the place where it
/// stands.
pub proof fn law_plane_sampled<M: PixelMath>(
    math: &M,
    src: &[u8],
    size: Resize,
    out: &mut Vec<u8>,
    i: usize,
)
    requires
        call_ensures(resize_rgb::<M>, (math, src, size, out), ()),
        i < final(out)@.len(),
    ensures
        final(out)@.len() == 3 * size.dst_w * size.dst_h,
        exists|s: &[u8]|
            s@ == src@ && #[trigger] call_ensures(
                M::sample_rgb,
                (math, s, size, i),
                final(out)@[i as int],
            ),
{
    assert(size.dst_w * size.dst_h * 3 == 3 * size.dst_w * size.dst_h) by (nonlinear_arith);
    let s = choose|s: &[u8]| s@ == src@ && #[trigger] sampled_rgb(math, s, size, final(out)@);
    assert(call_ensures(M::sample_rgb, (math, s, size, i), final(out)@[i as int]));
}

/// Every value of a resized mask is sampled from the whole source, at the place where it
/// stands.
pub proof fn law_mask_sampled<M: PixelMath>(
    math: &M,
    src: &[u32],
    size: Resize,
    out: &mut Vec<u32>,
    i: usize,
)
    requires
        call_ensures(resize_mask::<M>, (math, src, size, out), ()),
        i < final(out)@.len(),
    ensures
        final(out)@.len() == size.dst_w * size.dst_h,
        exists|s: &[u32]|
            s@ == src@ && #[trigger] call_ensures(
                M::sample_mask,
                (math, s, size, i),
                final(out)@[i as int],
            ),
{
    let s = choose|s: &[u32]| s@ == src@ && #[trigger] sampled_mask(math, s, size, final(out)@);
    assert(call_ensures(M::sample_mask, (math, s, size, i), final(out)@[i as int]));
}

} // verus!
