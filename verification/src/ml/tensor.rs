//! Packing frames into input tensors and decoding output tensors into masks.
//!
//! Tensors hold single-precision bit patterns.  Where the values go is decided
//! here; the arithmetic on single values is a [`PixelMath`].

use vstd::prelude::*;
use crate::error::EffectError;
use crate::float_bits;
use crate::ml::model_config::{ModelConfig, OutputLayout, OutputType, TensorLayout};
use crate::pixel_math::PixelMath;
use crate::text;

verus! {

/// Default class for "person" in a category mask.
pub const DEFAULT_PERSON_CLASS_INDEX: u32 = 1;

// ---------------------------------------------------------------------------
// Packing
// ---------------------------------------------------------------------------

/// Position of channel `c` of pixel `p` in an input tensor of `pixels` pixels.
pub open spec fn packed_index(layout: TensorLayout, pixels: int, p: int, c: int) -> int {
    match layout {
        TensorLayout::Nhwc => p * 3 + c,
        TensorLayout::Nchw => c * pixels + p,
    }
}

/// Whether `tensor` holds the normalised channels of `rgb` in `layout`.
pub open spec fn packed<M: PixelMath>(
    rgb: Seq<u8>,
    tensor: Seq<u32>,
    layout: TensorLayout,
    pixels: int,
    scale: u32,
    zero: u32,
    math: &M,
) -> bool {
    &&& tensor.len() == 3 * pixels
    &&& forall|p: int, c: int|
        0 <= p < pixels && 0 <= c < 3 ==> call_ensures(
            M::normalise,
            (math, #[trigger] rgb[p * 3 + c], scale, zero),
            tensor[packed_index(layout, pixels, p, c)],
        )
}

/// Shape of an input tensor.
pub open spec fn input_shape_spec(layout: TensorLayout, h: usize, w: usize) -> Seq<usize> {
    match layout {
        TensorLayout::Nhwc => seq![1usize, h, w, 3usize],
        TensorLayout::Nchw => seq![1usize, 3usize, h, w],
    }
}

/// Shape of an input tensor.
#[must_use]
pub fn input_shape(layout: TensorLayout, h: u32, w: u32) -> (r: Vec<usize>)
    ensures
        r@ == input_shape_spec(layout, h as usize, w as usize),
{
    let mut out: Vec<usize> = Vec::new();
    out.push(1);
    match layout {
        TensorLayout::Nhwc => {
            out.push(h as usize);
            out.push(w as usize);
            out.push(3);
        },
        TensorLayout::Nchw => {
            out.push(3);
            out.push(h as usize);
            out.push(w as usize);
        },
    }
    proof {
        assert(out@ =~= input_shape_spec(layout, h as usize, w as usize));
    }
    out
}

/// Pack an interleaved RGB image into a tensor: `rgb` and `tensor` hold
/// `h * w * 3` values.
pub fn pack_input<M: PixelMath>(
    rgb: &[u8],
    tensor: &mut Vec<u32>,
    layout: TensorLayout,
    h: u32,
    w: u32,
    scale: u32,
    zero: u32,
    math: &M,
)
    requires
        rgb@.len() == h * w * 3,
        old(tensor)@.len() == h * w * 3,
    ensures
        packed(rgb@, final(tensor)@, layout, h * w, scale, zero, math),
{
    let total: usize = rgb.len();
    let pixels: usize = total / 3;
    assert(pixels == h * w);
    match layout {
        TensorLayout::Nhwc => {
            let mut i: usize = 0;
            while i < total
                invariant
                    i <= total,
                    total == rgb@.len(),
                    tensor@.len() == total,
                    forall|k: int|
                        0 <= k < i ==> call_ensures(
                            M::normalise,
                            (math, #[trigger] rgb@[k], scale, zero),
                            tensor@[k],
                        ),
                decreases total - i,
            {
                let v: u32 = math.normalise(rgb[i], scale, zero);
                tensor[i] = v;
                i = i + 1;
            }
        },
        TensorLayout::Nchw => {
            let mut c: usize = 0;
            while c < 3
                invariant
                    c <= 3,
                    total == rgb@.len(),
                    total == rgb.len(),
                    total == pixels * 3,
                    tensor@.len() == total,
                    forall|p: int, d: int|
                        0 <= p < pixels && 0 <= d < c ==> call_ensures(
                            M::normalise,
                            (math, #[trigger] rgb@[p * 3 + d], scale, zero),
                            tensor@[d * pixels + p],
                        ),
                decreases 3 - c,
            {
                let mut p: usize = 0;
                while p < pixels
                    invariant
                        c < 3,
                        p <= pixels,
                        total == rgb@.len(),
                        total == rgb.len(),
                        total == pixels * 3,
                        tensor@.len() == total,
                        forall|q: int, d: int|
                            0 <= q < pixels && 0 <= d < c ==> call_ensures(
                                M::normalise,
                                (math, #[trigger] rgb@[q * 3 + d], scale, zero),
                                tensor@[d * pixels + q],
                            ),
                        forall|q: int|
                            0 <= q < p ==> call_ensures(
                                M::normalise,
                                (math, #[trigger] rgb@[q * 3 + c], scale, zero),
                                tensor@[c * pixels + q],
                            ),
                    decreases pixels - p,
                {
                    assert(0 <= c * pixels && c * pixels + pixels <= total) by (nonlinear_arith)
                        requires
                            0 <= c < 3,
                            total == pixels * 3,
                    ;
                    let v: u32 = math.normalise(rgb[p * 3 + c], scale, zero);
                    let ghost before = tensor@;
                    tensor[c * pixels + p] = v;
                    proof {
                        assert forall|q: int, d: int|
                            0 <= q < pixels && 0 <= d < c implies call_ensures(
                            M::normalise,
                            (math, #[trigger] rgb@[q * 3 + d], scale, zero),
                            tensor@[d * pixels + q],
                        ) by {
                            assert(d * pixels + pixels <= c * pixels && 0 <= d * pixels)
                                by (nonlinear_arith)
                                requires
                                    0 <= d < c,
                                    0 <= pixels,
                            ;
                            assert(tensor@[d * pixels + q] == before[d * pixels + q]);
                        }
                        assert forall|q: int| 0 <= q < p + 1 implies call_ensures(
                            M::normalise,
                            (math, #[trigger] rgb@[q * 3 + c], scale, zero),
                            tensor@[c * pixels + q],
                        ) by {
                            if q < p {
                                assert(tensor@[c * pixels + q] == before[c * pixels + q]);
                            }
                        }
                    }
                    p = p + 1;
                }
                proof {
                    assert forall|q: int, d: int|
                        0 <= q < pixels && 0 <= d < c + 1 implies call_ensures(
                        M::normalise,
                        (math, #[trigger] rgb@[q * 3 + d], scale, zero),
                        tensor@[d * pixels + q],
                    ) by {
                        if d == c {
                            assert(rgb@[q * 3 + d] == rgb@[q * 3 + c]);
                        }
                    }
                }
                c = c + 1;
            }
        },
    }
}

/// Whether position `i` of the tensor holds some channel of some pixel.
pub open spec fn filled(layout: TensorLayout, pixels: int, i: int) -> bool {
    exists|p: int, c: int|
        0 <= p < pixels && 0 <= c < 3 && #[trigger] packed_index(layout, pixels, p, c) == i
}

/// Packing loses nothing: every position of the tensor holds exactly one
/// channel of one pixel.
pub proof fn law_packing_is_a_bijection(layout: TensorLayout, pixels: int)
    requires
        0 <= pixels,
    ensures
        forall|p: int, c: int|
            0 <= p < pixels && 0 <= c < 3 ==> 0 <= #[trigger] packed_index(layout, pixels, p, c) < 3
                * pixels,
        forall|p: int, c: int, q: int, d: int|
            0 <= p < pixels && 0 <= c < 3 && 0 <= q < pixels && 0 <= d < 3
                && #[trigger] packed_index(layout, pixels, p, c) == #[trigger] packed_index(
                layout,
                pixels,
                q,
                d,
            ) ==> p == q && c == d,
        forall|i: int| 0 <= i < 3 * pixels ==> #[trigger] filled(layout, pixels, i),
{
    assert forall|p: int, c: int| 0 <= p < pixels && 0 <= c < 3 implies 0
        <= #[trigger] packed_index(layout, pixels, p, c) < 3 * pixels by {
        assert(0 <= c * pixels && c * pixels + pixels <= 3 * pixels) by (nonlinear_arith)
            requires
                0 <= c < 3,
                0 <= pixels,
        ;
    }
    assert forall|p: int, c: int, q: int, d: int|
        0 <= p < pixels && 0 <= c < 3 && 0 <= q < pixels && 0 <= d < 3 && #[trigger] packed_index(
            layout,
            pixels,
            p,
            c,
        ) == #[trigger] packed_index(layout, pixels, q, d) implies p == q && c == d by {
        if layout == TensorLayout::Nchw {
            assert(c == d && p == q) by (nonlinear_arith)
                requires
                    0 <= p < pixels,
                    0 <= q < pixels,
                    c * pixels + p == d * pixels + q,
            ;
        }
    }
    assert forall|i: int| 0 <= i < 3 * pixels implies #[trigger] filled(layout, pixels, i) by {
        match layout {
            TensorLayout::Nhwc => {
                assert(packed_index(layout, pixels, i / 3, i % 3) == i);
            },
            TensorLayout::Nchw => {
                let c: int = if i < pixels {
                    0
                } else if i < 2 * pixels {
                    1
                } else {
                    2
                };
                let p = i - c * pixels;
                assert(packed_index(layout, pixels, p, c) == i);
            },
        }
    }
}

// ---------------------------------------------------------------------------
// Decoding
// ---------------------------------------------------------------------------

/// Number of channels that the output tensor of `len` values has, as far as the
/// layout admits it.
pub open spec fn channels(layout: OutputLayout, len: nat, pixels: nat) -> Option<int> {
    match layout {
        OutputLayout::Hw => if len < pixels {
            None
        } else {
            Some(1)
        },
        OutputLayout::Nhwc => if len == pixels * 2 {
            Some(2)
        } else if pixels <= len < pixels * 2 {
            Some(1)
        } else {
            None
        },
        OutputLayout::Nchw => if len == pixels * 2 {
            Some(2)
        } else if len == pixels {
            Some(1)
        } else {
            None
        },
    }
}

/// Position of the background value of pixel `i` in a two-channel tensor.
pub open spec fn background_index(layout: OutputLayout, pixels: int, i: int) -> int {
    match layout {
        OutputLayout::Nchw => i,
        _ => i * 2,
    }
}

/// Position of the foreground value of pixel `i` in a two-channel tensor.
pub open spec fn foreground_index(layout: OutputLayout, pixels: int, i: int) -> int {
    match layout {
        OutputLayout::Nchw => pixels + i,
        _ => i * 2 + 1,
    }
}

/// The complaint about a tensor of the wrong size.
pub open spec fn size_complaint(
    layout: OutputLayout,
    len: nat,
    pixels: nat,
    shape: Seq<usize>,
) -> Seq<char> {
    match layout {
        OutputLayout::Hw => "output "@ + text::decimal(len) + " too small for "@ + text::decimal(
            pixels,
        ) + " mask pixels (HW)"@,
        OutputLayout::Nhwc => "NHWC output has "@ + text::decimal(len) + " elements; expected "@
            + text::decimal(pixels) + " (C=1) or "@ + text::decimal((pixels * 2) as nat)
            + " (C=2) — shape "@ + text::decimal_list(shape),
        OutputLayout::Nchw => "NCHW output has "@ + text::decimal(len) + " elements; expected "@
            + text::decimal(pixels) + " (C=1) or "@ + text::decimal((pixels * 2) as nat)
            + " (C=2) — shape "@ + text::decimal_list(shape),
    }
}

/// Why a tensor cannot be decoded, if it cannot.
pub open spec fn decode_complaint(
    config: ModelConfig,
    len: nat,
    pixels: nat,
    shape: Seq<usize>,
) -> Option<Seq<char>> {
    match config.output_type {
        OutputType::Mask => if len < pixels {
            Some(
                "model output has "@ + text::decimal(len) + " elements, expected at least "@
                    + text::decimal(pixels),
            )
        } else {
            None
        },
        OutputType::Probabilities | OutputType::Logits => if channels(
            config.output_layout,
            len,
            pixels,
        ) is None {
            Some(size_complaint(config.output_layout, len, pixels, shape))
        } else {
            None
        },
        OutputType::CategoryMask => if len < pixels {
            Some("category mask shorter than expected"@)
        } else {
            None
        },
    }
}

/// Whether `v` is the mask value of pixel `i` of a one- or two-class tensor.
pub open spec fn class_value<M: PixelMath>(
    data: Seq<u32>,
    layout: OutputLayout,
    pixels: nat,
    logits: bool,
    i: int,
    v: u32,
    math: &M,
) -> bool {
    if channels(layout, data.len(), pixels) == Some(2int) {
        let bg = data[background_index(layout, pixels as int, i)];
        let fg = data[foreground_index(layout, pixels as int, i)];
        if logits {
            call_ensures(M::softmax, (math, bg, fg), v)
        } else {
            v == fg
        }
    } else if logits {
        call_ensures(M::sigmoid, (math, data[i]), v)
    } else {
        v == data[i]
    }
}

/// Whether `v` is the mask value of pixel `i` of a decoded tensor.
pub open spec fn mask_value<M: PixelMath>(
    data: Seq<u32>,
    config: ModelConfig,
    pixels: nat,
    i: int,
    v: u32,
    math: &M,
) -> bool {
    match config.output_type {
        OutputType::Mask => v == data[i],
        OutputType::Probabilities => class_value(
            data,
            config.output_layout,
            pixels,
            false,
            i,
            v,
            math,
        ),
        OutputType::Logits => class_value(data, config.output_layout, pixels, true, i, v, math),
        OutputType::CategoryMask => {
            let class = match config.person_class_index {
                Some(c) => c,
                None => DEFAULT_PERSON_CLASS_INDEX,
            };
            ||| v == float_bits::ONE && call_ensures(M::is_class, (math, data[i], class), true)
            ||| v == float_bits::ZERO && call_ensures(M::is_class, (math, data[i], class), false)
        },
    }
}

/// Whether `r` is the failure of effect `name` for `reason`.
pub open spec fn failed(r: Result<(), EffectError>, name: Seq<char>, reason: Seq<char>) -> bool {
    r matches Err(e) && (e matches EffectError::ProcessFailed { name: n, reason: t } && n@ == name
        && t@ == reason)
}

/// Decode a one- or two-class tensor into a foreground mask.  The layout decides
/// where the background and foreground channels live.
fn decode_two_class<M: PixelMath>(
    name: &str,
    data: &[u32],
    shape: &[usize],
    mask: &mut [u32],
    layout: OutputLayout,
    logits: bool,
    math: &M,
) -> (r: Result<(), EffectError>)
    ensures
        final(mask)@.len() == old(mask)@.len(),
        channels(layout, data@.len(), old(mask)@.len()) is None ==> failed(
            r,
            name@,
            size_complaint(layout, data@.len(), old(mask)@.len(), shape@),
        ) && final(mask)@ == old(mask)@,
        channels(layout, data@.len(), old(mask)@.len()) is Some ==> r is Ok && forall|i: int|
            0 <= i < old(mask)@.len() ==> class_value(
                data@,
                layout,
                old(mask)@.len(),
                logits,
                i,
                #[trigger] final(mask)@[i],
                math,
            ),
{
    let pixels: usize = mask.len();
    let len: usize = data.len();
    let two: bool = len % 2 == 0 && len / 2 == pixels;
    let one: bool = match layout {
        OutputLayout::Hw => len >= pixels,
        OutputLayout::Nhwc => len >= pixels && len - pixels < pixels,
        OutputLayout::Nchw => len == pixels,
    };
    let planar: bool = layout == OutputLayout::Nchw;
    if two && layout != OutputLayout::Hw {
        let mut i: usize = 0;
        while i < pixels
            invariant
                i <= pixels,
                pixels == mask@.len(),
                pixels == old(mask)@.len(),
                len == data@.len(),
                len == pixels * 2,
                layout != OutputLayout::Hw,
                planar == (layout == OutputLayout::Nchw),
                channels(layout, data@.len(), pixels as nat) == Some(2int),
                forall|k: int|
                    0 <= k < i ==> class_value(
                        data@,
                        layout,
                        pixels as nat,
                        logits,
                        k,
                        #[trigger] mask@[k],
                        math,
                    ),
            decreases pixels - i,
        {
            let bg: u32 = if planar {
                data[i]
            } else {
                data[i * 2]
            };
            let fg: u32 = if planar {
                data[pixels + i]
            } else {
                data[i * 2 + 1]
            };
            let v: u32 = if logits {
                math.softmax(bg, fg)
            } else {
                fg
            };
            mask[i] = v;
            i = i + 1;
        }
        return Ok(());
    }
    if one {
        let mut i: usize = 0;
        while i < pixels
            invariant
                i <= pixels,
                pixels == mask@.len(),
                pixels == old(mask)@.len(),
                len == data@.len(),
                pixels <= len,
                channels(layout, data@.len(), pixels as nat) == Some(1int),
                forall|k: int|
                    0 <= k < i ==> class_value(
                        data@,
                        layout,
                        pixels as nat,
                        logits,
                        k,
                        #[trigger] mask@[k],
                        math,
                    ),
            decreases pixels - i,
        {
            let v: u32 = if logits {
                math.sigmoid(data[i])
            } else {
                data[i]
            };
            mask[i] = v;
            i = i + 1;
        }
        return Ok(());
    }
    let mut reason = match layout {
        OutputLayout::Hw => "output ".to_owned(),
        OutputLayout::Nhwc => "NHWC output has ".to_owned(),
        OutputLayout::Nchw => "NCHW output has ".to_owned(),
    };
    text::push_decimal(&mut reason, len as u64);
    match layout {
        OutputLayout::Hw => {
            reason.append(" too small for ");
            text::push_decimal(&mut reason, pixels as u64);
            reason.append(" mask pixels (HW)");
        },
        _ => {
            reason.append(" elements; expected ");
            text::push_decimal(&mut reason, pixels as u64);
            reason.append(" (C=1) or ");
            text::push_decimal_wide(&mut reason, pixels as u128 * 2);
            reason.append(" (C=2) — shape ");
            text::push_decimal_list(&mut reason, shape);
        },
    }
    proof {
        assert(reason@ =~= size_complaint(layout, data@.len(), pixels as nat, shape@));
    }
    Err(EffectError::process_failed(name, reason))
}

/// Decode an output tensor into a confidence mask; failures are those of effect
/// `name`.
pub fn decode_mask<M: PixelMath>(
    name: &str,
    data: &[u32],
    shape: &[usize],
    mask: &mut [u32],
    config: &ModelConfig,
    math: &M,
) -> (r: Result<(), EffectError>)
    ensures
        final(mask)@.len() == old(mask)@.len(),
        match decode_complaint(*config, data@.len(), old(mask)@.len(), shape@) {
            Some(reason) => failed(r, name@, reason) && final(mask)@ == old(mask)@,
            None => r is Ok && forall|i: int|
                0 <= i < old(mask)@.len() ==> mask_value(
                    data@,
                    *config,
                    old(mask)@.len(),
                    i,
                    #[trigger] final(mask)@[i],
                    math,
                ),
        },
{
    let expected: usize = mask.len();
    match config.output_type {
        OutputType::Mask => {
            if data.len() < expected {
                let mut reason = "model output has ".to_owned();
                text::push_decimal(&mut reason, data.len() as u64);
                reason.append(" elements, expected at least ");
                text::push_decimal(&mut reason, expected as u64);
                return Err(EffectError::process_failed(name, reason));
            }
            let mut i: usize = 0;
            while i < expected
                invariant
                    i <= expected <= data@.len(),
                    expected == mask@.len(),
                    forall|k: int| 0 <= k < i ==> mask@[k] == data@[k],
                decreases expected - i,
            {
                mask[i] = data[i];
                i = i + 1;
            }
            Ok(())
        },
        OutputType::Probabilities => decode_two_class(
            name,
            data,
            shape,
            mask,
            config.output_layout,
            false,
            math,
        ),
        OutputType::Logits => decode_two_class(
            name,
            data,
            shape,
            mask,
            config.output_layout,
            true,
            math,
        ),
        OutputType::CategoryMask => {
            let class: u32 = match config.person_class_index {
                Some(c) => c,
                None => DEFAULT_PERSON_CLASS_INDEX,
            };
            if data.len() < expected {
                let reason = "category mask shorter than expected".to_owned();
                return Err(EffectError::process_failed(name, reason));
            }
            let mut i: usize = 0;
            while i < expected
                invariant
                    i <= expected <= data@.len(),
                    expected == mask@.len(),
                    expected == old(mask)@.len(),
                    config.output_type == OutputType::CategoryMask,
                    class == (match config.person_class_index {
                        Some(c) => c,
                        None => DEFAULT_PERSON_CLASS_INDEX,
                    }),
                    forall|k: int|
                        0 <= k < i ==> mask_value(
                            data@,
                            *config,
                            expected as nat,
                            k,
                            #[trigger] mask@[k],
                            math,
                        ),
                decreases expected - i,
            {
                let hit: bool = math.is_class(data[i], class);
                mask[i] = if hit {
                    float_bits::ONE
                } else {
                    float_bits::ZERO
                };
                i = i + 1;
            }
            Ok(())
        },
    }
}

// ---------------------------------------------------------------------------
// Laws
// ---------------------------------------------------------------------------

/// Whether `tensor` has channel `c` of pixel `p`, normalised, where the layout puts
/// it: channels side by side, or one plane per channel.
pub open spec fn channel_at<M: PixelMath>(
    math: &M,
    config: ModelConfig,
    rgb: Seq<u8>,
    tensor: Seq<u32>,
    pixels: int,
    p: int,
    c: int,
) -> bool {
    let place = if config.input_layout == TensorLayout::Nhwc {
        3 * p + c
    } else {
        p + pixels * c
    };
    0 <= place < tensor.len() && call_ensures(
        M::normalise,
        (math, rgb[3 * p + c], config.input_scale, config.input_zero_point),
        tensor[place],
    )
}

/// Whether `tensor` has every channel of every pixel in its place, and nothing else.
pub open spec fn channels_in_place<M: PixelMath>(
    math: &M,
    config: ModelConfig,
    rgb: Seq<u8>,
    tensor: Seq<u32>,
    pixels: int,
) -> bool {
    &&& tensor.len() == 3 * pixels
    &&& forall|p: int, c: int|
        0 <= p < pixels && 0 <= c < 3 ==> #[trigger] channel_at(
            math,
            config,
            rgb,
            tensor,
            pixels,
            p,
            c,
        )
}

/// A packed tensor has every channel of every pixel where the layout puts it, with
/// the scale and the zero point in their roles.
pub proof fn law_channels_in_place<M: PixelMath>(
    math: &M,
    config: ModelConfig,
    rgb: Seq<u8>,
    tensor: Seq<u32>,
    pixels: int,
)
    requires
        0 <= pixels,
        rgb.len() == 3 * pixels,
        packed(
            rgb,
            tensor,
            config.input_layout,
            pixels,
            config.input_scale,
            config.input_zero_point,
            math,
        ),
    ensures
        channels_in_place(math, config, rgb, tensor, pixels),
{
    assert forall|p: int, c: int| 0 <= p < pixels && 0 <= c < 3 implies #[trigger] channel_at(
        math,
        config,
        rgb,
        tensor,
        pixels,
        p,
        c,
    ) by {
        law_packing_is_a_bijection(config.input_layout, pixels);
        let at = packed_index(config.input_layout, pixels, p, c);
        assert(0 <= at < 3 * pixels);
        assert(p * 3 + c == 3 * p + c);
        assert(rgb[p * 3 + c] == rgb[3 * p + c]);
        assert(c * pixels + p == p + pixels * c) by (nonlinear_arith);
    }
}

/// Packing an image through the function does the same.
pub proof fn law_pack_input<M: PixelMath>(
    rgb: &[u8],
    tensor: &mut Vec<u32>,
    config: ModelConfig,
    h: u32,
    w: u32,
    math: &M,
)
    requires
        rgb@.len() == 3 * (h * w),
        call_ensures(
            pack_input::<M>,
            (
                rgb,
                tensor,
                config.input_layout,
                h,
                w,
                config.input_scale,
                config.input_zero_point,
                math,
            ),
            (),
        ),
    ensures
        channels_in_place(math, config, rgb@, final(tensor)@, h * w),
{
    assert(0 <= h * w) by (nonlinear_arith)
        requires
            h >= 0,
            w >= 0,
    ;
    law_channels_in_place(math, config, rgb@, final(tensor)@, h * w);
}

/// The shape of an input tensor: one image, its height before its width, and three
/// channels last or first.
pub proof fn law_input_shape(layout: TensorLayout, h: u32, w: u32, r: Vec<usize>)
    requires
        call_ensures(input_shape, (layout, h, w), r),
    ensures
        r@.len() == 4,
        r@[0] == 1,
        layout == TensorLayout::Nhwc ==> r@[1] == h && r@[2] == w && r@[3] == 3,
        layout == TensorLayout::Nchw ==> r@[1] == 3 && r@[2] == h && r@[3] == w,
{
}

/// Whether an output of `len` values has a mask of `pixels` values.
pub open spec fn decodable(config: ModelConfig, len: nat, pixels: nat) -> bool {
    if config.output_type == OutputType::Mask || config.output_type == OutputType::CategoryMask {
        len >= pixels
    } else if config.output_layout == OutputLayout::Hw {
        len >= pixels
    } else if config.output_layout == OutputLayout::Nhwc {
        pixels <= len <= 2 * pixels
    } else {
        len == pixels || len == 2 * pixels
    }
}

/// Whether `v` is the confidence that an output `data` gives pixel `i`: its value, the
/// sigmoid of its logit, the share of its foreground, or whether it is a person.
pub open spec fn confidence_at<M: PixelMath>(
    math: &M,
    config: ModelConfig,
    data: Seq<u32>,
    pixels: nat,
    i: int,
    v: u32,
) -> bool {
    let two = config.output_layout != OutputLayout::Hw && data.len() == 2 * pixels;
    let background = if config.output_layout == OutputLayout::Nchw {
        data[i]
    } else {
        data[2 * i]
    };
    let foreground = if config.output_layout == OutputLayout::Nchw {
        data[pixels + i]
    } else {
        data[2 * i + 1]
    };
    match config.output_type {
        OutputType::Mask => v == data[i],
        OutputType::Probabilities => v == (if two {
            foreground
        } else {
            data[i]
        }),
        OutputType::Logits => if two {
            call_ensures(M::softmax, (math, background, foreground), v)
        } else {
            call_ensures(M::sigmoid, (math, data[i]), v)
        },
        OutputType::CategoryMask => {
            let person = if config.person_class_index is Some {
                config.person_class_index->0
            } else {
                1u32
            };
            ||| v == 0x3F80_0000u32 && call_ensures(M::is_class, (math, data[i], person), true)
            ||| v == 0u32 && call_ensures(M::is_class, (math, data[i], person), false)
        },
    }
}

/// A decoded value is the confidence that the output gives the pixel.
pub proof fn law_confidence<M: PixelMath>(
    math: &M,
    config: ModelConfig,
    data: Seq<u32>,
    pixels: nat,
    i: int,
    v: u32,
)
    requires
        0 <= i < pixels,
        mask_value(data, config, pixels, i, v, math),
    ensures
        confidence_at(math, config, data, pixels, i, v),
{
    assert(i * 2 == 2 * i);
}

/// An output is decoded exactly where it has a mask of the size asked for.
pub proof fn law_decodable(config: ModelConfig, len: nat, pixels: nat, shape: Seq<usize>)
    ensures
        decode_complaint(config, len, pixels, shape) is None <==> decodable(config, len, pixels),
{
}

/// Decoding an output through the function gives every pixel its confidence, or
/// leaves the mask alone and fails.
pub proof fn law_decode_mask<M: PixelMath>(
    name: &str,
    data: &[u32],
    shape: &[usize],
    mask: &mut [u32],
    config: &ModelConfig,
    math: &M,
    r: Result<(), EffectError>,
)
    requires
        call_ensures(decode_mask::<M>, (name, data, shape, mask, config, math), r),
    ensures
        final(mask)@.len() == old(mask)@.len(),
        r is Ok <==> decodable(*config, data@.len(), old(mask)@.len()),
        r is Err ==> final(mask)@ == old(mask)@,
        r is Ok ==> forall|i: int|
            0 <= i < old(mask)@.len() ==> confidence_at(
                math,
                *config,
                data@,
                old(mask)@.len(),
                i,
                #[trigger] final(mask)@[i],
            ),
{
    law_decodable(*config, data@.len(), old(mask)@.len(), shape@);
    if r is Ok {
        assert forall|i: int| 0 <= i < old(mask)@.len() implies confidence_at(
            math,
            *config,
            data@,
            old(mask)@.len(),
            i,
            #[trigger] final(mask)@[i],
        ) by {
            law_confidence(math, *config, data@, old(mask)@.len(), i, final(mask)@[i]);
        }
    }
}

} // verus!
