//! What the built-in mask effects promise: how they read their parameters, what they
//! keep between frames, and what becomes of a mask.

use vstd::prelude::*;
use crate::context::{FrameContext, ProcessingContext};
use crate::error::EffectError;
use crate::float_bits;
use crate::mask_effects::dilate::DilateMaskEffect;
use crate::mask_effects::feather::FeatherMaskEffect;
use crate::mask_effects::invert::InvertMaskEffect;
use crate::mask_effects::largest_blob::LargestBlobMaskEffect;
use crate::mask_effects::passthrough::PassthroughMaskEffect;
use crate::mask_effects::registry;
use crate::mask_effects::registry::MaskEffectRegistry;
use crate::mask_effects::smooth_temporal::SmoothTemporalMaskEffect;
use crate::mask_effects::threshold::ThresholdMaskEffect;
use crate::metadata::{EffectMetadata, ParamKind};
use crate::params;
use crate::params::{ParamModel, ParamTable, RawEffectParams};
use crate::plane::{MaskEffect, MaskPlane};
use crate::registry::NewEffect;

verus! {

/// Whether a table has no other entry than `key`.
pub open spec fn only(m: Map<Seq<char>, ParamModel>, key: Seq<char>) -> bool {
    forall|k: Seq<char>| #[trigger] m.contains_key(k) ==> k == key
}

/// Whether a value spells the number with the pattern `bits`, and that number lies
/// between zero and one.
pub open spec fn spells_unit(v: ParamModel, bits: u32) -> bool {
    &&& float_bits::value_at_least(bits, 0u32)
    &&& float_bits::value_at_least(0x3F80_0000u32, bits)
    &&& match v {
        ParamModel::Float(given) => given == bits,
        ParamModel::Double { single, .. } => single == bits,
        ParamModel::Integer(i) => i == 0 && bits == 0u32 || i == 1 && bits == 0x3F80_0000u32,
        _ => false,
    }
}

/// Whether a value spells an integer from zero to `max`.
pub open spec fn spells_integer(v: ParamModel, max: int) -> bool {
    v matches ParamModel::Integer(i) && 0 <= i <= max
}

/// A table without other entries than `key`.
proof fn lemma_only(m: Map<Seq<char>, ParamModel>, key: Seq<char>)
    ensures
        only(m, key) <==> m.remove(key) == params::no_entries(),
{
    if only(m, key) {
        assert(m.remove(key) =~= params::no_entries());
    } else {
        let k = choose|k: Seq<char>| #[trigger] m.contains_key(k) && k != key;
        assert(m.remove(key).contains_key(k));
    }
}

/// The dilation takes at most 32 passes, one where the table names none.
pub proof fn law_dilate_parameter(
    e: &mut DilateMaskEffect,
    table: ParamTable,
    r: Result<(), EffectError>,
)
    requires
        call_ensures(<DilateMaskEffect as MaskEffect>::configure, (e, RawEffectParams::Table(table)), r),
    ensures
        r is Ok <==> only(params::entries(table), "iterations"@) && (params::entries(
            table,
        ).contains_key("iterations"@) ==> spells_integer(params::entries(table)["iterations"@], 32)),
        r is Ok && params::entries(table).contains_key("iterations"@) ==> params::entries(
            table,
        )["iterations"@] == ParamModel::Integer(final(e).iterations() as i64),
        r is Ok && !params::entries(table).contains_key("iterations"@) ==> final(e).iterations()
            == 1u32,
        r is Err ==> *final(e) == *old(e),
{
    lemma_only(params::entries(table), "iterations"@);
}

/// The feather takes a radius of at most 64, seven where the table names none.
pub proof fn law_feather_parameter<F: Fn(Vec<u32>, u32, u32, u32) -> Vec<u32> + Send>(
    e: &mut FeatherMaskEffect<F>,
    table: ParamTable,
    r: Result<(), EffectError>,
)
    requires
        call_ensures(<FeatherMaskEffect<F> as MaskEffect>::configure, (e, RawEffectParams::Table(table)), r),
    ensures
        r is Ok <==> only(params::entries(table), "radius"@) && (params::entries(
            table,
        ).contains_key("radius"@) ==> spells_integer(params::entries(table)["radius"@], 64)),
        r is Ok && params::entries(table).contains_key("radius"@) ==> params::entries(
            table,
        )["radius"@] == ParamModel::Integer(final(e).radius() as i64),
        r is Ok && !params::entries(table).contains_key("radius"@) ==> final(e).radius()
            == 7u32,
        r is Err ==> *final(e) == *old(e),
        final(e).kernel() == old(e).kernel(),
{
    lemma_only(params::entries(table), "radius"@);
}

/// The threshold takes a level from zero to one, one half where the table names none.
pub proof fn law_threshold_parameter(
    e: &mut ThresholdMaskEffect,
    table: ParamTable,
    r: Result<(), EffectError>,
)
    requires
        call_ensures(<ThresholdMaskEffect as MaskEffect>::configure, (e, RawEffectParams::Table(table)), r),
    ensures
        r is Ok <==> only(params::entries(table), "level"@) && (params::entries(
            table,
        ).contains_key("level"@) ==> exists|bits: u32| #[trigger]
            spells_unit(params::entries(table)["level"@], bits)),
        r is Ok && params::entries(table).contains_key("level"@) ==> spells_unit(
            params::entries(table)["level"@],
            final(e).level(),
        ),
        r is Ok && !params::entries(table).contains_key("level"@) ==> final(e).level()
            == 0x3F00_0000u32,
        r is Err ==> *final(e) == *old(e),
{
    let m = params::entries(table);
    lemma_only(m, "level"@);
    if m.contains_key("level"@) {
        match m["level"@] {
            ParamModel::Float(bits) => {
                assert(float_bits::in_unit(bits) ==> spells_unit(m["level"@], bits));
            },
            ParamModel::Double { single, .. } => {
                assert(float_bits::in_unit(single) ==> spells_unit(m["level"@], single));
            },
            ParamModel::Integer(i) => {
                assert(i == 0 ==> spells_unit(m["level"@], 0u32));
                assert(i == 1 ==> spells_unit(m["level"@], 0x3F80_0000u32));
            },
            _ => {},
        }
    }
}

/// The blob filter takes a level from zero to one, one half where the table names none.
pub proof fn law_largest_blob_parameter(
    e: &mut LargestBlobMaskEffect,
    table: ParamTable,
    r: Result<(), EffectError>,
)
    requires
        call_ensures(<LargestBlobMaskEffect as MaskEffect>::configure, (e, RawEffectParams::Table(table)), r),
    ensures
        r is Ok <==> only(params::entries(table), "level"@) && (params::entries(
            table,
        ).contains_key("level"@) ==> exists|bits: u32| #[trigger]
            spells_unit(params::entries(table)["level"@], bits)),
        r is Ok && params::entries(table).contains_key("level"@) ==> spells_unit(
            params::entries(table)["level"@],
            final(e).level(),
        ),
        r is Ok && !params::entries(table).contains_key("level"@) ==> final(e).level()
            == 0x3F00_0000u32,
        r is Err ==> *final(e) == *old(e),
{
    let m = params::entries(table);
    lemma_only(m, "level"@);
    if m.contains_key("level"@) {
        match m["level"@] {
            ParamModel::Float(bits) => {
                assert(float_bits::in_unit(bits) ==> spells_unit(m["level"@], bits));
            },
            ParamModel::Double { single, .. } => {
                assert(float_bits::in_unit(single) ==> spells_unit(m["level"@], single));
            },
            ParamModel::Integer(i) => {
                assert(i == 0 ==> spells_unit(m["level"@], 0u32));
                assert(i == 1 ==> spells_unit(m["level"@], 0x3F80_0000u32));
            },
            _ => {},
        }
    }
}

/// The smoothing takes a factor from zero to one, 0.65 where the table names none, and
/// keeps the previous mask.
pub proof fn law_smooth_temporal_parameter<B: Fn(u32, u32, u32) -> u32 + Send>(
    e: &mut SmoothTemporalMaskEffect<B>,
    table: ParamTable,
    r: Result<(), EffectError>,
)
    requires
        call_ensures(<SmoothTemporalMaskEffect<B> as MaskEffect>::configure, (e, RawEffectParams::Table(table)), r),
    ensures
        r is Ok <==> only(params::entries(table), "factor"@) && (params::entries(
            table,
        ).contains_key("factor"@) ==> exists|bits: u32| #[trigger]
            spells_unit(params::entries(table)["factor"@], bits)),
        r is Ok && params::entries(table).contains_key("factor"@) ==> spells_unit(
            params::entries(table)["factor"@],
            final(e).factor(),
        ),
        r is Ok && !params::entries(table).contains_key("factor"@) ==> final(e).factor()
            == 0x3F26_6666u32,
        r is Err ==> *final(e) == *old(e),
        final(e).kernel() == old(e).kernel(),
        final(e).prev() == old(e).prev(),
{
    let m = params::entries(table);
    lemma_only(m, "factor"@);
    if m.contains_key("factor"@) {
        match m["factor"@] {
            ParamModel::Float(bits) => {
                assert(float_bits::in_unit(bits) ==> spells_unit(m["factor"@], bits));
            },
            ParamModel::Double { single, .. } => {
                assert(float_bits::in_unit(single) ==> spells_unit(m["factor"@], single));
            },
            ParamModel::Integer(i) => {
                assert(i == 0 ==> spells_unit(m["factor"@], 0u32));
                assert(i == 1 ==> spells_unit(m["factor"@], 0x3F80_0000u32));
            },
            _ => {},
        }
    }
}

/// The feathered mask is the blur of the whole mask at its own width and height with
/// the radius in use; without a radius, or where the blur has another size, the mask
/// stays.
pub proof fn law_feather_blurs<F: Fn(Vec<u32>, u32, u32, u32) -> Vec<u32> + Send>(
    e: &mut FeatherMaskEffect<F>,
    mask: &mut MaskPlane<'_>,
    context: &mut FrameContext,
    r: Result<(), EffectError>,
)
    requires
        call_ensures(<FeatherMaskEffect<F> as MaskEffect>::process, (e, mask, context), r),
    ensures
        *final(e) == *old(e),
        *final(context) == *old(context),
        old(e).radius() == 0 ==> r is Ok && final(mask).data@ == old(mask).data@,
        old(e).radius() > 0 ==> exists|given: Vec<u32>, blurred: Vec<u32>| #[trigger]
            call_ensures(
                old(e).kernel(),
                (given, old(mask).width, old(mask).height, old(e).radius()),
                blurred,
            ) && given@ == old(mask).data@ && (r is Ok <==> blurred@.len()
                == old(mask).data@.len()) && final(mask).data@ == (if r is Ok {
                blurred@
            } else {
                old(mask).data@
            }),
{
    assert(old(e).state().settings[0] == old(e).radius());
}

/// Every value of the inverted mask is the complement of the value at its place.
pub proof fn law_invert_complements<F: Fn(u32) -> u32 + Send>(
    e: &mut InvertMaskEffect<F>,
    mask: &mut MaskPlane<'_>,
    context: &mut FrameContext,
    r: Result<(), EffectError>,
)
    requires
        call_ensures(<InvertMaskEffect<F> as MaskEffect>::process, (e, mask, context), r),
    ensures
        r is Ok,
        *final(context) == *old(context),
        final(mask).data@.len() == old(mask).data@.len(),
        forall|i: int|
            0 <= i < old(mask).data@.len() ==> call_ensures(
                old(e).kernel(),
                (old(mask).data@[i],),
                #[trigger] final(mask).data@[i],
            ),
{
}

/// A complement that undoes itself undoes the effect: two of them give the mask back.
pub proof fn law_invert_twice<F: Fn(u32) -> u32 + Send>(
    e: &InvertMaskEffect<F>,
    s: crate::context::EffectState,
    first: crate::plane::MaskCall,
    t: crate::context::EffectState,
    second: crate::plane::MaskCall,
    u: crate::context::EffectState,
    a: Result<(), EffectError>,
    b: Result<(), EffectError>,
)
    requires
        (e.rules().process)(s, first, t, a),
        (e.rules().process)(t, second, u, b),
        second.mask == first.mask_after,
        forall|x: u32, y: u32, z: u32| #[trigger]
            call_ensures(e.kernel(), (x,), y) && #[trigger] call_ensures(e.kernel(), (y,), z) ==> z
                == x,
    ensures
        second.mask_after == first.mask,
        a is Ok && b is Ok && u == s,
{
    assert forall|i: int| 0 <= i < first.mask.len() implies #[trigger] second.mask_after[i]
        == first.mask[i] by {
        assert(call_ensures(e.kernel(), (first.mask[i],), first.mask_after[i]));
        assert(call_ensures(e.kernel(), (second.mask[i],), second.mask_after[i]));
    }
    assert(second.mask_after =~= first.mask);
}

/// The identity touches nothing, whatever it is called for.
pub proof fn law_passthrough_touches_nothing(
    e: &mut PassthroughMaskEffect,
    mask: &mut MaskPlane<'_>,
    context: &mut FrameContext,
    r: Result<(), EffectError>,
)
    requires
        call_ensures(<PassthroughMaskEffect as MaskEffect>::process, (e, mask, context), r),
    ensures
        r is Ok,
        *final(context) == *old(context),
        final(mask).data@ == old(mask).data@,
{
}

/// Preparing and shutting down succeed and leave the effect as it is, and so does a
/// reset.
pub proof fn law_dilate_lifecycle(
    e: &mut DilateMaskEffect,
    context: ProcessingContext,
    r: Result<(), EffectError>,
)
    requires
        call_ensures(<DilateMaskEffect as MaskEffect>::prepare, (e, &context), r) || call_ensures(
            <DilateMaskEffect as MaskEffect>::shutdown,
            (e,),
            r,
        ) || r is Ok && call_ensures(<DilateMaskEffect as MaskEffect>::reset_state, (e,), ()),
    ensures
        r is Ok,
        *final(e) == *old(e),
{
}

/// Preparing and shutting down succeed and leave the effect as it is, and so does a
/// reset.
pub proof fn law_feather_lifecycle<F: Fn(Vec<u32>, u32, u32, u32) -> Vec<u32> + Send>(
    e: &mut FeatherMaskEffect<F>,
    context: ProcessingContext,
    r: Result<(), EffectError>,
)
    requires
        call_ensures(<FeatherMaskEffect<F> as MaskEffect>::prepare, (e, &context), r) || call_ensures(
            <FeatherMaskEffect<F> as MaskEffect>::shutdown,
            (e,),
            r,
        ) || r is Ok && call_ensures(<FeatherMaskEffect<F> as MaskEffect>::reset_state, (e,), ()),
    ensures
        r is Ok,
        *final(e) == *old(e),
{
}

/// Preparing and shutting down succeed and leave the effect as it is, and so does a
/// reset.
pub proof fn law_threshold_lifecycle(
    e: &mut ThresholdMaskEffect,
    context: ProcessingContext,
    r: Result<(), EffectError>,
)
    requires
        call_ensures(<ThresholdMaskEffect as MaskEffect>::prepare, (e, &context), r) || call_ensures(
            <ThresholdMaskEffect as MaskEffect>::shutdown,
            (e,),
            r,
        ) || r is Ok && call_ensures(<ThresholdMaskEffect as MaskEffect>::reset_state, (e,), ()),
    ensures
        r is Ok,
        *final(e) == *old(e),
{
}

/// Preparing and shutting down succeed and leave the effect as it is, and so does a
/// reset.
pub proof fn law_largest_blob_lifecycle(
    e: &mut LargestBlobMaskEffect,
    context: ProcessingContext,
    r: Result<(), EffectError>,
)
    requires
        call_ensures(<LargestBlobMaskEffect as MaskEffect>::prepare, (e, &context), r) || call_ensures(
            <LargestBlobMaskEffect as MaskEffect>::shutdown,
            (e,),
            r,
        ) || r is Ok && call_ensures(<LargestBlobMaskEffect as MaskEffect>::reset_state, (e,), ()),
    ensures
        r is Ok,
        *final(e) == *old(e),
{
}

/// Preparing and shutting down succeed and leave the effect as it is, and so does a
/// reset.
pub proof fn law_invert_lifecycle<F: Fn(u32) -> u32 + Send>(
    e: &mut InvertMaskEffect<F>,
    context: ProcessingContext,
    r: Result<(), EffectError>,
)
    requires
        call_ensures(<InvertMaskEffect<F> as MaskEffect>::prepare, (e, &context), r) || call_ensures(
            <InvertMaskEffect<F> as MaskEffect>::shutdown,
            (e,),
            r,
        ) || r is Ok && call_ensures(<InvertMaskEffect<F> as MaskEffect>::reset_state, (e,), ()),
    ensures
        r is Ok,
        *final(e) == *old(e),
{
}

/// Preparing and resetting drop the previous mask, so that it cannot leak into
/// another stream; factor and kernel stay.
pub proof fn law_smooth_temporal_lifecycle<B: Fn(u32, u32, u32) -> u32 + Send>(
    e: &mut SmoothTemporalMaskEffect<B>,
    context: ProcessingContext,
    r: Result<(), EffectError>,
)
    requires
        call_ensures(<SmoothTemporalMaskEffect<B> as MaskEffect>::prepare, (e, &context), r)
            || r is Ok && call_ensures(
            <SmoothTemporalMaskEffect<B> as MaskEffect>::reset_state,
            (e,),
            (),
        ),
    ensures
        r is Ok,
        final(e).prev().len() == 0,
        final(e).factor() == old(e).factor(),
        final(e).kernel() == old(e).kernel(),
{
}

/// The dilation takes the values of the range that it declares and no others.
pub proof fn law_dilate_declared(
    e: &mut DilateMaskEffect,
    table: ParamTable,
    r: Result<(), EffectError>,
    m: EffectMetadata,
)
    requires
        call_ensures(<DilateMaskEffect as MaskEffect>::configure, (e, RawEffectParams::Table(table)), r),
        call_ensures(DilateMaskEffect::metadata, (), m),
        only(params::entries(table), "iterations"@),
        params::entries(table).contains_key("iterations"@),
        params::entries(table)["iterations"@] is Integer,
    ensures
        m.params@.len() == 1 && m.params@[0].name@ == "iterations"@,
        m.params@[0].kind matches ParamKind::Integer { min, max, .. } && (r is Ok <==> min
            <= params::entries(table)["iterations"@]->Integer_0 <= max),
{
    lemma_only(params::entries(table), "iterations"@);
}

/// The feather takes the values of the range that it declares and no others.
pub proof fn law_feather_declared<F: Fn(Vec<u32>, u32, u32, u32) -> Vec<u32> + Send>(
    e: &mut FeatherMaskEffect<F>,
    table: ParamTable,
    r: Result<(), EffectError>,
    m: EffectMetadata,
)
    requires
        call_ensures(<FeatherMaskEffect<F> as MaskEffect>::configure, (e, RawEffectParams::Table(table)), r),
        call_ensures(FeatherMaskEffect::<F>::metadata, (), m),
        only(params::entries(table), "radius"@),
        params::entries(table).contains_key("radius"@),
        params::entries(table)["radius"@] is Integer,
    ensures
        m.params@.len() == 1 && m.params@[0].name@ == "radius"@,
        m.params@[0].kind matches ParamKind::Integer { min, max, .. } && (r is Ok <==> min
            <= params::entries(table)["radius"@]->Integer_0 <= max),
{
    lemma_only(params::entries(table), "radius"@);
}

/// The threshold takes the values of the range that it declares and no others.
pub proof fn law_threshold_declared(
    e: &mut ThresholdMaskEffect,
    table: ParamTable,
    r: Result<(), EffectError>,
    m: EffectMetadata,
)
    requires
        call_ensures(<ThresholdMaskEffect as MaskEffect>::configure, (e, RawEffectParams::Table(table)), r),
        call_ensures(ThresholdMaskEffect::metadata, (), m),
        only(params::entries(table), "level"@),
        params::entries(table).contains_key("level"@),
        params::entries(table)["level"@] is Float,
    ensures
        m.params@.len() == 1 && m.params@[0].name@ == "level"@,
        m.params@[0].kind matches ParamKind::Float { min, max, .. } && (r is Ok
            <==> float_bits::value_at_least(params::entries(table)["level"@]->Float_0, min)
            && float_bits::value_at_least(max, params::entries(table)["level"@]->Float_0)),
{
    lemma_only(params::entries(table), "level"@);
}

/// The blob filter takes the values of the range that it declares and no others.
pub proof fn law_largest_blob_declared(
    e: &mut LargestBlobMaskEffect,
    table: ParamTable,
    r: Result<(), EffectError>,
    m: EffectMetadata,
)
    requires
        call_ensures(<LargestBlobMaskEffect as MaskEffect>::configure, (e, RawEffectParams::Table(table)), r),
        call_ensures(LargestBlobMaskEffect::metadata, (), m),
        only(params::entries(table), "level"@),
        params::entries(table).contains_key("level"@),
        params::entries(table)["level"@] is Float,
    ensures
        m.params@.len() == 1 && m.params@[0].name@ == "level"@,
        m.params@[0].kind matches ParamKind::Float { min, max, .. } && (r is Ok
            <==> float_bits::value_at_least(params::entries(table)["level"@]->Float_0, min)
            && float_bits::value_at_least(max, params::entries(table)["level"@]->Float_0)),
{
    lemma_only(params::entries(table), "level"@);
}

/// The smoothing takes the values of the range that it declares and no others.
pub proof fn law_smooth_temporal_declared<B: Fn(u32, u32, u32) -> u32 + Send>(
    e: &mut SmoothTemporalMaskEffect<B>,
    table: ParamTable,
    r: Result<(), EffectError>,
    m: EffectMetadata,
)
    requires
        call_ensures(<SmoothTemporalMaskEffect<B> as MaskEffect>::configure, (e, RawEffectParams::Table(table)), r),
        call_ensures(SmoothTemporalMaskEffect::<B>::metadata, (), m),
        only(params::entries(table), "factor"@),
        params::entries(table).contains_key("factor"@),
        params::entries(table)["factor"@] is Float,
    ensures
        m.params@.len() == 1 && m.params@[0].name@ == "factor"@,
        m.params@[0].kind matches ParamKind::Float { min, max, .. } && (r is Ok
            <==> float_bits::value_at_least(params::entries(table)["factor"@]->Float_0, min)
            && float_bits::value_at_least(max, params::entries(table)["factor"@]->Float_0)),
{
    lemma_only(params::entries(table), "factor"@);
}

/// Each built-in effect is registered under its own name, describes itself by it, and
/// there are no others.
pub proof fn law_built_in_effects<C, B, F>(
    complement: C,
    blend: B,
    blur: F,
    r: MaskEffectRegistry,
    name: Seq<char>,
) where
    C: Fn(u32) -> u32 + Send + Sync + Copy + 'static,
    B: Fn(u32, u32, u32) -> u32 + Send + Sync + Copy + 'static,
    F: Fn(Vec<u32>, u32, u32, u32) -> Vec<u32> + Send + Sync + Copy + 'static,

    requires
        call_ensures(registry::default_registry::<C, B, F>, (complement, blend, blur), r),
    ensures
        r@.contains_key(name) <==> name == "passthrough"@ || name == "largest_blob"@ || name
            == "threshold"@ || name == "dilate"@ || name == "feather"@ || name
            == "smooth_temporal"@ || name == "invert"@,
        r@.contains_key(name) ==> r@[name].metadata.name@ == name && forall|
            made: NewEffect<dyn MaskEffect>,
        | #[trigger] r@[name].factory.may_build(made) ==> made.effect.rules().id == name,
{
}

} // verus!
