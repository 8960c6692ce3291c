//! What sub-chains and the composite effect do to a frame, stated over the frame's
//! own fields, the effects' own rules and the arithmetic on single values.

use vstd::prelude::*;
use crate::composite::effect::{self, CompositeEffect};
use crate::composite::segmentation::{
    self, SegmentationBase, SegmentationOutcome, SegmentationState,
};
use crate::composite::slots::{self, Slot};
use crate::context::{FrameContext, ProcessingContext};
use crate::error::{EffectError, InferenceError};
use crate::frame::{PixelFormat, VideoFrame};
use crate::metrics::Counters;
use crate::ml::model_config::{ModelConfig, TensorLayout};
use crate::ml::tensor;
use crate::pixel_math::{self, PixelMath, Resize};
use crate::plane::{MaskCall, MaskEffect, PlaneCall, PlaneEffect, PostCall, PostEffect};
use crate::traits::{
    self, EngineCall, InferenceOutput, LoadedEngine, ModelLoader, VideoEffect,
};

verus! {

/// Whether two contexts are of the same frame, whatever was timed in between.
pub open spec fn same_frame(a: FrameContext, b: FrameContext) -> bool {
    &&& a.frame_sequence == b.frame_sequence
    &&& a.frame_timestamp == b.frame_timestamp
    &&& a.fallback_active == b.fallback_active
}

/// Whether slot `i` of a chain of mask effects takes plane `i` to the next: an enabled
/// effect runs once on it, at the given size, under its own rules and from what it
/// holds; a disabled one leaves it alone and is left alone.
pub open spec fn mask_ran_at(
    chain: Seq<Slot<dyn MaskEffect>>,
    after: Seq<Slot<dyn MaskEffect>>,
    width: u32,
    height: u32,
    planes: Seq<Seq<u32>>,
    contexts: Seq<FrameContext>,
    i: int,
) -> bool {
    if chain[i].on() {
        exists|left: FrameContext| #[trigger]
            same_frame(left, contexts[i + 1]) && (chain[i].held().rules().process)(
                chain[i].held().state(),
                MaskCall {
                    width,
                    height,
                    mask: planes[i],
                    context: contexts[i],
                    mask_after: planes[i + 1],
                    context_after: left,
                },
                after[i].held().state(),
                Ok(()),
            )
    } else {
        &&& planes[i + 1] == planes[i]
        &&& contexts[i + 1] == contexts[i]
        &&& after[i] == chain[i]
    }
}

/// Whether the first `n` slots lead through `planes` and `contexts`, in order.
pub open spec fn mask_trace(
    chain: Seq<Slot<dyn MaskEffect>>,
    after: Seq<Slot<dyn MaskEffect>>,
    width: u32,
    height: u32,
    planes: Seq<Seq<u32>>,
    contexts: Seq<FrameContext>,
    n: int,
) -> bool {
    &&& planes.len() == n + 1
    &&& contexts.len() == n + 1
    &&& forall|i: int|
        0 <= i < n ==> #[trigger] mask_ran_at(chain, after, width, height, planes, contexts, i)
}

/// Whether slot `n` is enabled and fails with `r` on the last plane of a trace.
pub open spec fn mask_stopped_at(
    chain: Seq<Slot<dyn MaskEffect>>,
    after: Seq<Slot<dyn MaskEffect>>,
    width: u32,
    height: u32,
    planes: Seq<Seq<u32>>,
    contexts: Seq<FrameContext>,
    n: int,
    data_after: Seq<u32>,
    r: Result<(), EffectError>,
) -> bool {
    &&& 0 <= n < chain.len()
    &&& mask_trace(chain, after, width, height, planes, contexts, n)
    &&& chain[n].on()
    &&& exists|left: FrameContext|
        (chain[n].held().rules().process)(
            chain[n].held().state(),
            #[trigger] mask_call(width, height, planes[n], contexts[n], data_after, left),
            after[n].held().state(),
            r,
        )
    &&& forall|k: int| n < k < chain.len() ==> #[trigger] after[k] == chain[k]
}

/// What an effect is handed for a frame.
pub open spec fn mask_call(
    width: u32,
    height: u32,
    data: Seq<u32>,
    context: FrameContext,
    data_after: Seq<u32>,
    context_after: FrameContext,
) -> MaskCall {
    MaskCall {
        width,
        height,
        mask: data,
        context,
        mask_after: data_after,
        context_after,
    }
}

proof fn lemma_mask_trace(
    chain: Seq<Slot<dyn MaskEffect>>,
    after: Seq<Slot<dyn MaskEffect>>,
    n: int,
    width: u32,
    height: u32,
    data: Seq<u32>,
    context: FrameContext,
    data_after: Seq<u32>,
    context_after: FrameContext,
) -> (r: (Seq<Seq<u32>>, Seq<FrameContext>))
    requires
        0 <= n,
        slots::mask_below(chain, after, n, width, height, data, context, data_after, context_after),
    ensures
        mask_trace(chain, after, width, height, r.0, r.1, n),
        r.0[0] == data,
        r.1[0] == context,
        r.0[n] == data_after,
        r.1[n] == context_after,
    decreases n,
{
    if n <= 0 {
        (seq![data], seq![context])
    } else {
        let (d, c) = choose|d: Seq<u32>, c: FrameContext|
            slots::mask_below(chain, after, n - 1, width, height, data, context, d, c) && #[trigger] slots::mask_step(chain, after, n - 1, width, height, d, c, data_after, context_after, Ok(()));
        let (planes, contexts) = lemma_mask_trace(
            chain,
            after,
            n - 1,
            width,
            height,
            data,
            context,
            d,
            c,
        );
        let more = planes.push(data_after);
        let later = contexts.push(context_after);
        assert forall|i: int| 0 <= i < n implies #[trigger] mask_ran_at(
            chain,
            after,
            width,
            height,
            more,
            later,
            i,
        ) by {
            if i < n - 1 {
                assert(mask_ran_at(chain, after, width, height, planes, contexts, i));
                assert(more[i] == planes[i] && more[i + 1] == planes[i + 1]);
                assert(later[i] == contexts[i] && later[i + 1] == contexts[i + 1]);
            } else if chain[i].on() {
                let left = choose|left: FrameContext| #[trigger]
                    slots::staged(left, context_after, "mask"@, slots::ident_at(chain, i))
                        && slots::runs_at(
                        chain,
                        after,
                        i,
                        mask_call(width, height, d, c, data_after, left),
                        Ok(()),
                    );
                assert(same_frame(left, later[i + 1]));
            }
        }
        (more, later)
    }
}

/// A chain of mask effects is its enabled effects one after the other: each runs once
/// on what the one before it left, the first on what the chain is given, and what the
/// last leaves is the result.  The first failure ends it, and no later effect is
/// touched.  No effect changes its rules or its flag.
pub proof fn law_mask_chain_in_order(
    chain: Seq<Slot<dyn MaskEffect>>,
    after: Seq<Slot<dyn MaskEffect>>,
    width: u32,
    height: u32,
    data: Seq<u32>,
    context: FrameContext,
    data_after: Seq<u32>,
    context_after: FrameContext,
    r: Result<(), EffectError>,
)
    requires
        slots::mask_timed(chain, after, width, height, data, context, data_after, context_after, r),
    ensures
        after.len() == chain.len(),
        forall|i: int|
            #![trigger after[i]]
            0 <= i < chain.len() ==> after[i].held().rules() == chain[i].held().rules()
                && after[i].on() == chain[i].on(),
        r is Ok ==> exists|planes: Seq<Seq<u32>>, contexts: Seq<FrameContext>|
            {
                &&& #[trigger] mask_trace(
                    chain,
                    after,
                    width,
                    height,
                    planes,
                    contexts,
                    chain.len() as int,
                )
                &&& planes[0] == data
                &&& contexts[0] == context
                &&& planes[chain.len() as int] == data_after
                &&& same_frame(contexts[chain.len() as int], context_after)
            },
        r is Err ==> exists|planes: Seq<Seq<u32>>, contexts: Seq<FrameContext>, n: int|
            {
                &&& #[trigger] mask_stopped_at(
                    chain,
                    after,
                    width,
                    height,
                    planes,
                    contexts,
                    n,
                    data_after,
                    r,
                )
                &&& planes[0] == data
                &&& contexts[0] == context
            },
{
    let c = choose|c: FrameContext| #[trigger]
        slots::staged(c, context_after, slots::COMPOSITE@, "mask_chain"@) && slots::mask_run(chain, after, width, height, data, context, data_after, c, r);
    assert forall|i: int|
        #![trigger after[i]]
        0 <= i < chain.len() implies after[i].held().rules() == chain[i].held().rules()
            && after[i].on() == chain[i].on() by {
        assert(slots::like_at(chain, after, i));
    }
    if r is Ok {
        assert(r->Ok_0 == ());
        let (planes, contexts) = lemma_mask_trace(
            chain,
            after,
            chain.len() as int,
            width,
            height,
            data,
            context,
            data_after,
            c,
        );
        assert(mask_trace(chain, after, width, height, planes, contexts, chain.len() as int));
    } else {
        let n = choose|n: int|
            0 <= n < chain.len() && #[trigger] slots::mask_fails(chain, after, n, width, height, data, context, data_after, c, r) && slots::same_from(after, chain, n + 1);
        let (d, e) = choose|d: Seq<u32>, e: FrameContext|
            slots::mask_below(chain, after, n, width, height, data, context, d, e) && #[trigger] slots::mask_step(chain, after, n, width, height, d, e, data_after, c, r);
        let (planes, contexts) = lemma_mask_trace(
            chain,
            after,
            n,
            width,
            height,
            data,
            context,
            d,
            e,
        );
        assert(chain[n].on());
        let left = choose|left: FrameContext| #[trigger]
            slots::staged(left, c, "mask"@, slots::ident_at(chain, n)) && slots::runs_at(
                chain,
                after,
                n,
                mask_call(width, height, d, e, data_after, left),
                r,
            );
        let call = mask_call(width, height, planes[n], contexts[n], data_after, left);
        assert((chain[n].held().rules().process)(
            chain[n].held().state(),
            call,
            after[n].held().state(),
            r,
        ));
        assert forall|k: int| n < k < chain.len() implies #[trigger] after[k] == chain[k] by {
            assert(slots::same_at(after, chain, k));
        }
        assert(mask_stopped_at(
            chain,
            after,
            width,
            height,
            planes,
            contexts,
            n,
            data_after,
            r,
        ));
    }
}

/// Whether slot `i` of a chain of plane effects takes plane `i` to the next: an enabled
/// effect runs once on it, at the given size, under its own rules and from what it
/// holds; a disabled one leaves it alone and is left alone.
pub open spec fn plane_ran_at(
    chain: Seq<Slot<dyn PlaneEffect>>,
    after: Seq<Slot<dyn PlaneEffect>>,
    width: u32,
    height: u32,
    planes: Seq<Seq<u8>>,
    contexts: Seq<FrameContext>,
    i: int,
) -> bool {
    if chain[i].on() {
        exists|left: FrameContext| #[trigger]
            same_frame(left, contexts[i + 1]) && (chain[i].held().rules().process)(
                chain[i].held().state(),
                PlaneCall {
                    width,
                    height,
                    plane: planes[i],
                    context: contexts[i],
                    plane_after: planes[i + 1],
                    context_after: left,
                },
                after[i].held().state(),
                Ok(()),
            )
    } else {
        &&& planes[i + 1] == planes[i]
        &&& contexts[i + 1] == contexts[i]
        &&& after[i] == chain[i]
    }
}

/// Whether the first `n` slots lead through `planes` and `contexts`, in order.
pub open spec fn plane_trace(
    chain: Seq<Slot<dyn PlaneEffect>>,
    after: Seq<Slot<dyn PlaneEffect>>,
    width: u32,
    height: u32,
    planes: Seq<Seq<u8>>,
    contexts: Seq<FrameContext>,
    n: int,
) -> bool {
    &&& planes.len() == n + 1
    &&& contexts.len() == n + 1
    &&& forall|i: int|
        0 <= i < n ==> #[trigger] plane_ran_at(chain, after, width, height, planes, contexts, i)
}

/// Whether slot `n` is enabled and fails with `r` on the last plane of a trace.
pub open spec fn plane_stopped_at(
    chain: Seq<Slot<dyn PlaneEffect>>,
    after: Seq<Slot<dyn PlaneEffect>>,
    width: u32,
    height: u32,
    planes: Seq<Seq<u8>>,
    contexts: Seq<FrameContext>,
    n: int,
    data_after: Seq<u8>,
    r: Result<(), EffectError>,
) -> bool {
    &&& 0 <= n < chain.len()
    &&& plane_trace(chain, after, width, height, planes, contexts, n)
    &&& chain[n].on()
    &&& exists|left: FrameContext|
        (chain[n].held().rules().process)(
            chain[n].held().state(),
            #[trigger] plane_call(width, height, planes[n], contexts[n], data_after, left),
            after[n].held().state(),
            r,
        )
    &&& forall|k: int| n < k < chain.len() ==> #[trigger] after[k] == chain[k]
}

/// What an effect is handed for a frame.
pub open spec fn plane_call(
    width: u32,
    height: u32,
    data: Seq<u8>,
    context: FrameContext,
    data_after: Seq<u8>,
    context_after: FrameContext,
) -> PlaneCall {
    PlaneCall {
        width,
        height,
        plane: data,
        context,
        plane_after: data_after,
        context_after,
    }
}

proof fn lemma_plane_trace(
    chain: Seq<Slot<dyn PlaneEffect>>,
    after: Seq<Slot<dyn PlaneEffect>>,
    section: Seq<char>,
    n: int,
    width: u32,
    height: u32,
    data: Seq<u8>,
    context: FrameContext,
    data_after: Seq<u8>,
    context_after: FrameContext,
) -> (r: (Seq<Seq<u8>>, Seq<FrameContext>))
    requires
        0 <= n,
        slots::plane_below(chain, after, section, n, width, height, data, context, data_after, context_after),
    ensures
        plane_trace(chain, after, width, height, r.0, r.1, n),
        r.0[0] == data,
        r.1[0] == context,
        r.0[n] == data_after,
        r.1[n] == context_after,
    decreases n,
{
    if n <= 0 {
        (seq![data], seq![context])
    } else {
        let (d, c) = choose|d: Seq<u8>, c: FrameContext|
            slots::plane_below(chain, after, section, n - 1, width, height, data, context, d, c) && #[trigger] slots::plane_step(chain, after, section, n - 1, width, height, d, c, data_after, context_after, Ok(()));
        let (planes, contexts) = lemma_plane_trace(
            chain,
            after,
            section,
            n - 1,
            width,
            height,
            data,
            context,
            d,
            c,
        );
        let more = planes.push(data_after);
        let later = contexts.push(context_after);
        assert forall|i: int| 0 <= i < n implies #[trigger] plane_ran_at(
            chain,
            after,
            width,
            height,
            more,
            later,
            i,
        ) by {
            if i < n - 1 {
                assert(plane_ran_at(chain, after, width, height, planes, contexts, i));
                assert(more[i] == planes[i] && more[i + 1] == planes[i + 1]);
                assert(later[i] == contexts[i] && later[i + 1] == contexts[i + 1]);
            } else if chain[i].on() {
                let left = choose|left: FrameContext| #[trigger]
                    slots::staged(left, context_after, section, slots::ident_at(chain, i))
                        && slots::runs_at(
                        chain,
                        after,
                        i,
                        plane_call(width, height, d, c, data_after, left),
                        Ok(()),
                    );
                assert(same_frame(left, later[i + 1]));
            }
        }
        (more, later)
    }
}

/// A chain of plane effects is its enabled effects one after the other: each runs once
/// on what the one before it left, the first on what the chain is given, and what the
/// last leaves is the result.  The first failure ends it, and no later effect is
/// touched.  No effect changes its rules or its flag.
pub proof fn law_plane_chain_in_order(
    chain: Seq<Slot<dyn PlaneEffect>>,
    after: Seq<Slot<dyn PlaneEffect>>,
    section: Seq<char>,
    stage: Seq<char>,
    width: u32,
    height: u32,
    data: Seq<u8>,
    context: FrameContext,
    data_after: Seq<u8>,
    context_after: FrameContext,
    r: Result<(), EffectError>,
)
    requires
        slots::plane_timed(chain, after, section, stage, width, height, data, context, data_after, context_after, r),
    ensures
        after.len() == chain.len(),
        forall|i: int|
            #![trigger after[i]]
            0 <= i < chain.len() ==> after[i].held().rules() == chain[i].held().rules()
                && after[i].on() == chain[i].on(),
        r is Ok ==> exists|planes: Seq<Seq<u8>>, contexts: Seq<FrameContext>|
            {
                &&& #[trigger] plane_trace(
                    chain,
                    after,
                    width,
                    height,
                    planes,
                    contexts,
                    chain.len() as int,
                )
                &&& planes[0] == data
                &&& contexts[0] == context
                &&& planes[chain.len() as int] == data_after
                &&& same_frame(contexts[chain.len() as int], context_after)
            },
        r is Err ==> exists|planes: Seq<Seq<u8>>, contexts: Seq<FrameContext>, n: int|
            {
                &&& #[trigger] plane_stopped_at(
                    chain,
                    after,
                    width,
                    height,
                    planes,
                    contexts,
                    n,
                    data_after,
                    r,
                )
                &&& planes[0] == data
                &&& contexts[0] == context
            },
{
    let c = choose|c: FrameContext| #[trigger]
        slots::staged(c, context_after, slots::COMPOSITE@, stage) && slots::plane_run(chain, after, section, width, height, data, context, data_after, c, r);
    assert forall|i: int|
        #![trigger after[i]]
        0 <= i < chain.len() implies after[i].held().rules() == chain[i].held().rules()
            && after[i].on() == chain[i].on() by {
        assert(slots::like_at(chain, after, i));
    }
    if r is Ok {
        assert(r->Ok_0 == ());
        let (planes, contexts) = lemma_plane_trace(
            chain,
            after,
            section,
            chain.len() as int,
            width,
            height,
            data,
            context,
            data_after,
            c,
        );
        assert(plane_trace(chain, after, width, height, planes, contexts, chain.len() as int));
    } else {
        let n = choose|n: int|
            0 <= n < chain.len() && #[trigger] slots::plane_fails(chain, after, section, n, width, height, data, context, data_after, c, r) && slots::same_from(after, chain, n + 1);
        let (d, e) = choose|d: Seq<u8>, e: FrameContext|
            slots::plane_below(chain, after, section, n, width, height, data, context, d, e) && #[trigger] slots::plane_step(chain, after, section, n, width, height, d, e, data_after, c, r);
        let (planes, contexts) = lemma_plane_trace(
            chain,
            after,
            section,
            n,
            width,
            height,
            data,
            context,
            d,
            e,
        );
        assert(chain[n].on());
        let left = choose|left: FrameContext| #[trigger]
            slots::staged(left, c, section, slots::ident_at(chain, n)) && slots::runs_at(
                chain,
                after,
                n,
                plane_call(width, height, d, e, data_after, left),
                r,
            );
        let call = plane_call(width, height, planes[n], contexts[n], data_after, left);
        assert((chain[n].held().rules().process)(
            chain[n].held().state(),
            call,
            after[n].held().state(),
            r,
        ));
        assert forall|k: int| n < k < chain.len() implies #[trigger] after[k] == chain[k] by {
            assert(slots::same_at(after, chain, k));
        }
        assert(plane_stopped_at(
            chain,
            after,
            width,
            height,
            planes,
            contexts,
            n,
            data_after,
            r,
        ));
    }
}

/// Whether slot `i` of a chain of post effects takes plane `i` to the next: an enabled
/// effect runs once on it, at the given size, under its own rules and from what it
/// holds; a disabled one leaves it alone and is left alone.
pub open spec fn post_ran_at(
    chain: Seq<Slot<dyn PostEffect>>,
    after: Seq<Slot<dyn PostEffect>>,
    width: u32,
    height: u32,
    mask: Seq<u32>,
    planes: Seq<Seq<u8>>,
    contexts: Seq<FrameContext>,
    i: int,
) -> bool {
    if chain[i].on() {
        exists|left: FrameContext| #[trigger]
            same_frame(left, contexts[i + 1]) && (chain[i].held().rules().process)(
                chain[i].held().state(),
                PostCall {
                    width,
                    height,
                    plane: planes[i],
                    mask,
                    context: contexts[i],
                    plane_after: planes[i + 1],
                    context_after: left,
                },
                after[i].held().state(),
                Ok(()),
            )
    } else {
        &&& planes[i + 1] == planes[i]
        &&& contexts[i + 1] == contexts[i]
        &&& after[i] == chain[i]
    }
}

/// Whether the first `n` slots lead through `planes` and `contexts`, in order.
pub open spec fn post_trace(
    chain: Seq<Slot<dyn PostEffect>>,
    after: Seq<Slot<dyn PostEffect>>,
    width: u32,
    height: u32,
    mask: Seq<u32>,
    planes: Seq<Seq<u8>>,
    contexts: Seq<FrameContext>,
    n: int,
) -> bool {
    &&& planes.len() == n + 1
    &&& contexts.len() == n + 1
    &&& forall|i: int|
        0 <= i < n ==> #[trigger] post_ran_at(chain, after, width, height, mask, planes, contexts, i)
}

/// Whether slot `n` is enabled and fails with `r` on the last plane of a trace.
pub open spec fn post_stopped_at(
    chain: Seq<Slot<dyn PostEffect>>,
    after: Seq<Slot<dyn PostEffect>>,
    width: u32,
    height: u32,
    mask: Seq<u32>,
    planes: Seq<Seq<u8>>,
    contexts: Seq<FrameContext>,
    n: int,
    data_after: Seq<u8>,
    r: Result<(), EffectError>,
) -> bool {
    &&& 0 <= n < chain.len()
    &&& post_trace(chain, after, width, height, mask, planes, contexts, n)
    &&& chain[n].on()
    &&& exists|left: FrameContext|
        (chain[n].held().rules().process)(
            chain[n].held().state(),
            #[trigger] post_call(width, height, mask, planes[n], contexts[n], data_after, left),
            after[n].held().state(),
            r,
        )
    &&& forall|k: int| n < k < chain.len() ==> #[trigger] after[k] == chain[k]
}

/// What an effect is handed for a frame.
pub open spec fn post_call(
    width: u32,
    height: u32,
    mask: Seq<u32>,
    data: Seq<u8>,
    context: FrameContext,
    data_after: Seq<u8>,
    context_after: FrameContext,
) -> PostCall {
    PostCall {
        width,
        height,
        plane: data,
        mask,
        context,
        plane_after: data_after,
        context_after,
    }
}

proof fn lemma_post_trace(
    chain: Seq<Slot<dyn PostEffect>>,
    after: Seq<Slot<dyn PostEffect>>,
    n: int,
    width: u32,
    height: u32,
    mask: Seq<u32>,
    data: Seq<u8>,
    context: FrameContext,
    data_after: Seq<u8>,
    context_after: FrameContext,
) -> (r: (Seq<Seq<u8>>, Seq<FrameContext>))
    requires
        0 <= n,
        slots::post_below(chain, after, n, width, height, data, mask, context, data_after, context_after),
    ensures
        post_trace(chain, after, width, height, mask, r.0, r.1, n),
        r.0[0] == data,
        r.1[0] == context,
        r.0[n] == data_after,
        r.1[n] == context_after,
    decreases n,
{
    if n <= 0 {
        (seq![data], seq![context])
    } else {
        let (d, c) = choose|d: Seq<u8>, c: FrameContext|
            slots::post_below(chain, after, n - 1, width, height, data, mask, context, d, c) && #[trigger] slots::post_step(chain, after, n - 1, width, height, d, mask, c, data_after, context_after, Ok(()));
        let (planes, contexts) = lemma_post_trace(
            chain,
            after,
            n - 1,
            width,
            height,
            mask,
            data,
            context,
            d,
            c,
        );
        let more = planes.push(data_after);
        let later = contexts.push(context_after);
        assert forall|i: int| 0 <= i < n implies #[trigger] post_ran_at(
            chain,
            after,
            width,
            height,
            mask,
            more,
            later,
            i,
        ) by {
            if i < n - 1 {
                assert(post_ran_at(chain, after, width, height, mask, planes, contexts, i));
                assert(more[i] == planes[i] && more[i + 1] == planes[i + 1]);
                assert(later[i] == contexts[i] && later[i + 1] == contexts[i + 1]);
            } else if chain[i].on() {
                let left = choose|left: FrameContext| #[trigger]
                    slots::staged(left, context_after, "post"@, slots::ident_at(chain, i))
                        && slots::runs_at(
                        chain,
                        after,
                        i,
                        post_call(width, height, mask, d, c, data_after, left),
                        Ok(()),
                    );
                assert(same_frame(left, later[i + 1]));
            }
        }
        (more, later)
    }
}

/// A chain of post effects is its enabled effects one after the other: each runs once
/// on what the one before it left, the first on what the chain is given, and what the
/// last leaves is the result.  The first failure ends it, and no later effect is
/// touched.  No effect changes its rules or its flag.
pub proof fn law_post_chain_in_order(
    chain: Seq<Slot<dyn PostEffect>>,
    after: Seq<Slot<dyn PostEffect>>,
    width: u32,
    height: u32,
    data: Seq<u8>,
    mask: Seq<u32>,
    context: FrameContext,
    data_after: Seq<u8>,
    context_after: FrameContext,
    r: Result<(), EffectError>,
)
    requires
        slots::post_timed(chain, after, width, height, data, mask, context, data_after, context_after, r),
    ensures
        after.len() == chain.len(),
        forall|i: int|
            #![trigger after[i]]
            0 <= i < chain.len() ==> after[i].held().rules() == chain[i].held().rules()
                && after[i].on() == chain[i].on(),
        r is Ok ==> exists|planes: Seq<Seq<u8>>, contexts: Seq<FrameContext>|
            {
                &&& #[trigger] post_trace(
                    chain,
                    after,
                    width,
                    height,
                    mask,
                    planes,
                    contexts,
                    chain.len() as int,
                )
                &&& planes[0] == data
                &&& contexts[0] == context
                &&& planes[chain.len() as int] == data_after
                &&& same_frame(contexts[chain.len() as int], context_after)
            },
        r is Err ==> exists|planes: Seq<Seq<u8>>, contexts: Seq<FrameContext>, n: int|
            {
                &&& #[trigger] post_stopped_at(
                    chain,
                    after,
                    width,
                    height,
                    mask,
                    planes,
                    contexts,
                    n,
                    data_after,
                    r,
                )
                &&& planes[0] == data
                &&& contexts[0] == context
            },
{
    let c = choose|c: FrameContext| #[trigger]
        slots::staged(c, context_after, slots::COMPOSITE@, "post_chain"@) && slots::post_run(chain, after, width, height, data, mask, context, data_after, c, r);
    assert forall|i: int|
        #![trigger after[i]]
        0 <= i < chain.len() implies after[i].held().rules() == chain[i].held().rules()
            && after[i].on() == chain[i].on() by {
        assert(slots::like_at(chain, after, i));
    }
    if r is Ok {
        assert(r->Ok_0 == ());
        let (planes, contexts) = lemma_post_trace(
            chain,
            after,
            chain.len() as int,
            width,
            height,
            mask,
            data,
            context,
            data_after,
            c,
        );
        assert(post_trace(chain, after, width, height, mask, planes, contexts, chain.len() as int));
    } else {
        let n = choose|n: int|
            0 <= n < chain.len() && #[trigger] slots::post_fails(chain, after, n, width, height, data, mask, context, data_after, c, r) && slots::same_from(after, chain, n + 1);
        let (d, e) = choose|d: Seq<u8>, e: FrameContext|
            slots::post_below(chain, after, n, width, height, data, mask, context, d, e) && #[trigger] slots::post_step(chain, after, n, width, height, d, mask, e, data_after, c, r);
        let (planes, contexts) = lemma_post_trace(
            chain,
            after,
            n,
            width,
            height,
            mask,
            data,
            context,
            d,
            e,
        );
        assert(chain[n].on());
        let left = choose|left: FrameContext| #[trigger]
            slots::staged(left, c, "post"@, slots::ident_at(chain, n)) && slots::runs_at(
                chain,
                after,
                n,
                post_call(width, height, mask, d, e, data_after, left),
                r,
            );
        let call = post_call(width, height, mask, planes[n], contexts[n], data_after, left);
        assert((chain[n].held().rules().process)(
            chain[n].held().state(),
            call,
            after[n].held().state(),
            r,
        ));
        assert forall|k: int| n < k < chain.len() implies #[trigger] after[k] == chain[k] by {
            assert(slots::same_at(after, chain, k));
        }
        assert(post_stopped_at(
            chain,
            after,
            width,
            height,
            mask,
            planes,
            contexts,
            n,
            data_after,
            r,
        ));
    }
}

// ---------------------------------------------------------------------------
// Segmentation
// ---------------------------------------------------------------------------

/// Whether every byte of `bytes` is sampled from a plane `src` of `src_w` by `src_h`
/// pixels for a plane of `w` by `h` pixels.
pub open spec fn bytes_sampled<M: PixelMath>(
    math: &M,
    src: &[u8],
    src_w: u32,
    src_h: u32,
    w: u32,
    h: u32,
    bytes: Seq<u8>,
) -> bool {
    forall|i: usize|
        i < bytes.len() ==> call_ensures(
            M::sample_rgb,
            (math, src, (Resize { src_w, src_h, dst_w: w, dst_h: h }), i),
            #[trigger] bytes[i as int],
        )
}

/// Whether `bytes` is a plane of `w` by `h` pixels, every byte of which is sampled
/// from the whole frame at the frame's own width and height.
pub open spec fn frame_sampled<M: PixelMath>(
    math: &M,
    frame: VideoFrame,
    w: u32,
    h: u32,
    bytes: Seq<u8>,
) -> bool {
    &&& bytes.len() == 3 * (w * h)
    &&& exists|s: &[u8]|
        s@ == frame.data@ && #[trigger] bytes_sampled(
            math,
            s,
            frame.width,
            frame.height,
            w,
            h,
            bytes,
        )
}

/// Whether `call` asks an engine about a frame: the frame, sampled at the size of the
/// model's input, normalised and laid out as the model's configuration says, under
/// the shape of one image of that size.
pub open spec fn asks_about<M: PixelMath>(
    math: &M,
    config: ModelConfig,
    w: u32,
    h: u32,
    frame: VideoFrame,
    call: EngineCall,
) -> bool {
    &&& exists|bytes: Seq<u8>| #[trigger]
        frame_sampled(math, frame, w, h, bytes) && tensor::channels_in_place(
            math,
            config,
            bytes,
            call.data,
            w * h,
        )
    &&& call.shape.len() == 4
    &&& call.shape[0] == 1
    &&& config.input_layout == TensorLayout::Nhwc ==> call.shape[1] == h as usize && call.shape[2]
        == w as usize && call.shape[3] == 3
    &&& config.input_layout == TensorLayout::Nchw ==> call.shape[1] == 3 && call.shape[2]
        == h as usize && call.shape[3] == w as usize
}

/// Asking about a frame that was resized and packed asks about the frame.
pub proof fn law_question_shows_the_frame<M: PixelMath>(
    math: &M,
    config: ModelConfig,
    w: u32,
    h: u32,
    frame: VideoFrame,
    bytes: Seq<u8>,
    call: EngineCall,
)
    requires
        pixel_math::resized_rgb(
            math,
            frame.data@,
            (Resize { src_w: frame.width, src_h: frame.height, dst_w: w, dst_h: h }),
            bytes,
        ),
        tensor::packed(
            bytes,
            call.data,
            config.input_layout,
            h * w,
            config.input_scale,
            config.input_zero_point,
            math,
        ),
        call.shape == tensor::input_shape_spec(config.input_layout, h as usize, w as usize),
    ensures
        asks_about(math, config, w, h, frame, call),
{
    assert(h * w == w * h && 0 <= w * h && w * h * 3 == 3 * (w * h)) by (nonlinear_arith)
        requires
            w >= 0,
            h >= 0,
    ;
    tensor::law_channels_in_place(math, config, bytes, call.data, w * h);
    assert(frame_sampled(math, frame, w, h, bytes)) by {
        let size = Resize { src_w: frame.width, src_h: frame.height, dst_w: w, dst_h: h };
        let s = choose|s: &[u8]|
            s@ == frame.data@ && #[trigger] pixel_math::sampled_rgb(math, s, size, bytes);
        assert(bytes_sampled(math, s, frame.width, frame.height, w, h, bytes));
    }
}

/// Whether the stage's `after` and the outcome `r` are what an engine's answer leads
/// to: a failure is counted and tolerated below the threshold, and leaves the mask; a
/// success ends the count, and gives every pixel of the mask its confidence.
pub open spec fn follows_answer<M: PixelMath>(
    math: &M,
    before: SegmentationState,
    after: SegmentationState,
    answer: Result<InferenceOutput, InferenceError>,
    r: SegmentationOutcome,
) -> bool {
    match answer {
        Err(source) => {
            &&& after.mask == before.mask
            &&& before.failures < u32::MAX ==> after.failures == before.failures + 1
            &&& before.failures == u32::MAX ==> after.failures == u32::MAX
            &&& after.failures < before.threshold ==> r is Fallback
            &&& after.failures >= before.threshold ==> (r matches SegmentationOutcome::Fatal(e) && (
            e matches EffectError::Inference { name, source: s } && name@ == "segmentation"@ && s
                == source))
        },
        Ok(output) => {
            &&& after.failures == 0
            &&& after.mask.len() == before.mask.len()
            &&& if tensor::decodable(
                before.model_config->0,
                output.data@.len(),
                before.mask.len(),
            ) {
                &&& r == SegmentationOutcome::Segmented {
                    width: before.model_w,
                    height: before.model_h,
                }
                &&& forall|i: int|
                    0 <= i < after.mask.len() ==> tensor::confidence_at(
                        math,
                        before.model_config->0,
                        output.data@,
                        before.mask.len(),
                        i,
                        #[trigger] after.mask[i],
                    )
            } else {
                after.mask == before.mask && r is Fatal
            }
        },
    }
}

/// Whether a stage that can run asks its engine about the frame, once, and goes by
/// the answer.
pub open spec fn went_by_engine<M: PixelMath>(
    math: &M,
    before: SegmentationState,
    after: SegmentationState,
    frame: VideoFrame,
    call: EngineCall,
    r: SegmentationOutcome,
) -> bool {
    &&& asks_about(math, before.model_config->0, before.model_w, before.model_h, frame, call)
    &&& after.engine is Some
    &&& (before.engine->0.engine.rules().infer)(
        before.engine->0.engine.state(),
        call,
        after.engine->0.engine.state(),
    )
    &&& after.engine->0.engine.rules() == before.engine->0.engine.rules()
    &&& follows_answer(math, before, after, call.r, r)
}

/// A frame that fits is shown to the engine whole, at its own width and height, and
/// the stage goes by the answer; the model, its configuration and the sizes stay.
pub proof fn law_engine_sees_the_frame<M: PixelMath>(
    math: &M,
    before: SegmentationState,
    after: SegmentationState,
    frame: VideoFrame,
    context: FrameContext,
    context_after: FrameContext,
    r: SegmentationOutcome,
)
    requires
        segmentation::segmented(math, before, after, frame, context, context_after, r),
        before.model_config is Some,
        before.engine is Some,
        frame.format == PixelFormat::Rgb,
        frame.width == before.frame_w,
        frame.height == before.frame_h,
    ensures
        exists|call: EngineCall| #[trigger]
            went_by_engine(math, before, after, frame, call, r),
        after.model_config == before.model_config,
        after.model_w == before.model_w,
        after.model_h == before.model_h,
        after.frame_w == before.frame_w,
        after.frame_h == before.frame_h,
        after.threshold == before.threshold,
        same_frame(context, context_after),
{
    let reply = choose|reply: Result<InferenceOutput, InferenceError>| #[trigger]
        segmentation::may_reply(math, before, frame.data@, after.engine, reply)
            && segmentation::answered(
            math,
            before,
            after,
            context,
            context_after,
            reply,
            r,
        );
    let config = before.model_config->0;
    let input = choose|input: Seq<u32>| #[trigger]
        segmentation::asked(math, before, frame.data@, input) && before.engine->0.answers(
            input,
            segmentation::asked_shape(before),
            after.engine->0,
            reply,
        );
    let call = EngineCall { data: input, shape: segmentation::asked_shape(before), r: reply };
    let size = Resize {
        src_w: frame.width,
        src_h: frame.height,
        dst_w: before.model_w,
        dst_h: before.model_h,
    };
    let bytes = choose|bytes: Seq<u8>| #[trigger]
        pixel_math::resized_rgb(math, frame.data@, size, bytes) && tensor::packed(
            bytes,
            input,
            config.input_layout,
            before.model_h * before.model_w,
            config.input_scale,
            config.input_zero_point,
            math,
        );
    law_question_shows_the_frame(math, config, before.model_w, before.model_h, frame, bytes, call);
    if let Ok(output) = reply {
        tensor::law_decodable(config, output.data@.len(), before.mask.len(), output.shape@);
        if tensor::decodable(config, output.data@.len(), before.mask.len()) {
            assert forall|i: int| 0 <= i < after.mask.len() implies tensor::confidence_at(
                math,
                config,
                output.data@,
                before.mask.len(),
                i,
                #[trigger] after.mask[i],
            ) by {
                tensor::law_confidence(
                    math,
                    config,
                    output.data@,
                    before.mask.len(),
                    i,
                    after.mask[i],
                );
            }
        }
    }
    assert(went_by_engine(math, before, after, frame, call, r));
}

/// A frame of another format or size, and a stage without an engine, ask nothing:
/// the stage and the context stay, and the outcome is fatal.
pub proof fn law_other_frames_ask_nothing<M: PixelMath>(
    math: &M,
    before: SegmentationState,
    after: SegmentationState,
    frame: VideoFrame,
    context: FrameContext,
    context_after: FrameContext,
    r: SegmentationOutcome,
)
    requires
        segmentation::segmented(math, before, after, frame, context, context_after, r),
        frame.format != PixelFormat::Rgb || frame.width != before.frame_w || frame.height
            != before.frame_h || before.engine is None || before.model_config is None,
    ensures
        after == before,
        context_after == context,
        r is Fatal,
{
}

/// Segmenting through the method does what the laws above say.
pub proof fn law_segmentation_process<M: PixelMath, L: ModelLoader>(
    stage: &mut SegmentationBase<M, L>,
    frame: &VideoFrame,
    context: &mut FrameContext,
    r: SegmentationOutcome,
)
    requires
        call_ensures(SegmentationBase::<M, L>::process, (stage, frame, context), r),
        old(stage)@.model_config is Some,
        old(stage)@.engine is Some,
        frame.format == PixelFormat::Rgb,
        frame.width == old(stage)@.frame_w,
        frame.height == old(stage)@.frame_h,
    ensures
        exists|call: EngineCall| #[trigger]
            went_by_engine(old(stage).pixel_math(), old(stage)@, final(stage)@, *frame, call, r),
{
    law_engine_sees_the_frame(
        old(stage).pixel_math(),
        old(stage)@,
        final(stage)@,
        *frame,
        *old(context),
        *final(context),
        r,
    );
}

/// A stage that was prepared expects frames of the stream's size, asks at the size of
/// the model's input, starts without failures, and has a blank mask of that size.
pub proof fn law_segmentation_prepare<M: PixelMath, L: ModelLoader>(
    stage: &mut SegmentationBase<M, L>,
    context: &ProcessingContext,
    r: Result<(), EffectError>,
)
    requires
        call_ensures(SegmentationBase::<M, L>::prepare, (stage, context), r),
    ensures
        r is Err ==> final(stage)@ == old(stage)@,
        context.format != PixelFormat::Rgb ==> r is Err,
        r is Ok ==> {
            let after = final(stage)@;
            &&& after.model_config is Some
            &&& after.engine is Some
            &&& after.frame_w == context.width
            &&& after.frame_h == context.height
            &&& after.model_w == after.model_config->0.input_width
            &&& after.model_h == after.model_config->0.input_height
            &&& after.mask.len() == after.model_w * after.model_h
            &&& forall|i: int| 0 <= i < after.mask.len() ==> #[trigger] after.mask[i] == 0u32
            &&& after.failures == 0
            &&& after.threshold == old(stage)@.threshold
            &&& after.model == old(stage)@.model
        },
{
    if r is Ok {
        let after = final(stage)@;
        assert(0 <= after.model_w * after.model_h) by (nonlinear_arith)
            requires
                after.model_w >= 0,
                after.model_h >= 0,
        ;
    }
}

// ---------------------------------------------------------------------------
// Frames
// ---------------------------------------------------------------------------

/// Whether every value of `full` is sampled from a mask `src` of `src_w` by `src_h`
/// values for a mask of `w` by `h` values.
pub open spec fn values_sampled<M: PixelMath>(
    math: &M,
    src: &[u32],
    src_w: u32,
    src_h: u32,
    w: u32,
    h: u32,
    full: Seq<u32>,
) -> bool {
    forall|i: usize|
        i < full.len() ==> call_ensures(
            M::sample_mask,
            (math, src, (Resize { src_w, src_h, dst_w: w, dst_h: h }), i),
            #[trigger] full[i as int],
        )
}

/// Whether `full` is a mask of `w` by `h` values, sampled from the whole of `mask`,
/// which has `src_w` by `src_h` values.
pub open spec fn mask_sampled<M: PixelMath>(
    math: &M,
    mask: Seq<u32>,
    src_w: u32,
    src_h: u32,
    w: u32,
    h: u32,
    full: Seq<u32>,
) -> bool {
    &&& full.len() == w * h
    &&& exists|s: &[u32]|
        s@ == mask && #[trigger] values_sampled(math, s, src_w, src_h, w, h, full)
}

/// Whether channel `c` of pixel `p` of `out` is that of `fg` over that of `bg`, by the
/// confidence of the pixel.
pub open spec fn blended_at<M: PixelMath>(
    math: &M,
    fg: Seq<u8>,
    bg: Seq<u8>,
    full: Seq<u32>,
    out: Seq<u8>,
    p: int,
    c: int,
) -> bool {
    call_ensures(M::blend, (math, fg[3 * p + c], bg[3 * p + c], full[p]), out[3 * p + c])
}

/// Whether `out` is `fg` over `bg`, pixel by pixel, by the confidences `full`.
pub open spec fn laid_over<M: PixelMath>(
    math: &M,
    fg: Seq<u8>,
    bg: Seq<u8>,
    full: Seq<u32>,
    out: Seq<u8>,
) -> bool {
    &&& out.len() == fg.len()
    &&& forall|p: int, c: int|
        0 <= p && 0 <= c < 3 && 3 * p + c < out.len() ==> #[trigger] blended_at(
            math,
            fg,
            bg,
            full,
            out,
            p,
            c,
        )
}

/// A mask that was resized is sampled value by value.
pub proof fn law_mask_resized<M: PixelMath>(
    math: &M,
    src: Seq<u32>,
    size: Resize,
    out: Seq<u32>,
)
    requires
        pixel_math::resized_mask(math, src, size, out),
    ensures
        mask_sampled(math, src, size.src_w, size.src_h, size.dst_w, size.dst_h, out),
{
    let s = choose|s: &[u32]| s@ == src && #[trigger] pixel_math::sampled_mask(math, s, size, out);
    assert(values_sampled(math, s, size.src_w, size.src_h, size.dst_w, size.dst_h, out));
}

/// A composed plane is the foreground over the background, pixel by pixel.
pub proof fn law_composed<M: PixelMath>(
    math: &M,
    fg: Seq<u8>,
    bg: Seq<u8>,
    full: Seq<u32>,
    out: Seq<u8>,
)
    requires
        pixel_math::composed(math, fg, bg, full, out),
    ensures
        laid_over(math, fg, bg, full, out),
{
    assert forall|p: int, c: int|
        0 <= p && 0 <= c < 3 && 3 * p + c < out.len() implies #[trigger] blended_at(
        math,
        fg,
        bg,
        full,
        out,
        p,
        c,
    ) by {
        let i = 3 * p + c;
        assert(i / 3 == p);
        assert(call_ensures(M::blend, (math, fg[i], bg[i], full[i / 3]), out[i]));
    }
}

/// Laying one plane over another through the function does the same.
pub proof fn law_alpha_composite<M: PixelMath>(
    math: &M,
    plane: &mut [u8],
    background: &[u8],
    mask: &[u32],
)
    requires
        call_ensures(
            pixel_math::alpha_composite_rgb_in_place::<M>,
            (math, plane, background, mask),
            (),
        ),
    ensures
        laid_over(math, old(plane)@, background@, mask@, final(plane)@),
{
    law_composed(math, old(plane)@, background@, mask@, final(plane)@);
}

/// What a frame goes through between the segmentation and its result.
pub ghost struct FrameStages {
    /// The stage as the segmentation left it.
    pub stage: SegmentationState,
    /// The mask before and after each mask effect.
    pub masks: Seq<Seq<u32>>,
    /// The mask at the frame's size.
    pub full: Seq<u32>,
    /// The background before and after each background effect.
    pub backs: Seq<Seq<u8>>,
    /// The foreground before and after each foreground effect.
    pub fronts: Seq<Seq<u8>>,
    /// The foreground over the background.
    pub out: Seq<u8>,
    /// The frame before and after each post effect.
    pub posts: Seq<Seq<u8>>,
    /// The contexts along the mask chain.
    pub mask_contexts: Seq<FrameContext>,
    /// The contexts along the background chain.
    pub back_contexts: Seq<FrameContext>,
    /// The contexts along the foreground chain.
    pub front_contexts: Seq<FrameContext>,
    /// The contexts along the post chain.
    pub post_contexts: Seq<FrameContext>,
}

/// Whether a frame goes through the stages `g`: the decoded mask through the mask
/// chain, at the size of the model's input; the result to the frame's own width and
/// height; two copies of the frame through the background and the foreground chain;
/// the foreground over the background by the mask; that through the post chain.
pub open spec fn in_stages<M: PixelMath, L: ModelLoader>(
    before: &CompositeEffect<M, L>,
    then: &CompositeEffect<M, L>,
    frame: VideoFrame,
    after: VideoFrame,
    g: FrameStages,
) -> bool {
    let masked = before.masks().len() as int;
    let backed = before.backs().len() as int;
    let fronted = before.fronts().len() as int;
    let posted = before.posts().len() as int;
    &&& g.masks[0] == g.stage.mask
    &&& mask_trace(
        before.masks(),
        then.masks(),
        g.stage.model_w,
        g.stage.model_h,
        g.masks,
        g.mask_contexts,
        masked,
    )
    &&& then.stage()@.mask == g.masks[masked]
    &&& mask_sampled(
        before.math(),
        g.masks[masked],
        g.stage.model_w,
        g.stage.model_h,
        frame.width,
        frame.height,
        g.full,
    )
    &&& g.backs[0] == frame.data@
    &&& plane_trace(
        before.backs(),
        then.backs(),
        frame.width,
        frame.height,
        g.backs,
        g.back_contexts,
        backed,
    )
    &&& g.fronts[0] == frame.data@
    &&& plane_trace(
        before.fronts(),
        then.fronts(),
        frame.width,
        frame.height,
        g.fronts,
        g.front_contexts,
        fronted,
    )
    &&& laid_over(before.math(), g.fronts[fronted], g.backs[backed], g.full, g.out)
    &&& g.posts[0] == g.out
    &&& post_trace(
        before.posts(),
        then.posts(),
        frame.width,
        frame.height,
        g.full,
        g.posts,
        g.post_contexts,
        posted,
    )
    &&& g.posts[posted] == after.data@
    &&& after.width == frame.width
    &&& after.height == frame.height
    &&& after.format == frame.format
    &&& after.stride == frame.stride
    &&& after.meta == frame.meta
    &&& frame.data@.len() == 3 * (frame.width * frame.height)
}

/// A frame that is processed is either passed through, untouched and marked, because
/// the engine failed for a while, with no effect touched; or it goes through the
/// stages, from the mask that the segmentation of this very frame gave.
pub proof fn law_frame_in_stages<M: PixelMath, L: ModelLoader>(
    before: &CompositeEffect<M, L>,
    then: &CompositeEffect<M, L>,
    frame: VideoFrame,
    context: FrameContext,
    after: VideoFrame,
    context_after: FrameContext,
)
    requires
        before.frame_processed(then, frame, context, after, context_after, Ok(())),
    ensures
        frame.format == PixelFormat::Rgb,
        exists|stage: SegmentationState, c: FrameContext, outcome: SegmentationOutcome|
            {
                &&& #[trigger] segmentation::segmented(
                    before.math(),
                    before.stage()@,
                    stage,
                    frame,
                    context,
                    c,
                    outcome,
                )
                &&& match outcome {
                    SegmentationOutcome::Segmented { .. } => exists|g: FrameStages| #[trigger]
                        in_stages(before, then, frame, after, g) && g.stage == stage,
                    SegmentationOutcome::Fallback => {
                        &&& after == frame
                        &&& context_after.fallback_active
                        &&& then.masks() == before.masks()
                        &&& then.backs() == before.backs()
                        &&& then.fronts() == before.fronts()
                        &&& then.posts() == before.posts()
                    },
                    SegmentationOutcome::Fatal(_) => false,
                }
            },
{
    let (stage, c, e, outcome) = choose|
        stage: SegmentationState,
        c: FrameContext,
        e: FrameContext,
        outcome: SegmentationOutcome,
    |
        {
            &&& #[trigger] segmentation::segmented(
                before.math(),
                before.stage()@,
                stage,
                frame,
                context,
                c,
                outcome,
            )
            &&& #[trigger] slots::staged(c, e, slots::COMPOSITE@, "seg"@)
            &&& before.finished(then, outcome, stage, frame, e, after, context_after, Ok(()))
        };
    if outcome is Segmented {
        let width = outcome->Segmented_width;
        let height = outcome->Segmented_height;
        assert(width == stage.model_w && height == stage.model_h);
        let g = lemma_stages(
            before,
            then,
            stage,
            frame,
            e,
            after,
            context_after,
        );
        assert(in_stages(before, then, frame, after, g) && g.stage == stage);
    }
}

proof fn lemma_stages<M: PixelMath, L: ModelLoader>(
    before: &CompositeEffect<M, L>,
    then: &CompositeEffect<M, L>,
    stage: SegmentationState,
    frame: VideoFrame,
    context: FrameContext,
    after: VideoFrame,
    context_after: FrameContext,
) -> (g: FrameStages)
    requires
        before.masked(
            then,
            stage,
            frame,
            stage.model_w,
            stage.model_h,
            context,
            after,
            context_after,
            Ok(()),
        ),
        before.width() == frame.width,
        before.height() == frame.height,
    ensures
        in_stages(before, then, frame, after, g),
        g.stage == stage,
{
    let done = Ok::<(), EffectError>(());
    let w = before.width();
    let h = before.height();
    let (m, c, q) = choose|m: Seq<u32>, c: FrameContext, q: Result<(), EffectError>|
        {
            &&& #[trigger] slots::mask_timed(
                before.masks(),
                then.masks(),
                stage.model_w,
                stage.model_h,
                stage.mask,
                context,
                m,
                c,
                q,
            )
            &&& then.stage()@ == (SegmentationState { mask: m, ..stage })
            &&& if q is Err {
                done == q && context_after == c && after == frame && then.backs()
                    == before.backs() && then.fronts() == before.fronts() && then.posts()
                    == before.posts()
            } else {
                effect::frame_with(frame, after, after.data@) && before.resized(
                    then,
                    frame,
                    stage.model_w,
                    stage.model_h,
                    m,
                    c,
                    after,
                    context_after,
                    done,
                )
            }
        };
    law_mask_chain_in_order(
        before.masks(),
        then.masks(),
        stage.model_w,
        stage.model_h,
        stage.mask,
        context,
        m,
        c,
        q,
    );
    let (masks, mask_contexts) = choose|planes: Seq<Seq<u32>>, contexts: Seq<FrameContext>|
        {
            &&& #[trigger] mask_trace(
                before.masks(),
                then.masks(),
                stage.model_w,
                stage.model_h,
                planes,
                contexts,
                before.masks().len() as int,
            )
            &&& planes[0] == stage.mask
            &&& contexts[0] == context
            &&& planes[before.masks().len() as int] == m
            &&& same_frame(contexts[before.masks().len() as int], c)
        };
    let size = Resize { src_w: stage.model_w, src_h: stage.model_h, dst_w: w, dst_h: h };
    let expected = w * h * 3;
    let (full, e) = choose|full: Seq<u32>, e: FrameContext|
        {
            &&& #[trigger] pixel_math::resized_mask(before.math(), m, size, full)
            &&& #[trigger] slots::staged(c, e, slots::COMPOSITE@, "mask_resize"@)
            &&& frame.data@.len() == expected
            &&& before.backed(then, frame, full, e, after, context_after, done)
        };
    law_mask_resized(before.math(), m, size, full);
    assert(w * h * 3 == 3 * (w * h)) by (nonlinear_arith);
    let (e2, bg, c2, q2) = choose|
        e2: FrameContext,
        bg: Seq<u8>,
        c2: FrameContext,
        q2: Result<(), EffectError>,
    |
        {
            &&& #[trigger] slots::staged(e, e2, slots::COMPOSITE@, "bg_copy"@)
            &&& #[trigger] slots::plane_timed(
                before.backs(),
                then.backs(),
                "background"@,
                "bg_chain"@,
                w,
                h,
                frame.data@,
                e2,
                bg,
                c2,
                q2,
            )
            &&& if q2 is Err {
                done == q2 && context_after == c2 && after.data@ == frame.data@ && then.fronts()
                    == before.fronts() && then.posts() == before.posts()
            } else {
                before.fronted(then, frame, bg, full, c2, after, context_after, done)
            }
        };
    law_plane_chain_in_order(
        before.backs(),
        then.backs(),
        "background"@,
        "bg_chain"@,
        w,
        h,
        frame.data@,
        e2,
        bg,
        c2,
        q2,
    );
    let (backs, back_contexts) = choose|planes: Seq<Seq<u8>>, contexts: Seq<FrameContext>|
        {
            &&& #[trigger] plane_trace(
                before.backs(),
                then.backs(),
                w,
                h,
                planes,
                contexts,
                before.backs().len() as int,
            )
            &&& planes[0] == frame.data@
            &&& contexts[0] == e2
            &&& planes[before.backs().len() as int] == bg
            &&& same_frame(contexts[before.backs().len() as int], c2)
        };
    let (fg, c3, q3) = choose|fg: Seq<u8>, c3: FrameContext, q3: Result<(), EffectError>|
        {
            &&& #[trigger] slots::plane_timed(
                before.fronts(),
                then.fronts(),
                "foreground"@,
                "fg_chain"@,
                w,
                h,
                frame.data@,
                c2,
                fg,
                c3,
                q3,
            )
            &&& if q3 is Err {
                done == q3 && context_after == c3 && after.data@ == fg && then.posts()
                    == before.posts()
            } else {
                before.posted(then, fg, bg, full, c3, after, context_after, done)
            }
        };
    law_plane_chain_in_order(
        before.fronts(),
        then.fronts(),
        "foreground"@,
        "fg_chain"@,
        w,
        h,
        frame.data@,
        c2,
        fg,
        c3,
        q3,
    );
    let (fronts, front_contexts) = choose|planes: Seq<Seq<u8>>, contexts: Seq<FrameContext>|
        {
            &&& #[trigger] plane_trace(
                before.fronts(),
                then.fronts(),
                w,
                h,
                planes,
                contexts,
                before.fronts().len() as int,
            )
            &&& planes[0] == frame.data@
            &&& contexts[0] == c2
            &&& planes[before.fronts().len() as int] == fg
            &&& same_frame(contexts[before.fronts().len() as int], c3)
        };
    let (out, e4) = choose|out: Seq<u8>, e4: FrameContext|
        {
            &&& #[trigger] pixel_math::composed(before.math(), fg, bg, full, out)
            &&& #[trigger] slots::staged(c3, e4, slots::COMPOSITE@, "compose"@)
            &&& slots::post_timed(
                before.posts(),
                then.posts(),
                w,
                h,
                out,
                full,
                e4,
                after.data@,
                context_after,
                done,
            )
        };
    law_composed(before.math(), fg, bg, full, out);
    law_post_chain_in_order(
        before.posts(),
        then.posts(),
        w,
        h,
        out,
        full,
        e4,
        after.data@,
        context_after,
        done,
    );
    let (posts, post_contexts) = choose|planes: Seq<Seq<u8>>, contexts: Seq<FrameContext>|
        {
            &&& #[trigger] post_trace(
                before.posts(),
                then.posts(),
                w,
                h,
                full,
                planes,
                contexts,
                before.posts().len() as int,
            )
            &&& planes[0] == out
            &&& contexts[0] == e4
            &&& planes[before.posts().len() as int] == after.data@
            &&& same_frame(contexts[before.posts().len() as int], context_after)
        };
    FrameStages {
        stage,
        masks,
        full,
        backs,
        fronts,
        out,
        posts,
        mask_contexts,
        back_contexts,
        front_contexts,
        post_contexts,
    }
}

/// Processing a frame through the method does what the law above says, and leaves the
/// rules, the flags and the order of all effects.
pub proof fn law_composite_process<M: PixelMath, L: ModelLoader>(
    effect: &mut CompositeEffect<M, L>,
    frame: &mut VideoFrame,
    context: &mut FrameContext,
    r: Result<(), EffectError>,
)
    requires
        call_ensures(
            <CompositeEffect<M, L> as VideoEffect>::process,
            (effect, frame, context),
            r,
        ),
    ensures
        old(effect).frame_processed(
            final(effect),
            *old(frame),
            *old(context),
            *final(frame),
            *final(context),
            r,
        ),
        final(frame).width == old(frame).width,
        final(frame).height == old(frame).height,
        final(frame).format == old(frame).format,
        final(frame).stride == old(frame).stride,
        final(frame).meta == old(frame).meta,
        old(frame).format != PixelFormat::Rgb || old(frame).width != old(effect).width() || old(frame).height != old(effect).height() ==> r is Err && *final(frame) == *old(frame) && final(effect)@ == old(effect)@,
{
}

/// Whether a configuration is one that the loader has for a model: the one at the given
/// path, or, where none is given, the one next to the model, or the stand-in of one pixel
/// where there is none.
pub open spec fn config_from<L: ModelLoader>(
    loader: &L,
    model: Seq<char>,
    given: Option<Seq<char>>,
    config: ModelConfig,
) -> bool {
    &&& given matches Some(path) ==> exists|p: &str|
        p@ == path && #[trigger] call_ensures(
            L::read_config,
            (loader, p),
            Ok::<ModelConfig, InferenceError>(config),
        )
    &&& given is None ==> exists|m: &str, found: Option<Result<ModelConfig, InferenceError>>|
        m@ == model && #[trigger] call_ensures(L::find_config, (loader, m), found) && (found is Some
            ==> found == Some(Ok::<ModelConfig, InferenceError>(config))) && (found is None ==> (
        config.input_width == 1 && config.input_height == 1))
}

/// Whether an engine is one that the loader builds for a model and its configuration.
pub open spec fn engine_from<L: ModelLoader>(
    loader: &L,
    model: Seq<char>,
    config: ModelConfig,
    counters: Option<Counters>,
    engine: LoadedEngine,
) -> bool {
    exists|m: &str|
        m@ == model && #[trigger] call_ensures(
            L::build_engine,
            (loader, m, config, counters),
            Ok::<LoadedEngine, InferenceError>(engine),
        )
}

/// What is loaded for a model comes from the loader.
pub proof fn lemma_config_from<L: ModelLoader>(
    loader: &L,
    model: Seq<char>,
    given: Option<Seq<char>>,
    config: ModelConfig,
)
    requires
        traits::may_load(loader, model, given, Ok(config)),
    ensures
        config_from(loader, model, given, config),
{
    let r = Ok::<ModelConfig, InferenceError>(config);
    let found = choose|found: Option<Result<ModelConfig, InferenceError>>| #[trigger]
        traits::may_find(loader, model, given, found) && crate::ml::loader::supplied(found, r);
    match given {
        Some(path) => {
            let p = choose|p: &str|
                p@ == path && #[trigger] call_ensures(L::read_config, (loader, p), found->0);
            assert(found->0 == r);
        },
        None => {
            let m = choose|m: &str|
                m@ == model && #[trigger] call_ensures(L::find_config, (loader, m), found);
        },
    }
}

/// A prepared stage has the configuration and the engine that the loader has for its own
/// model; the engine publishes to the counters of the stream, and has answered one
/// question of zeros at the size of the model's input before the first frame.
pub proof fn law_segmentation_engine<M: PixelMath, L: ModelLoader>(
    stage: &mut SegmentationBase<M, L>,
    context: &ProcessingContext,
    r: Result<(), EffectError>,
)
    requires
        call_ensures(SegmentationBase::<M, L>::prepare, (stage, context), r),
        r is Ok,
    ensures
        final(stage)@.model_config is Some,
        config_from(
            old(stage).source(),
            old(stage)@.model,
            old(stage)@.sidecar,
            final(stage)@.model_config->0,
        ),
        exists|engine: LoadedEngine, asked: EngineCall|
            {
                &&& #[trigger] engine_from(
                    old(stage).source(),
                    old(stage)@.model,
                    final(stage)@.model_config->0,
                    context.counters,
                    engine,
                )
                &&& #[trigger] (engine.engine.rules().infer)(
                    engine.engine.state(),
                    asked,
                    final(stage)@.engine->0.engine.state(),
                )
                &&& final(stage)@.engine->0.engine.rules() == engine.engine.rules()
                &&& asked.data.len() == 3 * final(stage)@.model_w * final(stage)@.model_h
                &&& forall|i: int| 0 <= i < asked.data.len() ==> #[trigger] asked.data[i] == 0u32
            },
{
    let before = old(stage)@;
    let after = final(stage)@;
    let source = old(stage).source();
    let loaded = choose|loaded: Result<ModelConfig, InferenceError>| #[trigger]
        traits::may_load(source, before.model, before.sidecar, loaded) && segmentation::loaded_with(
            source,
            before,
            after,
            *context,
            loaded,
            r,
        );
    let config = loaded->Ok_0;
    lemma_config_from(source, before.model, before.sidecar, config);
    let built = choose|built: Result<LoadedEngine, InferenceError>| #[trigger]
        traits::may_build(source, before.model, config, context.counters, built)
            && segmentation::built_with(before, after, config, *context, built, r);
    let engine = built->Ok_0;
    assert(engine_from(source, before.model, config, context.counters, engine));
    let n = (config.input_width * config.input_height * 3) as nat;
    let shape = tensor::input_shape_spec(
        config.input_layout,
        config.input_height as usize,
        config.input_width as usize,
    );
    let reply = choose|reply: Result<InferenceOutput, InferenceError>| #[trigger]
        engine.answers(segmentation::zeros(n), shape, after.engine->0, reply);
    let asked = EngineCall { data: segmentation::zeros(n), shape, r: reply };
    assert((engine.engine.rules().infer)(
        engine.engine.state(),
        asked,
        after.engine->0.engine.state(),
    ));
    assert(config.input_width * config.input_height * 3 == 3 * config.input_width
        * config.input_height && config.input_width * config.input_height >= 0) by (nonlinear_arith)
        requires
            config.input_width >= 0,
            config.input_height >= 0,
    ;
}

/// Only an answer is timed: it adds one sample to the timings of the engine, and a
/// failure adds none; the other figures of the frame stay.
pub proof fn law_segmentation_timed<M: PixelMath, L: ModelLoader>(
    stage: &mut SegmentationBase<M, L>,
    frame: &VideoFrame,
    context: &mut FrameContext,
    r: SegmentationOutcome,
)
    requires
        call_ensures(SegmentationBase::<M, L>::process, (stage, frame, context), r),
    ensures
        same_frame(*old(context), *final(context)),
        final(context).telemetry.stages() == old(context).telemetry.stages(),
        r is Fallback ==> final(context).telemetry.samples() == old(context).telemetry.samples(),
        r is Segmented ==> (old(context).telemetry.samples() matches Some(s) ==> (
        final(context).telemetry.samples() matches Some(t) && t.len() > 0 && (s.len()
            < old(context).telemetry.bound() ==> t.drop_last() == s))),
        old(context).telemetry.samples() is None ==> final(context).telemetry.samples() is None,
{
    if r is Segmented {
        if let Some(s) = old(context).telemetry.samples() {
            let t = final(context).telemetry.samples()->0;
            if s.len() < old(context).telemetry.bound() {
                assert(t.drop_last() =~= s);
            }
        }
    }
}

} // verus!
